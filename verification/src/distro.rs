use crate::text::{
    chars_of, copy_range, is_space, lemma_trim_unchanged, lemma_without_absent,
    lemma_without_concat, remove_char, same_chars, split, split_on, starts_with, string_of, trim,
    trimmed, uppercase, uppercased, views, without,
};
use vstd::prelude::*;

verus! {

/// What the identification file says of the host: whether its identity is an accepted
/// one, and the identity that was read last (empty where the file names none).
pub struct DistroCheck {
    pub valid: bool,
    pub found: String,
}

/// The key of the identity field, with its `=`.
pub open spec fn id_key() -> Seq<char> {
    "ID="@
}

/// The key of the display-name field, with its `=`.
pub open spec fn pretty_name_key() -> Seq<char> {
    "PRETTY_NAME="@
}

/// The lines of the identification file: the text without white space at its ends, cut
/// at every line feed.
pub open spec fn lines_of(text: Seq<char>) -> Seq<Seq<char>> {
    split_on(trim(text), '\n')
}

/// A line as the scan reads it: without white space at its ends, and without any
/// double quote. Blanks inside the line stay.
pub open spec fn normalized(line: Seq<char>) -> Seq<char> {
    without(trim(line), '"')
}

/// Whether the line is a field with the given key.
pub open spec fn has_key(line: Seq<char>, key: Seq<char>) -> bool {
    key.is_prefix_of(normalized(line))
}

/// The value of a field line: what follows the key in the normalized line, as it
/// stands.
pub open spec fn value_of(line: Seq<char>, key: Seq<char>) -> Seq<char> {
    normalized(line).skip(key.len() as int)
}

/// Whether `id` is one of the two identities that are accepted.
pub open spec fn accepted(id: Seq<char>) -> bool {
    id == "arch"@ || id == "XeroLinux"@
}

/// Whether some identity line among `lines` names an accepted identity.
pub open spec fn some_accepted(lines: Seq<Seq<char>>) -> bool {
    exists|i: int|
        0 <= i < lines.len() && has_key(#[trigger] lines[i], id_key()) && accepted(
            value_of(lines[i], id_key()),
        )
}

/// The value of the last line among `lines` with the given key; empty where there is
/// none.
pub open spec fn last_value(lines: Seq<Seq<char>>, key: Seq<char>) -> Seq<char>
    decreases lines.len(),
{
    if lines.len() == 0 {
        Seq::empty()
    } else if has_key(lines.last(), key) {
        value_of(lines.last(), key)
    } else {
        last_value(lines.drop_last(), key)
    }
}

/// The value of the first line among `lines` with the given key.
pub open spec fn first_value(lines: Seq<Seq<char>>, key: Seq<char>) -> Option<Seq<char>>
    decreases lines.len(),
{
    if lines.len() == 0 {
        None
    } else if has_key(lines[0], key) {
        Some(value_of(lines[0], key))
    } else {
        first_value(lines.drop_first(), key)
    }
}

/// Whether a host with this identification file is accepted.
pub open spec fn is_valid_distro(text: Seq<char>) -> bool {
    some_accepted(lines_of(text))
}

/// The name shown for the host: the display name where the file has one, else the
/// identity in upper case, else `Unknown`. A file that could not be read is `None`.
pub open spec fn distro_name(text: Option<Seq<char>>) -> Seq<char> {
    match text {
        None => "Unknown"@,
        Some(t) => match first_value(lines_of(t), pretty_name_key()) {
            Some(name) => name,
            None => match first_value(lines_of(t), id_key()) {
                Some(id) => uppercased(id),
                None => "Unknown"@,
            },
        },
    }
}

/// The name to show, given the display name and the upper-cased identity where the
/// file has them.
pub open spec fn shown_name(pretty: Option<Seq<char>>, shouted_id: Option<Seq<char>>) -> Seq<
    char,
> {
    match pretty {
        Some(name) => name,
        None => match shouted_id {
            Some(id) => id,
            None => "Unknown"@,
        },
    }
}

/// Where the identification file is.
pub open spec fn identification_path() -> Seq<char> {
    "/etc/os-release"@
}

/// The script that is run on a host that is not accepted.
pub open spec fn fallback_name() -> Seq<char> {
    "invalid_distro"@
}

/// What is reported of a host that is not accepted, with the identity that was read.
pub open spec fn invalid_distro_text(found: Seq<char>) -> Seq<char> {
    "Not a valid distro! Please run on either vanilla Arch, or XeroLinux! (Found: "@ + found
        + ")"@
}

/// Whether no line among `lines` has the given key.
pub open spec fn key_absent(lines: Seq<Seq<char>>, key: Seq<char>) -> bool {
    forall|i: int| 0 <= i < lines.len() ==> !has_key(#[trigger] lines[i], key)
}

/// The first value of a key is that of the line at the least position among those
/// that have the key.
pub proof fn lemma_first_value_at(lines: Seq<Seq<char>>, key: Seq<char>, k: int)
    requires
        0 <= k < lines.len(),
        has_key(lines[k], key),
        key_absent(lines.take(k), key),
    ensures
        first_value(lines, key) == Some(value_of(lines[k], key)),
    decreases k,
{
    if k > 0 {
        let rest = lines.drop_first();
        assert(lines.take(k)[0] == lines[0]);
        assert forall|i: int| 0 <= i < k - 1 implies !has_key(
            #[trigger] rest.take(k - 1)[i],
            key,
        ) by {
            assert(rest.take(k - 1)[i] == lines.take(k)[i + 1]);
        }
        lemma_first_value_at(rest, key, k - 1);
    }
}

/// A key that no line has has no first value.
pub proof fn lemma_first_value_absent(lines: Seq<Seq<char>>, key: Seq<char>)
    requires
        key_absent(lines, key),
    ensures
        first_value(lines, key) is None,
    decreases lines.len(),
{
    if lines.len() > 0 {
        let rest = lines.drop_first();
        assert(!has_key(lines[0], key));
        assert forall|i: int| 0 <= i < rest.len() implies !has_key(#[trigger] rest[i], key) by {
            assert(rest[i] == lines[i + 1]);
        }
        lemma_first_value_absent(rest, key);
    }
}

/// A file without an identity line is not accepted.
pub proof fn lemma_no_identity_is_invalid(text: Seq<char>)
    requires
        key_absent(lines_of(text), id_key()),
    ensures
        !is_valid_distro(text),
{
}

/// A file with an identity line that names an accepted identity is accepted.
pub proof fn lemma_accepted_identity_is_valid(text: Seq<char>, k: int)
    requires
        0 <= k < lines_of(text).len(),
        has_key(lines_of(text)[k], id_key()),
        accepted(value_of(lines_of(text)[k], id_key())),
    ensures
        is_valid_distro(text),
{
}

/// A file whose identity lines all name other identities is not accepted.
pub proof fn lemma_other_identities_are_invalid(text: Seq<char>)
    requires
        forall|i: int|
            0 <= i < lines_of(text).len() && has_key(#[trigger] lines_of(text)[i], id_key())
                ==> !accepted(value_of(lines_of(text)[i], id_key())),
    ensures
        !is_valid_distro(text),
{
}

/// Where the file has a display name, the first one is shown as it stands: only the
/// white space round the line and the double quotes are gone.
pub proof fn lemma_display_name_shown(text: Seq<char>, k: int)
    requires
        0 <= k < lines_of(text).len(),
        has_key(lines_of(text)[k], pretty_name_key()),
        key_absent(lines_of(text).take(k), pretty_name_key()),
    ensures
        distro_name(Some(text)) == value_of(lines_of(text)[k], pretty_name_key()),
{
    lemma_first_value_at(lines_of(text), pretty_name_key(), k);
}

/// Where the file has no display name but an identity, the first identity is shown
/// in upper case.
pub proof fn lemma_identity_shown(text: Seq<char>, k: int)
    requires
        key_absent(lines_of(text), pretty_name_key()),
        0 <= k < lines_of(text).len(),
        has_key(lines_of(text)[k], id_key()),
        key_absent(lines_of(text).take(k), id_key()),
    ensures
        distro_name(Some(text)) == uppercased(value_of(lines_of(text)[k], id_key())),
{
    lemma_first_value_absent(lines_of(text), pretty_name_key());
    lemma_first_value_at(lines_of(text), id_key(), k);
}

/// Where the file has neither a display name nor an identity, or cannot be read,
/// `Unknown` is shown.
pub proof fn lemma_unknown_shown(text: Option<Seq<char>>)
    requires
        text matches Some(t) ==> key_absent(lines_of(t), pretty_name_key()) && key_absent(
            lines_of(t),
            id_key(),
        ),
    ensures
        distro_name(text) == "Unknown"@,
{
    if let Some(t) = text {
        lemma_first_value_absent(lines_of(t), pretty_name_key());
        lemma_first_value_absent(lines_of(t), id_key());
    }
}

/// The value of a field line is the normalized line without the key in front.
pub proof fn lemma_value_follows_key(line: Seq<char>, key: Seq<char>)
    requires
        has_key(line, key),
    ensures
        key + value_of(line, key) == normalized(line),
{
    assert(key + value_of(line, key) =~= normalized(line));
}

/// A value written after its key is read as it was written, blanks and all, where it
/// holds no double quote and does not end in white space.
pub proof fn lemma_plain_value_is_verbatim(key: Seq<char>, value: Seq<char>)
    requires
        key.len() > 0,
        !is_space(key[0]),
        !is_space((key + value).last()),
        !key.contains('"'),
        !value.contains('"'),
    ensures
        has_key(key + value, key),
        value_of(key + value, key) == value,
{
    let line = key + value;
    assert(line[0] == key[0]);
    lemma_trim_unchanged(line);
    lemma_without_concat(key, value, '"');
    lemma_without_absent(key, '"');
    lemma_without_absent(value, '"');
    assert(line.subrange(0, key.len() as int) =~= key);
    assert(line.skip(key.len() as int) =~= value);
}

/// A value written in double quotes after its key is read as it stands between the
/// quotes, blanks and all.
pub proof fn lemma_quoted_value_is_verbatim(key: Seq<char>, value: Seq<char>)
    requires
        key.len() > 0,
        !is_space(key[0]),
        !key.contains('"'),
        !value.contains('"'),
    ensures
        has_key(key + seq!['"'] + value + seq!['"'], key),
        value_of(key + seq!['"'] + value + seq!['"'], key) == value,
{
    let quote = seq!['"'];
    let line = key + quote + value + quote;
    assert(line[0] == key[0]);
    assert(line.last() == '"');
    lemma_trim_unchanged(line);
    lemma_without_concat(key + quote + value, quote, '"');
    lemma_without_concat(key + quote, value, '"');
    lemma_without_concat(key, quote, '"');
    lemma_without_absent(key, '"');
    lemma_without_absent(value, '"');
    assert(quote.last() == '"');
    assert(quote.drop_last() =~= Seq::<char>::empty());
    assert(without(Seq::<char>::empty(), '"') =~= Seq::<char>::empty());
    assert(without(quote, '"') =~= Seq::<char>::empty());
    assert(without(line, '"') =~= key + value);
    assert((key + value).subrange(0, key.len() as int) =~= key);
    assert((key + value).skip(key.len() as int) =~= value);
}

/// The lines of `text`, as character vectors.
pub fn read_lines(text: &str) -> (r: Vec<Vec<char>>)
    ensures
        views(r@) == lines_of(text@),
{
    let chars = chars_of(text);
    let body = trimmed(&chars);
    split(&body, '\n')
}

/// Normalizes one line.
pub fn normalize(line: &Vec<char>) -> (r: Vec<char>)
    ensures
        r@ == normalized(line@),
{
    let t = trimmed(line);
    remove_char(&t, '"')
}

/// The value of a line with the given key, or `None` where the line is no such field.
pub fn field(line: &Vec<char>, key: &Vec<char>) -> (r: Option<Vec<char>>)
    ensures
        r is Some == has_key(line@, key@),
        r is Some ==> r->0@ == value_of(line@, key@),
{
    let entry = normalize(line);
    if starts_with(&entry, key) {
        assert(entry@.subrange(key@.len() as int, entry@.len() as int) =~= entry@.skip(
            key@.len() as int,
        ));
        Some(copy_range(&entry, key.len(), entry.len()))
    } else {
        None
    }
}

/// The value of the first line with the given key.
pub fn first_field(lines: &Vec<Vec<char>>, key: &Vec<char>) -> (r: Option<Vec<char>>)
    ensures
        r is Some == first_value(views(lines@), key@) is Some,
        r is Some ==> r->0@ == first_value(views(lines@), key@)->0,
{
    let ghost all = views(lines@);
    let mut i: usize = 0;
    assert(all.skip(0) =~= all);
    while i < lines.len()
        invariant
            i <= lines.len(),
            all == views(lines@),
            first_value(all.skip(i as int), key@) == first_value(all, key@),
        decreases lines.len() - i,
    {
        assert(all.skip(i as int)[0] == lines@[i as int]@);
        assert(all.skip(i as int).drop_first() =~= all.skip(i + 1));
        match field(&lines[i], key) {
            Some(v) => {
                return Some(v);
            },
            None => {},
        }
        i += 1;
    }
    assert(all.skip(i as int).len() == 0);
    None
}

/// Scans the identification file for identity lines.
pub fn validate_distro(os_release: &str) -> (r: DistroCheck)
    ensures
        r.valid == is_valid_distro(os_release@),
        r.found@ == last_value(lines_of(os_release@), id_key()),
{
    let lines = read_lines(os_release);
    let key = chars_of("ID=");
    let arch = chars_of("arch");
    let xero = chars_of("XeroLinux");
    let ghost all = views(lines@);
    let mut valid = false;
    let mut found: Vec<char> = Vec::new();
    let mut i: usize = 0;
    assert(all.take(0) =~= Seq::<Seq<char>>::empty());
    while i < lines.len()
        invariant
            i <= lines.len(),
            all == views(lines@),
            all == lines_of(os_release@),
            key@ == id_key(),
            arch@ == "arch"@,
            xero@ == "XeroLinux"@,
            valid == some_accepted(all.take(i as int)),
            found@ == last_value(all.take(i as int), id_key()),
        decreases lines.len() - i,
    {
        let ghost before = all.take(i as int);
        let ghost now = all.take(i + 1);
        proof {
            assert(now.drop_last() =~= before);
            assert(now.last() == lines@[i as int]@);
            assert(forall|k: int| 0 <= k < before.len() ==> before[k] == now[k]);
        }
        match field(&lines[i], &key) {
            Some(v) => {
                if same_chars(&v, &arch) || same_chars(&v, &xero) {
                    valid = true;
                    assert(has_key(now[i as int], id_key()));
                }
                found = v;
            },
            None => {},
        }
        proof {
            if some_accepted(now) {
                let k = choose|k: int|
                    0 <= k < now.len() && has_key(#[trigger] now[k], id_key()) && accepted(
                        value_of(now[k], id_key()),
                    );
                if k < i {
                    assert(has_key(before[k], id_key()));
                }
            }
            if some_accepted(before) {
                let k = choose|k: int|
                    0 <= k < before.len() && has_key(#[trigger] before[k], id_key()) && accepted(
                        value_of(before[k], id_key()),
                    );
                assert(has_key(now[k], id_key()));
            }
        }
        i += 1;
    }
    assert(all.take(i as int) =~= all);
    DistroCheck { valid, found: string_of(&found) }
}

/// Whether a host with this identification file is accepted.
pub fn validate(os_release: &str) -> (r: bool)
    ensures
        r == is_valid_distro(os_release@),
{
    validate_distro(os_release).valid
}

/// Picks the name to show from the display name and the upper-cased identity.
pub fn choose_name(pretty: Option<String>, shouted_id: Option<String>) -> (r: String)
    ensures
        r@ == shown_name(
            match pretty {
                Some(p) => Some(p@),
                None => None,
            },
            match shouted_id {
                Some(s) => Some(s@),
                None => None,
            },
        ),
{
    match pretty {
        Some(name) => name,
        None => match shouted_id {
            Some(id) => id,
            None => String::from_str("Unknown"),
        },
    }
}

/// The name shown for the host. `os_release` is the text of the identification file,
/// or `None` where it could not be read.
pub fn get_distro_name(os_release: Option<&str>) -> (r: String)
    ensures
        r@ == distro_name(
            match os_release {
                Some(t) => Some(t@),
                None => None,
            },
        ),
{
    match os_release {
        None => choose_name(None, None),
        Some(text) => {
            let lines = read_lines(text);
            let pretty_key = chars_of("PRETTY_NAME=");
            let key = chars_of("ID=");
            let pretty = match first_field(&lines, &pretty_key) {
                Some(v) => Some(string_of(&v)),
                None => None,
            };
            let shouted = if pretty.is_some() {
                None
            } else {
                match first_field(&lines, &key) {
                    Some(v) => {
                        let id = string_of(&v);
                        Some(uppercase(id.as_str()))
                    },
                    None => None,
                }
            };
            choose_name(pretty, shouted)
        },
    }
}

/// The path of the identification file.
pub fn identification_file() -> (r: String)
    ensures
        r@ == identification_path(),
{
    String::from_str("/etc/os-release")
}

/// The name of the script that is run on a host that is not accepted.
pub fn fallback_script() -> (r: String)
    ensures
        r@ == fallback_name(),
{
    String::from_str("invalid_distro")
}

/// What is reported of a host that is not accepted. Nothing is reported where the
/// fallback script ended well.
pub fn invalid_distro_report(check: &DistroCheck, fallback_succeeded: bool) -> (r: Option<String>)
    ensures
        r is None <==> fallback_succeeded,
        r matches Some(m) ==> m@ == invalid_distro_text(check.found@),
{
    if fallback_succeeded {
        None
    } else {
        let mut out = String::from_str(
            "Not a valid distro! Please run on either vanilla Arch, or XeroLinux! (Found: ",
        );
        out.append(check.found.as_str());
        out.append(")");
        Some(out)
    }
}

} // verus!
