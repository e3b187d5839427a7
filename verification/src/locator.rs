use crate::text::{chars_of, same_chars, split, split_on, string_of, trim, trimmed, views};
use vstd::prelude::*;

verus! {

/// The directories that a search path names: the value without white space at its
/// ends, cut at every colon. An empty piece is a directory too: the current one.
pub open spec fn search_dirs(search_path: Seq<char>) -> Seq<Seq<char>> {
    split_on(trim(search_path), ':')
}

/// Whether `name` is a path from the root.
pub open spec fn is_absolute(name: Seq<char>) -> bool {
    name.len() > 0 && name[0] == '/'
}

/// The path of `name` in directory `dir`. A name from the root stands for itself;
/// otherwise one slash separates the two, unless `dir` is empty or ends in one.
pub open spec fn probe_path(dir: Seq<char>, name: Seq<char>) -> Seq<char> {
    if is_absolute(name) {
        name
    } else if dir.len() > 0 && dir.last() != '/' {
        dir + seq!['/'] + name
    } else {
        dir + name
    }
}

/// The paths at which `name` is looked for in the directories of the search path, in
/// order. Without a search path there is none.
pub open spec fn probes(search_path: Option<Seq<char>>, name: Seq<char>) -> Seq<Seq<char>> {
    match search_path {
        Some(p) => Seq::new(search_dirs(p).len(), |i: int| probe_path(search_dirs(p)[i], name)),
        None => Seq::empty(),
    }
}

/// Whether `name` is found: a file stands at one of its probe paths, or `name` by
/// itself is a path at which anything stands. `files` holds the paths of files, `paths`
/// the paths of whatever exists.
pub open spec fn located(
    search_path: Option<Seq<char>>,
    name: Seq<char>,
    files: Set<Seq<char>>,
    paths: Set<Seq<char>>,
) -> bool {
    ||| exists|i: int|
        0 <= i < probes(search_path, name).len() && files.contains(
            #[trigger] probes(search_path, name)[i],
        )
    ||| paths.contains(name)
}

/// The paths that a list holds.
pub open spec fn listed(present: Seq<String>) -> Set<Seq<char>> {
    Set::new(|p: Seq<char>| exists|i: int| 0 <= i < present.len() && (#[trigger] present[i])@ == p)
}

/// The view of an optional text.
pub open spec fn text_of(s: Option<&str>) -> Option<Seq<char>> {
    match s {
        Some(t) => Some(t@),
        None => None,
    }
}

/// The views of a list of strings.
pub open spec fn texts(v: Seq<String>) -> Seq<Seq<char>> {
    Seq::new(v.len(), |i: int| v[i]@)
}

/// What the caller found on the machine. `files` lists the paths at which a file
/// stands; `paths` lists the paths at which anything stands, a directory too. Only
/// what is looked up needs to be listed.
pub struct Listing {
    pub files: Vec<String>,
    pub paths: Vec<String>,
}

/// A name with a file in a directory of the search path is found.
pub proof fn lemma_found_in_directory(
    search_path: Seq<char>,
    name: Seq<char>,
    files: Set<Seq<char>>,
    paths: Set<Seq<char>>,
    k: int,
)
    requires
        0 <= k < search_dirs(search_path).len(),
        files.contains(probe_path(search_dirs(search_path)[k], name)),
    ensures
        located(Some(search_path), name, files, paths),
{
    assert(probes(Some(search_path), name)[k] == probe_path(search_dirs(search_path)[k], name));
}

/// A name that exists as a path by itself is found, with or without a search path.
pub proof fn lemma_found_by_itself(
    search_path: Option<Seq<char>>,
    name: Seq<char>,
    files: Set<Seq<char>>,
    paths: Set<Seq<char>>,
)
    requires
        paths.contains(name),
    ensures
        located(search_path, name, files, paths),
{
}

/// A name with no file in any directory of the search path, and which does not exist
/// as a path by itself, is not found. What else stands at a probe path, a directory
/// for one, does not count.
pub proof fn lemma_absent_everywhere(
    search_path: Option<Seq<char>>,
    name: Seq<char>,
    files: Set<Seq<char>>,
    paths: Set<Seq<char>>,
)
    requires
        !paths.contains(name),
        search_path is Some ==> forall|k: int|
            0 <= k < search_dirs(search_path->0).len() ==> !files.contains(
                probe_path(#[trigger] search_dirs(search_path->0)[k], name),
            ),
    ensures
        !located(search_path, name, files, paths),
{
    if located(search_path, name, files, paths) {
        let i = choose|i: int|
            0 <= i < probes(search_path, name).len() && files.contains(
                #[trigger] probes(search_path, name)[i],
            );
        assert(probes(search_path, name)[i] == probe_path(search_dirs(search_path->0)[i], name));
    }
}

/// Whether a name is found depends only on its probe paths among the files and on the
/// name among the paths.
pub proof fn lemma_located_reads_probes(
    search_path: Option<Seq<char>>,
    name: Seq<char>,
    files: Set<Seq<char>>,
    paths: Set<Seq<char>>,
    other_files: Set<Seq<char>>,
    other_paths: Set<Seq<char>>,
)
    requires
        paths.contains(name) == other_paths.contains(name),
        forall|i: int|
            0 <= i < probes(search_path, name).len() ==> files.contains(
                #[trigger] probes(search_path, name)[i],
            ) == other_files.contains(probes(search_path, name)[i]),
    ensures
        located(search_path, name, files, paths) == located(
            search_path,
            name,
            other_files,
            other_paths,
        ),
{
}

/// The views of a list that grew by one string are the views of the list, and that
/// string's.
pub proof fn lemma_texts_push(v: Seq<String>, s: String)
    ensures
        texts(v.push(s)) == texts(v).push(s@),
{
    assert(texts(v.push(s)) =~= texts(v).push(s@));
}

/// The path of `name` in directory `dir`.
pub fn join(dir: &Vec<char>, name: &Vec<char>) -> (r: Vec<char>)
    ensures
        r@ == probe_path(dir@, name@),
{
    let mut out: Vec<char> = Vec::new();
    let absolute = name.len() > 0 && name[0] == '/';
    if !absolute {
        let mut i: usize = 0;
        while i < dir.len()
            invariant
                i <= dir.len(),
                out@ == dir@.take(i as int),
            decreases dir.len() - i,
        {
            out.push(dir[i]);
            assert(dir@.take(i + 1) =~= dir@.take(i as int).push(dir@[i as int]));
            i += 1;
        }
        assert(dir@.take(dir.len() as int) =~= dir@);
        if dir.len() > 0 && dir[dir.len() - 1] != '/' {
            out.push('/');
            assert(out@ =~= dir@ + seq!['/']);
        }
    }
    let ghost head = out@;
    let mut j: usize = 0;
    while j < name.len()
        invariant
            j <= name.len(),
            out@ == head + name@.take(j as int),
        decreases name.len() - j,
    {
        out.push(name[j]);
        assert(head + name@.take(j + 1) =~= (head + name@.take(j as int)).push(name@[j as int]));
        j += 1;
    }
    assert(name@.take(name.len() as int) =~= name@);
    assert(Seq::<char>::empty() + name@ =~= name@);
    out
}

/// The directories that the search path names, in order.
pub fn search_directories(search_path: &str) -> (r: Vec<String>)
    ensures
        texts(r@) == search_dirs(search_path@),
{
    let chars = chars_of(search_path);
    let body = trimmed(&chars);
    let dirs = split(&body, ':');
    let mut out: Vec<String> = Vec::new();
    let mut i: usize = 0;
    assert(texts(out@) =~= views(dirs@).take(0));
    while i < dirs.len()
        invariant
            i <= dirs.len(),
            texts(out@) == views(dirs@).take(i as int),
        decreases dirs.len() - i,
    {
        let entry = string_of(&dirs[i]);
        proof {
            lemma_texts_push(out@, entry);
            assert(views(dirs@).take(i as int).push(entry@) =~= views(dirs@).take(i + 1));
        }
        out.push(entry);
        i += 1;
    }
    assert(views(dirs@).take(i as int) =~= views(dirs@));
    out
}

/// The paths at which `binary` is looked for in the directories of the search path,
/// in order: one for each directory that `search_directories` gives. `search_path` is
/// the value of the search-path variable, or `None` where it is not set.
pub fn probe_paths(search_path: Option<&str>, binary: &str) -> (r: Vec<String>)
    ensures
        texts(r@) == probes(text_of(search_path), binary@),
{
    let name = chars_of(binary);
    let mut out: Vec<String> = Vec::new();
    match search_path {
        Some(p) => {
            let chars = chars_of(p);
            let body = trimmed(&chars);
            let dirs = split(&body, ':');
            let ghost all = search_dirs(p@);
            let mut i: usize = 0;
            assert(texts(out@) =~= Seq::new(0, |k: int| probe_path(all[k], name@)));
            while i < dirs.len()
                invariant
                    i <= dirs.len(),
                    views(dirs@) == all,
                    texts(out@) == Seq::new(i as nat, |k: int| probe_path(all[k], name@)),
                decreases dirs.len() - i,
            {
                assert(all[i as int] == dirs@[i as int]@);
                let path = join(&dirs[i], &name);
                let entry = string_of(&path);
                proof {
                    lemma_texts_push(out@, entry);
                    assert(Seq::new(i as nat, |k: int| probe_path(all[k], name@)).push(entry@)
                        =~= Seq::new((i + 1) as nat, |k: int| probe_path(all[k], name@)));
                }
                out.push(entry);
                i += 1;
            }
        },
        None => {
            assert(texts(out@) =~= Seq::<Seq<char>>::empty());
        },
    }
    out
}

/// Whether the list holds the path `path`.
pub fn is_listed(present: &Vec<String>, path: &String) -> (r: bool)
    ensures
        r == listed(present@).contains(path@),
{
    let mut i: usize = 0;
    while i < present.len()
        invariant
            i <= present.len(),
            forall|k: int| 0 <= k < i ==> (#[trigger] present@[k])@ != path@,
        decreases present.len() - i,
    {
        if present[i] == *path {
            return true;
        }
        i += 1;
    }
    false
}

/// Whether `binary` is found: as a file in a directory of the search path, or as a
/// path by itself.
pub fn binary_exists(search_path: Option<&str>, binary: &str, present: &Listing) -> (r: bool)
    ensures
        r == located(
            text_of(search_path),
            binary@,
            listed(present.files@),
            listed(present.paths@),
        ),
{
    let paths = probe_paths(search_path, binary);
    let ghost all = probes(text_of(search_path), binary@);
    let mut i: usize = 0;
    while i < paths.len()
        invariant
            i <= paths.len(),
            texts(paths@) == all,
            all == probes(text_of(search_path), binary@),
            forall|k: int| 0 <= k < i ==> !listed(present.files@).contains(#[trigger] all[k]),
        decreases paths.len() - i,
    {
        assert(all[i as int] == paths@[i as int]@);
        if is_listed(&present.files, &paths[i]) {
            return true;
        }
        i += 1;
    }
    let name = String::from_str(binary);
    is_listed(&present.paths, &name)
}

} // verus!
