use crate::locator::{
    binary_exists, lemma_located_reads_probes, listed, located, probe_paths, probes, text_of,
    texts, Listing,
};
use vstd::prelude::*;

verus! {

/// How a line of a report is shown.
#[derive(Clone, Copy, Debug, PartialEq, Eq, Structural)]
pub enum Severity {
    Fatal,
    Generic,
    Note,
}

/// One line of a report.
pub struct ReportLine {
    pub severity: Severity,
    pub text: String,
}

/// What a list of report lines holds.
pub open spec fn lines(report: Seq<ReportLine>) -> Seq<(Severity, Seq<char>)> {
    Seq::new(report.len(), |i: int| (report[i].severity, report[i].text@))
}

/// Each candidate as a line of its own.
pub open spec fn candidate_lines(candidates: Seq<Seq<char>>) -> Seq<(Severity, Seq<char>)> {
    Seq::new(candidates.len(), |i: int| (Severity::Generic, candidates[i]))
}

/// The first line of the report of a failed search.
pub open spec fn missing_helper_heading() -> (Severity, Seq<char>) {
    (Severity::Fatal, "Failed to detect an AUR helper! (From pre-made list):"@)
}

/// The lines that explain the flag which names a helper.
pub open spec fn override_notes() -> Seq<(Severity, Seq<char>)> {
    seq![
        (
            Severity::Note,
            "If your AUR helper of choice is not listed here, you can manually specify it with the '--aur-helper <insert binary name>' flag!"@,
        ),
        (Severity::Note, "Example: xero-cli --aur-helper paru"@),
        (
            Severity::Note,
            "This flag also forces the use of the AUR helper, so you can skip the detection phase completely!"@,
        ),
    ]
}

/// What is reported where no helper is chosen. A helper asked for by name that is
/// not found is not reported; where the candidates were tried, each is listed, and
/// the flag that names a helper is explained.
pub open spec fn missing_helper_lines(asked: Option<Seq<char>>, candidates: Seq<Seq<char>>) -> Seq<
    (Severity, Seq<char>),
> {
    match asked {
        Some(_) => Seq::empty(),
        None => seq![missing_helper_heading()] + candidate_lines(candidates) + override_notes(),
    }
}

/// The helpers that are looked for where none is asked for by name, in order of
/// preference.
pub open spec fn known_helpers() -> Seq<Seq<char>> {
    seq!["yay"@, "paru"@]
}

/// The flags that follow the helper's name in what is handed to the scripts.
pub open spec fn helper_flags() -> Seq<char> {
    " --mflags --skipinteg"@
}

/// The first of `candidates` that is found.
pub open spec fn first_located(
    candidates: Seq<Seq<char>>,
    search_path: Option<Seq<char>>,
    files: Set<Seq<char>>,
    paths: Set<Seq<char>>,
) -> Option<Seq<char>>
    decreases candidates.len(),
{
    if candidates.len() == 0 {
        None
    } else if located(search_path, candidates[0], files, paths) {
        Some(candidates[0])
    } else {
        first_located(candidates.drop_first(), search_path, files, paths)
    }
}

/// The helper that is chosen. A helper asked for by name is chosen where it is found,
/// and nothing stands in for it where it is not; without one, the first candidate
/// that is found is chosen.
pub open spec fn resolved(
    asked: Option<Seq<char>>,
    candidates: Seq<Seq<char>>,
    search_path: Option<Seq<char>>,
    files: Set<Seq<char>>,
    paths: Set<Seq<char>>,
) -> Option<Seq<char>> {
    match asked {
        Some(name) => if located(search_path, name, files, paths) {
            Some(name)
        } else {
            None
        },
        None => first_located(candidates, search_path, files, paths),
    }
}

/// The view of an optional string.
pub open spec fn name_of(s: Option<String>) -> Option<Seq<char>> {
    match s {
        Some(t) => Some(t@),
        None => None,
    }
}

/// A helper asked for by name that is found is the one chosen, whatever the
/// candidates are.
pub proof fn lemma_override_wins(
    name: Seq<char>,
    candidates: Seq<Seq<char>>,
    search_path: Option<Seq<char>>,
    files: Set<Seq<char>>,
    paths: Set<Seq<char>>,
)
    requires
        located(search_path, name, files, paths),
    ensures
        resolved(Some(name), candidates, search_path, files, paths) == Some(name),
{
}

/// Where a helper asked for by name is not found, none is chosen, whatever the
/// candidates are and whether or not one of them is found.
pub proof fn lemma_override_never_replaced(
    name: Seq<char>,
    candidates: Seq<Seq<char>>,
    search_path: Option<Seq<char>>,
    files: Set<Seq<char>>,
    paths: Set<Seq<char>>,
)
    requires
        !located(search_path, name, files, paths),
    ensures
        resolved(Some(name), candidates, search_path, files, paths) is None,
{
}

/// Without a helper asked for by name, the candidate chosen is the one at the least
/// position among those that are found.
pub proof fn lemma_first_candidate_wins(
    candidates: Seq<Seq<char>>,
    search_path: Option<Seq<char>>,
    files: Set<Seq<char>>,
    paths: Set<Seq<char>>,
    k: int,
)
    requires
        0 <= k < candidates.len(),
        located(search_path, candidates[k], files, paths),
        forall|j: int| 0 <= j < k ==> !located(search_path, #[trigger] candidates[j], files, paths),
    ensures
        resolved(None, candidates, search_path, files, paths) == Some(candidates[k]),
    decreases k,
{
    if k > 0 {
        let rest = candidates.drop_first();
        assert(forall|j: int| 0 <= j < k - 1 ==> rest[j] == candidates[j + 1]);
        lemma_first_candidate_wins(rest, search_path, files, paths, k - 1);
    }
}

/// Without a helper asked for by name, none is chosen exactly where no candidate is
/// found.
pub proof fn lemma_none_found(
    candidates: Seq<Seq<char>>,
    search_path: Option<Seq<char>>,
    files: Set<Seq<char>>,
    paths: Set<Seq<char>>,
)
    ensures
        resolved(None, candidates, search_path, files, paths) is None <==> forall|j: int|
            0 <= j < candidates.len() ==> !located(search_path, #[trigger] candidates[j], files, paths),
    decreases candidates.len(),
{
    if candidates.len() > 0 {
        let rest = candidates.drop_first();
        lemma_none_found(rest, search_path, files, paths);
        assert(forall|j: int| 0 <= j < rest.len() ==> rest[j] == candidates[j + 1]);
        if !located(search_path, candidates[0], files, paths) {
            if forall|j: int|
                0 <= j < rest.len() ==> !located(search_path, #[trigger] rest[j], files, paths) {
                assert forall|j: int| 0 <= j < candidates.len() implies !located(
                    search_path,
                    #[trigger] candidates[j],
                    files,
                    paths,
                ) by {
                    if j > 0 {
                        assert(rest[j - 1] == candidates[j]);
                    }
                }
            }
        }
    }
}

/// The names that a resolution looks up: the helper asked for by name alone, or every
/// candidate.
pub open spec fn lookup_names(asked: Option<Seq<char>>, candidates: Seq<Seq<char>>) -> Seq<
    Seq<char>,
> {
    match asked {
        Some(name) => seq![name],
        None => candidates,
    }
}

/// The probe paths of each of `names`, name after name.
pub open spec fn all_probes(names: Seq<Seq<char>>, search_path: Option<Seq<char>>) -> Seq<
    Seq<char>,
>
    decreases names.len(),
{
    if names.len() == 0 {
        Seq::empty()
    } else {
        probes(search_path, names[0]) + all_probes(names.drop_first(), search_path)
    }
}

/// Every probe path of every name is among the probe paths of the names together.
pub proof fn lemma_all_probes_hold(
    names: Seq<Seq<char>>,
    search_path: Option<Seq<char>>,
    j: int,
    i: int,
)
    requires
        0 <= j < names.len(),
        0 <= i < probes(search_path, names[j]).len(),
    ensures
        all_probes(names, search_path).contains(probes(search_path, names[j])[i]),
    decreases j,
{
    let head = probes(search_path, names[0]);
    let tail = all_probes(names.drop_first(), search_path);
    if j == 0 {
        assert((head + tail)[i] == head[i]);
    } else {
        assert(names.drop_first()[j - 1] == names[j]);
        lemma_all_probes_hold(names.drop_first(), search_path, j - 1, i);
        let k = choose|k: int| 0 <= k < tail.len() && tail[k] == probes(search_path, names[j])[i];
        assert((head + tail)[head.len() + k] == tail[k]);
    }
}

/// Where each candidate is found under one listing exactly when it is under another,
/// the first candidate found is the same.
pub proof fn lemma_first_located_agrees(
    candidates: Seq<Seq<char>>,
    search_path: Option<Seq<char>>,
    files: Set<Seq<char>>,
    paths: Set<Seq<char>>,
    other_files: Set<Seq<char>>,
    other_paths: Set<Seq<char>>,
)
    requires
        forall|j: int|
            0 <= j < candidates.len() ==> located(
                search_path,
                #[trigger] candidates[j],
                files,
                paths,
            ) == located(search_path, candidates[j], other_files, other_paths),
    ensures
        first_located(candidates, search_path, files, paths) == first_located(
            candidates,
            search_path,
            other_files,
            other_paths,
        ),
    decreases candidates.len(),
{
    if candidates.len() > 0 {
        let rest = candidates.drop_first();
        assert(located(search_path, candidates[0], files, paths) == located(
            search_path,
            candidates[0],
            other_files,
            other_paths,
        ));
        assert forall|j: int| 0 <= j < rest.len() implies located(
            search_path,
            #[trigger] rest[j],
            files,
            paths,
        ) == located(search_path, rest[j], other_files, other_paths) by {
            assert(rest[j] == candidates[j + 1]);
        }
        lemma_first_located_agrees(rest, search_path, files, paths, other_files, other_paths);
    }
}

/// A resolution reads nothing but the probe paths of the names it looks up, and those
/// names: a listing of what stands there chooses as the whole machine would.
pub proof fn lemma_probes_suffice(
    asked: Option<Seq<char>>,
    candidates: Seq<Seq<char>>,
    search_path: Option<Seq<char>>,
    files: Set<Seq<char>>,
    paths: Set<Seq<char>>,
    seen_files: Set<Seq<char>>,
    seen_paths: Set<Seq<char>>,
)
    requires
        forall|p: Seq<char>|
            all_probes(lookup_names(asked, candidates), search_path).contains(p) ==> (
            seen_files.contains(p) <==> files.contains(p)),
        forall|n: Seq<char>|
            lookup_names(asked, candidates).contains(n) ==> (seen_paths.contains(n)
                <==> paths.contains(n)),
    ensures
        resolved(asked, candidates, search_path, seen_files, seen_paths) == resolved(
            asked,
            candidates,
            search_path,
            files,
            paths,
        ),
{
    let names = lookup_names(asked, candidates);
    assert forall|j: int| 0 <= j < names.len() implies located(
        search_path,
        #[trigger] names[j],
        seen_files,
        seen_paths,
    ) == located(search_path, names[j], files, paths) by {
        assert(names.contains(names[j]));
        assert forall|i: int| 0 <= i < probes(search_path, names[j]).len() implies seen_files.contains(
            #[trigger] probes(search_path, names[j])[i],
        ) == files.contains(probes(search_path, names[j])[i]) by {
            lemma_all_probes_hold(names, search_path, j, i);
        }
        lemma_located_reads_probes(
            search_path,
            names[j],
            seen_files,
            seen_paths,
            files,
            paths,
        );
    }
    match asked {
        Some(name) => {
            assert(names[0] == name);
        },
        None => {
            lemma_first_located_agrees(
                candidates,
                search_path,
                seen_files,
                seen_paths,
                files,
                paths,
            );
        },
    }
}

/// The helpers that are looked for where none is asked for by name, in order of
/// preference.
pub fn helper_candidates() -> (r: Vec<String>)
    ensures
        texts(r@) == known_helpers(),
{
    let mut out: Vec<String> = Vec::new();
    out.push(String::from_str("yay"));
    out.push(String::from_str("paru"));
    assert(texts(out@) =~= known_helpers());
    out
}

/// What is handed to the scripts for a chosen helper: its name, then the flags.
pub fn select_aur_helper(aur_helper: &str) -> (r: String)
    ensures
        r@ == aur_helper@ + helper_flags(),
{
    let mut out = String::from_str(aur_helper);
    out.append(" --mflags --skipinteg");
    out
}

/// Chooses a helper: the one asked for by name, or the first of `candidates` that is
/// found. `search_path` is the value of the search-path variable, where it is set,
/// and `present` lists what the caller found at the paths that are looked up.
pub fn resolve_helper(
    asked: Option<&str>,
    candidates: &Vec<String>,
    search_path: Option<&str>,
    present: &Listing,
) -> (r: Option<String>)
    ensures
        name_of(r) == resolved(
            text_of(asked),
            texts(candidates@),
            text_of(search_path),
            listed(present.files@),
            listed(present.paths@),
        ),
{
    match asked {
        Some(name) => {
            if binary_exists(search_path, name, present) {
                Some(String::from_str(name))
            } else {
                None
            }
        },
        None => {
            let ghost all = texts(candidates@);
            let mut i: usize = 0;
            assert(all.skip(0) =~= all);
            while i < candidates.len()
                invariant
                    i <= candidates.len(),
                    asked is None,
                    all == texts(candidates@),
                    first_located(
                        all.skip(i as int),
                        text_of(search_path),
                        listed(present.files@),
                        listed(present.paths@),
                    ) == first_located(
                        all,
                        text_of(search_path),
                        listed(present.files@),
                        listed(present.paths@),
                    ),
                decreases candidates.len() - i,
            {
                assert(all.skip(i as int)[0] == candidates@[i as int]@);
                assert(all.skip(i as int).drop_first() =~= all.skip(i + 1));
                if binary_exists(search_path, candidates[i].as_str(), present) {
                    return Some(candidates[i].clone());
                }
                i += 1;
            }
            assert(all.skip(i as int).len() == 0);
            None
        },
    }
}

/// Chooses a helper among the known ones, or the one asked for by name.
pub fn detect_aur_helper(asked: Option<&str>, search_path: Option<&str>, present: &Listing) -> (r:
    Option<String>)
    ensures
        name_of(r) == resolved(
            text_of(asked),
            known_helpers(),
            text_of(search_path),
            listed(present.files@),
            listed(present.paths@),
        ),
{
    let candidates = helper_candidates();
    resolve_helper(asked, &candidates, search_path, present)
}

/// The names that a resolution among the known helpers looks up: the caller finds out
/// which of them exist as paths by themselves.
pub fn helper_names(asked: Option<&str>) -> (r: Vec<String>)
    ensures
        texts(r@) == lookup_names(text_of(asked), known_helpers()),
{
    match asked {
        Some(name) => {
            let mut out: Vec<String> = Vec::new();
            out.push(String::from_str(name));
            assert(texts(out@) =~= seq![name@]);
            out
        },
        None => helper_candidates(),
    }
}

/// The probe paths of each of `names`, name after name.
pub fn probe_paths_of(names: &Vec<String>, search_path: Option<&str>) -> (r: Vec<String>)
    ensures
        texts(r@) == all_probes(texts(names@), text_of(search_path)),
{
    let ghost all = texts(names@);
    let ghost sp = text_of(search_path);
    let mut out: Vec<String> = Vec::new();
    let mut i: usize = 0;
    assert(all.skip(0) =~= all);
    assert(texts(out@) + all_probes(all.skip(0), sp) =~= all_probes(all, sp));
    while i < names.len()
        invariant
            i <= names.len(),
            all == texts(names@),
            sp == text_of(search_path),
            texts(out@) + all_probes(all.skip(i as int), sp) == all_probes(all, sp),
        decreases names.len() - i,
    {
        let ghost before = out@;
        let mut more = probe_paths(search_path, names[i].as_str());
        let ghost added = more@;
        out.append(&mut more);
        proof {
            assert(all.skip(i as int)[0] == names@[i as int]@);
            assert(all.skip(i as int).drop_first() =~= all.skip(i + 1));
            assert(texts(out@) =~= texts(before) + texts(added));
            assert(texts(out@) + all_probes(all.skip(i + 1), sp) =~= texts(before) + all_probes(
                all.skip(i as int),
                sp,
            ));
        }
        i += 1;
    }
    assert(all_probes(all.skip(i as int), sp) =~= Seq::<Seq<char>>::empty());
    assert(texts(out@) + Seq::<Seq<char>>::empty() =~= texts(out@));
    out
}

/// The paths at which a resolution among the known helpers looks for a file: the
/// probe paths of the helper asked for by name, or of each known helper in order.
pub fn helper_probe_paths(asked: Option<&str>, search_path: Option<&str>) -> (r: Vec<String>)
    ensures
        texts(r@) == all_probes(
            lookup_names(text_of(asked), known_helpers()),
            text_of(search_path),
        ),
{
    let names = helper_names(asked);
    probe_paths_of(&names, search_path)
}

/// The report for a resolution that chose no helper.
pub fn missing_helper_report(asked: Option<&str>, candidates: &Vec<String>) -> (r: Vec<ReportLine>)
    ensures
        lines(r@) == missing_helper_lines(text_of(asked), texts(candidates@)),
{
    let mut out: Vec<ReportLine> = Vec::new();
    if asked.is_some() {
        assert(lines(out@) =~= Seq::empty());
        return out;
    }
    out.push(
        ReportLine {
            severity: Severity::Fatal,
            text: String::from_str("Failed to detect an AUR helper! (From pre-made list):"),
        },
    );
    let ghost head = seq![missing_helper_heading()];
    let ghost all = texts(candidates@);
    let mut i: usize = 0;
    assert(lines(out@) =~= head + candidate_lines(all).take(0));
    while i < candidates.len()
        invariant
            i <= candidates.len(),
            asked is None,
            all == texts(candidates@),
            lines(out@) == head + candidate_lines(all).take(i as int),
        decreases candidates.len() - i,
    {
        let ghost before = lines(out@);
        out.push(ReportLine { severity: Severity::Generic, text: candidates[i].clone() });
        assert(lines(out@) =~= before.push((Severity::Generic, candidates@[i as int]@)));
        assert(head + candidate_lines(all).take(i + 1) =~= (head + candidate_lines(all).take(
            i as int,
        )).push((Severity::Generic, all[i as int])));
        i += 1;
    }
    assert(candidate_lines(all).take(i as int) =~= candidate_lines(all));
    let ghost shown = lines(out@);
    let ghost before = out@;
    out.push(
        ReportLine {
            severity: Severity::Note,
            text: String::from_str(
                "If your AUR helper of choice is not listed here, you can manually specify it with the '--aur-helper <insert binary name>' flag!",
            ),
        },
    );
    out.push(
        ReportLine {
            severity: Severity::Note,
            text: String::from_str("Example: xero-cli --aur-helper paru"),
        },
    );
    out.push(
        ReportLine {
            severity: Severity::Note,
            text: String::from_str(
                "This flag also forces the use of the AUR helper, so you can skip the detection phase completely!",
            ),
        },
    );
    proof {
        assert(out@.len() == before.len() + 3);
        assert(forall|k: int| 0 <= k < before.len() ==> out@[k] == before[k]);
        assert(forall|k: int| 0 <= k < before.len() ==> lines(out@)[k] == shown[k]);
        assert(lines(out@) =~= shown + override_notes());
    }
    out
}

} // verus!
