use xero_cli::helper::{
    detect_aur_helper, helper_candidates, helper_names, helper_probe_paths,
    missing_helper_report, probe_paths_of, resolve_helper, select_aur_helper, Severity,
};
use xero_cli::locator::{binary_exists, is_listed, probe_paths, search_directories, Listing};

fn list(paths: &[&str]) -> Vec<String> {
    paths.iter().map(|p| p.to_string()).collect()
}

fn files(paths: &[&str]) -> Listing {
    Listing { files: list(paths), paths: list(paths) }
}

fn listing(files: &[&str], paths: &[&str]) -> Listing {
    Listing { files: list(files), paths: list(paths) }
}

#[test]
fn directories_of_the_search_path() {
    assert_eq!(search_directories("/usr/local/bin:/usr/bin:/bin"), list(&["/usr/local/bin", "/usr/bin", "/bin"]));
    assert_eq!(search_directories(" /a::/b/\n"), list(&["/a", "", "/b/"]));
    assert_eq!(search_directories(""), list(&[""]));
}

#[test]
fn probes_follow_the_search_path() {
    assert_eq!(
        probe_paths(Some("/usr/local/bin:/usr/bin:/bin"), "yay"),
        list(&["/usr/local/bin/yay", "/usr/bin/yay", "/bin/yay"])
    );
}

#[test]
fn no_probes_without_a_search_path() {
    assert_eq!(probe_paths(None, "yay"), Vec::<String>::new());
}

#[test]
fn probes_of_an_empty_search_path() {
    assert_eq!(probe_paths(Some(""), "yay"), list(&["yay"]));
    assert_eq!(probe_paths(Some("/bin::/opt/"), "yay"), list(&["/bin/yay", "yay", "/opt/yay"]));
}

#[test]
fn probes_of_a_path_from_the_root() {
    assert_eq!(probe_paths(Some("/usr/bin:/bin"), "/opt/yay"), list(&["/opt/yay", "/opt/yay"]));
}

#[test]
fn search_path_is_trimmed() {
    assert_eq!(probe_paths(Some(" /usr/bin:/bin\n"), "paru"), list(&["/usr/bin/paru", "/bin/paru"]));
}

#[test]
fn probes_agree_with_std_paths() {
    let dirs = ["/usr/bin", "/usr/bin/", "", "/", "relative", "a/b/", "."];
    let names = ["yay", "/abs/yay", "sub/yay", "", "./yay"];
    for dir in dirs {
        for name in names {
            let expected = std::path::Path::new(dir).join(name).to_string_lossy().to_string();
            assert_eq!(probe_paths(Some(dir), name), vec![expected]);
        }
    }
}

#[test]
fn membership_in_a_list() {
    let present = list(&["/usr/bin/ls", "/usr/bin/paru"]);
    assert!(is_listed(&present, &"/usr/bin/ls".to_string()));
    assert!(!is_listed(&present, &"/usr/bin/l".to_string()));
    assert!(!is_listed(&Vec::new(), &"".to_string()));
}

#[test]
fn binary_in_a_directory_is_found() {
    let present = listing(&["/usr/bin/ls", "/usr/bin/paru"], &[]);
    assert!(binary_exists(Some("/usr/local/bin:/usr/bin"), "paru", &present));
    assert!(binary_exists(Some("/usr/bin"), "ls", &present));
}

#[test]
fn binary_in_the_last_directory_is_found() {
    assert!(binary_exists(Some("/a:/b:/c:/z"), "tool", &listing(&["/z/tool"], &[])));
}

#[test]
fn absent_binary_is_not_found() {
    let present = files(&["/usr/bin/ls", "/opt/paru"]);
    assert!(!binary_exists(Some("/usr/local/bin:/usr/bin"), "paru", &present));
    assert!(!binary_exists(Some("/usr/bin"), "yay", &files(&[])));
    assert!(!binary_exists(None, "yay", &present));
}

#[test]
fn directory_named_like_the_binary_is_not_found() {
    let present = listing(&[], &["/opt/yay", "/opt"]);
    assert!(!binary_exists(Some("/opt"), "yay", &present));
    assert!(!binary_exists(Some("/usr/bin:/opt"), "yay", &present));
}

#[test]
fn standalone_path_is_found_whatever_stands_there() {
    let present = listing(&[], &["/opt/helpers/paru", "./tool", "/opt/dir"]);
    assert!(binary_exists(Some("/usr/bin"), "/opt/helpers/paru", &present));
    assert!(binary_exists(None, "/opt/helpers/paru", &present));
    assert!(binary_exists(None, "./tool", &present));
    assert!(binary_exists(Some("/usr/bin"), "/opt/dir", &present));
}

#[test]
fn file_that_is_only_a_file_elsewhere_is_not_found_by_itself() {
    let present = listing(&["yay"], &[]);
    assert!(!binary_exists(None, "yay", &present));
    assert!(!binary_exists(Some("/usr/bin"), "yay", &present));
    assert!(binary_exists(Some(""), "yay", &present));
}

#[test]
fn directory_outside_the_search_path_does_not_count() {
    let present = files(&["/opt/bin/yay"]);
    assert!(!binary_exists(Some("/usr/bin:/bin"), "yay", &present));
    assert!(binary_exists(Some("/usr/bin:/opt/bin"), "yay", &present));
}

#[test]
fn known_helpers_in_order() {
    assert_eq!(helper_candidates(), list(&["yay", "paru"]));
}

#[test]
fn names_that_a_resolution_looks_up() {
    assert_eq!(helper_names(None), list(&["yay", "paru"]));
    assert_eq!(helper_names(Some("trizen")), list(&["trizen"]));
}

#[test]
fn probe_paths_of_a_resolution() {
    assert_eq!(
        helper_probe_paths(None, Some("/usr/bin:/bin")),
        list(&["/usr/bin/yay", "/bin/yay", "/usr/bin/paru", "/bin/paru"])
    );
    assert_eq!(
        helper_probe_paths(Some("trizen"), Some("/usr/bin:/bin")),
        list(&["/usr/bin/trizen", "/bin/trizen"])
    );
    assert_eq!(helper_probe_paths(None, None), Vec::<String>::new());
    assert_eq!(
        probe_paths_of(&list(&["a", "/b", "c"]), Some("/x")),
        list(&["/x/a", "/b", "/x/c"])
    );
    assert_eq!(probe_paths_of(&Vec::new(), Some("/x")), Vec::<String>::new());
}

#[test]
fn listing_of_the_probe_paths_chooses_as_the_machine_would() {
    let machine = listing(
        &["/usr/bin/paru", "/usr/bin/ls", "/home/u/yay"],
        &["/usr/bin/paru", "/usr/bin/ls", "/home/u/yay", "/usr/bin", "/bin/yay"],
    );
    let search_path = Some("/bin:/usr/bin");
    let seen = Listing {
        files: helper_probe_paths(None, search_path)
            .into_iter()
            .filter(|p| machine.files.contains(p))
            .collect(),
        paths: helper_names(None).into_iter().filter(|n| machine.paths.contains(n)).collect(),
    };
    assert_eq!(seen.files, list(&["/usr/bin/paru"]));
    assert_eq!(detect_aur_helper(None, search_path, &seen), Some("paru".to_string()));
    assert_eq!(detect_aur_helper(None, search_path, &machine), Some("paru".to_string()));
}

#[test]
fn override_that_exists_is_selected() {
    let present = files(&["/usr/bin/yay", "/usr/bin/paru", "/usr/bin/trizen"]);
    assert_eq!(
        detect_aur_helper(Some("trizen"), Some("/usr/bin"), &present),
        Some("trizen".to_string())
    );
    assert_eq!(
        resolve_helper(Some("trizen"), &Vec::new(), Some("/usr/bin"), &present),
        Some("trizen".to_string())
    );
}

#[test]
fn override_that_is_missing_fails_even_with_candidates() {
    let present = files(&["/usr/bin/yay", "/usr/bin/paru"]);
    assert_eq!(detect_aur_helper(Some("trizen"), Some("/usr/bin"), &present), None);
}

#[test]
fn override_that_is_a_directory_in_the_search_path_fails() {
    let present = listing(&["/usr/bin/yay"], &["/usr/bin/yay", "/usr/bin/trizen"]);
    assert_eq!(detect_aur_helper(Some("trizen"), Some("/usr/bin"), &present), None);
}

#[test]
fn first_candidate_present_is_selected() {
    let both = files(&["/usr/bin/paru", "/usr/bin/yay"]);
    assert_eq!(detect_aur_helper(None, Some("/usr/bin"), &both), Some("yay".to_string()));
    let only_paru = files(&["/usr/bin/paru"]);
    assert_eq!(detect_aur_helper(None, Some("/usr/bin"), &only_paru), Some("paru".to_string()));
}

#[test]
fn candidate_order_is_the_preference() {
    let present = files(&["/bin/a", "/bin/b", "/bin/c"]);
    assert_eq!(
        resolve_helper(None, &list(&["c", "a", "b"]), Some("/bin"), &present),
        Some("c".to_string())
    );
    assert_eq!(
        resolve_helper(None, &list(&["z", "b", "a"]), Some("/bin"), &present),
        Some("b".to_string())
    );
}

#[test]
fn no_candidate_found_fails() {
    assert_eq!(detect_aur_helper(None, Some("/usr/bin"), &files(&["/usr/bin/ls"])), None);
    assert_eq!(resolve_helper(None, &Vec::new(), Some("/usr/bin"), &files(&["/usr/bin/ls"])), None);
}

#[test]
fn helper_is_published_with_its_flags() {
    assert_eq!(select_aur_helper("paru"), "paru --mflags --skipinteg");
    assert_eq!(select_aur_helper("yay"), "yay --mflags --skipinteg");
}

#[test]
fn report_lists_every_candidate_tried() {
    let report = missing_helper_report(None, &helper_candidates());
    let shown: Vec<(Severity, &str)> =
        report.iter().map(|l| (l.severity, l.text.as_str())).collect();
    assert_eq!(
        shown,
        vec![
            (Severity::Fatal, "Failed to detect an AUR helper! (From pre-made list):"),
            (Severity::Generic, "yay"),
            (Severity::Generic, "paru"),
            (
                Severity::Note,
                "If your AUR helper of choice is not listed here, you can manually specify it with the '--aur-helper <insert binary name>' flag!"
            ),
            (Severity::Note, "Example: xero-cli --aur-helper paru"),
            (
                Severity::Note,
                "This flag also forces the use of the AUR helper, so you can skip the detection phase completely!"
            ),
        ]
    );
}

#[test]
fn report_of_no_candidates() {
    let report = missing_helper_report(None, &Vec::new());
    assert_eq!(report.len(), 4);
    assert_eq!(report[0].severity, Severity::Fatal);
}

#[test]
fn missing_override_is_not_reported() {
    assert!(missing_helper_report(Some("trizen"), &helper_candidates()).is_empty());
}
