//! Search-path splitting and executable discovery.

use inkscape_export::discovery::find_inkscape_executable;
use inkscape_export::discovery::split_search_path;
use inkscape_export::discovery::DirProbe;

fn probe(dir: &str, has_plain: bool, has_exe: bool) -> DirProbe {
    DirProbe {
        dir: String::from(dir),
        has_plain,
        has_exe,
    }
}

#[test]
fn first_matching_directory_wins() {
    let probes = vec![
        probe("/usr/bin", false, false),
        probe("/opt/inkscape/bin", true, false),
        probe("/home/user/bin", true, true),
    ];
    assert_eq!(
        find_inkscape_executable(&probes).as_deref(),
        Some("/opt/inkscape/bin/inkscape")
    );
}

#[test]
fn exe_variant_alone_counts_as_a_hit() {
    let probes = vec![
        probe("/usr/bin", false, false),
        probe("C:/Program Files/Inkscape", false, true),
    ];
    assert_eq!(
        find_inkscape_executable(&probes).as_deref(),
        Some("C:/Program Files/Inkscape/inkscape")
    );
}

#[test]
fn no_qualifying_directory_gives_none() {
    let probes = vec![probe("/usr/bin", false, false), probe("/bin", false, false)];
    assert_eq!(find_inkscape_executable(&probes), None);
}

#[test]
fn empty_search_path_gives_none() {
    assert_eq!(find_inkscape_executable(&Vec::new()), None);
}

#[test]
fn split_keeps_directory_order() {
    let dirs = split_search_path("/usr/bin:/bin:/opt/bin", ':');
    assert_eq!(dirs, vec!["/usr/bin", "/bin", "/opt/bin"]);
}

#[test]
fn split_of_empty_string_is_one_empty_entry() {
    assert_eq!(split_search_path("", ':'), vec![""]);
}

#[test]
fn split_keeps_empty_entries_between_separators() {
    assert_eq!(split_search_path("a::b", ':'), vec!["a", "", "b"]);
}

#[test]
fn split_works_with_other_separators() {
    assert_eq!(split_search_path("c;d", ';'), vec!["c", "d"]);
}
