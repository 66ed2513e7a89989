use lslite::args::Flag;
use lslite::listing::{file_name, filter_files, get_files_from_path, is_dotfile, PathInfo};

fn file(path: &str) -> PathInfo {
    PathInfo { path: path.to_string(), is_dir: false }
}

fn dir(path: &str) -> PathInfo {
    PathInfo { path: path.to_string(), is_dir: true }
}

fn paths(entries: &[PathInfo]) -> Vec<String> {
    entries.iter().map(|e| e.path.clone()).collect()
}

#[test]
fn dotfile_on_bare_names() {
    assert!(is_dotfile(".hidden"));
    assert!(is_dotfile(".a"));
    assert!(!is_dotfile("b.txt"));
    assert!(!is_dotfile("plain"));
}

#[test]
fn dotfile_looks_at_final_component_only() {
    assert!(is_dotfile("./.hidden"));
    assert!(is_dotfile("a/b/.c"));
    assert!(!is_dotfile("./b.txt"));
    assert!(!is_dotfile("x.d/plain"));
    assert!(!is_dotfile(".cfg/plain"));
}

#[test]
fn dotfile_edge_texts() {
    assert!(!is_dotfile(""));
    assert!(!is_dotfile("dir/"));
    assert!(is_dotfile("/.x"));
    assert!(is_dotfile("d/.hidden/"));
    assert!(is_dotfile("..."));
}

#[test]
fn dot_and_parent_components_are_not_hidden_names() {
    assert!(!is_dotfile("."));
    assert!(!is_dotfile(".."));
    assert!(!is_dotfile("a/.."));
    assert!(!is_dotfile("foo/."));
    assert!(!is_dotfile("/"));
}

#[test]
fn file_name_finds_the_final_component() {
    assert_eq!(file_name("a/b.txt"), Some("b.txt"));
    assert_eq!(file_name("b.txt"), Some("b.txt"));
    assert_eq!(file_name("dir/"), Some("dir"));
    assert_eq!(file_name("foo/."), Some("foo"));
    assert_eq!(file_name("d/.hidden/"), Some(".hidden"));
    assert_eq!(file_name("a/b//"), Some("b"));
}

#[test]
fn file_name_is_absent_on_degenerate_paths() {
    assert_eq!(file_name(""), None);
    assert_eq!(file_name("/"), None);
    assert_eq!(file_name("."), None);
    assert_eq!(file_name(".."), None);
    assert_eq!(file_name("a/.."), None);
    assert_eq!(file_name("a/../"), None);
    assert_eq!(file_name("./"), None);
}

#[test]
fn enumeration_keeps_present_paths_in_order() {
    let raw = vec![
        Some("./a".to_string()),
        None,
        Some("./b".to_string()),
        None,
        Some("./c".to_string()),
    ];
    assert_eq!(get_files_from_path(raw), vec!["./a", "./b", "./c"]);
}

#[test]
fn enumeration_of_nothing_is_empty() {
    assert_eq!(get_files_from_path(Vec::new()), Vec::<String>::new());
    assert_eq!(get_files_from_path(vec![None, None]), Vec::<String>::new());
}

#[test]
fn default_mode_hides_dotfile_and_puts_directory_first() {
    let children = vec![file("./.hidden"), file("./b.txt"), dir("./Adir")];
    let shown = filter_files(children, &Flag::Empty);
    assert_eq!(paths(&shown), vec!["./Adir", "./b.txt"]);
}

#[test]
fn all_mode_shows_dotfile_in_enumeration_order() {
    let children = vec![file("./.hidden"), file("./b.txt"), dir("./Adir")];
    let shown = filter_files(children, &Flag::All);
    assert_eq!(paths(&shown), vec!["./Adir", "./.hidden", "./b.txt"]);
}

#[test]
fn combined_mode_also_shows_dotfile() {
    let children = vec![file("./.hidden"), file("./b.txt"), dir("./Adir")];
    let shown = filter_files(children, &Flag::AllAndList);
    assert_eq!(paths(&shown), vec!["./Adir", "./.hidden", "./b.txt"]);
}

#[test]
fn list_mode_hides_dotfile_like_default() {
    let children = vec![file("./.hidden"), file("./b.txt"), dir("./Adir")];
    let shown = filter_files(children, &Flag::List);
    assert_eq!(paths(&shown), vec!["./Adir", "./b.txt"]);
}

#[test]
fn listing_is_partitioned_directories_first() {
    let children = vec![
        file("./1"),
        dir("./2"),
        file("./3"),
        dir("./4"),
        file("./5"),
        dir("./6"),
    ];
    let shown = filter_files(children, &Flag::Empty);
    assert_eq!(paths(&shown), vec!["./2", "./4", "./6", "./1", "./3", "./5"]);
    let first_non_dir = shown.iter().position(|e| !e.is_dir).unwrap_or(shown.len());
    assert!(shown[..first_non_dir].iter().all(|e| e.is_dir));
    assert!(shown[first_non_dir..].iter().all(|e| !e.is_dir));
}

#[test]
fn listing_twice_changes_nothing() {
    let children = vec![file("./.h"), dir("./d"), file("./f"), dir("./.e")];
    let once = filter_files(children.clone(), &Flag::All);
    let again = filter_files(children.clone(), &Flag::All);
    assert_eq!(once, again);
    let twice = filter_files(once.clone(), &Flag::All);
    assert_eq!(once, twice);

    let once_default = filter_files(children, &Flag::Empty);
    let twice_default = filter_files(once_default.clone(), &Flag::Empty);
    assert_eq!(once_default, twice_default);
}

#[test]
fn duplicate_children_are_all_kept() {
    let children = vec![file("./same"), file("./same"), dir("./same")];
    let shown = filter_files(children, &Flag::Empty);
    assert_eq!(paths(&shown), vec!["./same", "./same", "./same"]);
    assert!(shown[0].is_dir);
}

#[test]
fn empty_directory_lists_nothing() {
    let shown = filter_files(Vec::new(), &Flag::Empty);
    assert!(shown.is_empty());
    let shown_all = filter_files(Vec::new(), &Flag::AllAndList);
    assert!(shown_all.is_empty());
}

#[test]
fn hidden_directory_is_hidden_and_shown_like_hidden_files() {
    let children = vec![dir("./.git"), file("./a")];
    let default_shown = filter_files(children.clone(), &Flag::Empty);
    assert_eq!(paths(&default_shown), vec!["./a"]);
    let all_shown = filter_files(children, &Flag::All);
    assert_eq!(paths(&all_shown), vec!["./.git", "./a"]);
}
