use lslite::args::{unpack_args, Flag};

#[test]
fn no_switches_give_empty_mode() {
    let (path, flag) = unpack_args(false, false, String::from("."));
    assert_eq!(path, ".");
    assert_eq!(flag, Flag::Empty);
    assert!(!flag.shows_hidden());
    assert!(!flag.is_detailed());
}

#[test]
fn all_switch_gives_all_mode() {
    let (path, flag) = unpack_args(true, false, String::from("/tmp"));
    assert_eq!(path, "/tmp");
    assert_eq!(flag, Flag::All);
    assert!(flag.shows_hidden());
    assert!(!flag.is_detailed());
}

#[test]
fn long_switch_gives_list_mode() {
    let (_, flag) = unpack_args(false, true, String::from("."));
    assert_eq!(flag, Flag::List);
    assert!(!flag.shows_hidden());
    assert!(flag.is_detailed());
}

#[test]
fn both_switches_give_combined_mode() {
    let (_, flag) = unpack_args(true, true, String::from("."));
    assert_eq!(flag, Flag::AllAndList);
    assert!(flag.shows_hidden());
    assert!(flag.is_detailed());
}
