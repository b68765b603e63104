use my_hacklab::startup::{GlobalOptions, LogLevel, OptsCommon};

#[test]
fn common_options_pick_the_most_detailed_level() {
    let base = OptsCommon { verbose: false, debug: false, trace: false };
    assert_eq!(base.get_loglevel(), LogLevel::Error);
    assert_eq!(OptsCommon { verbose: true, ..base }.get_loglevel(), LogLevel::Info);
    assert_eq!(OptsCommon { debug: true, ..base }.get_loglevel(), LogLevel::Debug);
    assert_eq!(OptsCommon { trace: true, ..base }.get_loglevel(), LogLevel::Trace);
    assert_eq!(
        OptsCommon { verbose: true, debug: true, trace: false }.get_loglevel(),
        LogLevel::Debug
    );
    assert_eq!(
        OptsCommon { verbose: true, debug: true, trace: true }.get_loglevel(),
        LogLevel::Trace
    );
}

#[test]
fn monitor_options_default_to_info() {
    assert_eq!(GlobalOptions { debug: false, trace: false }.get_loglevel(), LogLevel::Info);
    assert_eq!(GlobalOptions { debug: true, trace: false }.get_loglevel(), LogLevel::Debug);
    assert_eq!(GlobalOptions { debug: false, trace: true }.get_loglevel(), LogLevel::Trace);
}

#[test]
fn home_markers_expand_to_the_given_directory() {
    assert_eq!(
        my_hacklab::startup::expand_home("$HOME/lab/notes.txt", "/home/user"),
        "/home/user/lab/notes.txt"
    );
    assert_eq!(
        my_hacklab::startup::expand_home("$HOME$HOME", "/h"),
        "/h/h"
    );
    assert_eq!(
        my_hacklab::startup::expand_home("no marker here", "/home/user"),
        "no marker here"
    );
    assert_eq!(my_hacklab::startup::expand_home("$HOM/e", "/h"), "$HOM/e");
    assert_eq!(my_hacklab::startup::expand_home("$HOME", ""), "");
    assert_eq!(my_hacklab::startup::expand_home("", "/h"), "");
}

#[test]
fn replace_all_scans_leftmost_without_overlap() {
    assert_eq!(my_hacklab::text::replace_all("aaa", "aa", "b"), "ba");
    assert_eq!(my_hacklab::text::replace_all("abcabc", "bc", "X"), "aXaX");
    assert_eq!(my_hacklab::text::replace_all("abc", "", "X"), "abc");
    assert_eq!(my_hacklab::text::replace_all("abc", "b", ""), "ac");
}
