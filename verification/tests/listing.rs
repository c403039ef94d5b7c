use dmux::client::MultiplexerError;
use dmux::listing::{
    check_outcome, listed_sessions, parse_index, parse_panes, read_panes, split_lines,
};
use dmux::names::decimal_string;

#[test]
fn listing_is_split_into_lines() {
    assert_eq!(split_lines("dev\nwork\n"), vec!["dev", "work"]);
    assert_eq!(split_lines("dev\nwork"), vec!["dev", "work"]);
    assert_eq!(split_lines("a\n\nb\n"), vec!["a", "", "b"]);
    assert_eq!(split_lines("\n"), vec![""]);
    assert_eq!(split_lines(""), Vec::<String>::new());
    assert_eq!(split_lines("one line"), vec!["one line"]);
    for text in ["a\nb", "a\n", "\n\n", "x", "", "\na", "h\u{e9}\n\u{e9}"] {
        let expected: Vec<String> = text.split_terminator('\n').map(String::from).collect();
        assert_eq!(split_lines(text), expected, "{:?}", text);
    }
}

#[test]
fn index_is_read_from_decimal() {
    assert_eq!(parse_index("0"), Some(0));
    assert_eq!(parse_index("7"), Some(7));
    assert_eq!(parse_index("42"), Some(42));
    assert_eq!(parse_index("007"), Some(7));
    assert_eq!(parse_index(""), None);
    assert_eq!(parse_index("-1"), None);
    assert_eq!(parse_index("+1"), None);
    assert_eq!(parse_index("1 "), None);
    assert_eq!(parse_index("1a"), None);
    assert_eq!(parse_index("\u{661}"), None);
    assert_eq!(parse_index(&usize::MAX.to_string()), Some(usize::MAX));
    assert_eq!(parse_index(&format!("{}0", usize::MAX)), None);
    assert_eq!(parse_index("18446744073709551616"), None);
    assert_eq!(parse_index("99999999999999999999999999"), None);
}

#[test]
fn written_index_is_read_back() {
    for n in [0usize, 1, 9, 10, 99, 100, 255, 256, 65535, usize::MAX - 1, usize::MAX] {
        assert_eq!(parse_index(&decimal_string(n)), Some(n));
    }
}

#[test]
fn panes_are_read_line_by_line() {
    let panes = parse_panes("0\n1\n2\n").unwrap();
    assert_eq!(panes.iter().map(|pane| pane.index).collect::<Vec<usize>>(), vec![0, 1, 2]);
    let panes = parse_panes("1\n3").unwrap();
    assert_eq!(panes.iter().map(|pane| pane.index).collect::<Vec<usize>>(), vec![1, 3]);
    assert!(parse_panes("").unwrap().is_empty());
    assert!(parse_panes("0\nx\n2\n").is_none());
    assert!(parse_panes("0\n\n2\n").is_none());
    assert!(parse_panes("\n").is_none());
}

#[test]
fn failed_call_keeps_status_and_stderr() {
    assert!(check_outcome(true, Some(0), "ignored".to_owned()).is_ok());
    let error: MultiplexerError =
        check_outcome(false, Some(1), "can't find session: dev".to_owned()).unwrap_err();
    assert_eq!(error.status, Some(1));
    assert_eq!(error.stderr, "can't find session: dev");
    let killed = check_outcome(false, None, String::new()).unwrap_err();
    assert_eq!(killed.status, None);
}

#[test]
fn unreadable_panes_are_an_error_with_the_listing() {
    let panes = read_panes("0\n1\n".to_owned()).unwrap();
    assert_eq!(panes.iter().map(|pane| pane.index).collect::<Vec<usize>>(), vec![0, 1]);
    let error = read_panes("0\nnot a pane\n".to_owned()).unwrap_err();
    assert_eq!(error.status, None);
    assert_eq!(error.stderr, "0\nnot a pane\n");
}

#[test]
fn silent_server_runs_no_session() {
    assert_eq!(listed_sessions(true, "dev\nwork\n"), vec!["dev", "work"]);
    assert_eq!(listed_sessions(false, "dev\nwork\n"), Vec::<String>::new());
    assert_eq!(listed_sessions(true, ""), Vec::<String>::new());
}
