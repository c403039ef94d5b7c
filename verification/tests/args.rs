use dmux::args::{
    build_app, build_workspace_args, check_multiplexer, default_commands,
    default_layout_checksum, default_number_of_panes, default_session_name, default_window_name,
    open_selected_dir, same_text, select_dir, CommandType, OpenArgs, Overrides,
    PreconditionError, PullArgs, SelectArgs, UsageError, WorkSpaceArgs,
};
use dmux::layout::{generate_layout, is_space_char};
use dmux::select::{
    all_dirs_in_path, is_git_dir, offers_entry, output_to_pathbuf, Listing, Selector, MAX_DEPTH,
};

fn settings() -> WorkSpaceArgs {
    WorkSpaceArgs::defaults("/home/u".to_owned())
}

fn nothing_given() -> Overrides {
    Overrides {
        layout: None,
        session_name: None,
        number_of_panes: None,
        search_dir: None,
        commands: None,
        window_name: None,
    }
}

#[test]
fn defaults_are_the_documented_ones() {
    assert_eq!(default_layout_checksum(), "34ed,230x56,0,0{132x56,0,0,3,97x56,133,0,222}");
    assert_eq!(default_session_name(), "dev");
    assert_eq!(default_number_of_panes(), 2);
    assert_eq!(default_commands(), vec!["vim".to_owned(), "ls".to_owned()]);
    assert_eq!(default_window_name(), None);
    let all = settings();
    assert_eq!(all.layout, default_layout_checksum());
    assert_eq!(all.session_name, "dev");
    assert_eq!(all.number_of_panes, 2);
    assert_eq!(all.search_dir, "/home/u");
    assert_eq!(all.commands, default_commands());
    assert_eq!(all.window_name, None);
}

#[test]
fn command_line_takes_the_place_of_the_settings() {
    let merged = build_workspace_args(nothing_given(), settings());
    assert_eq!(merged.session_name, "dev");
    assert_eq!(merged.number_of_panes, 2);
    assert_eq!(merged.search_dir, "/home/u");
    assert_eq!(merged.window_name, None);
    let given = Overrides {
        layout: Some("L".to_owned()),
        session_name: Some("work".to_owned()),
        number_of_panes: Some(4),
        search_dir: Some("/srv".to_owned()),
        commands: Some(vec!["htop".to_owned()]),
        window_name: Some("w".to_owned()),
    };
    let merged = build_workspace_args(given, settings());
    assert_eq!(merged.layout, "L");
    assert_eq!(merged.session_name, "work");
    assert_eq!(merged.number_of_panes, 4);
    assert_eq!(merged.search_dir, "/srv");
    assert_eq!(merged.commands, vec!["htop".to_owned()]);
    assert_eq!(merged.window_name, Some("w".to_owned()));
}

#[test]
fn configured_window_name_is_not_used() {
    let mut configured = settings();
    configured.window_name = Some("from-settings".to_owned());
    let merged = build_workspace_args(nothing_given(), configured);
    assert_eq!(merged.window_name, None);
}

#[test]
fn named_directory_comes_before_the_piped_one() {
    assert_eq!(select_dir(Some("a".to_owned()), Some("b".to_owned())), Some("a".to_owned()));
    assert_eq!(select_dir(None, Some("b".to_owned())), Some("b".to_owned()));
    assert_eq!(select_dir(Some("a".to_owned()), None), Some("a".to_owned()));
    assert_eq!(select_dir(None, None), None);
}

#[test]
fn build_app_decides_by_subcommand() {
    let home = || "/home/u".to_owned();
    match build_app(None, settings(), Some("/tmp/x".to_owned()), None, home()) {
        Ok(CommandType::Open(OpenArgs { selected_dir, workspace })) => {
            assert_eq!(selected_dir, "/tmp/x");
            assert_eq!(workspace.session_name, "dev");
        }
        other => panic!("unexpected command {:?}", other),
    }
    assert!(matches!(
        build_app(None, settings(), None, None, home()),
        Ok(CommandType::Select(SelectArgs { .. }))
    ));
    match build_app(Some("clone"), settings(), None, Some("git@h:a/b.git".to_owned()), home()) {
        Ok(CommandType::Pull(PullArgs { repo_url, target_dir, .. })) => {
            assert_eq!(repo_url, "git@h:a/b.git");
            assert_eq!(target_dir, "/home/u");
        }
        other => panic!("unexpected command {:?}", other),
    }
    assert!(matches!(
        build_app(Some("clone"), settings(), None, None, home()),
        Err(UsageError::NoRepository)
    ));
    assert!(matches!(
        build_app(Some("layout"), settings(), Some("/x".to_owned()), None, home()),
        Ok(CommandType::Layout)
    ));
    assert!(matches!(
        build_app(Some("layouts"), settings(), None, None, home()),
        Err(UsageError::UnexpectedSubcommand)
    ));
    assert_eq!(UsageError::UnexpectedSubcommand.message(), "unexpected subcommand");
    assert_eq!(UsageError::NoRepository.message(), "No repo specified, what should I clone?");
}

#[test]
fn same_text_compares_characters() {
    assert!(same_text("clone", "clone"));
    assert!(!same_text("clone", "clon"));
    assert!(same_text("", ""));
}

#[test]
fn preconditions_are_checked_in_order() {
    let layout = CommandType::Layout;
    let select = CommandType::Select(SelectArgs { workspace: settings() });
    assert_eq!(
        check_multiplexer(&layout, false, false),
        Err(PreconditionError::MultiplexerUnavailable)
    );
    assert_eq!(
        check_multiplexer(&select, false, true),
        Err(PreconditionError::MultiplexerUnavailable)
    );
    assert_eq!(check_multiplexer(&layout, true, false), Err(PreconditionError::OutsideClient));
    assert_eq!(check_multiplexer(&layout, true, true), Ok(()));
    assert_eq!(check_multiplexer(&select, true, false), Ok(()));
    assert_eq!(PreconditionError::MultiplexerUnavailable.message(), "Tmux is not installed.");
}

#[test]
fn open_selected_dir_builds_the_workspace() {
    let config = OpenArgs { workspace: settings(), selected_dir: "/home/u/proj".to_owned() };
    let workspace = open_selected_dir(config, true).unwrap();
    assert_eq!(workspace.path, "/home/u/proj");
    assert_eq!(workspace.session_name, "dev");
    assert_eq!(workspace.format_checksum, default_layout_checksum());
    assert_eq!(workspace.commands, default_commands());
    assert_eq!(workspace.window_name, None);
    assert_eq!(workspace.number_of_panes, 2);
    assert_eq!(workspace.window_name(), "proj");
}

#[test]
fn open_selected_dir_refuses_what_cannot_be_opened() {
    let missing = OpenArgs { workspace: settings(), selected_dir: "/nowhere".to_owned() };
    assert_eq!(open_selected_dir(missing, false).unwrap_err(), PreconditionError::DirectoryMissing);
    let root = OpenArgs { workspace: settings(), selected_dir: "/".to_owned() };
    assert_eq!(open_selected_dir(root, true).unwrap_err(), PreconditionError::WindowUnnamed);
    let mut unnamed = settings();
    unnamed.session_name = String::new();
    let config = OpenArgs { workspace: unnamed, selected_dir: "/".to_owned() };
    assert_eq!(open_selected_dir(config, true).unwrap_err(), PreconditionError::SessionUnnamed);
    assert_eq!(PreconditionError::SessionUnnamed.message(), "the session has no name");
    assert_eq!(PreconditionError::DirectoryMissing.message(), "the selected directory isn't a valid path");
    assert_eq!(PreconditionError::WindowUnnamed.message(), "the selected directory has no name");
    let mut named = settings();
    named.window_name = Some("root".to_owned());
    let root = OpenArgs { workspace: named, selected_dir: "/".to_owned() };
    assert_eq!(open_selected_dir(root, true).unwrap().window_name(), "root");
}

#[test]
fn selector_lists_with_fd_where_it_can() {
    let with_fd = Selector::new("/home/u", true);
    assert_eq!(with_fd.select_dir(), Listing::Fd);
    assert_eq!(with_fd.fd_arguments(), vec!["-td", ".", "/home/u"]);
    let without = Selector::new("/home/u", false);
    assert_eq!(without.select_dir(), Listing::WalkDir);
    assert_eq!(without.search_dir, "/home/u");
    assert_eq!(MAX_DEPTH, 4);
}

#[test]
fn git_directories_are_not_offered() {
    assert!(is_git_dir(Some(".git")));
    assert!(is_git_dir(Some("legit")));
    assert!(is_git_dir(Some("git")));
    assert!(is_git_dir(Some("my-github-page")));
    assert!(!is_git_dir(Some("gi")));
    assert!(!is_git_dir(Some("g-i-t")));
    assert!(!is_git_dir(Some("")));
    assert!(!is_git_dir(Some("tig")));
    assert!(!is_git_dir(None));
    assert!(offers_entry(true, Some("src")));
    assert!(offers_entry(true, None));
    assert!(!offers_entry(true, Some(".git")));
    assert!(!offers_entry(false, Some("src")));
}

#[test]
fn candidates_are_written_one_per_line() {
    assert_eq!(all_dirs_in_path(&vec![]), "");
    assert_eq!(all_dirs_in_path(&vec!["/a".to_owned()]), "\n/a");
    assert_eq!(
        all_dirs_in_path(&vec!["/a".to_owned(), "/a/b".to_owned(), "/c d".to_owned()]),
        "\n/a\n/a/b\n/c d"
    );
}

#[test]
fn finder_output_loses_its_line_break() {
    assert_eq!(output_to_pathbuf(true, b"/home/u/proj\n".to_vec()), Some(b"/home/u/proj".to_vec()));
    assert_eq!(output_to_pathbuf(true, vec![]), Some(vec![]));
    assert_eq!(output_to_pathbuf(false, b"/home/u/proj\n".to_vec()), None);
}

#[test]
fn active_layout_is_read_from_the_listing() {
    let listing = "0 c3bd,230x56,0,0,1\n1 34ed,230x56,0,0{132x56,0,0,3,97x56,133,0,222}\n0 x\n";
    assert_eq!(
        generate_layout(listing),
        Some("34ed,230x56,0,0{132x56,0,0,3,97x56,133,0,222}".to_owned())
    );
    assert_eq!(generate_layout("1 first\n1 second"), Some("first".to_owned()));
    assert_eq!(generate_layout("1 a b  c \t"), Some("c".to_owned()));
    assert_eq!(generate_layout("1"), Some("1".to_owned()));
    assert_eq!(generate_layout("0 a\n\n1x"), Some("1x".to_owned()));
    assert_eq!(generate_layout("0 a\n 1 b"), None);
    assert_eq!(generate_layout("0 1 a"), None);
    assert_eq!(generate_layout(""), None);
}

#[test]
fn active_layout_agrees_with_splitting_by_std() {
    for listing in ["1 a\u{a0}b", "0\n1\u{2003}x y\u{3000}", "1 \u{85}z\r\n", "x\n1 a\u{200b}b"] {
        let expected = listing
            .split('\n')
            .find(|line| line.starts_with('1'))
            .and_then(|line| line.split_whitespace().last())
            .map(|word| word.to_owned());
        assert_eq!(generate_layout(listing), expected, "{:?}", listing);
    }
    for code in 0..0x3100u32 {
        if let Some(c) = char::from_u32(code) {
            assert_eq!(is_space_char(c), c.is_whitespace(), "{:?}", c);
        }
    }
}
