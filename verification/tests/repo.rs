use dmux::repo::{dir_name_from, git_url_to_dir_name, last_piece, strip_git, DirNameError};

#[test]
fn git_url_to_dir_name_test() {
    assert_eq!(
        "dmux".to_string(),
        git_url_to_dir_name("https://github.com/zdcthomas/dmux").unwrap()
    );
    assert_eq!(
        "dmux".to_string(),
        git_url_to_dir_name("git@github.com:zdcthomas/dmux.git").unwrap()
    );
}

#[test]
fn url_segments_are_read_from_the_parsed_address() {
    assert_eq!(git_url_to_dir_name("https://github.com/a/b/../repo.git"), Ok("repo".to_owned()));
    assert_eq!(git_url_to_dir_name("https://example.com/x y"), Ok("x%20y".to_owned()));
    assert_eq!(git_url_to_dir_name("https://example.com"), Ok("".to_owned()));
    assert_eq!(git_url_to_dir_name("https://example.com/a/?q=/b.git"), Ok("".to_owned()));
}

#[test]
fn address_that_cannot_be_a_base_has_no_name() {
    assert_eq!(git_url_to_dir_name("data:text/plain,Hello"), Err(DirNameError::CannotBeBase));
    assert_eq!(git_url_to_dir_name("mailto:someone@example.com"), Err(DirNameError::CannotBeBase));
    assert_eq!(DirNameError::CannotBeBase.message(), "cannot be base");
    assert_eq!(DirNameError::NoSegments.message(), "no segments");
}

#[test]
fn dir_name_from_each_kind_of_parse() {
    let parts = vec!["zdcthomas".to_owned(), "dmux.git".to_owned()];
    assert_eq!(dir_name_from(Some(Some(parts)), "ignored/text"), Ok("dmux".to_owned()));
    assert_eq!(dir_name_from(Some(Some(vec![])), "x"), Err(DirNameError::NoSegments));
    assert_eq!(dir_name_from(Some(None), "x"), Err(DirNameError::CannotBeBase));
    assert_eq!(dir_name_from(None, "host:a/b.git"), Ok("b".to_owned()));
    assert_eq!(dir_name_from(None, "plain"), Ok("plain".to_owned()));
    assert_eq!(dir_name_from(None, "a/b/"), Ok("".to_owned()));
}

#[test]
fn strip_git_takes_every_occurrence_out() {
    assert_eq!(strip_git("dmux.git"), "dmux");
    assert_eq!(strip_git("dmux"), "dmux");
    assert_eq!(strip_git(".git.git"), "");
    assert_eq!(strip_git("a.gitb.gitc"), "abc");
    assert_eq!(strip_git("..gitgit"), ".git");
    assert_eq!(strip_git(".gi"), ".gi");
    assert_eq!(strip_git(""), "");
    for text in ["dmux.git", "..gitgit", ".git.git.", "x.gi.gitt", "\u{e9}.git\u{e9}"] {
        assert_eq!(strip_git(text), text.replace(".git", ""));
    }
}

#[test]
fn last_piece_is_behind_the_last_slash() {
    assert_eq!(last_piece("git@github.com:zdcthomas/dmux.git"), "dmux.git");
    assert_eq!(last_piece("no-slash"), "no-slash");
    assert_eq!(last_piece("ends/with/"), "");
    assert_eq!(last_piece(""), "");
    for text in ["a/b/c", "/", "//x", "x"] {
        assert_eq!(last_piece(text), text.split('/').last().unwrap());
    }
}
