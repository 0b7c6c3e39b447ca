use sshkey_probe::types::{Arguments, LineEndings};
use sshkey_probe::wordlist::{chars_of, split_lines, text_of};

#[test]
fn file_name_after_last_slash() {
    assert_eq!(Arguments::get_file_name("/usr/share/wordlists/users.txt".to_string()), "users.txt");
    assert_eq!(Arguments::get_file_name("lists/pw.txt".to_string()), "pw.txt");
}

#[test]
fn file_name_after_last_backslash() {
    assert_eq!(Arguments::get_file_name("C:\\lists\\users.txt".to_string()), "users.txt");
}

#[test]
fn file_name_backslash_takes_precedence() {
    assert_eq!(Arguments::get_file_name("a\\b/c".to_string()), "b/c");
    assert_eq!(Arguments::get_file_name("a/b\\c".to_string()), "c");
}

#[test]
fn file_name_without_separator_is_unchanged() {
    assert_eq!(Arguments::get_file_name("users.txt".to_string()), "users.txt");
    assert_eq!(Arguments::get_file_name(String::new()), "");
}

#[test]
fn file_name_of_path_ending_in_separator_is_empty() {
    assert_eq!(Arguments::get_file_name("dir/".to_string()), "");
    assert_eq!(Arguments::get_file_name("dir\\".to_string()), "");
}

#[test]
fn file_name_keeps_non_ascii() {
    assert_eq!(Arguments::get_file_name("données/mots-clés.txt".to_string()), "mots-clés.txt");
}

#[test]
fn line_ending_lf() {
    assert_eq!(Arguments::get_line_ending("a\nb\n".to_string()), LineEndings::LR);
}

#[test]
fn line_ending_crlf() {
    assert_eq!(Arguments::get_line_ending("a\r\nb\r\n".to_string()), LineEndings::CRLF);
}

#[test]
fn line_ending_mixed_is_crlf() {
    assert_eq!(Arguments::get_line_ending("a\nb\r\nc".to_string()), LineEndings::CRLF);
    assert_eq!(Arguments::get_line_ending("a\r\nb\nc".to_string()), LineEndings::CRLF);
}

#[test]
fn line_ending_without_line_feed_is_crlf() {
    assert_eq!(Arguments::get_line_ending("single".to_string()), LineEndings::CRLF);
    assert_eq!(Arguments::get_line_ending(String::new()), LineEndings::CRLF);
    assert_eq!(Arguments::get_line_ending("a\rb".to_string()), LineEndings::CRLF);
}

#[test]
fn line_ending_separated_cr_and_lf_is_lf() {
    assert_eq!(Arguments::get_line_ending("a\rb\nc".to_string()), LineEndings::LR);
    assert_eq!(Arguments::get_line_ending("\n\r".to_string()), LineEndings::LR);
}

#[test]
fn split_on_lf() {
    assert_eq!(split_lines("alice\nbob", LineEndings::LR), vec!["alice", "bob"]);
    assert_eq!(split_lines("alice\nbob\n", LineEndings::LR), vec!["alice", "bob", ""]);
    assert_eq!(split_lines("\n\n", LineEndings::LR), vec!["", "", ""]);
}

#[test]
fn split_on_crlf() {
    assert_eq!(split_lines("alice\r\nbob", LineEndings::CRLF), vec!["alice", "bob"]);
    assert_eq!(split_lines("alice\r\nbob\r\n", LineEndings::CRLF), vec!["alice", "bob", ""]);
    assert_eq!(split_lines("a\nb\r\nc\r", LineEndings::CRLF), vec!["a\nb", "c\r"]);
}

#[test]
fn split_without_separator_is_one_line() {
    assert_eq!(split_lines("alice", LineEndings::LR), vec!["alice"]);
    assert_eq!(split_lines("alice", LineEndings::CRLF), vec!["alice"]);
    assert_eq!(split_lines("", LineEndings::LR), vec![""]);
}

#[test]
fn split_does_not_trim() {
    assert_eq!(split_lines(" a \n\tb", LineEndings::LR), vec![" a ", "\tb"]);
    assert_eq!(split_lines("a\r\nb", LineEndings::LR), vec!["a\r", "b"]);
}

#[test]
fn split_agrees_with_std() {
    let samples = ["", "a", "a\nb", "\n", "a\r\nb\r\n\r\nc", "\r\n", "\r\r\n\n", "x\ny\r\nz\n"];
    for sample in samples {
        let lf: Vec<String> = sample.split("\n").map(|s| s.to_string()).collect();
        let crlf: Vec<String> = sample.split("\r\n").map(|s| s.to_string()).collect();
        assert_eq!(split_lines(sample, LineEndings::LR), lf);
        assert_eq!(split_lines(sample, LineEndings::CRLF), crlf);
        assert_eq!(split_lines(sample, LineEndings::LR).join("\n"), sample);
        assert_eq!(split_lines(sample, LineEndings::CRLF).join("\r\n"), sample);
    }
}

#[test]
fn chars_and_text_round_trip() {
    let chars = chars_of("héllo wörld");
    assert_eq!(chars.len(), 11);
    assert_eq!(text_of(&chars, 0, 11), "héllo wörld");
    assert_eq!(text_of(&chars, 6, 11), "wörld");
    assert_eq!(text_of(&chars, 3, 3), "");
}
