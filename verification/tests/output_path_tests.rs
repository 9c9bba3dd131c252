use media_convert::create_folder_for_file_path_command;
use media_convert::parse;

#[test]
fn parse_simple() {
    assert_eq!(parse("foo.bar", "txt"), Some("converted/foo.txt".to_string()),);
}

#[test]
fn parse_relative_folder() {
    assert_eq!(parse("bla/foo.bar", "txt"), Some("converted/bla/foo.txt".to_string()),);
}

#[test]
fn mkdir() {
    assert_eq!(create_folder_for_file_path_command("something.txt"), None);
    assert_eq!(
        create_folder_for_file_path_command("foo/something.txt").map(|o| o.to_command_line()),
        Some("mkdir -p foo".to_string())
    );
}

#[test]
fn parse_nested_folders() {
    assert_eq!(parse("a/b/c.d", "txt"), Some("converted/a/b/c.txt".to_string()));
}

#[test]
fn parse_keeps_leading_dot_name_whole() {
    assert_eq!(parse(".bar", "txt"), Some("converted/.bar.txt".to_string()));
}

#[test]
fn parse_without_extension_keeps_stem() {
    assert_eq!(parse("foo", "jpg"), Some("converted/foo.jpg".to_string()));
}

#[test]
fn parse_rejects_empty_stem() {
    assert_eq!(parse("", "txt"), None);
    assert_eq!(parse("foo/", "txt"), None);
}

#[test]
fn mkdir_for_nested_output() {
    assert_eq!(
        create_folder_for_file_path_command("converted/bla/foo.txt").map(|o| o.to_command_line()),
        Some("mkdir -p converted/bla".to_string())
    );
}
