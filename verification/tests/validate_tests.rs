use media_convert::InputFileError;
use media_convert::check_input_file;
use media_convert::check_input_files;

#[test]
fn rejects_absolute_path() {
    assert_eq!(check_input_file("/etc/passwd.txt", true), Err(InputFileError::Absolute));
}

#[test]
fn rejects_missing_file() {
    assert_eq!(check_input_file("missing.txt", false), Err(InputFileError::NotAFile));
}

#[test]
fn rejects_traversal_segment() {
    assert_eq!(check_input_file("a/../b.txt", true), Err(InputFileError::Traversal));
    assert_eq!(check_input_file("../b.txt", true), Err(InputFileError::Traversal));
}

#[test]
fn accepts_relative_existing_file() {
    assert_eq!(check_input_file("a/b.txt", true), Ok(()));
    assert_eq!(check_input_file("plain.txt", true), Ok(()));
}

#[test]
fn absolute_is_reported_before_existence() {
    assert_eq!(check_input_file("/abs.txt", false), Err(InputFileError::Absolute));
}

#[test]
fn reports_first_offending_path() {
    let paths = vec!["good.txt".to_string(), "../bad.txt".to_string(), "/worse.txt".to_string()];
    let is_file = vec![true, true, true];
    assert_eq!(check_input_files(&paths, &is_file), Err((1, InputFileError::Traversal)));
}

#[test]
fn accepts_whole_valid_list() {
    let paths = vec!["one.png".to_string(), "dir/two.png".to_string()];
    let is_file = vec![true, true];
    assert_eq!(check_input_files(&paths, &is_file), Ok(()));
}
