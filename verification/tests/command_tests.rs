use media_convert::Command;

#[test]
fn generates_command_line() {
    let mut command = Command::new("mkdir");
    command.arg("-p");
    command.arg("foo bar");
    assert_eq!(command.to_command_line(), "mkdir -p \"foo bar\"")
}

#[test]
fn new_command_has_no_args() {
    let command = Command::new("prog");
    assert_eq!(command.to_command_line(), "prog");
    assert_eq!(command.program(), "prog");
    assert!(command.arg_list().is_empty());
}

#[test]
fn args_appends_in_order() {
    let mut command = Command::new("tool");
    command.args(&["first", "second arg", "third"]);
    assert_eq!(command.to_command_line(), "tool first \"second arg\" third");
    assert_eq!(
        command.arg_list(),
        &vec!["first".to_string(), "second arg".to_string(), "third".to_string()],
    );
}

#[test]
fn quoting_only_wraps_arguments_with_spaces() {
    let mut command = Command::new("echo");
    command.arg("plain");
    command.arg("with space");
    command.arg("also-plain");
    assert_eq!(command.to_command_line(), "echo plain \"with space\" also-plain");
}

#[test]
fn same_as_compares_structurally() {
    let mut a = Command::new("mkdir");
    a.arg("-p");
    a.arg("foo");
    let mut b = Command::new("mkdir");
    b.args(&["-p", "foo"]);
    assert!(a.same_as(&b));

    let mut c = Command::new("mkdir");
    c.arg("-p");
    c.arg("bar");
    assert!(!a.same_as(&c));

    let d = Command::new("mkdir");
    assert!(!a.same_as(&d));

    let mut e = Command::new("rmdir");
    e.args(&["-p", "foo"]);
    assert!(!a.same_as(&e));
}
