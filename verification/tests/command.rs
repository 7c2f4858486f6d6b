use help_table::command::split_command;

#[test]
fn splits_program_and_arguments() {
    let parts = split_command("git --help");
    assert_eq!(parts, vec!["git", "--help"]);
}

#[test]
fn splits_many_arguments_in_order() {
    let parts = split_command("cargo build --release --quiet");
    assert_eq!(parts, vec!["cargo", "build", "--release", "--quiet"]);
}

#[test]
fn quoted_arguments_are_not_understood() {
    // a documented limitation: quoting does not protect an embedded space
    let parts = split_command("echo 'a b'");
    assert_eq!(parts, vec!["echo", "'a", "b'"]);
}

#[test]
fn consecutive_spaces_give_empty_parts() {
    let parts = split_command("ls  -l");
    assert_eq!(parts, vec!["ls", "", "-l"]);
}

#[test]
fn an_empty_string_is_one_empty_part() {
    let parts = split_command("");
    assert_eq!(parts, vec![""]);
}
