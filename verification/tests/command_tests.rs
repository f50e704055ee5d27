use derivegen::command::Command;

#[test]
fn command_builds_with_arguments_in_call_order() {
    let mut b = Command::builder();
    b.executable("bash".to_string());
    b.arg("/c".to_string());
    b.arg("whoami".to_string());
    b.env("LANG=C".to_string());
    let command = b.build().unwrap();
    assert_eq!(command.executable, "bash");
    assert_eq!(command.args, vec!["/c".to_string(), "whoami".to_string()]);
    assert_eq!(command.env, vec!["LANG=C".to_string()]);
    assert_eq!(command.current_dir, None);
}

#[test]
fn command_builder_chains() {
    let command = Command::builder()
        .executable("bash".to_string())
        .arg("/c".to_string())
        .arg("whoami".to_string())
        .env("LANG=C".to_string())
        .build()
        .unwrap();
    assert_eq!(command.executable, "bash");
    assert_eq!(command.args, vec!["/c".to_string(), "whoami".to_string()]);
}

#[test]
fn command_without_executable_fails_naming_it() {
    let mut b = Command::builder();
    b.arg("/c".to_string());
    let e = b.build().unwrap_err();
    assert_eq!(e.field, "executable");
    assert_eq!(e.message(), "value is not set: executable");
}

#[test]
fn command_optional_directory_is_kept_when_set() {
    let mut b = Command::builder();
    b.executable("ls".to_string());
    b.current_dir("/tmp".to_string());
    let command = b.build().unwrap();
    assert_eq!(command.current_dir, Some("/tmp".to_string()));
}

#[test]
fn command_whole_container_setter_overwrites_arguments() {
    let mut b = Command::builder();
    b.executable("ls".to_string());
    b.arg("dropped".to_string());
    b.args(vec!["kept".to_string()]);
    let command = b.build().unwrap();
    assert_eq!(command.args, vec!["kept".to_string()]);
}

#[test]
fn command_build_consumes_the_builder() {
    let mut b = Command::builder();
    b.executable("ls".to_string());
    b.arg("-l".to_string());
    assert!(b.build().is_ok());
    let e = b.build().unwrap_err();
    assert_eq!(e.field, "executable");
}
