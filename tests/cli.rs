use megadl::cli::DownloadArgs;

fn args(path: Option<&str>, email: Option<&str>, password: Option<&str>) -> DownloadArgs {
    DownloadArgs {
        url: "https://example.test/folder/A".to_string(),
        path: path.map(|s| s.to_string()),
        email: email.map(|s| s.to_string()),
        password: password.map(|s| s.to_string()),
        mfa: None,
    }
}

#[test]
fn login_needs_email_and_password() {
    assert!(args(None, Some("a@b.c"), Some("pw")).wants_login());
    assert!(!args(None, Some("a@b.c"), None).wants_login());
    assert!(!args(None, None, Some("pw")).wants_login());
    assert!(!args(None, None, None).wants_login());
}

#[test]
fn destination_defaults_to_name() {
    assert_eq!(args(None, None, None).destination(&"f.bin".to_string()), "f.bin");
}

#[test]
fn destination_inside_directory() {
    assert_eq!(args(Some("out"), None, None).destination(&"f.bin".to_string()), "out/f.bin");
}
