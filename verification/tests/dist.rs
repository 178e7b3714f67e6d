use fluent_bit_language_server::dist::{
    artifact_name, client_version, dev_version_entry, is_linux_target, is_stable_release,
    is_up_to_date, is_windows_target, normalize_newlines, server_file_name, symbols_file_name,
    version_entry, Cli, Commands, Patch,
};

#[test]
fn version_depends_on_the_kind_of_release() {
    assert_eq!(client_version(true, "7"), "0.2.7");
    assert_eq!(client_version(false, "12"), "0.3.12");
    assert!(is_stable_release("workflow_dispatch"));
    assert!(!is_stable_release("push"));
    assert!(!is_stable_release(""));
}

#[test]
fn windows_targets_have_a_suffix_and_symbols() {
    assert!(is_windows_target("x86_64-pc-windows-msvc"));
    assert!(!is_windows_target("x86_64-unknown-linux-gnu"));
    assert!(is_linux_target("x86_64-unknown-linux-gnu"));
    assert!(!is_linux_target("aarch64-apple-darwin"));
    assert_eq!(server_file_name("x86_64-pc-windows-msvc"), "fluent-bit-language-server.exe");
    assert_eq!(server_file_name("aarch64-apple-darwin"), "fluent-bit-language-server");
    assert_eq!(
        symbols_file_name("x86_64-pc-windows-msvc"),
        Some("fluent_bit_language_server.pdb".to_string())
    );
    assert_eq!(symbols_file_name("x86_64-unknown-linux-gnu"), None);
    assert_eq!(
        artifact_name("x86_64-pc-windows-msvc"),
        "fluent-bit-language-server-x86_64-pc-windows-msvc.exe"
    );
    assert_eq!(
        artifact_name("x86_64-unknown-linux-gnu"),
        "fluent-bit-language-server-x86_64-unknown-linux-gnu"
    );
}

#[test]
fn line_endings_are_normalized() {
    assert_eq!(normalize_newlines("a\r\nb\n\rc\r\n"), "a\nb\n\rc\n");
    assert_eq!(normalize_newlines("\r\r\n\n"), "\r\n\n");
    assert_eq!(normalize_newlines(""), "");
    assert!(is_up_to_date("a\r\nb", "a\nb"));
    assert!(is_up_to_date("a\nb", "a\nb"));
    assert!(!is_up_to_date("a\rb", "a\nb"));
}

#[test]
fn patch_replaces_every_occurrence() {
    let mut patch = Patch::new("./package.json".to_string(), "{ \"version\": \"0.3.0-dev\" }".to_string());
    let from = dev_version_entry();
    assert_eq!(from, "\"version\": \"0.3.0-dev\"");
    assert!(patch.can_replace(&from));
    assert!(!patch.can_replace("\"version\": \"1"));
    patch.replace(&from, &version_entry("0.3.4"));
    assert_eq!(patch.contents, "{ \"version\": \"0.3.4\" }");
    assert_eq!(patch.original_contents, "{ \"version\": \"0.3.0-dev\" }");
    assert_eq!(patch.path, "./package.json");

    let mut twice = Patch::new("a".to_string(), "aaa-aa".to_string());
    assert!(twice.can_replace("aa"));
    twice.replace("aa", "b");
    assert_eq!(twice.contents, "ba-b");

    let mut between = Patch::new("a".to_string(), "abc".to_string());
    assert!(between.can_replace(""));
    between.replace("", "-");
    assert_eq!(between.contents, "-a-b-c-");
}

#[test]
fn commands_hold_their_options() {
    let cli = Cli { command: Commands::Dist { client_patch_version: Some("4".to_string()) } };
    assert_eq!(cli.command, Commands::Dist { client_patch_version: Some("4".to_string()) });
    assert_ne!(cli.command, Commands::Generate { flb_version: None });
}
