use codemark::cli::external::{executable_name, not_found_message};

#[test]
fn subcommands_map_to_codemark_prefixed_binary() {
    assert_eq!(executable_name("tui"), "codemark-tui");
    assert_eq!(executable_name("export"), "codemark-export");
    assert_eq!(executable_name("sync"), "codemark-sync");
}

#[test]
fn tui_not_found_message_points_at_install_command() {
    let msg = not_found_message("codemark-tui", "tui");
    assert!(msg.contains("TUI is not installed"), "{msg}");
    assert!(msg.contains("cargo install codemark-tui"), "{msg}");
}

#[test]
fn generic_plugin_not_found_message_names_the_executable() {
    let msg = not_found_message("codemark-export", "export");
    assert!(msg.contains("Unknown command: export"), "{msg}");
    assert!(msg.contains("codemark-export"), "{msg}");
}
