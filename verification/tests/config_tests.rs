use uptodate::config::{
    check_custom_command, check_source_name, validate_custom_command, validate_source_name, Config,
    ConfigError, CustomCommand,
};
use uptodate::APP_ID;

#[test]
fn test_config_default() {
    let config = Config::default();

    assert!(!config.dry_run);
    assert!(config.save_logs);
    assert!(config.enabled_sources.is_empty());
    assert!(config.custom_commands.is_empty());
    assert!(config.logs_dir.ends_with("uptodate"));
}

#[test]
fn test_validate_source_name_valid() {
    assert!(validate_source_name("flatpak").is_ok());
    assert!(validate_source_name("my-custom_manager").is_ok());
    assert!(validate_source_name("apt").is_ok());
    assert!(validate_source_name("npm").is_ok());
}

#[test]
fn test_validate_source_name_invalid() {
    assert!(validate_source_name("").is_err());
    assert!(validate_source_name("   ").is_err());
    assert!(validate_source_name("invalid name with spaces").is_err());
    assert!(validate_source_name("name@with$special!chars").is_err());
    assert!(validate_source_name(&"a".repeat(51)).is_err()); // Too long
}

#[test]
fn test_validate_custom_command_valid() {
    assert!(validate_custom_command("Update Rust", "rustup update").is_ok());
    assert!(validate_custom_command("Test", "echo hello").is_ok());
    assert!(validate_custom_command("npm", "npm update -g").is_ok());
}

#[test]
fn test_validate_custom_command_invalid() {
    // Empty name or command
    assert!(validate_custom_command("", "rustup update").is_err());
    assert!(validate_custom_command("Test", "").is_err());

    // Too long
    assert!(validate_custom_command(&"a".repeat(101), "test").is_err());
    assert!(validate_custom_command("Test", &"a".repeat(1001)).is_err());

    // Dangerous patterns
    assert!(validate_custom_command("Test", "rm -rf /").is_err());
    assert!(validate_custom_command("Test", "sudo rm something").is_err());
    assert!(validate_custom_command("Test", "dd if=/dev/zero").is_err());

    // Command injection
    assert!(validate_custom_command("Test", "echo hello && rm file").is_err());
    assert!(validate_custom_command("Test", "echo hello || rm file").is_err());
    assert!(validate_custom_command("Test", "echo hello; rm file").is_err());
    assert!(validate_custom_command("Test", "echo hello | rm file").is_err());
}

#[test]
fn test_config_source_management() {
    let mut config = Config::default();

    // Test setting sources
    config.set_source_enabled("flatpak", true).unwrap();
    config.set_source_enabled("snap", false).unwrap();

    assert!(config.is_source_enabled("flatpak"));
    assert!(!config.is_source_enabled("snap"));
    assert!(config.is_source_enabled("unknown")); // Default to true

    // Test getting enabled sources
    let enabled = config.get_enabled_sources();
    assert!(enabled.contains(&"flatpak".to_string()));
    assert!(!enabled.contains(&"snap".to_string()));
}

#[test]
fn test_config_custom_commands() {
    let mut config = Config::default();

    // Test adding valid command
    config
        .add_custom_command("Update Rust".to_string(), "rustup update".to_string())
        .unwrap();

    let commands = config.get_enabled_custom_commands();
    assert_eq!(commands.len(), 1);
    assert_eq!(commands[0].name, "Update Rust");
    assert_eq!(commands[0].command, "rustup update");
    assert!(commands[0].enabled);

    // Test adding invalid command should fail
    assert!(config
        .add_custom_command("Dangerous".to_string(), "rm -rf /".to_string())
        .is_err());
}

#[test]
fn test_custom_command_struct() {
    let cmd = CustomCommand {
        name: "Test".to_string(),
        command: "echo test".to_string(),
        enabled: false,
    };

    assert_eq!(cmd.name, "Test");
    assert_eq!(cmd.command, "echo test");
    assert!(!cmd.enabled);
}

#[test]
fn test_app_id_constant() {
    assert_eq!(APP_ID, "org.gnome.UpToDate");
    assert!(APP_ID.starts_with("org.gnome."));
}

#[test]
fn source_name_errors_are_exact() {
    assert_eq!(validate_source_name(""), Err(ConfigError::EmptySourceName));
    assert_eq!(validate_source_name(" \t\n"), Err(ConfigError::EmptySourceName));
    assert_eq!(
        validate_source_name(&"a".repeat(51)),
        Err(ConfigError::SourceNameTooLong("a".repeat(51)))
    );
    assert_eq!(validate_source_name(&"a".repeat(50)), Ok(()));
    assert_eq!(
        validate_source_name("two words"),
        Err(ConfigError::InvalidSourceName("two words".to_string()))
    );
}

#[test]
fn source_name_is_trimmed_before_it_is_checked() {
    assert_eq!(validate_source_name("  flatpak\n"), Ok(()));
    assert_eq!(
        validate_source_name("  a b  "),
        Err(ConfigError::InvalidSourceName("a b".to_string()))
    );
    // Untrimmed, the name would be refused for its spaces.
    assert!(check_source_name("  flatpak\n").is_err());
}

#[test]
fn source_name_accepts_letters_and_digits_of_any_script() {
    assert_eq!(validate_source_name("pakete-für_9"), Ok(()));
    assert_eq!(
        validate_source_name("a.b"),
        Err(ConfigError::InvalidSourceName("a.b".to_string()))
    );
}

#[test]
fn source_name_length_counts_bytes() {
    // 26 letters of two bytes each are 52 bytes.
    let name = "é".repeat(26);
    assert_eq!(
        validate_source_name(&name),
        Err(ConfigError::SourceNameTooLong(name.clone()))
    );
    assert_eq!(validate_source_name(&"é".repeat(25)), Ok(()));
}

#[test]
fn custom_command_errors_are_exact() {
    assert_eq!(
        validate_custom_command("  ", "rustup update"),
        Err(ConfigError::EmptyCommandName)
    );
    assert_eq!(
        validate_custom_command(&"n".repeat(101), "rustup update"),
        Err(ConfigError::CommandNameTooLong("n".repeat(101)))
    );
    assert_eq!(validate_custom_command(&"n".repeat(100), "rustup update"), Ok(()));
    assert_eq!(validate_custom_command("Test", "  "), Err(ConfigError::EmptyCommand));
    assert_eq!(
        validate_custom_command("Test", &"a".repeat(1001)),
        Err(ConfigError::CommandTooLong)
    );
    assert_eq!(validate_custom_command("Test", &"a".repeat(1000)), Ok(()));
    assert_eq!(
        validate_custom_command("Test", "rm -rf /"),
        Err(ConfigError::DangerousPattern("rm -rf".to_string()))
    );
    assert_eq!(
        validate_custom_command("Test", "echo x > /dev/sda"),
        Err(ConfigError::DangerousPattern("> /dev/".to_string()))
    );
    assert_eq!(
        validate_custom_command("Test", "echo a | cat"),
        Err(ConfigError::ShellInjection)
    );
}

#[test]
fn dangerous_patterns_are_found_in_any_case() {
    assert_eq!(
        validate_custom_command("Test", "SUDO RM file"),
        Err(ConfigError::DangerousPattern("sudo rm".to_string()))
    );
    assert_eq!(
        validate_custom_command("Test", "MkFs.ext4 disk"),
        Err(ConfigError::DangerousPattern("mkfs".to_string()))
    );
    // The check on the lowered text is what finds it.
    assert_eq!(check_custom_command("Test", "MKFS", "MKFS"), Ok(()));
    assert_eq!(
        check_custom_command("Test", "MKFS", "mkfs"),
        Err(ConfigError::DangerousPattern("mkfs".to_string()))
    );
}

#[test]
fn first_dangerous_pattern_of_the_list_is_reported() {
    assert_eq!(
        validate_custom_command("Test", "fdisk then rm -rf"),
        Err(ConfigError::DangerousPattern("rm -rf".to_string()))
    );
    assert_eq!(
        validate_custom_command("Test", "parted && fdisk"),
        Err(ConfigError::DangerousPattern("fdisk".to_string()))
    );
}

#[test]
fn config_error_messages() {
    assert_eq!(ConfigError::EmptySourceName.message(), "Source name cannot be empty");
    assert_eq!(
        ConfigError::SourceNameTooLong("abc".to_string()).message(),
        "Source name too long (max 50 characters): abc"
    );
    assert_eq!(
        ConfigError::InvalidSourceName("a b".to_string()).message(),
        "Invalid characters in source name: 'a b'. Only alphanumeric, hyphens, and underscores allowed"
    );
    assert_eq!(
        ConfigError::EmptyCommandName.message(),
        "Custom command name cannot be empty"
    );
    assert_eq!(
        ConfigError::CommandNameTooLong("n".to_string()).message(),
        "Custom command name too long (max 100 characters): n"
    );
    assert_eq!(ConfigError::EmptyCommand.message(), "Custom command cannot be empty");
    assert_eq!(
        ConfigError::CommandTooLong.message(),
        "Custom command too long (max 1000 characters)"
    );
    assert_eq!(
        ConfigError::DangerousPattern("mkfs".to_string()).message(),
        "Command contains potentially dangerous pattern: 'mkfs'"
    );
    assert_eq!(
        ConfigError::ShellInjection.message(),
        "Command contains shell injection patterns"
    );
}

#[test]
fn setting_a_source_twice_keeps_one_entry() {
    let mut config = Config::default();
    config.set_source_enabled("flatpak", true).unwrap();
    config.set_source_enabled("snap", true).unwrap();
    config.set_source_enabled("flatpak", false).unwrap();

    assert_eq!(config.enabled_sources.len(), 2);
    assert!(!config.is_source_enabled("flatpak"));
    assert!(config.is_source_enabled("snap"));
    assert_eq!(config.get_enabled_sources(), vec!["snap".to_string()]);
}

#[test]
fn refused_source_name_changes_nothing() {
    let mut config = Config::default();
    config.set_source_enabled("flatpak", false).unwrap();
    assert_eq!(
        config.set_source_enabled("not valid", true),
        Err(ConfigError::InvalidSourceName("not valid".to_string()))
    );
    assert_eq!(config.enabled_sources, vec![("flatpak".to_string(), false)]);
}

#[test]
fn source_is_stored_under_the_name_as_given() {
    let mut config = Config::default();
    config.set_source_enabled(" snap ", false).unwrap();
    assert!(!config.is_source_enabled(" snap "));
    assert!(config.is_source_enabled("snap"));
}

#[test]
fn only_enabled_custom_commands_are_listed() {
    let mut config = Config::default();
    config
        .add_custom_command("One".to_string(), "echo one".to_string())
        .unwrap();
    config
        .add_custom_command("Two".to_string(), "echo two".to_string())
        .unwrap();
    config
        .add_custom_command("Three".to_string(), "echo three".to_string())
        .unwrap();
    config.custom_commands[1].enabled = false;

    let listed = config.get_enabled_custom_commands();
    assert_eq!(listed.len(), 2);
    assert_eq!(listed[0], config.custom_commands[0]);
    assert_eq!(listed[1], config.custom_commands[2]);
}

#[test]
fn default_logs_dir_is_the_application_directory() {
    let with_base = Config::with_data_dir(Some(std::path::PathBuf::from("/home/user/.local/share")));
    assert_eq!(
        with_base.logs_dir,
        std::path::PathBuf::from("/home/user/.local/share/uptodate")
    );
    let without_base = Config::with_data_dir(None);
    assert_eq!(without_base.logs_dir, std::path::PathBuf::from("/tmp/uptodate"));
}

#[test]
fn settings_with_two_entries_for_one_source_are_not_well_formed() {
    let mut config = Config::default();
    assert!(config.is_well_formed());
    config.set_source_enabled("flatpak", true).unwrap();
    config.set_source_enabled("snap", false).unwrap();
    assert!(config.is_well_formed());
    config.enabled_sources.push(("flatpak".to_string(), false));
    assert!(!config.is_well_formed());
    assert_eq!(config.find_source("flatpak"), Some(0));
    assert_eq!(config.find_source("snap"), Some(1));
    assert_eq!(config.find_source("apt"), None);
}
