use airnc::cli::{check_cli, AirncConfig, Cli, CliError};

#[test]
fn default_config_keeps_service() {
    assert!(!AirncConfig::default().service_disable);
}

#[test]
fn path_is_required() {
    let cli = Cli { path: None, config: AirncConfig { service_disable: true } };
    let err = check_cli(cli).err().unwrap();
    assert_eq!(err, CliError::MissingPath);
    assert_eq!(err.message(), "🔺 File path can't null...");
}

#[test]
fn command_line_with_path_is_kept() {
    let cli = Cli { path: Some("a.txt".to_string()), config: AirncConfig { service_disable: true } };
    let cli = check_cli(cli).ok().unwrap();
    assert_eq!(cli.path.as_deref(), Some("a.txt"));
    assert!(cli.config.service_disable);
}
