use zynsearch::daemon_config::{
    apply_cli_overrides, apply_env_file_overrides, config_path_from_cli, AppConfig, CliArgs, IngestionMode, OutputFormat,
    ProtocolMode,
};

fn no_daemon_options() -> CliArgs {
    CliArgs {
        config: None,
        env_path: None,
        host: None,
        port: None,
        db_path: None,
        corpus_dir: None,
        output_format: None,
        protocol: None,
        ingestion: None,
        s3_bucket: None,
        s3_prefix: None,
        query: None,
    }
}

#[test]
fn daemon_defaults_and_overrides() {
    let mut c = AppConfig::default();
    assert_eq!(c.host, "127.0.0.1");
    assert_eq!(c.port, 7777);
    assert_eq!(c.db_path, "index.bin");
    assert_eq!(c.corpus_dir, "./");
    assert_eq!(c.output_format, OutputFormat::Text);
    assert_eq!(c.protocol, ProtocolMode::Tcp);
    assert_eq!(c.ingestion, IngestionMode::LocalDir);
    assert_eq!(c.config_path, "zynsearch.config.json");

    apply_env_file_overrides(&mut c, "ZYN_PORT=9\nZYN_FORMAT=json\nZYN_DISTRIBUTION=http\nZYN_S3_BUCKET=b\n");
    assert_eq!(c.port, 9);
    assert_eq!(c.output_format, OutputFormat::Json);
    assert_eq!(c.s3_bucket.as_deref(), Some("b"));

    let mut cli = no_daemon_options();
    cli.port = Some(10);
    cli.query = Some("fast car".to_string());
    apply_cli_overrides(&mut c, &cli, "d.json".to_string());
    assert_eq!(c.port, 10);
    assert_eq!(c.query.as_deref(), Some("fast car"));
    assert_eq!(c.config_path, "d.json");
    assert_eq!(c.output_format, OutputFormat::Json);
}

#[test]
fn daemon_configuration_file_defaults_to_the_usual_name() {
    let mut cli = no_daemon_options();
    assert_eq!(config_path_from_cli(&cli), "zynsearch.config.json");
    cli.config = Some("other.json".to_string());
    assert_eq!(config_path_from_cli(&cli), "other.json");
}
