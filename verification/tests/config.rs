use zynsearch::config::{
    apply_cli_overrides, apply_env_file_overrides, finish_app_config, resolve_config_path, AppConfig, CliArgs,
    DistributionChannel, DistributionConfig, IngestionMode, OutputFormat, ProtocolMode,
};

fn no_options() -> CliArgs {
    CliArgs {
        config: None,
        env_path: None,
        host: None,
        port: None,
        db_path: None,
        corpus_dir: None,
        output_format: None,
        protocol: None,
        ingestion: None,
        distribution: vec![],
        s3_bucket: None,
        s3_prefix: None,
        query: None,
        enable_periodic_cleanup: None,
        cleanup_interval_seconds: None,
    }
}

#[test]
fn defaults_match_the_documented_values() {
    let c = AppConfig::default();
    assert_eq!(c.runtime.host, "127.0.0.1");
    assert_eq!(c.runtime.port, 7777);
    assert_eq!(c.runtime.protocol, ProtocolMode::Tcp);
    assert_eq!(c.runtime.output_format, OutputFormat::Text);
    assert_eq!(c.ingestion.mode, IngestionMode::LocalDir);
    assert_eq!(c.ingestion.corpus_dir, "./");
    assert_eq!(c.storage.db_path, "index.bin");
    assert_eq!(c.distribution.channels, vec![DistributionChannel::Tcp]);
    assert_eq!(c.manifest.name, "zynsearch");
    assert_eq!(c.manifest.version, "1.0.0");
    assert_eq!(c.manifest.description, "Plug-and-play search engine");
    assert!(c.cleanup.enable_periodic_cleanup);
    assert_eq!(c.cleanup.period_seconds, 60);
    assert_eq!(c.config_path, "zynsearch.config.json");
    assert_eq!(c.env_path, None);
}

#[test]
fn env_file_entries_override_in_order() {
    let mut c = AppConfig::default();
    let contents = "# local settings\n\
        ZYN_HOST = 0.0.0.0 \n\
        ZYN_PORT=8080\n\
        ZYN_PORT=not-a-port\n\
        ZYN_DB_PATH=\"data/index.bin\"\n\
        \n\
        ZYN_QUERY=fast car\n\
        no equals sign here\n\
        ZYN_UNKNOWN=1\n\
        ZYN_FORMAT=json\n\
        ZYN_PROTOCOL=http\n\
        ZYN_INGESTION=s3\n\
        ZYN_DISTRIBUTION=grpc\n\
        ZYN_DISTRIBUTION=tcp\n\
        ZYN_S3_BUCKET=bucket\n\
        ZYN_S3_PREFIX=docs/\r\n\
        ZYN_CLEANUP_ENABLE=false\n\
        ZYN_CLEANUP_INTERVAL=+15\n";
    apply_env_file_overrides(&mut c, contents);
    assert_eq!(c.runtime.host, "0.0.0.0");
    assert_eq!(c.runtime.port, 8080);
    assert_eq!(c.storage.db_path, "data/index.bin");
    assert_eq!(c.runtime.query.as_deref(), Some("fast car"));
    assert_eq!(c.runtime.output_format, OutputFormat::Json);
    assert_eq!(c.runtime.protocol, ProtocolMode::Http);
    assert_eq!(c.ingestion.mode, IngestionMode::S3);
    assert_eq!(c.distribution.channels, vec![DistributionChannel::Tcp, DistributionChannel::Grpc]);
    assert_eq!(c.ingestion.s3_bucket.as_deref(), Some("bucket"));
    assert_eq!(c.ingestion.s3_prefix.as_deref(), Some("docs/"));
    assert!(!c.cleanup.enable_periodic_cleanup);
    assert_eq!(c.cleanup.period_seconds, 15);
}

#[test]
fn env_values_that_do_not_read_change_nothing() {
    let mut c = AppConfig::default();
    apply_env_file_overrides(&mut c, "ZYN_PORT=70000\nZYN_FORMAT=JSON\nZYN_CLEANUP_ENABLE=yes\nZYN_INGESTION=local_dir\n");
    assert_eq!(c.runtime.port, 7777);
    assert_eq!(c.runtime.output_format, OutputFormat::Text);
    assert!(c.cleanup.enable_periodic_cleanup);
    assert_eq!(c.ingestion.mode, IngestionMode::LocalDir);
    apply_env_file_overrides(&mut c, "ZYN_INGESTION=localdir\nZYN_FORMAT=\"binary\"\nZYN_PORT=65535");
    assert_eq!(c.ingestion.mode, IngestionMode::LocalDir);
    assert_eq!(c.runtime.output_format, OutputFormat::Binary);
    assert_eq!(c.runtime.port, 65535);
}

#[test]
fn channels_settle_into_a_protocol() {
    let mut d = DistributionConfig { channels: vec![] };
    d.normalize();
    assert_eq!(d.channels, vec![DistributionChannel::Tcp]);
    assert_eq!(d.to_protocol_mode(), ProtocolMode::Tcp);

    let mut d = DistributionConfig {
        channels: vec![DistributionChannel::Http, DistributionChannel::Http, DistributionChannel::Grpc, DistributionChannel::Http],
    };
    d.normalize();
    assert_eq!(d.channels, vec![DistributionChannel::Http, DistributionChannel::Grpc]);
    assert_eq!(d.to_protocol_mode(), ProtocolMode::Both);
    assert!(!d.uses_all_channels());
    let before = d.channels.clone();
    d.normalize();
    assert_eq!(d.channels, before);

    let d = DistributionConfig { channels: vec![DistributionChannel::Grpc] };
    assert_eq!(d.to_protocol_mode(), ProtocolMode::Grpc);
    let d = DistributionConfig { channels: vec![DistributionChannel::Http] };
    assert_eq!(d.to_protocol_mode(), ProtocolMode::Http);
    let d = DistributionConfig { channels: vec![] };
    assert_eq!(d.to_protocol_mode(), ProtocolMode::Tcp);
    let d = DistributionConfig {
        channels: vec![DistributionChannel::Grpc, DistributionChannel::Tcp, DistributionChannel::Http],
    };
    assert!(d.uses_all_channels());
}

#[test]
fn command_line_options_win() {
    let mut c = AppConfig::default();
    let mut cli = no_options();
    cli.host = Some("example.org".to_string());
    cli.port = Some(9000);
    cli.output_format = Some(OutputFormat::Binary);
    cli.distribution = vec![DistributionChannel::Http];
    cli.cleanup_interval_seconds = Some(5);
    apply_cli_overrides(&mut c, &cli, "custom.json".to_string());
    assert_eq!(c.runtime.host, "example.org");
    assert_eq!(c.runtime.port, 9000);
    assert_eq!(c.runtime.output_format, OutputFormat::Binary);
    assert_eq!(c.distribution.channels, vec![DistributionChannel::Http]);
    assert_eq!(c.cleanup.period_seconds, 5);
    assert_eq!(c.config_path, "custom.json");
    assert_eq!(c.storage.db_path, "index.bin");
}

#[test]
fn a_loaded_configuration_settles() {
    let mut c = AppConfig::default();
    let mut cli = no_options();
    cli.port = Some(1234);
    finish_app_config(&mut c, &cli, "z.json".to_string(), Some("ZYN_PORT=4321\nZYN_DISTRIBUTION=http\nZYN_HOST=h"));
    assert_eq!(c.runtime.port, 1234);
    assert_eq!(c.runtime.host, "h");
    assert_eq!(c.distribution.channels, vec![DistributionChannel::Tcp, DistributionChannel::Http]);
    assert_eq!(c.runtime.protocol, ProtocolMode::Both);
    assert_eq!(c.config_path, "z.json");

    let mut c = AppConfig::default();
    finish_app_config(&mut c, &no_options(), "z.json".to_string(), None);
    assert_eq!(c.runtime.protocol, ProtocolMode::Tcp);
}

#[test]
fn an_explicit_protocol_flag_is_kept() {
    let mut c = AppConfig::default();
    let mut cli = no_options();
    cli.protocol = Some(ProtocolMode::Http);
    finish_app_config(&mut c, &cli, "zynsearch.config.json".to_string(), None);
    assert_eq!(c.runtime.protocol, ProtocolMode::Http);
    assert_eq!(c.distribution.channels, vec![DistributionChannel::Tcp]);
}

#[test]
fn the_configuration_path_is_chosen_in_order() {
    assert_eq!(resolve_config_path(Some("a".to_string()), Some("b".to_string())), "a");
    assert_eq!(resolve_config_path(None, Some("b".to_string())), "b");
    assert_eq!(resolve_config_path(None, None), "zynsearch.config.json");
}
