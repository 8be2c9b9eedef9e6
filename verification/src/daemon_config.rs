//! The flat configuration of the standalone TCP daemon: one record of
//! settings, with the same env-file and command-line overrides as the
//! sectioned configuration, for the keys it knows.

use vstd::prelude::*;
use crate::config::{
    decode_name, decoded_name, env_line_entry, ingestion_from, ingestion_named, opt_view, output_format_from,
    output_format_named, protocol_from, protocol_named, read_env_line,
};
pub use crate::config::{IngestionMode, OutputFormat, ProtocolMode};
use crate::text::{chars_of, parse_unsigned, parsed_unsigned, same_text, split_chars, split_on, string_from_chars};

verus! {

broadcast use vstd::string::group_string_axioms;

/// The daemon's settings.
#[derive(Debug, Clone)]
pub struct AppConfig {
    pub host: String,
    pub port: u16,
    pub db_path: String,
    pub corpus_dir: String,
    pub query: Option<String>,
    pub output_format: OutputFormat,
    pub protocol: ProtocolMode,
    pub ingestion: IngestionMode,
    pub env_path: Option<String>,
    pub config_path: String,
    pub s3_bucket: Option<String>,
    pub s3_prefix: Option<String>,
}

/// The daemon's command-line options.
#[derive(Debug, Clone)]
pub struct CliArgs {
    pub config: Option<String>,
    pub env_path: Option<String>,
    pub host: Option<String>,
    pub port: Option<u16>,
    pub db_path: Option<String>,
    pub corpus_dir: Option<String>,
    pub output_format: Option<OutputFormat>,
    pub protocol: Option<ProtocolMode>,
    pub ingestion: Option<IngestionMode>,
    pub s3_bucket: Option<String>,
    pub s3_prefix: Option<String>,
    pub query: Option<String>,
}

/// The daemon's settings as plain values.
pub struct DaemonView {
    pub host: Seq<char>,
    pub port: u16,
    pub db_path: Seq<char>,
    pub corpus_dir: Seq<char>,
    pub query: Option<Seq<char>>,
    pub output_format: OutputFormat,
    pub protocol: ProtocolMode,
    pub ingestion: IngestionMode,
    pub env_path: Option<Seq<char>>,
    pub config_path: Seq<char>,
    pub s3_bucket: Option<Seq<char>>,
    pub s3_prefix: Option<Seq<char>>,
}

impl View for AppConfig {
    type V = DaemonView;

    open spec fn view(&self) -> DaemonView {
        DaemonView {
            host: self.host@,
            port: self.port,
            db_path: self.db_path@,
            corpus_dir: self.corpus_dir@,
            query: opt_view(self.query),
            output_format: self.output_format,
            protocol: self.protocol,
            ingestion: self.ingestion,
            env_path: opt_view(self.env_path),
            config_path: self.config_path@,
            s3_bucket: opt_view(self.s3_bucket),
            s3_prefix: opt_view(self.s3_prefix),
        }
    }
}

/// The default settings.
pub open spec fn daemon_defaults() -> DaemonView {
    DaemonView {
        host: "127.0.0.1"@,
        port: 7777,
        db_path: "index.bin"@,
        corpus_dir: "./"@,
        query: None,
        output_format: OutputFormat::Text,
        protocol: ProtocolMode::Tcp,
        ingestion: IngestionMode::LocalDir,
        env_path: None,
        config_path: "zynsearch.config.json"@,
        s3_bucket: None,
        s3_prefix: None,
    }
}

impl Default for AppConfig {
    fn default() -> (r: Self)
        ensures
            r@ == daemon_defaults(),
    {
        AppConfig {
            host: "127.0.0.1".to_string(),
            port: 7777,
            db_path: "index.bin".to_string(),
            corpus_dir: "./".to_string(),
            query: None,
            output_format: OutputFormat::Text,
            protocol: ProtocolMode::Tcp,
            ingestion: IngestionMode::LocalDir,
            env_path: None,
            config_path: "zynsearch.config.json".to_string(),
            s3_bucket: None,
            s3_prefix: None,
        }
    }
}

/// The setting one env-file entry makes; unknown keys and values that do
/// not read change nothing.
pub open spec fn apply_daemon_entry(c: DaemonView, key: Seq<char>, value: Seq<char>) -> DaemonView {
    if key == "ZYN_HOST"@ {
        DaemonView { host: value, ..c }
    } else if key == "ZYN_PORT"@ {
        match parsed_unsigned(value, u16::MAX as nat) {
            Some(p) => DaemonView { port: p as u16, ..c },
            None => c,
        }
    } else if key == "ZYN_DB_PATH"@ {
        DaemonView { db_path: value, ..c }
    } else if key == "ZYN_CORPUS_DIR"@ {
        DaemonView { corpus_dir: value, ..c }
    } else if key == "ZYN_QUERY"@ {
        DaemonView { query: Some(value), ..c }
    } else if key == "ZYN_FORMAT"@ {
        match decoded_name(value) {
            Some(n) => match output_format_named(n) {
                Some(f) => DaemonView { output_format: f, ..c },
                None => c,
            },
            None => c,
        }
    } else if key == "ZYN_PROTOCOL"@ {
        match decoded_name(value) {
            Some(n) => match protocol_named(n) {
                Some(p) => DaemonView { protocol: p, ..c },
                None => c,
            },
            None => c,
        }
    } else if key == "ZYN_INGESTION"@ {
        match decoded_name(value) {
            Some(n) => match ingestion_named(n) {
                Some(m) => DaemonView { ingestion: m, ..c },
                None => c,
            },
            None => c,
        }
    } else if key == "ZYN_S3_BUCKET"@ {
        DaemonView { s3_bucket: Some(value), ..c }
    } else if key == "ZYN_S3_PREFIX"@ {
        DaemonView { s3_prefix: Some(value), ..c }
    } else {
        c
    }
}

/// The settings after the entries of `lines`, in order.
pub open spec fn daemon_env_applied(c: DaemonView, lines: Seq<Seq<char>>) -> DaemonView
    decreases lines.len(),
{
    if lines.len() == 0 {
        c
    } else {
        let prev = daemon_env_applied(c, lines.drop_last());
        match env_line_entry(lines.last()) {
            Some(kv) => apply_daemon_entry(prev, kv.0, kv.1),
            None => prev,
        }
    }
}

fn apply_daemon_entry_to(config: &mut AppConfig, key: &[char], value: &[char])
    ensures
        final(config)@ == apply_daemon_entry(old(config)@, key@, value@),
{
    let key = string_from_chars(key);
    let k = key.as_str();
    if same_text(k, "ZYN_HOST") {
        config.host = string_from_chars(value);
    } else if same_text(k, "ZYN_PORT") {
        if let Some(p) = parse_unsigned(value, 65535) {
            config.port = p as u16;
        }
    } else if same_text(k, "ZYN_DB_PATH") {
        config.db_path = string_from_chars(value);
    } else if same_text(k, "ZYN_CORPUS_DIR") {
        config.corpus_dir = string_from_chars(value);
    } else if same_text(k, "ZYN_QUERY") {
        config.query = Some(string_from_chars(value));
    } else if same_text(k, "ZYN_FORMAT") {
        if let Some(n) = decode_name(value) {
            if let Some(f) = output_format_from(n.as_str()) {
                config.output_format = f;
            }
        }
    } else if same_text(k, "ZYN_PROTOCOL") {
        if let Some(n) = decode_name(value) {
            if let Some(p) = protocol_from(n.as_str()) {
                config.protocol = p;
            }
        }
    } else if same_text(k, "ZYN_INGESTION") {
        if let Some(n) = decode_name(value) {
            if let Some(m) = ingestion_from(n.as_str()) {
                config.ingestion = m;
            }
        }
    } else if same_text(k, "ZYN_S3_BUCKET") {
        config.s3_bucket = Some(string_from_chars(value));
    } else if same_text(k, "ZYN_S3_PREFIX") {
        config.s3_prefix = Some(string_from_chars(value));
    }
}

/// Applies the `KEY=value` lines of an env file's contents, in order.
pub fn apply_env_file_overrides(config: &mut AppConfig, contents: &str)
    ensures
        final(config)@ == daemon_env_applied(old(config)@, split_on(contents@, '\n')),
{
    let chars = chars_of(contents);
    let lines = split_chars(chars.as_slice(), '\n');
    let ghost all = split_on(contents@, '\n');
    let mut i: usize = 0;
    while i < lines.len()
        invariant
            i <= lines@.len(),
            lines@.len() == all.len(),
            forall|k: int| 0 <= k < lines@.len() ==> #[trigger] lines@[k]@ == all[k],
            config@ == daemon_env_applied(old(config)@, all.take(i as int)),
        decreases lines@.len() - i,
    {
        proof {
            assert(all.take(i + 1).drop_last() =~= all.take(i as int));
            assert(all.take(i + 1).last() == lines@[i as int]@);
        }
        match read_env_line(lines[i].as_slice()) {
            Some(kv) => {
                apply_daemon_entry_to(config, kv.0.as_slice(), kv.1.as_slice());
            },
            None => {},
        }
        i = i + 1;
    }
    proof {
        assert(all.take(all.len() as int) =~= all);
    }
}

/// The settings after the options given on the command line; the
/// configuration path is always replaced.
pub open spec fn daemon_cli_applied(c: DaemonView, cli: CliArgs, config_path: Seq<char>) -> DaemonView {
    DaemonView {
        config_path: config_path,
        host: match cli.host { Some(h) => h@, None => c.host },
        port: match cli.port { Some(p) => p, None => c.port },
        db_path: match cli.db_path { Some(d) => d@, None => c.db_path },
        corpus_dir: match cli.corpus_dir { Some(d) => d@, None => c.corpus_dir },
        output_format: match cli.output_format { Some(f) => f, None => c.output_format },
        protocol: match cli.protocol { Some(p) => p, None => c.protocol },
        ingestion: match cli.ingestion { Some(m) => m, None => c.ingestion },
        s3_bucket: match cli.s3_bucket { Some(b) => Some(b@), None => c.s3_bucket },
        s3_prefix: match cli.s3_prefix { Some(b) => Some(b@), None => c.s3_prefix },
        query: match cli.query { Some(q) => Some(q@), None => c.query },
        ..c
    }
}

fn daemon_network_overrides(config: &mut AppConfig, cli: &CliArgs)
    ensures
        final(config).host@ == match cli.host { Some(h) => h@, None => old(config).host@ },
        final(config).port == match cli.port { Some(p) => p, None => old(config).port },
        final(config).db_path@ == match cli.db_path { Some(d) => d@, None => old(config).db_path@ },
        final(config).corpus_dir@ == match cli.corpus_dir { Some(d) => d@, None => old(config).corpus_dir@ },
        final(config).output_format == match cli.output_format { Some(f) => f, None => old(config).output_format },
        final(config).protocol == match cli.protocol { Some(p) => p, None => old(config).protocol },
        final(config).ingestion == old(config).ingestion,
        final(config).query == old(config).query,
        final(config).s3_bucket == old(config).s3_bucket,
        final(config).s3_prefix == old(config).s3_prefix,
        final(config).env_path == old(config).env_path,
        final(config).config_path == old(config).config_path,
{
    if let Some(host) = &cli.host {
        config.host = host.clone();
    }
    if let Some(port) = cli.port {
        config.port = port;
    }
    if let Some(db_path) = &cli.db_path {
        config.db_path = db_path.clone();
    }
    if let Some(corpus_dir) = &cli.corpus_dir {
        config.corpus_dir = corpus_dir.clone();
    }
    if let Some(output_format) = cli.output_format {
        config.output_format = output_format;
    }
    if let Some(protocol) = cli.protocol {
        config.protocol = protocol;
    }
}

/// Applies the options given on the command line and records the
/// configuration path.
pub fn apply_cli_overrides(config: &mut AppConfig, cli: &CliArgs, config_path: String)
    ensures
        final(config)@ == daemon_cli_applied(old(config)@, *cli, config_path@),
{
    config.config_path = config_path;
    daemon_network_overrides(config, cli);
    if let Some(ingestion) = cli.ingestion {
        config.ingestion = ingestion;
    }
    if let Some(s3_bucket) = &cli.s3_bucket {
        config.s3_bucket = Some(s3_bucket.clone());
    }
    if let Some(s3_prefix) = &cli.s3_prefix {
        config.s3_prefix = Some(s3_prefix.clone());
    }
    if let Some(query) = &cli.query {
        config.query = Some(query.clone());
    }
}

/// The configuration file named on the command line, or
/// `zynsearch.config.json`.
pub fn config_path_from_cli(cli: &CliArgs) -> (r: String)
    ensures
        r@ == match cli.config {
            Some(p) => p@,
            None => "zynsearch.config.json"@,
        },
{
    match &cli.config {
        Some(p) => p.clone(),
        None => "zynsearch.config.json".to_string(),
    }
}

} // verus!
