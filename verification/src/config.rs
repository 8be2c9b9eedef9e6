//! Configuration of the daemon: its sections and their defaults, the
//! overrides an env file and the command line make, and how the
//! distribution channels settle into a protocol.

use vstd::prelude::*;
use crate::text::{
    chars_of, find_char, is_first_index, parse_bool, parse_unsigned, parsed_bool, parsed_unsigned,
    same_text, split_chars, split_on, string_from_chars, strip_both, strip_char_both, trim_chars, trimmed,
};

verus! {

broadcast use vstd::string::group_string_axioms;

/// How results are written out.
#[derive(Clone, Copy, Debug, PartialEq, Eq, Structural)]
pub enum OutputFormat {
    Text,
    Json,
    Binary,
}

/// Which transports the daemon serves.
#[derive(Clone, Copy, Debug, PartialEq, Eq, Structural)]
pub enum ProtocolMode {
    Tcp,
    Http,
    Grpc,
    Both,
}

/// Where documents are ingested from.
#[derive(Clone, Copy, Debug, PartialEq, Eq, Structural)]
pub enum IngestionMode {
    LocalDir,
    S3,
}

/// A channel clients may reach the daemon through.
#[derive(Clone, Copy, Debug, PartialEq, Eq, Structural)]
pub enum DistributionChannel {
    Tcp,
    Http,
    Grpc,
}

/// Network and output settings.
#[derive(Debug, Clone)]
pub struct RuntimeConfig {
    pub host: String,
    pub port: u16,
    pub protocol: ProtocolMode,
    pub output_format: OutputFormat,
    pub query: Option<String>,
}

/// Where documents come from.
#[derive(Debug, Clone)]
pub struct IngestionConfig {
    pub mode: IngestionMode,
    pub corpus_dir: String,
    pub s3_bucket: Option<String>,
    pub s3_prefix: Option<String>,
}

/// Where the index is kept.
#[derive(Debug, Clone)]
pub struct StorageConfig {
    pub db_path: String,
}

/// The channels clients may use.
#[derive(Debug, Clone)]
pub struct DistributionConfig {
    pub channels: Vec<DistributionChannel>,
}

/// What the daemon says about itself.
#[derive(Debug, Clone)]
pub struct ManifestConfig {
    pub name: String,
    pub version: String,
    pub description: String,
}

/// Periodic removal of documents whose files are gone.
#[derive(Debug, Clone)]
pub struct CleanupConfig {
    pub enable_periodic_cleanup: bool,
    pub period_seconds: u64,
}

/// The whole configuration.
#[derive(Debug, Clone)]
pub struct AppConfig {
    pub manifest: ManifestConfig,
    pub runtime: RuntimeConfig,
    pub ingestion: IngestionConfig,
    pub storage: StorageConfig,
    pub distribution: DistributionConfig,
    pub cleanup: CleanupConfig,
    pub env_path: Option<String>,
    pub config_path: String,
}

/// The command-line options; each given one overrides the configuration.
#[derive(Debug, Clone)]
pub struct CliArgs {
    pub config: Option<String>,
    pub env_path: Option<String>,
    pub host: Option<String>,
    pub port: Option<u16>,
    pub db_path: Option<String>,
    pub corpus_dir: Option<String>,
    pub output_format: Option<OutputFormat>,
    pub protocol: Option<ProtocolMode>,
    pub ingestion: Option<IngestionMode>,
    pub distribution: Vec<DistributionChannel>,
    pub s3_bucket: Option<String>,
    pub s3_prefix: Option<String>,
    pub query: Option<String>,
    pub enable_periodic_cleanup: Option<bool>,
    pub cleanup_interval_seconds: Option<u64>,
}

/// The characters of an optional string.
pub open spec fn opt_view(o: Option<String>) -> Option<Seq<char>> {
    match o {
        Some(s) => Some(s@),
        None => None,
    }
}

/// The configuration as plain values.
pub struct ConfigView {
    pub name: Seq<char>,
    pub version: Seq<char>,
    pub description: Seq<char>,
    pub host: Seq<char>,
    pub port: u16,
    pub protocol: ProtocolMode,
    pub output_format: OutputFormat,
    pub query: Option<Seq<char>>,
    pub mode: IngestionMode,
    pub corpus_dir: Seq<char>,
    pub s3_bucket: Option<Seq<char>>,
    pub s3_prefix: Option<Seq<char>>,
    pub db_path: Seq<char>,
    pub channels: Seq<DistributionChannel>,
    pub enable_periodic_cleanup: bool,
    pub period_seconds: u64,
    pub env_path: Option<Seq<char>>,
    pub config_path: Seq<char>,
}

impl View for AppConfig {
    type V = ConfigView;

    open spec fn view(&self) -> ConfigView {
        ConfigView {
            name: self.manifest.name@,
            version: self.manifest.version@,
            description: self.manifest.description@,
            host: self.runtime.host@,
            port: self.runtime.port,
            protocol: self.runtime.protocol,
            output_format: self.runtime.output_format,
            query: opt_view(self.runtime.query),
            mode: self.ingestion.mode,
            corpus_dir: self.ingestion.corpus_dir@,
            s3_bucket: opt_view(self.ingestion.s3_bucket),
            s3_prefix: opt_view(self.ingestion.s3_prefix),
            db_path: self.storage.db_path@,
            channels: self.distribution.channels@,
            enable_periodic_cleanup: self.cleanup.enable_periodic_cleanup,
            period_seconds: self.cleanup.period_seconds,
            env_path: opt_view(self.env_path),
            config_path: self.config_path@,
        }
    }
}

// ---------------------------------------------------------------------
// Defaults.
// ---------------------------------------------------------------------

impl Default for RuntimeConfig {
    fn default() -> (r: Self)
        ensures
            r.host@ == "127.0.0.1"@,
            r.port == 7777,
            r.protocol == ProtocolMode::Tcp,
            r.output_format == OutputFormat::Text,
            r.query is None,
    {
        RuntimeConfig {
            host: "127.0.0.1".to_string(),
            port: 7777,
            protocol: ProtocolMode::Tcp,
            output_format: OutputFormat::Text,
            query: None,
        }
    }
}

impl Default for IngestionConfig {
    fn default() -> (r: Self)
        ensures
            r.mode == IngestionMode::LocalDir,
            r.corpus_dir@ == "./"@,
            r.s3_bucket is None,
            r.s3_prefix is None,
    {
        IngestionConfig { mode: IngestionMode::LocalDir, corpus_dir: "./".to_string(), s3_bucket: None, s3_prefix: None }
    }
}

impl Default for StorageConfig {
    fn default() -> (r: Self)
        ensures
            r.db_path@ == "index.bin"@,
    {
        StorageConfig { db_path: "index.bin".to_string() }
    }
}

impl Default for DistributionConfig {
    fn default() -> (r: Self)
        ensures
            r.channels@ == seq![DistributionChannel::Tcp],
    {
        let mut channels: Vec<DistributionChannel> = Vec::new();
        channels.push(DistributionChannel::Tcp);
        DistributionConfig { channels }
    }
}

impl Default for ManifestConfig {
    fn default() -> (r: Self)
        ensures
            r.name@ == "zynsearch"@,
            r.version@ == "1.0.0"@,
            r.description@ == "Plug-and-play search engine"@,
    {
        ManifestConfig {
            name: "zynsearch".to_string(),
            version: "1.0.0".to_string(),
            description: "Plug-and-play search engine".to_string(),
        }
    }
}

impl Default for CleanupConfig {
    fn default() -> (r: Self)
        ensures
            r.enable_periodic_cleanup,
            r.period_seconds == 60,
    {
        CleanupConfig { enable_periodic_cleanup: true, period_seconds: 60 }
    }
}

/// The default configuration, field by field.
pub open spec fn default_view() -> ConfigView {
    ConfigView {
        name: "zynsearch"@,
        version: "1.0.0"@,
        description: "Plug-and-play search engine"@,
        host: "127.0.0.1"@,
        port: 7777,
        protocol: ProtocolMode::Tcp,
        output_format: OutputFormat::Text,
        query: None,
        mode: IngestionMode::LocalDir,
        corpus_dir: "./"@,
        s3_bucket: None,
        s3_prefix: None,
        db_path: "index.bin"@,
        channels: seq![DistributionChannel::Tcp],
        enable_periodic_cleanup: true,
        period_seconds: 60,
        env_path: None,
        config_path: "zynsearch.config.json"@,
    }
}

impl Default for AppConfig {
    fn default() -> (r: Self)
        ensures
            r@ == default_view(),
    {
        AppConfig {
            manifest: ManifestConfig::default(),
            runtime: RuntimeConfig::default(),
            ingestion: IngestionConfig::default(),
            storage: StorageConfig::default(),
            distribution: DistributionConfig::default(),
            cleanup: CleanupConfig::default(),
            env_path: None,
            config_path: "zynsearch.config.json".to_string(),
        }
    }
}

// ---------------------------------------------------------------------
// Distribution channels.
// ---------------------------------------------------------------------

/// `channels` without repeats, each kept where it first occurs.
pub open spec fn without_repeats(channels: Seq<DistributionChannel>) -> Seq<DistributionChannel>
    decreases channels.len(),
{
    if channels.len() == 0 {
        Seq::empty()
    } else {
        let prev = without_repeats(channels.drop_last());
        if prev.contains(channels.last()) {
            prev
        } else {
            prev.push(channels.last())
        }
    }
}

/// The channels after normalisation: TCP when none is given, and no
/// channel twice.
pub open spec fn normalized(channels: Seq<DistributionChannel>) -> Seq<DistributionChannel> {
    without_repeats(if channels.len() == 0 { seq![DistributionChannel::Tcp] } else { channels })
}

/// The protocol a set of channels calls for: the single channel's own, TCP
/// when there is none, and both transports when there are several.
pub open spec fn protocol_for(channels: Seq<DistributionChannel>) -> ProtocolMode {
    let tcp = channels.contains(DistributionChannel::Tcp);
    let http = channels.contains(DistributionChannel::Http);
    let grpc = channels.contains(DistributionChannel::Grpc);
    if tcp && !http && !grpc {
        ProtocolMode::Tcp
    } else if !tcp && http && !grpc {
        ProtocolMode::Http
    } else if !tcp && !http && grpc {
        ProtocolMode::Grpc
    } else if !tcp && !http && !grpc {
        ProtocolMode::Tcp
    } else {
        ProtocolMode::Both
    }
}

/// Whether `channels` holds `c`.
fn has_channel(channels: &Vec<DistributionChannel>, c: DistributionChannel) -> (r: bool)
    ensures
        r == channels@.contains(c),
{
    let mut i: usize = 0;
    while i < channels.len()
        invariant
            i <= channels@.len(),
            forall|j: int| 0 <= j < i ==> channels@[j] != c,
        decreases channels@.len() - i,
    {
        if channels[i] == c {
            proof {
                assert(channels@[i as int] == c);
            }
            return true;
        }
        i = i + 1;
    }
    false
}

impl DistributionConfig {
    /// Whether TCP, HTTP and gRPC are all enabled.
    pub fn uses_all_channels(&self) -> (r: bool)
        ensures
            r == (self.channels@.contains(DistributionChannel::Tcp)
                && self.channels@.contains(DistributionChannel::Http)
                && self.channels@.contains(DistributionChannel::Grpc)),
    {
        has_channel(&self.channels, DistributionChannel::Tcp)
            && has_channel(&self.channels, DistributionChannel::Http)
            && has_channel(&self.channels, DistributionChannel::Grpc)
    }

    /// The protocol the enabled channels call for.
    pub fn to_protocol_mode(&self) -> (r: ProtocolMode)
        ensures
            r == protocol_for(self.channels@),
    {
        let has_tcp = has_channel(&self.channels, DistributionChannel::Tcp);
        let has_http = has_channel(&self.channels, DistributionChannel::Http);
        let has_grpc = has_channel(&self.channels, DistributionChannel::Grpc);
        match (has_tcp, has_http, has_grpc) {
            (true, false, false) => ProtocolMode::Tcp,
            (false, true, false) => ProtocolMode::Http,
            (false, false, true) => ProtocolMode::Grpc,
            (false, false, false) => ProtocolMode::Tcp,
            _ => ProtocolMode::Both,
        }
    }

    /// Falls back to TCP when no channel is given and drops repeated
    /// channels, keeping the first of each.
    pub fn normalize(&mut self)
        ensures
            final(self).channels@ == normalized(old(self).channels@),
    {
        if self.channels.len() == 0 {
            self.channels.push(DistributionChannel::Tcp);
        }
        let ghost given = self.channels@;
        let mut deduped: Vec<DistributionChannel> = Vec::new();
        let mut i: usize = 0;
        while i < self.channels.len()
            invariant
                i <= self.channels@.len(),
                given == self.channels@,
                given == if old(self).channels@.len() == 0 { seq![DistributionChannel::Tcp] } else { old(self).channels@ },
                deduped@ == without_repeats(given.take(i as int)),
            decreases self.channels@.len() - i,
        {
            let c = self.channels[i];
            proof {
                assert(given.take(i + 1).drop_last() =~= given.take(i as int));
                assert(given.take(i + 1).last() == c);
            }
            if !has_channel(&deduped, c) {
                deduped.push(c);
            }
            i = i + 1;
        }
        proof {
            assert(given.take(given.len() as int) =~= given);
        }
        self.channels = deduped;
    }
}

// ---------------------------------------------------------------------
// Names of the enumerations, as configuration files spell them.
// ---------------------------------------------------------------------

/// What `serde_json::from_str::<String>` decodes from a text: the string,
/// where the text is one JSON string, and nothing otherwise.
pub uninterp spec fn json_string_value(text: Seq<char>) -> Option<Seq<char>>;

/// `serde_json::from_str::<String>`: decodes a JSON string literal. The
/// contract claims only that the outcome is a fixed function of the text.
#[verifier::external_body]
fn decode_json_string(text: &str) -> (r: Option<String>)
    ensures
        opt_view(r) == json_string_value(text@),
{
    match serde_json::from_str::<String>(text) {
        Ok(s) => Some(s),
        Err(_) => None,
    }
}

/// `v` between double quotes.
pub open spec fn quoted(v: Seq<char>) -> Seq<char> {
    seq!['"'] + v + seq!['"']
}

/// The name a value decodes to when read as the contents of a JSON string.
pub open spec fn decoded_name(v: Seq<char>) -> Option<Seq<char>> {
    json_string_value(quoted(v))
}

pub(crate) fn decode_name(v: &[char]) -> (r: Option<String>)
    ensures
        opt_view(r) == decoded_name(v@),
{
    let mut q: Vec<char> = Vec::new();
    q.push('"');
    let mut i: usize = 0;
    while i < v.len()
        invariant
            i <= v@.len(),
            q@ == seq!['"'] + v@.take(i as int),
        decreases v@.len() - i,
    {
        q.push(v[i]);
        proof {
            assert(v@.take(i + 1) =~= v@.take(i as int).push(v@[i as int]));
            assert(q@ =~= seq!['"'] + v@.take(i + 1));
        }
        i = i + 1;
    }
    q.push('"');
    proof {
        assert(v@.take(v@.len() as int) =~= v@);
        assert(q@ =~= quoted(v@));
    }
    let text = string_from_chars(q.as_slice());
    decode_json_string(text.as_str())
}

pub open spec fn output_format_named(n: Seq<char>) -> Option<OutputFormat> {
    if n == "text"@ {
        Some(OutputFormat::Text)
    } else if n == "json"@ {
        Some(OutputFormat::Json)
    } else if n == "binary"@ {
        Some(OutputFormat::Binary)
    } else {
        None
    }
}

pub open spec fn protocol_named(n: Seq<char>) -> Option<ProtocolMode> {
    if n == "tcp"@ {
        Some(ProtocolMode::Tcp)
    } else if n == "http"@ {
        Some(ProtocolMode::Http)
    } else if n == "grpc"@ {
        Some(ProtocolMode::Grpc)
    } else if n == "both"@ {
        Some(ProtocolMode::Both)
    } else {
        None
    }
}

pub open spec fn ingestion_named(n: Seq<char>) -> Option<IngestionMode> {
    if n == "localdir"@ {
        Some(IngestionMode::LocalDir)
    } else if n == "s3"@ {
        Some(IngestionMode::S3)
    } else {
        None
    }
}

pub open spec fn channel_named(n: Seq<char>) -> Option<DistributionChannel> {
    if n == "tcp"@ {
        Some(DistributionChannel::Tcp)
    } else if n == "http"@ {
        Some(DistributionChannel::Http)
    } else if n == "grpc"@ {
        Some(DistributionChannel::Grpc)
    } else {
        None
    }
}

pub(crate) fn output_format_from(n: &str) -> (r: Option<OutputFormat>)
    ensures
        r == output_format_named(n@),
{
    if same_text(n, "text") {
        Some(OutputFormat::Text)
    } else if same_text(n, "json") {
        Some(OutputFormat::Json)
    } else if same_text(n, "binary") {
        Some(OutputFormat::Binary)
    } else {
        None
    }
}

pub(crate) fn protocol_from(n: &str) -> (r: Option<ProtocolMode>)
    ensures
        r == protocol_named(n@),
{
    if same_text(n, "tcp") {
        Some(ProtocolMode::Tcp)
    } else if same_text(n, "http") {
        Some(ProtocolMode::Http)
    } else if same_text(n, "grpc") {
        Some(ProtocolMode::Grpc)
    } else if same_text(n, "both") {
        Some(ProtocolMode::Both)
    } else {
        None
    }
}

pub(crate) fn ingestion_from(n: &str) -> (r: Option<IngestionMode>)
    ensures
        r == ingestion_named(n@),
{
    if same_text(n, "localdir") {
        Some(IngestionMode::LocalDir)
    } else if same_text(n, "s3") {
        Some(IngestionMode::S3)
    } else {
        None
    }
}

fn channel_from(n: &str) -> (r: Option<DistributionChannel>)
    ensures
        r == channel_named(n@),
{
    if same_text(n, "tcp") {
        Some(DistributionChannel::Tcp)
    } else if same_text(n, "http") {
        Some(DistributionChannel::Http)
    } else if same_text(n, "grpc") {
        Some(DistributionChannel::Grpc)
    } else {
        None
    }
}

// ---------------------------------------------------------------------
// Overrides from an env file.
// ---------------------------------------------------------------------

/// The setting one `KEY=value` entry of an env file makes; unknown keys and
/// values that do not read change nothing.
pub open spec fn apply_env_entry(c: ConfigView, key: Seq<char>, value: Seq<char>) -> ConfigView {
    if key == "ZYN_HOST"@ {
        ConfigView { host: value, ..c }
    } else if key == "ZYN_PORT"@ {
        match parsed_unsigned(value, u16::MAX as nat) {
            Some(p) => ConfigView { port: p as u16, ..c },
            None => c,
        }
    } else if key == "ZYN_DB_PATH"@ {
        ConfigView { db_path: value, ..c }
    } else if key == "ZYN_CORPUS_DIR"@ {
        ConfigView { corpus_dir: value, ..c }
    } else if key == "ZYN_QUERY"@ {
        ConfigView { query: Some(value), ..c }
    } else if key == "ZYN_FORMAT"@ {
        match decoded_name(value) {
            Some(n) => match output_format_named(n) {
                Some(f) => ConfigView { output_format: f, ..c },
                None => c,
            },
            None => c,
        }
    } else if key == "ZYN_PROTOCOL"@ {
        match decoded_name(value) {
            Some(n) => match protocol_named(n) {
                Some(p) => ConfigView { protocol: p, ..c },
                None => c,
            },
            None => c,
        }
    } else if key == "ZYN_INGESTION"@ {
        match decoded_name(value) {
            Some(n) => match ingestion_named(n) {
                Some(m) => ConfigView { mode: m, ..c },
                None => c,
            },
            None => c,
        }
    } else if key == "ZYN_DISTRIBUTION"@ {
        match decoded_name(value) {
            Some(n) => match channel_named(n) {
                Some(ch) => if c.channels.contains(ch) {
                    c
                } else {
                    ConfigView { channels: c.channels.push(ch), ..c }
                },
                None => c,
            },
            None => c,
        }
    } else if key == "ZYN_S3_BUCKET"@ {
        ConfigView { s3_bucket: Some(value), ..c }
    } else if key == "ZYN_S3_PREFIX"@ {
        ConfigView { s3_prefix: Some(value), ..c }
    } else if key == "ZYN_CLEANUP_ENABLE"@ {
        match parsed_bool(value) {
            Some(b) => ConfigView { enable_periodic_cleanup: b, ..c },
            None => c,
        }
    } else if key == "ZYN_CLEANUP_INTERVAL"@ {
        match parsed_unsigned(value, u64::MAX as nat) {
            Some(p) => ConfigView { period_seconds: p as u64, ..c },
            None => c,
        }
    } else {
        c
    }
}

/// The key and value one line of an env file holds: blank lines, comment
/// lines (starting with `#`) and lines without `=` hold none. Key and value
/// are trimmed, and the value loses the double quotes around it.
pub open spec fn env_line_entry(line: Seq<char>) -> Option<(Seq<char>, Seq<char>)> {
    let t = trimmed(line);
    if t.len() == 0 || t[0] == '#' || !t.contains('=') {
        None
    } else {
        let k = choose|k: int| is_first_index(t, '=', k);
        Some((trimmed(t.take(k)), strip_both(trimmed(t.skip(k + 1)), '"')))
    }
}

/// The configuration after the entries of `lines`, in order.
pub open spec fn env_applied(c: ConfigView, lines: Seq<Seq<char>>) -> ConfigView
    decreases lines.len(),
{
    if lines.len() == 0 {
        c
    } else {
        let prev = env_applied(c, lines.drop_last());
        match env_line_entry(lines.last()) {
            Some(kv) => apply_env_entry(prev, kv.0, kv.1),
            None => prev,
        }
    }
}

/// Reads the entry on one line.
pub(crate) fn read_env_line(line: &[char]) -> (r: Option<(Vec<char>, Vec<char>)>)
    ensures
        match r {
            Some(kv) => env_line_entry(line@) == Some((kv.0@, kv.1@)),
            None => env_line_entry(line@) is None,
        },
{
    let t = trim_chars(line);
    if t.len() == 0 || t[0] == '#' {
        return None;
    }
    match find_char(t.as_slice(), '=') {
        None => None,
        Some(k) => {
            proof {
                let c = choose|c: int| is_first_index(t@, '=', c);
                assert(is_first_index(t@, '=', k as int));
                if c < k {
                    assert(t@[c] != '=');
                } else if k < c {
                    assert(t@[k as int] != '=');
                }
                assert(c == k);
            }
            let key_part = copy_range_of(&t, 0, k);
            let value_part = copy_range_of(&t, k + 1, t.len());
            let key = trim_chars(key_part.as_slice());
            let value_trimmed = trim_chars(value_part.as_slice());
            let value = strip_char_both(value_trimmed.as_slice(), '"');
            proof {
                assert(key_part@ =~= t@.take(k as int));
                assert(value_part@ =~= t@.skip(k + 1));
            }
            Some((key, value))
        },
    }
}

fn copy_range_of(v: &Vec<char>, a: usize, b: usize) -> (r: Vec<char>)
    requires
        a <= b <= v@.len(),
    ensures
        r@ == v@.subrange(a as int, b as int),
{
    crate::text::copy_range(v.as_slice(), a, b)
}

/// Makes the setting of one entry.
fn apply_env_entry_to(config: &mut AppConfig, key: &[char], value: &[char])
    ensures
        final(config)@ == apply_env_entry(old(config)@, key@, value@),
{
    let key = string_from_chars(key);
    let k = key.as_str();
    if same_text(k, "ZYN_HOST") {
        config.runtime.host = string_from_chars(value);
    } else if same_text(k, "ZYN_PORT") {
        if let Some(p) = parse_unsigned(value, 65535) {
            config.runtime.port = p as u16;
        }
    } else if same_text(k, "ZYN_DB_PATH") {
        config.storage.db_path = string_from_chars(value);
    } else if same_text(k, "ZYN_CORPUS_DIR") {
        config.ingestion.corpus_dir = string_from_chars(value);
    } else if same_text(k, "ZYN_QUERY") {
        config.runtime.query = Some(string_from_chars(value));
    } else if same_text(k, "ZYN_FORMAT") {
        if let Some(n) = decode_name(value) {
            if let Some(f) = output_format_from(n.as_str()) {
                config.runtime.output_format = f;
            }
        }
    } else if same_text(k, "ZYN_PROTOCOL") {
        if let Some(n) = decode_name(value) {
            if let Some(p) = protocol_from(n.as_str()) {
                config.runtime.protocol = p;
            }
        }
    } else if same_text(k, "ZYN_INGESTION") {
        if let Some(n) = decode_name(value) {
            if let Some(m) = ingestion_from(n.as_str()) {
                config.ingestion.mode = m;
            }
        }
    } else if same_text(k, "ZYN_DISTRIBUTION") {
        if let Some(n) = decode_name(value) {
            if let Some(ch) = channel_from(n.as_str()) {
                if !has_channel(&config.distribution.channels, ch) {
                    config.distribution.channels.push(ch);
                }
            }
        }
    } else if same_text(k, "ZYN_S3_BUCKET") {
        config.ingestion.s3_bucket = Some(string_from_chars(value));
    } else if same_text(k, "ZYN_S3_PREFIX") {
        config.ingestion.s3_prefix = Some(string_from_chars(value));
    } else if same_text(k, "ZYN_CLEANUP_ENABLE") {
        let v = string_from_chars(value);
        if let Some(b) = parse_bool(v.as_str()) {
            config.cleanup.enable_periodic_cleanup = b;
        }
    } else if same_text(k, "ZYN_CLEANUP_INTERVAL") {
        if let Some(p) = parse_unsigned(value, u64::MAX) {
            config.cleanup.period_seconds = p;
        }
    }
}

/// Applies the `KEY=value` lines of an env file's contents, in order: later
/// lines win. Blank lines, `#` comments and lines without `=` are skipped,
/// as are unknown keys and values that do not read.
pub fn apply_env_file_overrides(config: &mut AppConfig, contents: &str)
    ensures
        final(config)@ == env_applied(old(config)@, split_on(contents@, '\n')),
{
    let chars = chars_of(contents);
    let lines = split_chars(chars.as_slice(), '\n');
    let ghost all = split_on(contents@, '\n');
    let mut i: usize = 0;
    while i < lines.len()
        invariant
            i <= lines@.len(),
            lines@.len() == all.len(),
            forall|k: int| 0 <= k < lines@.len() ==> #[trigger] lines@[k]@ == all[k],
            config@ == env_applied(old(config)@, all.take(i as int)),
        decreases lines@.len() - i,
    {
        proof {
            assert(all.take(i + 1).drop_last() =~= all.take(i as int));
            assert(all.take(i + 1).last() == lines@[i as int]@);
        }
        match read_env_line(lines[i].as_slice()) {
            Some(kv) => {
                apply_env_entry_to(config, kv.0.as_slice(), kv.1.as_slice());
            },
            None => {},
        }
        i = i + 1;
    }
    proof {
        assert(all.take(all.len() as int) =~= all);
    }
}

// ---------------------------------------------------------------------
// Overrides from the command line, and the settled configuration.
// ---------------------------------------------------------------------

/// The configuration after the options given on the command line; the
/// configuration path is always replaced.
pub open spec fn cli_applied(c: ConfigView, cli: CliArgs, config_path: Seq<char>) -> ConfigView {
    ConfigView {
        config_path: config_path,
        host: match cli.host { Some(h) => h@, None => c.host },
        port: match cli.port { Some(p) => p, None => c.port },
        db_path: match cli.db_path { Some(d) => d@, None => c.db_path },
        corpus_dir: match cli.corpus_dir { Some(d) => d@, None => c.corpus_dir },
        output_format: match cli.output_format { Some(f) => f, None => c.output_format },
        protocol: match cli.protocol { Some(p) => p, None => c.protocol },
        mode: match cli.ingestion { Some(m) => m, None => c.mode },
        channels: if cli.distribution@.len() > 0 { cli.distribution@ } else { c.channels },
        s3_bucket: match cli.s3_bucket { Some(b) => Some(b@), None => c.s3_bucket },
        s3_prefix: match cli.s3_prefix { Some(b) => Some(b@), None => c.s3_prefix },
        query: match cli.query { Some(q) => Some(q@), None => c.query },
        enable_periodic_cleanup: match cli.enable_periodic_cleanup { Some(b) => b, None => c.enable_periodic_cleanup },
        period_seconds: match cli.cleanup_interval_seconds { Some(n) => n, None => c.period_seconds },
        ..c
    }
}

fn copy_channels(v: &Vec<DistributionChannel>) -> (r: Vec<DistributionChannel>)
    ensures
        r@ == v@,
{
    let mut r: Vec<DistributionChannel> = Vec::new();
    let mut i: usize = 0;
    while i < v.len()
        invariant
            i <= v@.len(),
            r@ == v@.take(i as int),
        decreases v@.len() - i,
    {
        r.push(v[i]);
        proof {
            assert(v@.take(i + 1) =~= v@.take(i as int).push(v@[i as int]));
        }
        i = i + 1;
    }
    proof {
        assert(v@.take(v@.len() as int) =~= v@);
    }
    r
}

fn runtime_cli_overrides(rt: &mut RuntimeConfig, cli: &CliArgs)
    ensures
        final(rt).host@ == match cli.host { Some(h) => h@, None => old(rt).host@ },
        final(rt).port == match cli.port { Some(p) => p, None => old(rt).port },
        final(rt).output_format == match cli.output_format { Some(f) => f, None => old(rt).output_format },
        final(rt).protocol == match cli.protocol { Some(p) => p, None => old(rt).protocol },
        opt_view(final(rt).query) == match cli.query { Some(q) => Some(q@), None => opt_view(old(rt).query) },
{
    if let Some(host) = &cli.host {
        rt.host = host.clone();
    }
    if let Some(port) = cli.port {
        rt.port = port;
    }
    if let Some(output_format) = cli.output_format {
        rt.output_format = output_format;
    }
    if let Some(protocol) = cli.protocol {
        rt.protocol = protocol;
    }
    if let Some(query) = &cli.query {
        rt.query = Some(query.clone());
    }
}

fn ingestion_cli_overrides(ing: &mut IngestionConfig, cli: &CliArgs)
    ensures
        final(ing).corpus_dir@ == match cli.corpus_dir { Some(d) => d@, None => old(ing).corpus_dir@ },
        final(ing).mode == match cli.ingestion { Some(m) => m, None => old(ing).mode },
        opt_view(final(ing).s3_bucket) == match cli.s3_bucket { Some(b) => Some(b@), None => opt_view(old(ing).s3_bucket) },
        opt_view(final(ing).s3_prefix) == match cli.s3_prefix { Some(b) => Some(b@), None => opt_view(old(ing).s3_prefix) },
{
    if let Some(corpus_dir) = &cli.corpus_dir {
        ing.corpus_dir = corpus_dir.clone();
    }
    if let Some(ingestion) = cli.ingestion {
        ing.mode = ingestion;
    }
    if let Some(s3_bucket) = &cli.s3_bucket {
        ing.s3_bucket = Some(s3_bucket.clone());
    }
    if let Some(s3_prefix) = &cli.s3_prefix {
        ing.s3_prefix = Some(s3_prefix.clone());
    }
}

/// Applies the options given on the command line and records the
/// configuration path.
pub fn apply_cli_overrides(config: &mut AppConfig, cli: &CliArgs, config_path: String)
    ensures
        final(config)@ == cli_applied(old(config)@, *cli, config_path@),
{
    config.config_path = config_path;
    runtime_cli_overrides(&mut config.runtime, cli);
    ingestion_cli_overrides(&mut config.ingestion, cli);
    if let Some(db_path) = &cli.db_path {
        config.storage.db_path = db_path.clone();
    }
    if cli.distribution.len() > 0 {
        config.distribution.channels = copy_channels(&cli.distribution);
    }
    if let Some(enable) = cli.enable_periodic_cleanup {
        config.cleanup.enable_periodic_cleanup = enable;
    }
    if let Some(interval) = cli.cleanup_interval_seconds {
        config.cleanup.period_seconds = interval;
    }
}

/// The path of the configuration file: the one given on the command line,
/// else the one from the environment, else `zynsearch.config.json`.
pub fn resolve_config_path(from_cli: Option<String>, from_env: Option<String>) -> (r: String)
    ensures
        r@ == match from_cli {
            Some(p) => p@,
            None => match from_env {
                Some(p) => p@,
                None => "zynsearch.config.json"@,
            },
        },
{
    match from_cli {
        Some(p) => p,
        None => match from_env {
            Some(p) => p,
            None => "zynsearch.config.json".to_string(),
        },
    }
}

/// The configuration once loaded: env-file entries, then command-line
/// options, then normalised channels. The protocol is the one given on the
/// command line, if one is; otherwise it follows from the channels.
pub open spec fn settled(c: ConfigView, cli: CliArgs, config_path: Seq<char>, env_contents: Option<Seq<char>>) -> ConfigView {
    let from_env = match env_contents {
        Some(t) => env_applied(c, split_on(t, '\n')),
        None => c,
    };
    let given = cli_applied(from_env, cli, config_path);
    let channels = normalized(given.channels);
    let protocol = match cli.protocol {
        Some(p) => p,
        None => protocol_for(channels),
    };
    ConfigView { channels: channels, protocol: protocol, ..given }
}

/// Settles a loaded configuration: applies the env file's contents, where
/// there is one, then the command line; normalises the channels and, unless
/// the command line names the protocol, derives the protocol from them.
pub fn finish_app_config(config: &mut AppConfig, cli: &CliArgs, config_path: String, env_contents: Option<&str>)
    ensures
        final(config)@ == settled(old(config)@, *cli, config_path@, match env_contents {
            Some(t) => Some(t@),
            None => None,
        }),
{
    if let Some(text) = env_contents {
        apply_env_file_overrides(config, text);
    }
    apply_cli_overrides(config, cli, config_path);
    config.distribution.normalize();
    if cli.protocol.is_none() {
        config.runtime.protocol = config.distribution.to_protocol_mode();
    }
}

} // verus!
