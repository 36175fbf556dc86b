//! The settings of the proxy.

use vstd::prelude::*;
use vstd::string::*;

use crate::text::same;

verus! {

/// A table of texts by name.
pub struct StringMap {
    entries: Vec<(String, String)>,
}

/// What a list of entries holds; of two entries of one name the later counts.
spec fn entries_map(s: Seq<(String, String)>) -> Map<Seq<char>, Seq<char>>
    decreases s.len(),
{
    if s.len() == 0 {
        Map::empty()
    } else {
        entries_map(s.drop_last()).insert(s.last().0@, s.last().1@)
    }
}

impl View for StringMap {
    type V = Map<Seq<char>, Seq<char>>;

    closed spec fn view(&self) -> Map<Seq<char>, Seq<char>> {
        entries_map(self.entries@)
    }
}

proof fn lemma_entries_map(s: Seq<(String, String)>, i: int)
    requires
        0 <= i < s.len(),
        forall|j: int| i < j < s.len() ==> (#[trigger] s[j]).0@ != s[i].0@,
    ensures
        entries_map(s).contains_key(s[i].0@),
        entries_map(s)[s[i].0@] == s[i].1@,
    decreases s.len(),
{
    if i < s.len() - 1 {
        assert(s.drop_last()[i] == s[i]);
        lemma_entries_map(s.drop_last(), i);
        assert(s.last() == s[s.len() - 1]);
    }
}

proof fn lemma_no_entry(s: Seq<(String, String)>, name: Seq<char>)
    requires
        forall|j: int| 0 <= j < s.len() ==> (#[trigger] s[j]).0@ != name,
    ensures
        !entries_map(s).contains_key(name),
    decreases s.len(),
{
    if s.len() > 0 {
        assert(s.last() == s[s.len() - 1]);
        assert forall|j: int| 0 <= j < s.drop_last().len() implies (
        #[trigger] s.drop_last()[j]).0@ != name by {
            assert(s.drop_last()[j] == s[j]);
        }
        lemma_no_entry(s.drop_last(), name);
    }
}

impl StringMap {
    /// A table without entries.
    pub fn new() -> (r: StringMap)
        ensures
            r@ == Map::<Seq<char>, Seq<char>>::empty(),
    {
        StringMap { entries: Vec::new() }
    }

    /// Sets the text of that name.
    pub fn insert(&mut self, name: String, value: String)
        ensures
            final(self)@ == old(self)@.insert(name@, value@),
    {
        let ghost before = self.entries@;
        self.entries.push((name, value));
        assert(self.entries@.drop_last() =~= before);
    }

    /// The text of that name.
    pub fn get(&self, name: &str) -> (r: Option<&String>)
        ensures
            match r {
                Some(v) => self@.contains_key(name@) && self@[name@] == v@,
                None => !self@.contains_key(name@),
            },
    {
        let mut i: usize = self.entries.len();
        while i > 0
            invariant
                i <= self.entries@.len(),
                forall|j: int| i <= j < self.entries@.len() ==> (#[trigger] self.entries@[j]).0@
                    != name@,
            decreases i,
        {
            i -= 1;
            if same(self.entries[i].0.as_str(), name) {
                proof {
                    lemma_entries_map(self.entries@, i as int);
                }
                return Some(&self.entries[i].1);
            }
        }
        proof {
            lemma_no_entry(self.entries@, name@);
        }
        None
    }
}

/// How the proxy listens.
pub struct ServerConfig {
    pub host: String,
    pub port: u16,
    pub connect_timeout_secs: u64,
    pub request_timeout_secs: u64,
    pub max_body_size: usize,
}

/// Where the proxy sends requests to.
pub struct UpstreamConfig {
    pub url: String,
    pub api_key: String,
    pub extra_headers: Vec<(String, String)>,
    pub model_mapping: StringMap,
}

/// How the proxy writes its log.
pub struct LogConfig {
    pub level: String,
    pub json: bool,
    pub dir: String,
    pub file_prefix: String,
    pub rotation: bool,
    pub retention_days: usize,
}

/// How the proxy streams.
pub struct StreamingConfig {
    pub keepalive_interval_secs: u64,
    pub enable_usage_injection: bool,
    pub preflight_timeout_secs: u64,
    pub total_timeout_secs: u64,
    pub enable_preflight: bool,
}

/// The settings of the proxy.
pub struct Config {
    pub server: ServerConfig,
    pub upstream: UpstreamConfig,
    pub logging: LogConfig,
    pub streaming: StreamingConfig,
}

/// The directory for log files.
pub fn default_log_dir() -> (r: String)
    ensures
        r@ == "logs"@,
{
    "logs".to_owned()
}

/// What the names of log files begin with.
pub fn default_log_file_prefix() -> (r: String)
    ensures
        r@ == "ccr"@,
{
    "ccr".to_owned()
}

/// The number of days for which log files are kept.
pub fn default_retention_days() -> (r: usize)
    ensures
        r == 3,
{
    3
}

/// Whether each day gets a log file.
pub fn default_log_rotation() -> (r: bool)
    ensures
        r,
{
    true
}

/// The time between two signs of life, in seconds.
pub fn default_keepalive_interval() -> (r: u64)
    ensures
        r == 15,
{
    15
}

/// Whether estimates take the place of token counts that were not reported.
pub fn default_enable_usage_injection() -> (r: bool)
    ensures
        r,
{
    true
}

/// How long the first data of a stream may take, in seconds.
pub fn default_preflight_timeout() -> (r: u64)
    ensures
        r == 120,
{
    120
}

/// How long a stream may take, in seconds.
pub fn default_total_timeout() -> (r: u64)
    ensures
        r == 3600,
{
    3600
}

/// Whether the first data of a stream is looked at before anything is sent.
pub fn default_enable_preflight() -> (r: bool)
    ensures
        r,
{
    true
}

/// The address to listen on.
pub fn default_host() -> (r: String)
    ensures
        r@ == "0.0.0.0"@,
{
    "0.0.0.0".to_owned()
}

/// The port to listen on.
pub fn default_port() -> (r: u16)
    ensures
        r == 8180,
{
    8180
}

/// How long it may take to reach the upstream API, in seconds.
pub fn default_connect_timeout_secs() -> (r: u64)
    ensures
        r == 30,
{
    30
}

/// How long a request may take, in seconds.
pub fn default_request_timeout_secs() -> (r: u64)
    ensures
        r == 1800,
{
    1800
}

/// The largest request, in bytes.
pub fn default_max_body_size() -> (r: usize)
    ensures
        r == 10 * 1024 * 1024,
{
    10 * 1024 * 1024
}

/// The level of the log.
pub fn default_log_level() -> (r: String)
    ensures
        r@ == "info"@,
{
    "info".to_owned()
}

impl Default for LogConfig {
    fn default() -> (r: LogConfig)
        ensures
            r.level@ == "info"@,
            !r.json,
            r.dir@ == "logs"@,
            r.file_prefix@ == "ccr"@,
            r.rotation,
            r.retention_days == 3,
    {
        LogConfig {
            level: default_log_level(),
            json: false,
            dir: default_log_dir(),
            file_prefix: default_log_file_prefix(),
            rotation: default_log_rotation(),
            retention_days: default_retention_days(),
        }
    }
}

impl Default for StreamingConfig {
    fn default() -> (r: StreamingConfig)
        ensures
            r == (StreamingConfig {
                keepalive_interval_secs: 15,
                enable_usage_injection: true,
                preflight_timeout_secs: 120,
                total_timeout_secs: 3600,
                enable_preflight: true,
            }),
    {
        StreamingConfig {
            keepalive_interval_secs: default_keepalive_interval(),
            enable_usage_injection: default_enable_usage_injection(),
            preflight_timeout_secs: default_preflight_timeout(),
            total_timeout_secs: default_total_timeout(),
            enable_preflight: default_enable_preflight(),
        }
    }
}

/// The name that the upstream API has for a model.
pub open spec fn mapped(mapping: Map<Seq<char>, Seq<char>>, model: Seq<char>) -> Seq<char> {
    if mapping.contains_key(model) {
        mapping[model]
    } else {
        model
    }
}

impl Config {
    /// The name that the upstream API has for a model; the same name where none is set.
    pub fn map_model<'a>(&'a self, model: &'a str) -> (r: &'a str)
        ensures
            r@ == mapped(self.upstream.model_mapping@, model@),
    {
        match self.upstream.model_mapping.get(model) {
            Some(name) => name.as_str(),
            None => model,
        }
    }
}

} // verus!
