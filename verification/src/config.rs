//! The configuration of vgrep: operating mode, server address, model files,
//! indexing limits, and where its files live under the user's home directory.
//!
//! Loading and saving the configuration file is done by the application, which
//! also saves after each setter; the library holds the values, their
//! defaults, their validation and the paths derived from them.
use vstd::prelude::*;

use sha2::Digest;

use crate::paths::{is_absolute, join_path, join_path_spec, path_is_absolute};
use crate::text::{
    all_white_space, chars_of, concat_str, contains_char, contains_chars, contains_seq,
    eq_ascii_case_insensitive, eq_ignore_ascii_case, is_blank, is_control, is_control_char,
    is_white_space, is_whitespace, parse_unsigned, parse_unsigned_spec, hex_lower, hex_encode,
};

verus! {

/// Operating mode: talk to a running server (the default) or work locally.
#[derive(Debug, Clone, Copy, PartialEq, Eq, Structural)]
pub enum Mode {
    Server,
    Local,
}

/// Why a server host was refused.
#[derive(Debug, Clone, Copy, PartialEq, Eq, Structural)]
pub enum HostError {
    /// Empty or only white space.
    Empty,
    /// Holds a protocol such as `http://`.
    HasProtocol,
    /// An address with a port, such as `127.0.0.1:8080`.
    HasPort,
    /// Holds white space or control characters.
    InvalidCharacters,
}

/// Errors of the configuration.
#[derive(Debug, Clone)]
pub enum ConfigError {
    /// The home directory of the user could not be found.
    NoHomeDirectory,
    /// A mode name other than `server` or `local` (the text given).
    InvalidMode(String),
    /// A server host that does not pass validation.
    InvalidHost(HostError),
}

/// The message that a refused server host is reported with.
pub open spec fn host_error_text(e: HostError) -> Seq<char> {
    match e {
        HostError::Empty => "Server host cannot be empty"@,
        HostError::HasProtocol =>
            "Server host should not contain protocol (e.g. http://). Use hostname or IP only."@,
        HostError::HasPort =>
            "Server host should not contain port. Set port using server_port configuration."@,
        HostError::InvalidCharacters => "Server host contains invalid characters"@,
    }
}

/// The message that a configuration error is reported with.
pub open spec fn config_error_text(e: ConfigError) -> Seq<char> {
    match e {
        ConfigError::NoHomeDirectory => "Cannot find home directory"@,
        ConfigError::InvalidMode(s) => "Invalid mode: "@ + s@ + ". Use 'server' or 'local'"@,
        ConfigError::InvalidHost(h) => host_error_text(h),
    }
}

impl HostError {
    /// The message this error is reported with.
    pub fn message(self) -> (r: &'static str)
        ensures
            r@ == host_error_text(self),
    {
        match self {
            HostError::Empty => "Server host cannot be empty",
            HostError::HasProtocol =>
                "Server host should not contain protocol (e.g. http://). Use hostname or IP only.",
            HostError::HasPort =>
                "Server host should not contain port. Set port using server_port configuration.",
            HostError::InvalidCharacters => "Server host contains invalid characters",
        }
    }
}

impl ConfigError {
    /// The message this error is reported with.
    pub fn message(&self) -> (r: String)
        ensures
            r@ == config_error_text(*self),
    {
        match self {
            ConfigError::NoHomeDirectory => "Cannot find home directory".to_owned(),
            ConfigError::InvalidMode(s) => {
                let head = concat_str("Invalid mode: ", s.as_str());
                concat_str(head.as_str(), ". Use 'server' or 'local'")
            },
            ConfigError::InvalidHost(h) => h.message().to_owned(),
        }
    }
}

/// The mode that a name denotes, ignoring case.
pub open spec fn mode_named(s: Seq<char>) -> Option<Mode> {
    if eq_ascii_case_insensitive(s, "server"@) {
        Some(Mode::Server)
    } else if eq_ascii_case_insensitive(s, "local"@) {
        Some(Mode::Local)
    } else {
        None
    }
}

/// The lower-case name of a mode.
pub open spec fn mode_name(m: Mode) -> Seq<char> {
    match m {
        Mode::Server => "server"@,
        Mode::Local => "local"@,
    }
}

impl Default for Mode {
    fn default() -> (m: Mode)
        ensures
            m == Mode::Server,
    {
        Mode::Server
    }
}

impl Mode {
    /// Reads a mode name, case-insensitively: `server` or `local`.
    pub fn parse(s: &str) -> (r: Result<Mode, ConfigError>)
        ensures
            match mode_named(s@) {
                Some(m) => r == Ok::<Mode, ConfigError>(m),
                None => r matches Err(ConfigError::InvalidMode(t)) && t@ == s@,
            },
    {
        if eq_ignore_ascii_case(s, "server") {
            Ok(Mode::Server)
        } else if eq_ignore_ascii_case(s, "local") {
            Ok(Mode::Local)
        } else {
            Err(ConfigError::InvalidMode(s.to_owned()))
        }
    }

    /// The lower-case name of the mode, as it is displayed and stored.
    pub fn as_str(&self) -> (r: &'static str)
        ensures
            r@ == mode_name(*self),
    {
        match self {
            Mode::Server => "server",
            Mode::Local => "local",
        }
    }
}

impl std::str::FromStr for Mode {
    type Err = ConfigError;

    fn from_str(s: &str) -> (r: Result<Mode, ConfigError>)
        ensures
            match mode_named(s@) {
                Some(m) => r == Ok::<Mode, ConfigError>(m),
                None => r matches Err(ConfigError::InvalidMode(t)) && t@ == s@,
            },
    {
        Mode::parse(s)
    }
}

/// The name of a mode reads back as that mode.
pub proof fn lemma_mode_name_roundtrip(m: Mode)
    ensures
        mode_named(mode_name(m)) == Some(m),
{
    reveal_strlit("server");
    reveal_strlit("local");
    match m {
        Mode::Server => {
            assert(eq_ascii_case_insensitive("server"@, "server"@));
        },
        Mode::Local => {
            assert(!eq_ascii_case_insensitive("local"@, "server"@));
            assert(eq_ascii_case_insensitive("local"@, "local"@));
        },
    }
}


/// The configuration values.
#[derive(Debug, Clone)]
pub struct Config {
    /// Operating mode: server (default) or local.
    pub mode: Mode,
    /// Server host for server mode.
    pub server_host: String,
    /// Server port for server mode.
    pub server_port: u16,
    /// Start the server on demand when it is not running.
    pub auto_start_server: bool,
    /// Embedding model file (relative to the models directory, or absolute).
    pub embedding_model: String,
    /// Reranker model file (relative to the models directory, or absolute).
    pub reranker_model: String,
    /// Whether the reranker is used for better, slower results.
    pub use_reranker: bool,
    /// Custom models directory, in place of the default one.
    pub models_dir: Option<String>,
    /// Chunk size for text splitting.
    pub chunk_size: usize,
    /// Overlap between chunks.
    pub chunk_overlap: usize,
    /// Largest file size to index, in bytes.
    pub max_file_size: u64,
    /// Default number of search results.
    pub max_results: usize,
    /// Whether search results show their content by default.
    pub show_content: bool,
    /// Debounce delay of the file watcher, in milliseconds.
    pub watch_debounce_ms: u64,
    /// Number of inference threads (0: as many as the machine offers).
    pub n_threads: usize,
    /// Context size for embeddings.
    pub context_size: usize,
}

/// The values of the environment variables that override defaults
/// (`VGREP_HOST`, `VGREP_PORT`, `VGREP_CHUNK_SIZE`, `VGREP_CHUNK_OVERLAP`,
/// `VGREP_MAX_FILE_SIZE`, `VGREP_MAX_RESULTS`, `VGREP_WATCH_DEBOUNCE`), each
/// `None` when unset.
#[derive(Debug, Clone)]
pub struct EnvOverrides {
    pub host: Option<String>,
    pub port: Option<String>,
    pub chunk_size: Option<String>,
    pub chunk_overlap: Option<String>,
    pub max_file_size: Option<String>,
    pub max_results: Option<String>,
    pub watch_debounce: Option<String>,
}

/// A number read from an optional environment value, or the default when the
/// value is missing or is not a number of the type.
pub open spec fn number_or(v: Option<String>, max: nat, default: nat) -> nat {
    match v {
        Some(s) => match parse_unsigned_spec(s@, max) {
            Some(n) => n,
            None => default,
        },
        None => default,
    }
}

fn parse_or(v: &Option<String>, max: u64, default: u64) -> (r: u64)
    requires
        default <= max,
    ensures
        r == number_or(*v, max as nat, default as nat),
        r <= max,
{
    match v {
        Some(s) => match parse_unsigned(s.as_str(), max) {
            Some(n) => n,
            None => default,
        },
        None => default,
    }
}

/// Default server host: the environment value, else `127.0.0.1`.
pub fn default_server_host(env: Option<String>) -> (r: String)
    ensures
        match env {
            Some(h) => r@ == h@,
            None => r@ == "127.0.0.1"@,
        },
{
    match env {
        Some(h) => h,
        None => "127.0.0.1".to_owned(),
    }
}

/// Default server port: the environment value when it is a port number, else 7777.
pub fn default_server_port(env: &Option<String>) -> (r: u16)
    ensures
        r == number_or(*env, 65535, 7777),
{
    parse_or(env, 65535, 7777) as u16
}

/// Default embedding model file.
pub fn default_embedding_model() -> (r: String)
    ensures
        r@ == "Qwen3-Embedding-0.6B-Q8_0.gguf"@,
{
    "Qwen3-Embedding-0.6B-Q8_0.gguf".to_owned()
}

/// Default reranker model file.
pub fn default_reranker_model() -> (r: String)
    ensures
        r@ == "Qwen3-Reranker-0.6B-Q4_K_M.gguf"@,
{
    "Qwen3-Reranker-0.6B-Q4_K_M.gguf".to_owned()
}

/// Default chunk size: the environment value when it is a number, else 512.
pub fn default_chunk_size(env: &Option<String>) -> (r: usize)
    ensures
        r == number_or(*env, usize::MAX as nat, 512),
{
    parse_or(env, usize::MAX as u64, 512) as usize
}

/// Default chunk overlap: the environment value when it is a number, else 64.
pub fn default_chunk_overlap(env: &Option<String>) -> (r: usize)
    ensures
        r == number_or(*env, usize::MAX as nat, 64),
{
    parse_or(env, usize::MAX as u64, 64) as usize
}

/// Default largest file size: the environment value when it is a number, else 512 KiB.
pub fn default_max_file_size(env: &Option<String>) -> (r: u64)
    ensures
        r == number_or(*env, u64::MAX as nat, 524288),
{
    parse_or(env, u64::MAX, 524288)
}

/// Default number of results: the environment value when it is a number, else 10.
pub fn default_max_results(env: &Option<String>) -> (r: usize)
    ensures
        r == number_or(*env, usize::MAX as nat, 10),
{
    parse_or(env, usize::MAX as u64, 10) as usize
}

/// Default watcher debounce: the environment value when it is a number, else 500 ms.
pub fn default_watch_debounce_ms(env: &Option<String>) -> (r: u64)
    ensures
        r == number_or(*env, u64::MAX as nat, 500),
{
    parse_or(env, u64::MAX, 500)
}

/// Default context size.
pub fn default_context_size() -> (r: usize)
    ensures
        r == 512,
{
    512
}

/// The reranker is used by default.
pub fn default_use_reranker() -> (r: bool)
    ensures
        r,
{
    true
}

/// The problem with a server host, if any, in the order the checks are made:
/// blank; holds `://`; holds `:`, does not start with `[` and reads as a
/// socket address (an address with a port); holds white space or a control
/// character.
pub open spec fn host_problem(h: Seq<char>) -> Option<HostError> {
    if all_white_space(h) {
        Some(HostError::Empty)
    } else if contains_seq(h, "://"@) {
        Some(HostError::HasProtocol)
    } else if h.contains(':') && !(h.len() > 0 && h[0] == '[') && spec_is_socket_addr(h) {
        Some(HostError::HasPort)
    } else if exists|i: int|
        0 <= i < h.len() && (is_white_space(#[trigger] h[i]) || is_control_char(h[i])) {
        Some(HostError::InvalidCharacters)
    } else {
        None
    }
}

/// A host that holds `://` anywhere, whatever scheme comes before it
/// (`http://`, `https://`, `ftp://`, ...), is refused for its protocol.
pub proof fn lemma_protocol_refused(h: Seq<char>, i: int)
    requires
        0 <= i,
        i + 3 <= h.len(),
        h.subrange(i, i + 3) == seq![':', '/', '/'],
    ensures
        host_problem(h) == Some(HostError::HasProtocol),
{
    reveal_strlit("://");
    assert(h.subrange(i, i + 3) == "://"@);
    assert(contains_seq(h, "://"@));
    assert(h[i] == h.subrange(i, i + 3)[0]);
    assert(!is_white_space(h[i]));
}

/// A host that is empty or only white space is refused as empty.
pub proof fn lemma_blank_host_refused(h: Seq<char>)
    requires
        forall|j: int| 0 <= j < h.len() ==> is_white_space(#[trigger] h[j]),
    ensures
        host_problem(h) == Some(HostError::Empty),
{
}

/// A plain host name, made of ASCII letters, digits, `.` and `-`, is
/// accepted: `localhost`, `vgrep.example.com`, `127.0.0.1`.
pub proof fn lemma_plain_host_accepted(h: Seq<char>)
    requires
        h.len() > 0,
        forall|j: int|
            0 <= j < h.len() ==> ('a' <= #[trigger] h[j] <= 'z' || 'A' <= h[j] <= 'Z' || '0' <= h[j]
                <= '9' || h[j] == '.' || h[j] == '-'),
    ensures
        host_problem(h) is None,
{
    reveal_strlit("://");
    assert(!is_white_space(h[0]));
    if contains_seq(h, "://"@) {
        let i = choose|i: int|
            0 <= i && i + ("://"@).len() <= h.len() && #[trigger] h.subrange(i, i + ("://"@).len())
                == "://"@;
        assert(h.subrange(i, i + 3)[0] == ':');
        assert(h[i] == ':');
    }
    if h.contains(':') {
        let k = choose|k: int| 0 <= k < h.len() && h[k] == ':';
        assert(h[k] == ':');
    }
}

/// A host with white space or a control character inside, and no `:`, is
/// refused for its characters: `my host`, `host\tname`.
pub proof fn lemma_spaced_host_refused(h: Seq<char>, k: int)
    requires
        0 <= k < h.len(),
        is_white_space(h[k]) || is_control_char(h[k]),
        exists|j: int| 0 <= j < h.len() && !is_white_space(#[trigger] h[j]),
        forall|j: int| 0 <= j < h.len() ==> #[trigger] h[j] != ':',
    ensures
        host_problem(h) == Some(HostError::InvalidCharacters),
{
    reveal_strlit("://");
    if contains_seq(h, "://"@) {
        let i = choose|i: int|
            0 <= i && i + ("://"@).len() <= h.len() && #[trigger] h.subrange(i, i + ("://"@).len())
                == "://"@;
        assert(h.subrange(i, i + 3)[0] == ':');
        assert(h[i] == ':');
    }
    let j = choose|j: int| 0 <= j < h.len() && !is_white_space(#[trigger] h[j]);
    assert(!is_white_space(h[j]));
}

/// Name for what `str::parse::<SocketAddr>` decides of a text: whether it is
/// an IP address with a port.
pub uninterp spec fn spec_is_socket_addr(text: Seq<char>) -> bool;

/// `text.parse::<SocketAddr>().is_ok()`.
///
/// Trusted: whether the text reads as a socket address is std's parser's
/// decision, named `spec_is_socket_addr`; nothing more of it is claimed.
#[verifier::external_body]
fn is_socket_addr(text: &str) -> (r: bool)
    ensures
        r == spec_is_socket_addr(text@),
{
    text.parse::<core::net::SocketAddr>().is_ok()
}

/// Checks a server host: it must be a bare host name or IP address.
pub fn validate_server_host(host: &str) -> (r: Result<(), HostError>)
    ensures
        match host_problem(host@) {
            Some(e) => r == Err::<(), HostError>(e),
            None => r is Ok,
        },
        forall|i: int|
            0 <= i && i + 3 <= host@.len() && #[trigger] host@.subrange(i, i + 3) == seq![
                ':',
                '/',
                '/',
            ] ==> r == Err::<(), HostError>(HostError::HasProtocol),
{
    proof {
        assert forall|i: int|
            0 <= i && i + 3 <= host@.len() && #[trigger] host@.subrange(i, i + 3) == seq![
                ':',
                '/',
                '/',
            ] implies host_problem(host@) == Some(HostError::HasProtocol) by {
            lemma_protocol_refused(host@, i);
        }
    }
    if is_blank(host) {
        return Err(HostError::Empty);
    }
    let v = chars_of(host);
    let proto = chars_of("://");
    if contains_chars(&v, &proto) {
        return Err(HostError::HasProtocol);
    }
    if contains_char(&v, ':') && !(v.len() > 0 && v[0] == '[') {
        if is_socket_addr(host) {
            return Err(HostError::HasPort);
        }
    }
    let mut i: usize = 0;
    while i < v.len()
        invariant
            v@ == host@,
            i <= v.len(),
            !all_white_space(host@),
            !contains_seq(host@, "://"@),
            !(host@.contains(':') && !(host@.len() > 0 && host@[0] == '[') && spec_is_socket_addr(
                host@,
            )),
            forall|j: int| 0 <= j < i ==> !(is_white_space(#[trigger] v@[j]) || is_control_char(v@[j])),
            forall|k: int|
                0 <= k && k + 3 <= host@.len() && #[trigger] host@.subrange(k, k + 3) == seq![
                    ':',
                    '/',
                    '/',
                ] ==> host_problem(host@) == Some(HostError::HasProtocol),
        decreases v.len() - i,
    {
        if is_whitespace(v[i]) || is_control(v[i]) {
            assert(is_white_space(v@[i as int]) || is_control_char(v@[i as int]));
            return Err(HostError::InvalidCharacters);
        }
        i = i + 1;
    }
    Ok(())
}

impl Config {
    /// The default configuration under the given environment values.
    pub fn from_env(env: &EnvOverrides) -> (c: Config)
        ensures
            c.mode == Mode::Server,
            match env.host {
                Some(h) => c.server_host@ == h@,
                None => c.server_host@ == "127.0.0.1"@,
            },
            c.server_port == number_or(env.port, 65535, 7777),
            !c.auto_start_server,
            c.embedding_model@ == "Qwen3-Embedding-0.6B-Q8_0.gguf"@,
            c.reranker_model@ == "Qwen3-Reranker-0.6B-Q4_K_M.gguf"@,
            c.use_reranker,
            c.models_dir is None,
            c.chunk_size == number_or(env.chunk_size, usize::MAX as nat, 512),
            c.chunk_overlap == number_or(env.chunk_overlap, usize::MAX as nat, 64),
            c.max_file_size == number_or(env.max_file_size, u64::MAX as nat, 524288),
            c.max_results == number_or(env.max_results, usize::MAX as nat, 10),
            !c.show_content,
            c.watch_debounce_ms == number_or(env.watch_debounce, u64::MAX as nat, 500),
            c.n_threads == 0,
            c.context_size == 512,
    {
        Config {
            mode: Mode::Server,
            server_host: default_server_host(env.host.clone()),
            server_port: default_server_port(&env.port),
            auto_start_server: false,
            embedding_model: default_embedding_model(),
            reranker_model: default_reranker_model(),
            use_reranker: default_use_reranker(),
            models_dir: None,
            chunk_size: default_chunk_size(&env.chunk_size),
            chunk_overlap: default_chunk_overlap(&env.chunk_overlap),
            max_file_size: default_max_file_size(&env.max_file_size),
            max_results: default_max_results(&env.max_results),
            show_content: false,
            watch_debounce_ms: default_watch_debounce_ms(&env.watch_debounce),
            n_threads: 0,
            context_size: default_context_size(),
        }
    }
}

impl Config {
    /// Sets the operating mode; every other value is kept.
    pub fn set_mode(&mut self, mode: Mode)
        ensures
            *final(self) == (Config { mode: mode, ..*old(self) }),
    {
        self.mode = mode;
    }

    /// Sets the server port; every other value is kept.
    pub fn set_server_port(&mut self, port: u16)
        ensures
            *final(self) == (Config { server_port: port, ..*old(self) }),
    {
        self.server_port = port;
    }

    /// Sets the embedding model file; every other value is kept.
    pub fn set_embedding_model(&mut self, model: String)
        ensures
            *final(self) == (Config { embedding_model: model, ..*old(self) }),
    {
        self.embedding_model = model;
    }

    /// Sets the reranker model file; every other value is kept.
    pub fn set_reranker_model(&mut self, model: String)
        ensures
            *final(self) == (Config { reranker_model: model, ..*old(self) }),
    {
        self.reranker_model = model;
    }

    /// Sets whether the reranker is used; every other value is kept.
    pub fn set_use_reranker(&mut self, enabled: bool)
        ensures
            *final(self) == (Config { use_reranker: enabled, ..*old(self) }),
    {
        self.use_reranker = enabled;
    }

    /// Sets the custom models directory; every other value is kept.
    pub fn set_models_dir(&mut self, path: Option<String>)
        ensures
            *final(self) == (Config { models_dir: path, ..*old(self) }),
    {
        self.models_dir = path;
    }

    /// Sets the largest file size to index; every other value is kept.
    pub fn set_max_file_size(&mut self, size: u64)
        ensures
            *final(self) == (Config { max_file_size: size, ..*old(self) }),
    {
        self.max_file_size = size;
    }

    /// Sets the default number of results; every other value is kept.
    pub fn set_max_results(&mut self, count: usize)
        ensures
            *final(self) == (Config { max_results: count, ..*old(self) }),
    {
        self.max_results = count;
    }

    /// Sets whether results show their content; every other value is kept.
    pub fn set_show_content(&mut self, show: bool)
        ensures
            *final(self) == (Config { show_content: show, ..*old(self) }),
    {
        self.show_content = show;
    }

    /// Sets the chunk size; every other value is kept.
    pub fn set_chunk_size(&mut self, size: usize)
        ensures
            *final(self) == (Config { chunk_size: size, ..*old(self) }),
    {
        self.chunk_size = size;
    }

    /// Sets the chunk overlap; every other value is kept.
    pub fn set_chunk_overlap(&mut self, overlap: usize)
        ensures
            *final(self) == (Config { chunk_overlap: overlap, ..*old(self) }),
    {
        self.chunk_overlap = overlap;
    }

    /// Sets the number of inference threads; every other value is kept.
    pub fn set_n_threads(&mut self, threads: usize)
        ensures
            *final(self) == (Config { n_threads: threads, ..*old(self) }),
    {
        self.n_threads = threads;
    }

    /// Sets the embedding context size; every other value is kept.
    pub fn set_context_size(&mut self, size: usize)
        ensures
            *final(self) == (Config { context_size: size, ..*old(self) }),
    {
        self.context_size = size;
    }

    /// Sets the watcher debounce delay; every other value is kept.
    pub fn set_watch_debounce(&mut self, ms: u64)
        ensures
            *final(self) == (Config { watch_debounce_ms: ms, ..*old(self) }),
    {
        self.watch_debounce_ms = ms;
    }

    /// Sets the server host when it passes validation; a refused host leaves
    /// the configuration unchanged.
    pub fn set_server_host(&mut self, host: String) -> (r: Result<(), ConfigError>)
        ensures
            match host_problem(host@) {
                Some(e) => r matches Err(ConfigError::InvalidHost(k)) && k == e && *final(self)
                    == *old(self),
                None => r is Ok && *final(self) == (Config { server_host: host, ..*old(self) }),
            },
            forall|i: int|
                0 <= i && i + 3 <= host@.len() && #[trigger] host@.subrange(i, i + 3) == seq![
                    ':',
                    '/',
                    '/',
                ] ==> (r matches Err(ConfigError::InvalidHost(HostError::HasProtocol)))
                    && *final(self) == *old(self),
    {
        match validate_server_host(host.as_str()) {
            Err(e) => Err(ConfigError::InvalidHost(e)),
            Ok(()) => {
                self.server_host = host;
                Ok(())
            },
        }
    }

    /// Number of inference threads: the configured number, or when it is 0
    /// the parallelism the machine offers (4 when that is unknown).
    pub fn get_n_threads(&self, available_parallelism: Option<usize>) -> (r: i32)
        ensures
            r == (if self.n_threads == 0 {
                match available_parallelism {
                    Some(p) => p as i32,
                    None => 4i32,
                }
            } else {
                self.n_threads as i32
            }),
    {
        if self.n_threads == 0 {
            match available_parallelism {
                Some(p) => p as i32,
                None => 4,
            }
        } else {
            self.n_threads as i32
        }
    }
}


/// `dirs::home_dir()`, as text.
///
/// Trusted: the home directory comes from the environment of the process, so
/// nothing is claimed of the result; a path that is not valid UTF-8 is
/// converted lossily.
#[verifier::external_body]
fn home_dir() -> (r: Option<String>) {
    match dirs::home_dir() {
        Some(p) => Some(p.to_string_lossy().into_owned()),
        None => None,
    }
}

/// `Path::new(path).exists()`.
///
/// Trusted: the answer depends on what is on disk, so nothing is claimed of it.
#[verifier::external_body]
fn path_exists(path: &str) -> (r: bool) {
    std::path::Path::new(path).exists()
}

/// Name for the SHA-256 digest of some bytes, as `sha2::Sha256` computes it.
pub uninterp spec fn spec_sha256(data: Seq<u8>) -> Seq<u8>;

/// `sha2::Sha256::digest(data)`.
///
/// Trusted: the digest is named `spec_sha256`; sha2's `Sha256` has a 32-byte output.
#[verifier::external_body]
fn sha256(data: &[u8]) -> (r: Vec<u8>)
    ensures
        r@ == spec_sha256(data@),
        r@.len() == 32,
{
    sha2::Sha256::digest(data).to_vec()
}

/// The configuration directory under a home directory: `<home>/.vgrep`.
pub open spec fn config_dir_spec(home: Seq<char>) -> Seq<char> {
    join_path_spec(home, ".vgrep"@)
}

/// The project name of a project path: the lower-case hex of the first 8
/// bytes of the SHA-256 digest of the path's UTF-8 bytes.
pub open spec fn path_hash_spec(path: Seq<char>) -> Seq<char> {
    hex_lower(spec_sha256(vstd::utf8::encode_utf8(path)).take(8))
}

/// The database file of a project under a configuration directory:
/// `<config_dir>/projects/<hash>.db`.
pub open spec fn project_db_path_spec(config_dir: Seq<char>, project: Seq<char>) -> Seq<char> {
    join_path_spec(join_path_spec(config_dir, "projects"@), path_hash_spec(project) + ".db"@)
}

/// The models directory that a configuration uses, given its configuration
/// directory: the custom one when set, else `<config_dir>/models`.
pub open spec fn models_dir_spec(models_dir: Option<String>, config_dir: Seq<char>) -> Seq<char> {
    match models_dir {
        Some(d) => d@,
        None => join_path_spec(config_dir, "models"@),
    }
}

impl Config {
    /// The configuration directory under the given home directory.
    pub fn config_dir_for_home(home: &str) -> (r: String)
        ensures
            r@ == config_dir_spec(home@),
    {
        join_path(home, ".vgrep")
    }

    /// The global configuration directory, `~/.vgrep` on all platforms.
    pub fn global_config_dir() -> (r: Result<String, ConfigError>)
        ensures
            match r {
                Ok(d) => exists|h: Seq<char>| d@ == config_dir_spec(h),
                Err(e) => e is NoHomeDirectory,
            },
    {
        match home_dir() {
            Some(h) => Ok(Config::config_dir_for_home(h.as_str())),
            None => Err(ConfigError::NoHomeDirectory),
        }
    }

    /// The configuration file in the given configuration directory.
    pub fn config_path_in(config_dir: &str) -> (r: String)
        ensures
            r@ == join_path_spec(config_dir@, "config.json"@),
    {
        join_path(config_dir, "config.json")
    }

    /// The global configuration file, `~/.vgrep/config.json`.
    pub fn global_config_path() -> (r: Result<String, ConfigError>)
        ensures
            match r {
                Ok(p) => exists|h: Seq<char>|
                    p@ == join_path_spec(#[trigger] config_dir_spec(h), "config.json"@),
                Err(e) => e is NoHomeDirectory,
            },
    {
        let dir = Config::global_config_dir()?;
        Ok(Config::config_path_in(dir.as_str()))
    }

    /// The models directory for the given configuration directory.
    pub fn models_dir_in(&self, config_dir: &str) -> (r: String)
        ensures
            r@ == models_dir_spec(self.models_dir, config_dir@),
    {
        match &self.models_dir {
            Some(d) => d.clone(),
            None => join_path(config_dir, "models"),
        }
    }

    /// The models directory: the custom one when set, else `~/.vgrep/models`.
    /// (Creating the directory is left to the caller.)
    pub fn get_models_dir(&self) -> (r: Result<String, ConfigError>)
        ensures
            match self.models_dir {
                Some(d) => r matches Ok(p) && p@ == d@,
                None => match r {
                    Ok(p) => exists|h: Seq<char>|
                        p@ == #[trigger] models_dir_spec(None, config_dir_spec(h)),
                    Err(e) => e is NoHomeDirectory,
                },
            },
    {
        match &self.models_dir {
            Some(d) => Ok(d.clone()),
            None => {
                let dir = Config::global_config_dir()?;
                Ok(self.models_dir_in(dir.as_str()))
            },
        }
    }

    /// The name under which a project's database is kept: 16 lower-case hex
    /// digits of the SHA-256 digest of its path.
    pub fn hash_path(path: &str) -> (r: String)
        ensures
            r@ == path_hash_spec(path@),
            r@.len() == 16,
    {
        let digest = sha256(path.as_bytes());
        let mut first: Vec<u8> = Vec::new();
        let mut i: usize = 0;
        while i < 8
            invariant
                digest@.len() == 32,
                i <= 8,
                first@ == digest@.take(i as int),
            decreases 8 - i,
        {
            first.push(digest[i]);
            i = i + 1;
        }
        proof {
            crate::text::lemma_hex_lower_len(first@);
        }
        hex_encode(first.as_slice())
    }

    /// The database file of a project under the given configuration directory.
    pub fn project_db_path_in(config_dir: &str, project_path: &str) -> (r: String)
        ensures
            r@ == project_db_path_spec(config_dir@, project_path@),
    {
        let projects = join_path(config_dir, "projects");
        let hash = Config::hash_path(project_path);
        let file = concat_str(hash.as_str(), ".db");
        join_path(projects.as_str(), file.as_str())
    }

    /// The database file of a project: `~/.vgrep/projects/<hash>.db`.
    /// (Creating the directory is left to the caller.)
    pub fn get_project_db_path(project_path: &str) -> (r: Result<String, ConfigError>)
        ensures
            match r {
                Ok(p) => exists|h: Seq<char>|
                    p@ == project_db_path_spec(#[trigger] config_dir_spec(h), project_path@),
                Err(e) => e is NoHomeDirectory,
            },
    {
        let dir = Config::global_config_dir()?;
        Ok(Config::project_db_path_in(dir.as_str(), project_path))
    }

    /// Where a model file is looked for: the file itself when its path is
    /// absolute and exists, else under the models directory.
    pub open spec fn model_path_ok(&self, model: Seq<char>, p: Seq<char>) -> bool {
        ||| path_is_absolute(model) && p == model
        ||| match self.models_dir {
            Some(d) => p == join_path_spec(d@, model),
            None => exists|h: Seq<char>|
                p == join_path_spec(#[trigger] models_dir_spec(None, config_dir_spec(h)), model),
        }
    }

    /// Where a model file is looked for, given whether a file exists at the
    /// model's own path: that path itself when it is absolute and the file
    /// exists; else the model's name under the models directory, which fails
    /// only when no models directory is set and no home directory is found.
    pub fn model_path_given(&self, model: &str, model_file_exists: bool) -> (r: Result<
        String,
        ConfigError,
    >)
        ensures
            path_is_absolute(model@) && model_file_exists ==> (r matches Ok(p) && p@ == model@),
            !(path_is_absolute(model@) && model_file_exists) ==> match self.models_dir {
                Some(d) => r matches Ok(p) && p@ == join_path_spec(d@, model@),
                None => match r {
                    Ok(p) => exists|h: Seq<char>|
                        p@ == join_path_spec(
                            #[trigger] models_dir_spec(None, config_dir_spec(h)),
                            model@,
                        ),
                    Err(e) => e is NoHomeDirectory,
                },
            },
    {
        if !Config::uses_models_dir(model, model_file_exists) {
            return Ok(model.to_owned());
        }
        let dir = self.get_models_dir()?;
        Ok(join_path(dir.as_str(), model))
    }

    fn model_path(&self, model: &String) -> (r: Result<String, ConfigError>)
        ensures
            match r {
                Ok(p) => self.model_path_ok(model@, p@),
                Err(e) => e is NoHomeDirectory && self.models_dir is None,
            },
            !path_is_absolute(model@) ==> (r matches Ok(p) ==> match self.models_dir {
                Some(d) => p@ == join_path_spec(d@, model@),
                None => exists|h: Seq<char>|
                    p@ == join_path_spec(
                        #[trigger] models_dir_spec(None, config_dir_spec(h)),
                        model@,
                    ),
            }),
            self.models_dir is Some && !path_is_absolute(model@) ==> r is Ok,
    {
        let model_file_exists = if is_absolute(model.as_str()) {
            path_exists(model.as_str())
        } else {
            false
        };
        self.model_path_given(model.as_str(), model_file_exists)
    }

    /// Full path of the embedding model: the configured path when it is
    /// absolute and exists, else that name under the models directory. The
    /// disk is asked whether the absolute path exists, and `model_path_given`
    /// decides from its answer.
    pub fn embedding_model_path(&self) -> (r: Result<String, ConfigError>)
        ensures
            match r {
                Ok(p) => self.model_path_ok(self.embedding_model@, p@),
                Err(e) => e is NoHomeDirectory && self.models_dir is None,
            },
            !path_is_absolute(self.embedding_model@) ==> (r matches Ok(p) ==> match self.models_dir {
                Some(d) => p@ == join_path_spec(d@, self.embedding_model@),
                None => exists|h: Seq<char>|
                    p@ == join_path_spec(
                        #[trigger] models_dir_spec(None, config_dir_spec(h)),
                        self.embedding_model@,
                    ),
            }),
            self.models_dir is Some && !path_is_absolute(self.embedding_model@) ==> r is Ok,
    {
        self.model_path(&self.embedding_model)
    }

    /// Full path of the reranker model: the configured path when it is
    /// absolute and exists, else that name under the models directory. The
    /// disk is asked whether the absolute path exists, and `model_path_given`
    /// decides from its answer.
    pub fn reranker_model_path(&self) -> (r: Result<String, ConfigError>)
        ensures
            match r {
                Ok(p) => self.model_path_ok(self.reranker_model@, p@),
                Err(e) => e is NoHomeDirectory && self.models_dir is None,
            },
            !path_is_absolute(self.reranker_model@) ==> (r matches Ok(p) ==> match self.models_dir {
                Some(d) => p@ == join_path_spec(d@, self.reranker_model@),
                None => exists|h: Seq<char>|
                    p@ == join_path_spec(
                        #[trigger] models_dir_spec(None, config_dir_spec(h)),
                        self.reranker_model@,
                    ),
            }),
            self.models_dir is Some && !path_is_absolute(self.reranker_model@) ==> r is Ok,
    {
        self.model_path(&self.reranker_model)
    }

    /// Whether resolving a model's path goes through the models directory:
    /// it does unless the model's path is absolute and names an existing file.
    pub fn uses_models_dir(model: &str, model_file_exists: bool) -> (r: bool)
        ensures
            r == !(path_is_absolute(model@) && model_file_exists),
    {
        !(is_absolute(model) && model_file_exists)
    }

    /// Whether the embedding model file exists: the path tested is the one
    /// that `embedding_model_path` gives, and there is no file when that path
    /// cannot be resolved. Nothing is claimed of the answer, which is what is
    /// on disk.
    pub fn has_embedding_model(&self) -> bool {
        match self.embedding_model_path() {
            Ok(p) => path_exists(p.as_str()),
            Err(_) => false,
        }
    }

    /// Whether the reranker model file exists: the path tested is the one
    /// that `reranker_model_path` gives, and there is no file when that path
    /// cannot be resolved. Nothing is claimed of the answer, which is what is
    /// on disk.
    pub fn has_reranker_model(&self) -> bool {
        match self.reranker_model_path() {
            Ok(p) => path_exists(p.as_str()),
            Err(_) => false,
        }
    }
}

} // verus!
