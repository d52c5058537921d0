//! The application's configuration: its shape, its defaults, and the
//! environment file. Finding the home directory and reading files is the
//! caller's business.

use vstd::prelude::*;
use vstd::string::StringExecFns;
use crate::error::{AppError, AppResult};
use crate::text::{
    chars_of, first_line, first_line_end, push_pair, strip_end_in, strip_start_in, substring,
    text_pairs, trim, CharClass,
};

verus! {

/// The name of the application's directory under the home directory.
pub const DATA_DIR_NAME: &'static str = "code-ai-assistant";

/// The application's configuration.
#[derive(Clone, Debug, PartialEq, Eq)]
pub struct AppConfig {
    /// Application settings
    pub app: AppSettings,
    /// Database settings
    pub database: DatabaseSettings,
    /// Deployment settings
    pub deployment: DeploymentSettings,
    /// Logging settings
    pub logging: LoggingSettings,
}

/// Application settings.
#[derive(Clone, Debug, PartialEq, Eq)]
pub struct AppSettings {
    /// Application name
    pub name: String,
    /// Application version
    pub version: String,
    /// Data directory
    pub data_dir: String,
    /// User home directory
    pub user_home: String,
    /// Auto update enabled
    pub auto_update: Option<bool>,
}

/// Deployment settings.
#[derive(Clone, Debug, PartialEq, Eq)]
pub struct DeploymentSettings {
    /// Deployment environment
    pub environment: String,
    /// Debug mode
    pub debug: bool,
    /// Host address
    pub host: String,
    /// Port number
    pub port: u16,
}

/// Logging settings.
#[derive(Clone, Debug, PartialEq, Eq)]
pub struct LoggingSettings {
    /// Log level
    pub log_level: String,
    /// Log format pattern
    pub log_fmt_pattern: Option<String>,
    /// Log file path
    pub log_file_path: String,
    /// Log file name
    pub log_file_name: String,
    /// Enable console logging
    pub console: bool,
    /// File rotation settings
    pub log_file_rotation: FileRotationSettings,
}

/// File rotation settings.
#[derive(Clone, Copy, Debug, PartialEq, Eq, Structural)]
pub struct FileRotationSettings {
    /// Maximum file size in MB
    pub log_file_max_size_mb: u64,
    /// Maximum number of backup files
    pub log_file_max_backups: u32,
    /// Maximum age of log files in days
    pub log_file_max_age_days: u32,
}

/// Database settings.
#[derive(Clone, Debug, PartialEq, Eq)]
pub struct DatabaseSettings {
    /// Database URL
    pub url: String,
    /// Maximum connections
    pub max_connections: u32,
    /// Minimum connections
    pub min_connections: u32,
}

/// The configuration of an installation that has no configuration file: the
/// database and the logs lie under the data directory.
pub open spec fn is_default_config(config: AppConfig, data_dir: Seq<char>, user_home: Seq<char>) -> bool {
    &&& config.app.name@ == "Code AI Assistant"@
    &&& config.app.version@ == "0.1.0"@
    &&& config.app.data_dir@ == data_dir
    &&& config.app.user_home@ == user_home
    &&& config.app.auto_update == Some(true)
    &&& config.database.url@ == "sqlite://"@ + data_dir + "/app.db?mode=rwc"@
    &&& config.database.max_connections == 10
    &&& config.database.min_connections == 1
    &&& config.deployment.environment@ == "development"@
    &&& config.deployment.debug
    &&& config.deployment.host@ == "127.0.0.1"@
    &&& config.deployment.port == 8080
    &&& config.logging.log_level@ == "debug"@
    &&& config.logging.log_file_path@ == data_dir + "/logs"@
    &&& config.logging.log_file_name@ == "app.log"@
    &&& config.logging.log_fmt_pattern matches Some(p) && p@ == "%Y-%m-%d %H:%M:%S%.3f %l %T %n %f:%L"@
    &&& config.logging.console
    &&& config.logging.log_file_rotation == (FileRotationSettings {
        log_file_max_size_mb: 10,
        log_file_max_backups: 5,
        log_file_max_age_days: 30,
    })
}

impl AppConfig {
    /// The default configuration of an installation whose data directory is
    /// `data_dir` and whose user's home directory is `user_home`.
    pub fn with_dirs(data_dir: &str, user_home: &str) -> (config: Self)
        ensures
            is_default_config(config, data_dir@, user_home@),
    {
        let mut url = "sqlite://".to_owned();
        url.append(data_dir);
        url.append("/app.db?mode=rwc");
        let mut log_file_path = data_dir.to_owned();
        log_file_path.append("/logs");
        AppConfig {
            app: AppSettings {
                name: "Code AI Assistant".to_owned(),
                version: "0.1.0".to_owned(),
                data_dir: data_dir.to_owned(),
                user_home: user_home.to_owned(),
                auto_update: Some(true),
            },
            database: DatabaseSettings { url, max_connections: 10, min_connections: 1 },
            deployment: DeploymentSettings {
                environment: "development".to_owned(),
                debug: true,
                host: "127.0.0.1".to_owned(),
                port: 8080,
            },
            logging: LoggingSettings {
                log_level: "debug".to_owned(),
                log_fmt_pattern: Some("%Y-%m-%d %H:%M:%S%.3f %l %T %n %f:%L".to_owned()),
                log_file_path,
                log_file_name: "app.log".to_owned(),
                console: true,
                log_file_rotation: FileRotationSettings {
                    log_file_max_size_mb: 10,
                    log_file_max_backups: 5,
                    log_file_max_age_days: 30,
                },
            },
        }
    }
}

/// The configuration that the application runs with: the one that was read
/// from the configuration sources, or a configuration error where they
/// could not be read.
pub fn load_config(loaded: Result<AppConfig, String>) -> (config: AppResult<AppConfig>)
    ensures
        match loaded {
            Ok(c) => config == Ok::<AppConfig, AppError>(c),
            Err(text) => config matches Err(AppError::ConfigError(detail)) && detail@
                == "Failed to deserialize config: "@ + text@,
        },
{
    match loaded {
        Ok(c) => Ok(c),
        Err(text) => {
            let mut detail = "Failed to deserialize config: ".to_owned();
            detail.append(text.as_str());
            Err(AppError::ConfigError(detail))
        },
    }
}

/// The user's home directory as the configuration reports it, or a
/// configuration error where it is unknown.
pub fn get_user_home(home: Option<String>) -> (dir: AppResult<String>)
    ensures
        match home {
            Some(h) => dir == Ok::<String, AppError>(h),
            None => dir matches Err(AppError::ConfigError(detail)) && detail@
                == "Failed to get user home directory"@,
        },
{
    match home {
        Some(h) => Ok(h),
        None => Err(AppError::ConfigError("Failed to get user home directory".to_owned())),
    }
}

/// The index of the first `c` in `s`, or the length of `s`.
pub open spec fn index_of_char(s: Seq<char>, c: char) -> int
    decreases s.len(),
{
    if s.len() == 0 || s[0] == c {
        0
    } else {
        1 + index_of_char(s.skip(1), c)
    }
}

/// Where the first `c` of `s` stands, if it is behind `k` other characters.
proof fn lemma_index_of_char(s: Seq<char>, c: char, k: int)
    requires
        0 <= k <= s.len(),
        forall|i: int| 0 <= i < k ==> #[trigger] s[i] != c,
        k < s.len() ==> s[k] == c,
    ensures
        index_of_char(s, c) == k,
    decreases k,
{
    if k > 0 {
        let t = s.skip(1);
        assert forall|i: int| 0 <= i < k - 1 implies #[trigger] t[i] != c by {
            assert(t[i] == s[i + 1]);
        }
        lemma_index_of_char(t, c, k - 1);
    }
}

/// What one line of an environment file says.
pub enum EnvLine {
    /// Nothing: the line is empty or a comment.
    Skipped,
    /// A variable and its value.
    Pair(Seq<char>, Seq<char>),
    /// Nothing that can be read: the line has no equals sign.
    Malformed,
}

/// Reads one line of an environment file.
///
/// An empty line and a line that starts with `#` say nothing. Any other
/// line names a variable, before its first equals sign, and gives the value,
/// between its first equals sign and the second or the end of the line;
/// both are trimmed.
pub open spec fn env_line(line: Seq<char>) -> EnvLine {
    let eq = index_of_char(line, '=');
    if line.len() == 0 || line[0] == '#' {
        EnvLine::Skipped
    } else if eq == line.len() {
        EnvLine::Malformed
    } else {
        let rest = line.skip(eq + 1);
        EnvLine::Pair(trim(line.take(eq)), trim(rest.take(index_of_char(rest, '='))))
    }
}

/// A line as the file holds it, without the carriage return that ends it
/// where a line feed follows.
pub open spec fn without_line_end(line: Seq<char>, ended: bool) -> Seq<char> {
    if ended && line.len() > 0 && line.last() == '\r' {
        line.drop_last()
    } else {
        line
    }
}

/// The variables that an environment file sets, in order; `None` where one
/// of its lines cannot be read.
pub open spec fn env_pairs(text: Seq<char>) -> Option<Seq<(Seq<char>, Seq<char>)>>
    decreases text.len(),
{
    if text.len() == 0 {
        Some(Seq::empty())
    } else {
        let raw = first_line(text);
        let ended = raw.len() < text.len();
        let rest = if ended {
            text.skip(raw.len() as int + 1)
        } else {
            Seq::empty()
        };
        match (env_line(without_line_end(raw, ended)), env_pairs(rest)) {
            (EnvLine::Malformed, _) => None,
            (_, None) => None,
            (EnvLine::Skipped, Some(pairs)) => Some(pairs),
            (EnvLine::Pair(key, value), Some(pairs)) => Some(seq![(key, value)] + pairs),
        }
    }
}

/// Finds the first `c` in the window `[lo, hi)` of `v`.
fn find_char(v: &Vec<char>, lo: usize, hi: usize, c: char) -> (at: usize)
    requires
        lo <= hi <= v.len(),
    ensures
        lo <= at <= hi,
        at - lo == index_of_char(v@.subrange(lo as int, hi as int), c),
{
    let mut at: usize = lo;
    while at < hi && v[at] != c
        invariant
            lo <= at <= hi <= v.len(),
            forall|i: int| lo <= i < at ==> #[trigger] v@[i] != c,
        decreases hi - at,
    {
        at += 1;
    }
    proof {
        lemma_index_of_char(v@.subrange(lo as int, hi as int), c, at - lo);
    }
    at
}

/// Copies the window `[lo, hi)` of `v` without surrounding white space.
fn trimmed_window(v: &Vec<char>, lo: usize, hi: usize) -> (out: String)
    requires
        lo <= hi <= v.len(),
    ensures
        out@ == trim(v@.subrange(lo as int, hi as int)),
{
    let a = strip_start_in(v, lo, hi, CharClass::Whitespace);
    let b = strip_end_in(v, a, hi, CharClass::Whitespace);
    substring(v, a, b)
}

/// Reads an environment file. A line that is neither empty nor a comment
/// and has no equals sign makes the file unreadable, which is a
/// configuration error.
pub fn parse_env(text: &str) -> (vars: AppResult<Vec<(String, String)>>)
    ensures
        match env_pairs(text@) {
            Some(pairs) => vars matches Ok(v) && text_pairs(v@) == pairs,
            None => vars matches Err(AppError::ConfigError(detail)) && detail@
                == "Malformed line in environment file"@,
        },
{
    let v = chars_of(text);
    let n = v.len();
    let mut vars: Vec<(String, String)> = Vec::new();
    let mut pos: usize = 0;
    assert(text_pairs(vars@) =~= Seq::<(Seq<char>, Seq<char>)>::empty());
    assert(v@.skip(0) == v@);
    while pos < n
        invariant
            pos <= n,
            n == v.len(),
            v@ == text@,
            match env_pairs(v@.skip(pos as int)) {
                Some(rest) => env_pairs(v@) == Some(text_pairs(vars@) + rest),
                None => env_pairs(v@) is None,
            },
        decreases n - pos,
    {
        let ghost here = v@.skip(pos as int);
        assert(here == v@.subrange(pos as int, n as int));
        let end = first_line_end(&v, pos, n);
        let ended = end < n;
        let ghost raw = first_line(here);
        assert(raw == v@.subrange(pos as int, end as int));
        let stop = if ended && end > pos && v[end - 1] == '\r' {
            end - 1
        } else {
            end
        };
        let ghost line = without_line_end(raw, ended);
        proof {
            if ended && raw.len() > 0 && raw.last() == '\r' {
                assert(raw.drop_last() =~= v@.subrange(pos as int, stop as int));
            }
            assert(line == v@.subrange(pos as int, stop as int));
        }
        let next = if ended {
            end + 1
        } else {
            n
        };
        proof {
            if ended {
                assert(here.skip(raw.len() as int + 1) =~= v@.skip(next as int));
            } else {
                assert(v@.skip(n as int) =~= Seq::<char>::empty());
            }
        }
        if stop > pos && v[pos] != '#' {
            let eq = find_char(&v, pos, stop, '=');
            if eq == stop {
                return Err(AppError::ConfigError("Malformed line in environment file".to_owned()));
            }
            let key = trimmed_window(&v, pos, eq);
            let value_end = find_char(&v, eq + 1, stop, '=');
            let value = trimmed_window(&v, eq + 1, value_end);
            proof {
                let rest = line.skip(eq - pos + 1);
                assert(line.take(eq - pos) =~= v@.subrange(pos as int, eq as int));
                assert(rest =~= v@.subrange(eq + 1, stop as int));
                assert(rest.take(value_end - eq - 1) =~= v@.subrange(eq + 1, value_end as int));
            }
            let ghost before = text_pairs(vars@);
            push_pair(&mut vars, key, value);
            proof {
                match env_pairs(v@.skip(next as int)) {
                    Some(rest) => {
                        assert(before.push((key@, value@)) + rest =~= before + (seq![
                            (key@, value@),
                        ] + rest));
                    },
                    None => {},
                }
            }
        }
        pos = next;
    }
    proof {
        assert(v@.skip(n as int) =~= Seq::<char>::empty());
        assert(text_pairs(vars@) + Seq::<(Seq<char>, Seq<char>)>::empty() =~= text_pairs(vars@));
    }
    Ok(vars)
}

} // verus!
