use code_ai_assistant::config::{get_user_home, load_config, parse_env, AppConfig, DATA_DIR_NAME};
use code_ai_assistant::error::AppError;
use code_ai_assistant::files::{
    log_file_name, read_plan, sort_entries, tail_lines, FileEntry, ReadPlan, DIRECT_READ_LIMIT,
};
use code_ai_assistant::ids::{fresh_id, ID_CHARS};
use code_ai_assistant::orchestrator::{Phase, TaskOrchestrator};
use code_ai_assistant::ordering::{is_text_before, stable_sort, Ranked};
use code_ai_assistant::resolver::Platform;
use code_ai_assistant::settings::{setting_category, WorkspaceInfo};
use code_ai_assistant::terminal::{
    command_for_shell, shell_command, CommandLine, TerminalService, TerminalSession, DEFAULT_CWD,
};
use code_ai_assistant::textmap::TextMap;

fn cs(s: &str) -> Vec<char> {
    s.chars().collect()
}

fn entry(name: &str, is_directory: bool) -> FileEntry {
    FileEntry {
        name: name.to_string(),
        path: format!("/d/{name}"),
        is_directory,
        size: 1,
        modified: None,
    }
}

fn names(files: &[FileEntry]) -> Vec<&str> {
    files.iter().map(|f| f.name.as_str()).collect()
}

fn pairs(v: &[(&str, &str)]) -> Vec<(String, String)> {
    v.iter().map(|(k, x)| (k.to_string(), x.to_string())).collect()
}

fn is_hex_id(id: &str) -> bool {
    id.chars().enumerate().all(|(i, c)| {
        if [8, 13, 18, 23].contains(&i) {
            c == '-'
        } else {
            c.is_ascii_hexdigit() && !c.is_ascii_uppercase()
        }
    })
}

#[test]
fn fresh_ids_are_hyphenated_and_differ() {
    assert_eq!(ID_CHARS, 36);
    let a = fresh_id();
    let b = fresh_id();
    assert_eq!(a.chars().count(), 36);
    assert!(is_hex_id(&a), "{a}");
    assert!(is_hex_id(&b), "{b}");
    assert_ne!(a, b);
    assert_eq!(a.as_bytes()[14], b'4');
}

#[test]
fn orchestrator_can_draw_its_own_correlation_id() {
    let names = || code_ai_assistant::backend::BackendNames::standard("sonnet".to_string()).unwrap();
    let a = TaskOrchestrator::with_fresh_id(names());
    let b = TaskOrchestrator::with_fresh_id(names());
    assert_eq!(a.phase(), Phase::Idle);
    assert!(is_hex_id(a.request_id()));
    assert_ne!(a.request_id(), b.request_id());
}

#[test]
fn texts_rank_as_strings_compare() {
    let samples = ["", "a", "A", "ab", "b", "aa", "é", "z", "日本", "日", "\u{10ffff}", "a\0"];
    for x in samples {
        for y in samples {
            assert_eq!(is_text_before(&cs(x), &cs(y)), x < y, "{x:?} {y:?}");
        }
    }
}

#[derive(Debug, PartialEq, Clone)]
struct Card(u8, char);

impl Ranked for Card {
    fn before(&self, other: &Self) -> bool {
        self.0 < other.0
    }

    fn ranks_before(&self, other: &Self) -> bool {
        self.0 < other.0
    }
}

#[test]
fn sort_is_stable() {
    let mut cards =
        vec![Card(3, 'a'), Card(1, 'b'), Card(3, 'c'), Card(2, 'd'), Card(1, 'e'), Card(3, 'f')];
    let mut expected = cards.clone();
    expected.sort_by_key(|c| c.0);
    stable_sort(&mut cards);
    assert_eq!(cards, expected);
    assert_eq!(
        cards,
        vec![Card(1, 'b'), Card(1, 'e'), Card(2, 'd'), Card(3, 'a'), Card(3, 'c'), Card(3, 'f')]
    );
    let mut none: Vec<Card> = Vec::new();
    stable_sort(&mut none);
    assert!(none.is_empty());
    let mut one = vec![Card(9, 'x')];
    stable_sort(&mut one);
    assert_eq!(one, vec![Card(9, 'x')]);
}

#[test]
fn sort_agrees_with_the_standard_library() {
    let mut seed: u32 = 12345;
    for len in 0..40usize {
        let mut cards = Vec::new();
        for i in 0..len {
            seed = seed.wrapping_mul(1103515245).wrapping_add(12345);
            cards.push(Card((seed >> 16) as u8 % 5, char::from(b'a' + (i % 26) as u8)));
        }
        let mut expected = cards.clone();
        expected.sort_by_key(|c| c.0);
        stable_sort(&mut cards);
        assert_eq!(cards, expected);
    }
}

#[test]
fn listing_shows_directories_first_then_names_without_case() {
    let mut files = vec![
        entry("zeta.txt", false),
        entry("Alpha.txt", false),
        entry("src", true),
        entry("beta.txt", false),
        entry("Docs", true),
        entry("alpha.txt", false),
        entry("build", true),
    ];
    sort_entries(&mut files);
    assert_eq!(
        names(&files),
        vec!["build", "Docs", "src", "Alpha.txt", "alpha.txt", "beta.txt", "zeta.txt"]
    );
    assert!(files[..3].iter().all(|f| f.is_directory));
    let mut files = vec![entry("b", false), entry("B", false), entry("a", true), entry("A", true)];
    sort_entries(&mut files);
    assert_eq!(names(&files), vec!["a", "A", "b", "B"]);
}

#[test]
fn listing_order_is_that_of_the_standard_sort() {
    let mut files: Vec<FileEntry> = ["m", "Z", "a", "É", "é", "B10", "b2", "", "ÄB", "äa"]
        .iter()
        .enumerate()
        .map(|(i, n)| entry(n, i % 3 == 0))
        .collect();
    let mut expected = files.clone();
    expected.sort_by(|a, b| match (a.is_directory, b.is_directory) {
        (true, false) => std::cmp::Ordering::Less,
        (false, true) => std::cmp::Ordering::Greater,
        _ => a.name.to_lowercase().cmp(&b.name.to_lowercase()),
    });
    sort_entries(&mut files);
    assert_eq!(files, expected);
}

#[test]
fn small_files_are_read_directly_and_directories_refused() {
    assert_eq!(DIRECT_READ_LIMIT, 1_048_576);
    assert_eq!(read_plan(false, 0), Ok(ReadPlan::Direct));
    assert_eq!(read_plan(false, 1_048_576), Ok(ReadPlan::Direct));
    assert_eq!(read_plan(false, 1_048_577), Ok(ReadPlan::Lenient));
    assert_eq!(read_plan(false, u64::MAX), Ok(ReadPlan::Lenient));
    assert_eq!(read_plan(true, 10), Err("指定路径是目录，无法作为文件读取".to_string()));
    assert_eq!(read_plan(true, u64::MAX), Err("指定路径是目录，无法作为文件读取".to_string()));
}

#[test]
fn log_shows_its_last_lines() {
    let lines: Vec<String> = (1..=5).map(|i| format!("line {i}")).collect();
    assert_eq!(tail_lines(lines.clone(), None), lines);
    assert_eq!(tail_lines(lines.clone(), Some(10)), lines);
    assert_eq!(tail_lines(lines.clone(), Some(5)), lines);
    assert_eq!(tail_lines(lines.clone(), Some(2)), vec!["line 4", "line 5"]);
    assert_eq!(tail_lines(lines.clone(), Some(0)), Vec::<String>::new());
    assert_eq!(tail_lines(Vec::new(), Some(3)), Vec::<String>::new());
    assert_eq!(log_file_name("app.log", "2025-12-18"), "app.log.2025-12-18");
}

#[test]
fn setting_goes_to_the_category_of_its_key() {
    assert_eq!(setting_category("app.theme", None), "app");
    assert_eq!(setting_category("user.name", None), "user");
    assert_eq!(setting_category("workspace.path", None), "workspace");
    assert_eq!(setting_category("ai.model", None), "ai");
    assert_eq!(setting_category("theme", None), "general");
    assert_eq!(setting_category("app", None), "general");
    assert_eq!(setting_category("App.theme", None), "general");
    assert_eq!(setting_category("", None), "general");
    assert_eq!(setting_category("ai.", None), "ai");
    assert_eq!(setting_category("app.theme", Some("custom".to_string())), "custom");
    assert_eq!(setting_category("x", Some(String::new())), "");
}

#[test]
fn workspace_info_is_plain_data() {
    let w = WorkspaceInfo {
        id: "1".to_string(),
        name: "n".to_string(),
        path: "/p".to_string(),
        is_active: true,
        created_at: "2025-01-01T00:00:00+00:00".to_string(),
        updated_at: "2025-01-02T00:00:00+00:00".to_string(),
    };
    assert_eq!(w.clone(), w);
}

#[test]
fn posix_shells_run_the_command_as_login_shell() {
    for shell in ["bash", "zsh", "sh"] {
        assert_eq!(
            shell_command(Platform::Posix, shell, "ls -la"),
            Ok(CommandLine {
                program: shell.to_string(),
                args: vec!["-lc".to_string(), "ls -la".to_string()],
            })
        );
    }
    assert_eq!(
        shell_command(Platform::Posix, "  BASH \n", "echo hi"),
        Ok(CommandLine {
            program: "bash".to_string(),
            args: vec!["-lc".to_string(), "echo hi".to_string()],
        })
    );
}

#[test]
fn unknown_shells_are_refused_by_name() {
    assert_eq!(
        shell_command(Platform::Posix, " Fish ", "ls"),
        Err(AppError::ProcessError("Unsupported shell on Unix-like system:  Fish ".to_string()))
    );
    assert_eq!(
        shell_command(Platform::Posix, "powershell", "ls"),
        Err(AppError::ProcessError(
            "Unsupported shell on Unix-like system: powershell".to_string()
        ))
    );
    assert_eq!(
        shell_command(Platform::Windows, "bash", "ls"),
        Err(AppError::ProcessError("Unsupported shell on Windows: bash".to_string()))
    );
    assert_eq!(
        shell_command(Platform::Posix, "", "ls"),
        Err(AppError::ProcessError("Unsupported shell on Unix-like system: ".to_string()))
    );
}

#[test]
fn windows_shells_are_powershell_and_cmd() {
    let ps = CommandLine {
        program: "powershell.exe".to_string(),
        args: vec![
            "-NoLogo".to_string(),
            "-NoProfile".to_string(),
            "-Command".to_string(),
            "dir".to_string(),
        ],
    };
    assert_eq!(shell_command(Platform::Windows, "PowerShell", "dir"), Ok(ps.clone()));
    assert_eq!(shell_command(Platform::Windows, "powershell.exe", "dir"), Ok(ps.clone()));
    assert_eq!(shell_command(Platform::Windows, " pwsh ", "dir"), Ok(ps.clone()));
    assert!(shell_command(Platform::Windows, "pwsh7", "dir").is_err());
    let cmd =
        CommandLine { program: "cmd.exe".to_string(), args: vec!["/C".to_string(), "dir".to_string()] };
    assert_eq!(shell_command(Platform::Windows, "cmd", "dir"), Ok(cmd.clone()));
    assert_eq!(shell_command(Platform::Windows, "CMD.EXE", "dir"), Ok(cmd));
    assert!(shell_command(Platform::Windows, "cmd.com", "dir").is_err());
    assert!(command_for_shell(Platform::Windows, "CMD", "CMD", "dir").is_err());
}

#[test]
fn terminal_sessions_are_opened_and_closed() {
    let mut service = TerminalService::new();
    assert_eq!(service.session_count(), 0);
    let a = service.create_session(None, None).unwrap();
    let b = service.create_session(Some("build".to_string()), Some("/work".to_string())).unwrap();
    let c = service.create_session(None, Some("/tmp".to_string())).unwrap();
    assert_eq!(service.session_count(), 3);
    assert_eq!(service.get_session_ids(), vec![a.clone(), b.clone(), c.clone()]);
    assert_eq!(service.session_cwd(&a), Ok(".".to_string()));
    assert_eq!(service.session_cwd(&b), Ok("/work".to_string()));
    assert_eq!(DEFAULT_CWD, ".");
    assert_eq!(
        service.session_cwd("nope"),
        Err(AppError::ProcessError("Session not found: nope".to_string()))
    );

    let closed = service.kill_session(&b).unwrap().unwrap();
    assert_eq!(closed, TerminalSession { id: b.clone(), name: "build".to_string(), cwd: "/work".to_string() });
    assert_eq!(service.kill_session(&b), Ok(None));
    assert_eq!(service.session_count(), 2);
    let first = service.kill_session(&a).unwrap().unwrap();
    assert_eq!(first.name, "Terminal 1");
    let third = service.kill_session(&c).unwrap().unwrap();
    assert_eq!(third.name, "Terminal 3");
    assert_eq!(third.cwd, "/tmp");
    assert_eq!(service.session_count(), 0);
    let again = service.create_session(None, None).unwrap();
    assert_eq!(service.kill_session(&again).unwrap().unwrap().name, "Terminal 1");
}

#[test]
fn terminal_session_gets_a_fresh_id() {
    let s = TerminalSession::new("n".to_string(), "/".to_string());
    let t = TerminalSession::new("n".to_string(), "/".to_string());
    assert!(is_hex_id(&s.id));
    assert_ne!(s.id, t.id);
    assert_eq!(s.name, "n");
    assert_eq!(s.cwd, "/");
}

#[test]
fn text_map_keeps_one_value_per_key() {
    let mut map: TextMap<u32> = TextMap::new();
    assert_eq!(map.len(), 0);
    assert_eq!(map.get("a"), None);
    assert_eq!(map.insert("a".to_string(), 1), None);
    assert_eq!(map.insert("b".to_string(), 2), None);
    assert_eq!(map.insert("a".to_string(), 3), Some(1));
    assert_eq!(map.len(), 2);
    assert_eq!(map.get("a"), Some(&3));
    assert_eq!(map.get("b"), Some(&2));
    assert!(map.contains_key("b"));
    assert!(!map.contains_key("c"));
    assert_eq!(map.keys(), vec!["a", "b"]);
    assert_eq!(map.remove("a"), Some(3));
    assert_eq!(map.remove("a"), None);
    assert_eq!(map.keys(), vec!["b"]);
    assert_eq!(map.insert("a".to_string(), 4), None);
    assert_eq!(map.keys(), vec!["b", "a"]);
    assert_eq!(map.insert(String::new(), 0), None);
    assert_eq!(map.get(""), Some(&0));
    assert_eq!(map.len(), 3);
}

#[test]
fn default_configuration_lies_under_the_data_directory() {
    let c = AppConfig::with_dirs("/home/u/code-ai-assistant", "/home/u");
    assert_eq!(DATA_DIR_NAME, "code-ai-assistant");
    assert_eq!(c.app.name, "Code AI Assistant");
    assert_eq!(c.app.version, "0.1.0");
    assert_eq!(c.app.data_dir, "/home/u/code-ai-assistant");
    assert_eq!(c.app.user_home, "/home/u");
    assert_eq!(c.app.auto_update, Some(true));
    assert_eq!(c.database.url, "sqlite:///home/u/code-ai-assistant/app.db?mode=rwc");
    assert_eq!(c.database.max_connections, 10);
    assert_eq!(c.database.min_connections, 1);
    assert_eq!(c.deployment.environment, "development");
    assert!(c.deployment.debug);
    assert_eq!(c.deployment.host, "127.0.0.1");
    assert_eq!(c.deployment.port, 8080);
    assert_eq!(c.logging.log_level, "debug");
    assert_eq!(c.logging.log_file_path, "/home/u/code-ai-assistant/logs");
    assert_eq!(c.logging.log_file_name, "app.log");
    assert_eq!(
        c.logging.log_fmt_pattern,
        Some("%Y-%m-%d %H:%M:%S%.3f %l %T %n %f:%L".to_string())
    );
    assert!(c.logging.console);
    assert_eq!(c.logging.log_file_rotation.log_file_max_size_mb, 10);
    assert_eq!(c.logging.log_file_rotation.log_file_max_backups, 5);
    assert_eq!(c.logging.log_file_rotation.log_file_max_age_days, 30);
}

#[test]
fn configuration_sources_that_fail_are_a_configuration_error() {
    let c = AppConfig::with_dirs("/d", "/h");
    assert_eq!(load_config(Ok(c.clone())), Ok(c));
    assert_eq!(
        load_config(Err("missing field `app`".to_string())),
        Err(AppError::ConfigError("Failed to deserialize config: missing field `app`".to_string()))
    );
    assert_eq!(get_user_home(Some("/home/u".to_string())), Ok("/home/u".to_string()));
    assert_eq!(
        get_user_home(None),
        Err(AppError::ConfigError("Failed to get user home directory".to_string()))
    );
}

/// The environment reader written with the string functions of the
/// standard library; `None` where it would stop on a line without `=`.
fn reference_env(text: &str) -> Option<Vec<(String, String)>> {
    let mut vars = Vec::new();
    for line in text.lines().filter(|line| !line.is_empty() && !line.starts_with('#')) {
        let mut parts = line.split('=');
        let key = parts.next()?.trim().to_string();
        let value = parts.next()?.trim().to_string();
        vars.push((key, value));
    }
    Some(vars)
}

#[test]
fn environment_file_sets_variables_line_by_line() {
    assert_eq!(
        parse_env("# comment\nA=1\n\n B = two words \nC=x=y\nD=\n"),
        Ok(pairs(&[("A", "1"), ("B", "two words"), ("C", "x"), ("D", "")]))
    );
    assert_eq!(parse_env(""), Ok(pairs(&[])));
    assert_eq!(parse_env("\n\n#x\n"), Ok(pairs(&[])));
    assert_eq!(parse_env("A=1\r\nB=2\r\n"), Ok(pairs(&[("A", "1"), ("B", "2")])));
    assert_eq!(parse_env("=v"), Ok(pairs(&[("", "v")])));
    assert_eq!(parse_env(" #not a comment=1"), Ok(pairs(&[("#not a comment", "1")])));
}

#[test]
fn environment_line_without_equals_sign_is_an_error() {
    let error = Err(AppError::ConfigError("Malformed line in environment file".to_string()));
    assert_eq!(parse_env("A=1\nnonsense\nB=2\n"), error);
    assert_eq!(parse_env(" "), error);
    assert_eq!(parse_env("A"), error);
    assert_eq!(parse_env("\r"), error);
    assert_eq!(parse_env("\r\n"), Ok(pairs(&[])));
}

#[test]
fn environment_reader_agrees_with_the_standard_library() {
    let pieces = ["", "A", "=", "#", " ", "\n", "\r\n", "\r", "b c", "=="];
    for a in pieces {
        for b in pieces {
            for c in pieces {
                for d in pieces {
                    let text = format!("{a}{b}{c}{d}");
                    assert_eq!(parse_env(&text).ok(), reference_env(&text), "input {text:?}");
                }
            }
        }
    }
}
