use code_ai_assistant::error::{generic_error, validation_error, AppError};
use code_ai_assistant::notification::{
    delivery_outcome, show_system_notification, Notification, NotificationManager,
};
use code_ai_assistant::paths::{normalize_path, replace_separator};
use code_ai_assistant::window::{
    attach_close_to_tray, get_or_create_main_window, init_tray, CloseDecision,
    LightweightModePayload, ModeReason, TrayMenuEntry, TrayReaction, WindowCommand,
    WindowEventManager, WindowState, LIGHTWEIGHT_MODE_EVENT, MAIN_WINDOW, MAIN_WINDOW_TITLE,
    TRAY_MENU_HIDE, TRAY_MENU_QUIT, TRAY_MENU_SHOW,
};

fn announce(enabled: bool, reason: ModeReason) -> Option<LightweightModePayload> {
    Some(LightweightModePayload { enabled, reason })
}

#[test]
fn error_helpers_make_errors_of_their_kind() {
    assert_eq!(validation_error("bad input"), AppError::ValidationError("bad input".to_string()));
    assert_eq!(generic_error("oops"), AppError::GenericError("oops".to_string()));
    assert_eq!(validation_error(""), AppError::ValidationError(String::new()));
}

#[test]
fn errors_are_shown_with_the_words_for_their_kind() {
    let d = || "d".to_string();
    let cases = [
        (AppError::IoError(d()), "IO error: d"),
        (AppError::DatabaseError(d()), "Database error: d"),
        (AppError::ConfigError(d()), "Configuration error: d"),
        (AppError::NetworkError(d()), "Network error: d"),
        (AppError::SerializationError(d()), "Serialization error: d"),
        (AppError::ValidationError(d()), "Validation error: d"),
        (AppError::AiServiceError(d()), "AI service error: d"),
        (AppError::FileSystemError(d()), "File system error: d"),
        (AppError::ProcessError(d()), "Process execution error: d"),
        (AppError::TauriError(d()), "Tauri error: d"),
        (AppError::AnyhowError(d()), "Other error: d"),
        (AppError::GenericError(d()), "Error: d"),
    ];
    for (error, text) in cases {
        assert_eq!(error.message(), text);
    }
    assert_eq!(AppError::GenericError(String::new()).message(), "Error: ");
}

#[test]
fn notification_takes_the_default_title_if_it_has_none() {
    let manager = NotificationManager::new("code-ai-assistant".to_string());
    assert_eq!(
        manager.notify(None, "build finished"),
        Notification { title: "code-ai-assistant".to_string(), body: "build finished".to_string() }
    );
    assert_eq!(
        manager.notify(Some("Build"), "finished"),
        Notification { title: "Build".to_string(), body: "finished".to_string() }
    );
    assert_eq!(
        manager.notify(Some(""), ""),
        Notification { title: String::new(), body: String::new() }
    );
}

#[test]
fn front_end_notification_goes_through_the_manager() {
    let manager = NotificationManager::new("app".to_string());
    assert_eq!(
        show_system_notification(&manager, None, "hello".to_string()),
        Notification { title: "app".to_string(), body: "hello".to_string() }
    );
    assert_eq!(
        show_system_notification(&manager, Some("T".to_string()), "hello".to_string()),
        Notification { title: "T".to_string(), body: "hello".to_string() }
    );
}

#[test]
fn failed_delivery_is_a_generic_error() {
    assert_eq!(delivery_outcome(None), Ok(()));
    assert_eq!(
        delivery_outcome(Some("denied")),
        Err(AppError::GenericError("发送系统通知失败: denied".to_string()))
    );
}

#[test]
fn separator_is_replaced_by_a_slash() {
    assert_eq!(replace_separator("a\\b\\c", '\\'), "a/b/c");
    assert_eq!(replace_separator("a/b\\c", '\\'), "a/b/c");
    assert_eq!(replace_separator("a/b/c", '/'), "a/b/c");
    assert_eq!(replace_separator("", '\\'), "");
    assert_eq!(replace_separator("a:b", ':'), "a/b");
    assert_eq!(replace_separator("\\\\", '\\'), "//");
}

#[test]
fn path_of_this_platform_gets_slashes() {
    let sep = std::path::MAIN_SEPARATOR;
    assert_eq!(normalize_path(&format!("a{sep}b{sep}c.txt")), "a/b/c.txt");
    assert_eq!(normalize_path("a/b"), "a/b");
    assert_eq!(normalize_path(""), "");
    let other = if sep == '/' { '\\' } else { ':' };
    let path = format!("a{other}b");
    assert_eq!(normalize_path(&path), path);
}

#[test]
fn close_request_hides_to_tray_unless_quitting() {
    let hide = CloseDecision::HideToTray(LightweightModePayload {
        enabled: true,
        reason: ModeReason::Hidden,
    });
    assert_eq!(attach_close_to_tray(false), hide);
    assert_eq!(attach_close_to_tray(true), CloseDecision::Proceed);
    let mut manager = WindowEventManager::new(false);
    assert_eq!(manager.on_close_requested(), hide);
    manager.set_quitting();
    assert_eq!(manager.on_close_requested(), CloseDecision::Proceed);
    assert_eq!(WindowEventManager::new(true).on_close_requested(), CloseDecision::Proceed);
}

#[test]
fn main_window_is_the_one_that_is_hooked() {
    let manager = WindowEventManager::new(false);
    let labels = vec!["splash".to_string(), "main".to_string(), "main".to_string()];
    assert_eq!(manager.register_main_window(&labels), Ok(Some(1)));
    assert_eq!(manager.register(&labels), Ok(Some(1)));
    let labels = vec!["splash".to_string(), "Main".to_string()];
    assert_eq!(manager.register_main_window(&labels), Ok(None));
    assert_eq!(manager.register(&Vec::new()), Ok(None));
    assert_eq!(MAIN_WINDOW, "main");
    assert_eq!(MAIN_WINDOW_TITLE, "Code AI Assistant");
    assert_eq!(LIGHTWEIGHT_MODE_EVENT, "app:lightweight-mode");
}

#[test]
fn reasons_have_their_words() {
    assert_eq!(ModeReason::Hidden.as_str(), "hidden");
    assert_eq!(ModeReason::TrayShow.as_str(), "tray_show");
    assert_eq!(ModeReason::TrayHide.as_str(), "tray_hide");
    assert_eq!(ModeReason::TrayDoubleClickHide.as_str(), "tray_double_click_hide");
    assert_eq!(ModeReason::TrayDoubleClickShow.as_str(), "tray_double_click_show");
    assert_eq!(ModeReason::TrayDoubleClickRebuild.as_str(), "tray_double_click_rebuild");
}

#[test]
fn tray_needs_the_default_icon() {
    assert_eq!(
        init_tray(false, false).err(),
        Some(AppError::GenericError("找不到默认窗口图标，无法创建系统托盘图标".to_string()))
    );
    let tray = init_tray(true, false).unwrap();
    assert!(!tray.quitting());
    assert_eq!(
        tray.menu_entries(),
        &vec![
            TrayMenuEntry::Item { id: "tray_show".to_string(), label: "显示主窗口".to_string() },
            TrayMenuEntry::Item { id: "tray_hide".to_string(), label: "隐藏主窗口".to_string() },
            TrayMenuEntry::Separator,
            TrayMenuEntry::Item { id: "tray_quit".to_string(), label: "退出".to_string() },
        ]
    );
    assert!(init_tray(true, true).unwrap().quitting());
}

#[test]
fn tray_menu_shows_hides_and_quits() {
    let mut tray = init_tray(true, false).unwrap();
    assert_eq!(
        tray.on_menu_event(TRAY_MENU_SHOW, WindowState::Hidden),
        TrayReaction { window: WindowCommand::Show, announce: announce(false, ModeReason::TrayShow) }
    );
    assert_eq!(
        tray.on_menu_event(TRAY_MENU_SHOW, WindowState::Visible),
        TrayReaction { window: WindowCommand::Show, announce: announce(false, ModeReason::TrayShow) }
    );
    assert_eq!(
        tray.on_menu_event(TRAY_MENU_SHOW, WindowState::Missing),
        TrayReaction {
            window: WindowCommand::Rebuild,
            announce: announce(false, ModeReason::TrayShow)
        }
    );
    assert_eq!(
        tray.on_menu_event(TRAY_MENU_HIDE, WindowState::Visible),
        TrayReaction { window: WindowCommand::Hide, announce: announce(true, ModeReason::TrayHide) }
    );
    assert_eq!(
        tray.on_menu_event(TRAY_MENU_HIDE, WindowState::Missing),
        TrayReaction {
            window: WindowCommand::Nothing,
            announce: announce(true, ModeReason::TrayHide)
        }
    );
    assert!(!tray.quitting());
    assert_eq!(
        tray.on_menu_event("something_else", WindowState::Visible),
        TrayReaction { window: WindowCommand::Nothing, announce: None }
    );
    assert!(!tray.quitting());
    assert_eq!(
        tray.on_menu_event(TRAY_MENU_QUIT, WindowState::Visible),
        TrayReaction { window: WindowCommand::Close, announce: None }
    );
    assert!(tray.quitting());
    assert_eq!(
        tray.on_menu_event(TRAY_MENU_QUIT, WindowState::Missing),
        TrayReaction { window: WindowCommand::Exit, announce: None }
    );
    assert_eq!(
        tray.on_menu_event(TRAY_MENU_SHOW, WindowState::Hidden).window,
        WindowCommand::Show
    );
    assert!(tray.quitting());
}

#[test]
fn double_click_toggles_the_main_window() {
    let tray = init_tray(true, false).unwrap();
    assert_eq!(
        tray.on_double_click(WindowState::Visible),
        TrayReaction {
            window: WindowCommand::Hide,
            announce: announce(true, ModeReason::TrayDoubleClickHide)
        }
    );
    assert_eq!(
        tray.on_double_click(WindowState::Hidden),
        TrayReaction {
            window: WindowCommand::Show,
            announce: announce(false, ModeReason::TrayDoubleClickShow)
        }
    );
    assert_eq!(
        tray.on_double_click(WindowState::Missing),
        TrayReaction {
            window: WindowCommand::Rebuild,
            announce: announce(false, ModeReason::TrayDoubleClickRebuild)
        }
    );
    assert_eq!(get_or_create_main_window(WindowState::Missing), WindowCommand::Rebuild);
    assert_eq!(get_or_create_main_window(WindowState::Hidden), WindowCommand::Show);
    assert_eq!(get_or_create_main_window(WindowState::Visible), WindowCommand::Show);
}
