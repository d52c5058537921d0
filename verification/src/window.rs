//! The main window and the tray icon: how the application reacts to a
//! request to close the window, to the tray menu and to a double click on
//! the tray icon. Carrying the reactions out is the caller's business.

use vstd::prelude::*;
use crate::error::{generic_error, AppError, AppResult};
use crate::text::same_text;

verus! {

/// The label of the main window.
pub const MAIN_WINDOW: &'static str = "main";

/// The title of a main window that is built anew.
pub const MAIN_WINDOW_TITLE: &'static str = "Code AI Assistant";

/// The name of the event that announces a change of lightweight mode.
pub const LIGHTWEIGHT_MODE_EVENT: &'static str = "app:lightweight-mode";

/// The id of the tray menu item that shows the main window.
pub const TRAY_MENU_SHOW: &'static str = "tray_show";

/// The id of the tray menu item that hides the main window.
pub const TRAY_MENU_HIDE: &'static str = "tray_hide";

/// The id of the tray menu item that quits the application.
pub const TRAY_MENU_QUIT: &'static str = "tray_quit";

/// Why lightweight mode was switched.
#[derive(Clone, Copy, Debug, PartialEq, Eq, Structural)]
pub enum ModeReason {
    Hidden,
    TrayShow,
    TrayHide,
    TrayDoubleClickHide,
    TrayDoubleClickShow,
    TrayDoubleClickRebuild,
}

impl ModeReason {
    /// The word that the front end knows the reason by.
    pub open spec fn word(self) -> Seq<char> {
        match self {
            ModeReason::Hidden => "hidden"@,
            ModeReason::TrayShow => "tray_show"@,
            ModeReason::TrayHide => "tray_hide"@,
            ModeReason::TrayDoubleClickHide => "tray_double_click_hide"@,
            ModeReason::TrayDoubleClickShow => "tray_double_click_show"@,
            ModeReason::TrayDoubleClickRebuild => "tray_double_click_rebuild"@,
        }
    }

    /// The word that the front end knows the reason by.
    pub fn as_str(&self) -> (word: &'static str)
        ensures
            word@ == self.word(),
    {
        match self {
            ModeReason::Hidden => "hidden",
            ModeReason::TrayShow => "tray_show",
            ModeReason::TrayHide => "tray_hide",
            ModeReason::TrayDoubleClickHide => "tray_double_click_hide",
            ModeReason::TrayDoubleClickShow => "tray_double_click_show",
            ModeReason::TrayDoubleClickRebuild => "tray_double_click_rebuild",
        }
    }
}

/// The announcement of a change of lightweight mode. The application is in
/// lightweight mode while its main window is hidden.
#[derive(Clone, Copy, Debug, PartialEq, Eq, Structural)]
pub struct LightweightModePayload {
    pub enabled: bool,
    pub reason: ModeReason,
}

/// What is to be done with the main window.
#[derive(Clone, Copy, Debug, PartialEq, Eq, Structural)]
pub enum WindowCommand {
    /// Leave it alone.
    Nothing,
    /// Show it and give it the focus.
    Show,
    /// Build it, make closing it hide it to the tray, show it and give it
    /// the focus.
    Rebuild,
    /// Hide it.
    Hide,
    /// Close it.
    Close,
    /// There is no window to close: exit the application with status zero.
    Exit,
}

/// What the caller saw of the main window.
#[derive(Clone, Copy, Debug, PartialEq, Eq, Structural)]
pub enum WindowState {
    /// There is no main window.
    Missing,
    /// The main window exists and is hidden.
    Hidden,
    /// The main window exists and is visible, or its visibility is unknown.
    Visible,
}

/// The reaction to an event of the tray: what to do with the main window,
/// and what to announce.
#[derive(Clone, Copy, Debug, PartialEq, Eq, Structural)]
pub struct TrayReaction {
    pub window: WindowCommand,
    pub announce: Option<LightweightModePayload>,
}

/// The reaction to a request to close the main window.
#[derive(Clone, Copy, Debug, PartialEq, Eq, Structural)]
pub enum CloseDecision {
    /// The application is quitting: let the window close.
    Proceed,
    /// Keep the window from closing, hide it, and announce lightweight mode.
    HideToTray(LightweightModePayload),
}

/// The reaction to a close request, by whether the application is quitting.
pub open spec fn close_decision(is_quitting: bool) -> CloseDecision {
    if is_quitting {
        CloseDecision::Proceed
    } else {
        CloseDecision::HideToTray(
            LightweightModePayload { enabled: true, reason: ModeReason::Hidden },
        )
    }
}

/// Decides what a request to close the main window leads to: the window
/// closes if the application is quitting, and is hidden to the tray
/// otherwise.
pub fn attach_close_to_tray(is_quitting: bool) -> (decision: CloseDecision)
    ensures
        decision == close_decision(is_quitting),
{
    if is_quitting {
        CloseDecision::Proceed
    } else {
        CloseDecision::HideToTray(
            LightweightModePayload { enabled: true, reason: ModeReason::Hidden },
        )
    }
}

/// Some label of `labels` is the main window's.
pub open spec fn has_main_window(labels: Seq<String>) -> bool {
    exists|i: int| 0 <= i < labels.len() && (#[trigger] labels[i])@ == MAIN_WINDOW@
}

/// Decides the reactions to window events.
#[derive(Clone, Copy, Debug)]
pub struct WindowEventManager {
    is_quitting: bool,
}

impl WindowEventManager {
    /// Whether the application is quitting.
    pub closed spec fn is_quitting(&self) -> bool {
        self.is_quitting
    }

    /// A manager for an application that is, or is not, quitting.
    pub fn new(is_quitting: bool) -> (manager: Self)
        ensures
            manager.is_quitting() == is_quitting,
    {
        WindowEventManager { is_quitting }
    }

    /// Takes note that the application is quitting, so that windows may
    /// close from now on.
    pub fn set_quitting(&mut self)
        ensures
            final(self).is_quitting(),
    {
        self.is_quitting = true;
    }

    /// The reaction to a request to close a registered window.
    pub fn on_close_requested(&self) -> (decision: CloseDecision)
        ensures
            decision == close_decision(self.is_quitting()),
    {
        attach_close_to_tray(self.is_quitting)
    }

    /// Picks the window whose close requests are to be handled by
    /// `on_close_requested`: the main window, if the application has one.
    /// Returns its index among `labels`.
    pub fn register_main_window(&self, labels: &Vec<String>) -> (hooked: AppResult<Option<usize>>)
        ensures
            hooked is Ok,
            match hooked->Ok_0 {
                Some(i) => i < labels.len() && labels@[i as int]@ == MAIN_WINDOW@ && forall|k: int|
                    0 <= k < i ==> (#[trigger] labels@[k])@ != MAIN_WINDOW@,
                None => !has_main_window(labels@),
            },
    {
        let mut i: usize = 0;
        while i < labels.len()
            invariant
                i <= labels.len(),
                forall|k: int| 0 <= k < i ==> (#[trigger] labels@[k])@ != MAIN_WINDOW@,
            decreases labels.len() - i,
        {
            if same_text(labels[i].as_str(), MAIN_WINDOW) {
                return Ok(Some(i));
            }
            i += 1;
        }
        Ok(None)
    }

    /// Picks every window whose events are to be handled: as of now, the
    /// main window.
    pub fn register(&self, labels: &Vec<String>) -> (hooked: AppResult<Option<usize>>)
        ensures
            hooked is Ok,
            match hooked->Ok_0 {
                Some(i) => i < labels.len() && labels@[i as int]@ == MAIN_WINDOW@ && forall|k: int|
                    0 <= k < i ==> (#[trigger] labels@[k])@ != MAIN_WINDOW@,
                None => !has_main_window(labels@),
            },
    {
        self.register_main_window(labels)
    }
}

/// Where the main window comes from when it is to be shown: the existing
/// one is taken, and a missing one is built.
pub fn get_or_create_main_window(window: WindowState) -> (command: WindowCommand)
    ensures
        command == (if window == WindowState::Missing {
            WindowCommand::Rebuild
        } else {
            WindowCommand::Show
        }),
{
    match window {
        WindowState::Missing => WindowCommand::Rebuild,
        _ => WindowCommand::Show,
    }
}

/// One line of the tray's context menu.
#[derive(Clone, Debug, PartialEq, Eq)]
pub enum TrayMenuEntry {
    /// An item that can be picked.
    Item { id: String, label: String },
    /// A separator line.
    Separator,
}

/// The command of the tray menu that an item id stands for.
#[derive(Clone, Copy, Debug, PartialEq, Eq, Structural)]
pub enum TrayMenuCommand {
    Show,
    Hide,
    Quit,
}

/// The command that a menu item id stands for, if it stands for one.
pub open spec fn menu_command(id: Seq<char>) -> Option<TrayMenuCommand> {
    if id == TRAY_MENU_SHOW@ {
        Some(TrayMenuCommand::Show)
    } else if id == TRAY_MENU_HIDE@ {
        Some(TrayMenuCommand::Hide)
    } else if id == TRAY_MENU_QUIT@ {
        Some(TrayMenuCommand::Quit)
    } else {
        None
    }
}

/// The reaction to a pick from the tray menu.
///
/// "Show" shows the main window, building it if there is none, and ends
/// lightweight mode. "Hide" hides the window if there is one and starts
/// lightweight mode. "Quit" closes the window, or exits the application if
/// there is none. An unknown id does nothing.
pub open spec fn menu_reaction(id: Seq<char>, window: WindowState) -> TrayReaction {
    match menu_command(id) {
        Some(TrayMenuCommand::Show) => TrayReaction {
            window: if window == WindowState::Missing {
                WindowCommand::Rebuild
            } else {
                WindowCommand::Show
            },
            announce: Some(LightweightModePayload { enabled: false, reason: ModeReason::TrayShow }),
        },
        Some(TrayMenuCommand::Hide) => TrayReaction {
            window: if window == WindowState::Missing {
                WindowCommand::Nothing
            } else {
                WindowCommand::Hide
            },
            announce: Some(LightweightModePayload { enabled: true, reason: ModeReason::TrayHide }),
        },
        Some(TrayMenuCommand::Quit) => TrayReaction {
            window: if window == WindowState::Missing {
                WindowCommand::Exit
            } else {
                WindowCommand::Close
            },
            announce: None,
        },
        None => TrayReaction { window: WindowCommand::Nothing, announce: None },
    }
}

/// The reaction to a double click on the tray icon: it toggles the main
/// window. A visible window is hidden, which starts lightweight mode; a
/// hidden one is shown and a missing one is built, which ends it.
pub open spec fn double_click_reaction(window: WindowState) -> TrayReaction {
    match window {
        WindowState::Visible => TrayReaction {
            window: WindowCommand::Hide,
            announce: Some(
                LightweightModePayload { enabled: true, reason: ModeReason::TrayDoubleClickHide },
            ),
        },
        WindowState::Hidden => TrayReaction {
            window: WindowCommand::Show,
            announce: Some(
                LightweightModePayload { enabled: false, reason: ModeReason::TrayDoubleClickShow },
            ),
        },
        WindowState::Missing => TrayReaction {
            window: WindowCommand::Rebuild,
            announce: Some(
                LightweightModePayload {
                    enabled: false,
                    reason: ModeReason::TrayDoubleClickRebuild,
                },
            ),
        },
    }
}

/// The entries of the tray menu, as a list of what each is: the id and the
/// label of an item, or nothing for a separator.
pub open spec fn menu_view(menu: Seq<TrayMenuEntry>) -> Seq<Option<(Seq<char>, Seq<char>)>> {
    Seq::new(
        menu.len(),
        |i: int|
            match menu[i] {
                TrayMenuEntry::Item { id, label } => Some((id@, label@)),
                TrayMenuEntry::Separator => None,
            },
    )
}

/// The tray icon of the application: its context menu, and whether the
/// application is quitting.
#[derive(Clone, Debug)]
pub struct Tray {
    menu: Vec<TrayMenuEntry>,
    is_quitting: bool,
}

impl Tray {
    /// The context menu, top down.
    pub closed spec fn menu(&self) -> Seq<TrayMenuEntry> {
        self.menu@
    }

    /// Whether the application is quitting.
    pub closed spec fn is_quitting(&self) -> bool {
        self.is_quitting
    }

    /// The context menu, top down.
    pub fn menu_entries(&self) -> (menu: &Vec<TrayMenuEntry>)
        ensures
            menu@ == self.menu(),
    {
        &self.menu
    }

    /// Whether "Quit" was picked, so that windows may close.
    pub fn quitting(&self) -> (q: bool)
        ensures
            q == self.is_quitting(),
    {
        self.is_quitting
    }

    /// Reacts to a pick from the tray menu. Picking "Quit" marks the
    /// application as quitting.
    pub fn on_menu_event(&mut self, id: &str, window: WindowState) -> (reaction: TrayReaction)
        ensures
            reaction == menu_reaction(id@, window),
            final(self).menu() == old(self).menu(),
            final(self).is_quitting() == (old(self).is_quitting() || menu_command(id@) == Some(
                TrayMenuCommand::Quit,
            )),
    {
        let missing = matches!(window, WindowState::Missing);
        if same_text(id, TRAY_MENU_SHOW) {
            TrayReaction {
                window: get_or_create_main_window(window),
                announce: Some(
                    LightweightModePayload { enabled: false, reason: ModeReason::TrayShow },
                ),
            }
        } else if same_text(id, TRAY_MENU_HIDE) {
            TrayReaction {
                window: if missing {
                    WindowCommand::Nothing
                } else {
                    WindowCommand::Hide
                },
                announce: Some(
                    LightweightModePayload { enabled: true, reason: ModeReason::TrayHide },
                ),
            }
        } else if same_text(id, TRAY_MENU_QUIT) {
            self.is_quitting = true;
            TrayReaction {
                window: if missing {
                    WindowCommand::Exit
                } else {
                    WindowCommand::Close
                },
                announce: None,
            }
        } else {
            TrayReaction { window: WindowCommand::Nothing, announce: None }
        }
    }

    /// Reacts to a double click on the tray icon.
    pub fn on_double_click(&self, window: WindowState) -> (reaction: TrayReaction)
        ensures
            reaction == double_click_reaction(window),
    {
        match window {
            WindowState::Visible => TrayReaction {
                window: WindowCommand::Hide,
                announce: Some(
                    LightweightModePayload {
                        enabled: true,
                        reason: ModeReason::TrayDoubleClickHide,
                    },
                ),
            },
            WindowState::Hidden => TrayReaction {
                window: WindowCommand::Show,
                announce: Some(
                    LightweightModePayload {
                        enabled: false,
                        reason: ModeReason::TrayDoubleClickShow,
                    },
                ),
            },
            WindowState::Missing => TrayReaction {
                window: get_or_create_main_window(window),
                announce: Some(
                    LightweightModePayload {
                        enabled: false,
                        reason: ModeReason::TrayDoubleClickRebuild,
                    },
                ),
            },
        }
    }
}

/// Sets the tray icon up. It needs the application's default window icon:
/// without one, a generic error is reported. Its menu offers to show the
/// main window, to hide it and, below a separator, to quit.
pub fn init_tray(has_default_icon: bool, is_quitting: bool) -> (tray: AppResult<Tray>)
    ensures
        has_default_icon ==> (tray matches Ok(t) && t.is_quitting() == is_quitting && menu_view(
            t.menu(),
        ) == seq![
            Some((TRAY_MENU_SHOW@, "显示主窗口"@)),
            Some((TRAY_MENU_HIDE@, "隐藏主窗口"@)),
            None,
            Some((TRAY_MENU_QUIT@, "退出"@)),
        ]),
        !has_default_icon ==> (tray matches Err(AppError::GenericError(detail)) && detail@
            == "找不到默认窗口图标，无法创建系统托盘图标"@),
{
    if !has_default_icon {
        return Err(generic_error("找不到默认窗口图标，无法创建系统托盘图标"));
    }
    let mut menu: Vec<TrayMenuEntry> = Vec::new();
    menu.push(TrayMenuEntry::Item { id: TRAY_MENU_SHOW.to_owned(), label: "显示主窗口".to_owned() });
    menu.push(TrayMenuEntry::Item { id: TRAY_MENU_HIDE.to_owned(), label: "隐藏主窗口".to_owned() });
    menu.push(TrayMenuEntry::Separator);
    menu.push(TrayMenuEntry::Item { id: TRAY_MENU_QUIT.to_owned(), label: "退出".to_owned() });
    assert(menu_view(menu@) =~= seq![
        Some((TRAY_MENU_SHOW@, "显示主窗口"@)),
        Some((TRAY_MENU_HIDE@, "隐藏主窗口"@)),
        None,
        Some((TRAY_MENU_QUIT@, "退出"@)),
    ]);
    Ok(Tray { menu, is_quitting })
}

} // verus!
