//! System notifications: what is shown, and how a failure to show it is
//! reported. Showing is the caller's business.

use vstd::prelude::*;
use vstd::string::StringExecFns;
use crate::error::{generic_error, AppError, AppResult};

verus! {

/// A notification that is ready to be shown.
#[derive(Clone, Debug, PartialEq, Eq)]
pub struct Notification {
    pub title: String,
    pub body: String,
}

/// Decides what each notification of the application shows.
#[derive(Clone, Debug)]
pub struct NotificationManager {
    default_title: String,
}

impl NotificationManager {
    /// The title of a notification that is given none.
    pub closed spec fn default_title(&self) -> Seq<char> {
        self.default_title@
    }

    /// A manager whose notifications are titled with the name of the
    /// application's package, unless they bring a title of their own.
    pub fn new(package_name: String) -> (manager: Self)
        ensures
            manager.default_title() == package_name@,
    {
        NotificationManager { default_title: package_name }
    }

    /// The notification to show for `body`: under `title` if there is one,
    /// else under the default title.
    pub fn notify(&self, title: Option<&str>, body: &str) -> (shown: Notification)
        ensures
            shown.body@ == body@,
            shown.title@ == (match title {
                Some(t) => t@,
                None => self.default_title(),
            }),
    {
        let title = match title {
            Some(t) => t.to_owned(),
            None => self.default_title.clone(),
        };
        Notification { title, body: body.to_owned() }
    }
}

/// The outcome of an attempt to show a notification: a failure of the
/// notification service, described by `detail`, is a generic error.
pub fn delivery_outcome(failure: Option<&str>) -> (outcome: AppResult<()>)
    ensures
        failure is None ==> outcome is Ok,
        failure is Some ==> (outcome matches Err(AppError::GenericError(text)) && text@
            == "发送系统通知失败: "@ + failure->0@),
{
    match failure {
        None => Ok(()),
        Some(detail) => {
            let mut text = "发送系统通知失败: ".to_owned();
            text.append(detail);
            Err(generic_error(text.as_str()))
        },
    }
}

/// The notification that the front end asked for. Without a title it is
/// shown under the name of the application's package.
pub fn show_system_notification(manager: &NotificationManager, title: Option<String>, body: String) -> (shown:
    Notification)
    ensures
        shown.body@ == body@,
        shown.title@ == (match title {
            Some(t) => t@,
            None => manager.default_title(),
        }),
{
    let title: Option<&str> = match &title {
        Some(t) => Some(t.as_str()),
        None => None,
    };
    manager.notify(title, body.as_str())
}

} // verus!
