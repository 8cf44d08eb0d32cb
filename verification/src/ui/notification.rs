//! What terminal applications bring to the user's notice: desktop notifications,
//! and files that they hand over.

use crate::text::{copy_optional, optional_text};
use vstd::prelude::*;

verus! {

/// The action that brings the terminal of a notification to the front.
pub const FOCUS_ACTION: &'static str = "app.focus-terminal";

/// How urgent an application says that it is.
#[derive(Clone, Copy, Debug, PartialEq, Eq, Structural)]
pub enum NotificationUrgency {
    Low,
    Normal,
    Critical,
}

/// How urgent the desktop is told that it is.
#[derive(Clone, Copy, Debug, PartialEq, Eq, Structural)]
pub enum NotificationPriority {
    Low,
    Normal,
    Urgent,
}

/// A notification that an application asks for.
#[derive(Debug)]
pub struct DesktopNotification {
    pub id: Option<String>,
    pub title: String,
    pub body: String,
    pub urgency: NotificationUrgency,
    /// A click brings the terminal to the front.
    pub focus: bool,
}

/// What an application asks for.
#[derive(Debug)]
pub enum DesktopNotificationAction {
    Show(DesktopNotification),
    /// Take the notification with this identity back.
    Close(String),
}

/// A notification as the desktop gets it.
#[derive(Debug)]
pub struct NativeNotification {
    pub id: Option<String>,
    pub title: String,
    pub body: Option<String>,
    pub priority: NotificationPriority,
    pub default_action: Option<&'static str>,
}

/// What the desktop is asked.
#[derive(Debug)]
pub enum NotificationStep {
    /// There is no application yet that could ask.
    Drop,
    Send(NativeNotification),
    Withdraw(String),
}

/// How urgent the desktop is told that a notification is.
pub open spec fn priority_of(urgency: NotificationUrgency) -> NotificationPriority {
    match urgency {
        NotificationUrgency::Low => NotificationPriority::Low,
        NotificationUrgency::Normal => NotificationPriority::Normal,
        NotificationUrgency::Critical => NotificationPriority::Urgent,
    }
}

/// What the desktop gets says what the application asked for.
pub open spec fn conveys(native: NativeNotification, notification: DesktopNotification) -> bool {
    &&& optional_text(native.id) == optional_text(notification.id)
    &&& native.title@ == notification.title@
    &&& optional_text(native.body) == (if notification.body@.len() == 0 {
        None
    } else {
        Some(notification.body@)
    })
    &&& native.priority == priority_of(notification.urgency)
    &&& native.default_action is Some <==> notification.focus
    &&& native.default_action matches Some(name) ==> name@ == FOCUS_ACTION@
}

/// A notification keeps its identity, its title and its body, each as what it is; an
/// empty body is left out. It is as urgent as the application says, and only one that is
/// to bring the terminal to the front acts on a click.
pub proof fn law_notifications_say_what_was_asked(
    native: NativeNotification,
    notification: DesktopNotification,
)
    requires
        conveys(native, notification),
    ensures
        native.title@ == notification.title@,
        native.id is Some <==> notification.id is Some,
        native.id matches Some(id) ==> id@ == notification.id->0@,
        native.body is None <==> notification.body@.len() == 0,
        native.body matches Some(body) ==> body@ == notification.body@,
        native.priority == NotificationPriority::Low <==> notification.urgency
            == NotificationUrgency::Low,
        native.priority == NotificationPriority::Normal <==> notification.urgency
            == NotificationUrgency::Normal,
        native.priority == NotificationPriority::Urgent <==> notification.urgency
            == NotificationUrgency::Critical,
        native.default_action is Some <==> notification.focus,
        native.default_action matches Some(name) ==> name@ == "app.focus-terminal"@,
{
}

/// What the desktop is asked for a notification. An empty body is left out, and
/// only what is to bring the terminal to the front gets an action.
pub fn handle(action: &DesktopNotificationAction, has_application: bool) -> (step: NotificationStep)
    ensures
        if !has_application {
            step is Drop
        } else {
            match *action {
                DesktopNotificationAction::Show(notification) => step matches NotificationStep::Send(
                    native,
                ) && conveys(native, notification),
                DesktopNotificationAction::Close(id) => step matches NotificationStep::Withdraw(own)
                    && own@ == id@,
            }
        },
{
    if !has_application {
        return NotificationStep::Drop;
    }
    match action {
        DesktopNotificationAction::Show(notification) => {
            let body = if notification.body.as_str().is_empty() {
                None
            } else {
                Some(notification.body.as_str().to_owned())
            };
            let priority = match notification.urgency {
                NotificationUrgency::Low => NotificationPriority::Low,
                NotificationUrgency::Normal => NotificationPriority::Normal,
                NotificationUrgency::Critical => NotificationPriority::Urgent,
            };
            let default_action = if notification.focus {
                Some(FOCUS_ACTION)
            } else {
                None
            };
            NotificationStep::Send(
                NativeNotification {
                    id: copy_optional(&notification.id),
                    title: notification.title.as_str().to_owned(),
                    body,
                    priority,
                    default_action,
                },
            )
        },
        DesktopNotificationAction::Close(id) => NotificationStep::Withdraw(id.as_str().to_owned()),
    }
}

/// The folder in which the user is first asked where to save a file.
pub open spec fn first_folder(
    last_save_dir: Option<String>,
    downloads: Option<String>,
) -> Option<String> {
    if last_save_dir is Some {
        last_save_dir
    } else {
        downloads
    }
}

/// Where a received file is saved.
pub open spec fn accepted_path(accepted: bool, path: Option<String>) -> Option<String> {
    if accepted {
        path
    } else {
        None
    }
}

/// The folder that was last saved to comes before that for downloads, and a file is saved
/// exactly where the user chose, if they accepted.
pub proof fn law_files_are_saved_where_the_user_says(
    folder: String,
    downloads: Option<String>,
    path: Option<String>,
)
    ensures
        first_folder(Some(folder), downloads) == Some(folder),
        first_folder(None, downloads) == downloads,
        accepted_path(true, path) == path,
        accepted_path(false, path) is None,
{
}

/// The folder in which the user is first asked where to save a file: the one that
/// was last saved to, or that for downloads.
pub fn chooser_folder(last_save_dir: Option<String>, downloads: Option<String>) -> (folder: Option<
    String,
>)
    ensures
        folder == first_folder(last_save_dir, downloads),
{
    match last_save_dir {
        Some(dir) => Some(dir),
        None => downloads,
    }
}

/// Where a received file is saved once the user has answered; nowhere, unless the
/// user accepted and chose a file with a path.
pub fn chosen_save_path(accepted: bool, path: Option<String>) -> (target: Option<String>)
    ensures
        target == accepted_path(accepted, path),
{
    if accepted {
        path
    } else {
        None
    }
}

} // verus!
