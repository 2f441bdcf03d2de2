//! The one line of text that the game shows the player, and when it goes away.

use vstd::prelude::*;

verus! {

/// How long the reminder to combine all parts stays: five seconds, in microseconds.
pub const REMINDER_DURATION: u64 = 5_000_000;

/// The text shown to the player, if any, and the time from which on it is
/// to be removed, if it is not to stay.
#[derive(Debug, PartialEq)]
pub struct Notification {
    /// Microseconds since startup after which the text is removed.
    pub remove_when: Option<u64>,
    pub text: Option<String>,
}

/// The mathematical content of a [`Notification`].
pub struct NotificationView {
    pub remove_when: Option<u64>,
    pub text: Option<Seq<char>>,
}

impl View for Notification {
    type V = NotificationView;

    open spec fn view(&self) -> NotificationView {
        NotificationView {
            remove_when: self.remove_when,
            text: match self.text {
                Some(text) => Some(text@),
                None => None,
            },
        }
    }
}

impl NotificationView {
    /// Whether the removal time has passed at the time `now`.
    pub open spec fn expired_at(self, now: u64) -> bool {
        self.remove_when matches Some(at) && at < now
    }

    /// The notification as it is left at the time `now`: empty once its
    /// removal time has passed, unchanged before.
    pub open spec fn after_expiry(self, now: u64) -> NotificationView {
        if self.expired_at(now) {
            NotificationView { remove_when: None, text: None }
        } else {
            self
        }
    }
}

/// The hint shown while a character stands close enough to be absorbed.
pub open spec fn combine_hint() -> Seq<char> {
    "Press space to combine parts"@
}

/// The text shown once the complete character has left the maze.
pub open spec fn won_text() -> Seq<char> {
    "You won!"@
}

/// The reminder shown when an incomplete character tries to leave.
pub open spec fn reminder_text() -> Seq<char> {
    "You need to combine all parts before you can leave"@
}

impl Default for Notification {
    /// Nothing to show.
    fn default() -> (notification: Notification)
        ensures
            notification@ == (NotificationView { remove_when: None, text: None }),
    {
        Notification { remove_when: None, text: None }
    }
}

/// Removes the text once its time has passed: when `now`, in microseconds
/// since startup, lies after the removal time. Tells whether it did so.
pub fn update_notification(notification: &mut Notification, now: u64) -> (expired: bool)
    ensures
        expired == old(notification)@.expired_at(now),
        final(notification)@ == old(notification)@.after_expiry(now),
{
    match notification.remove_when {
        Some(at) => {
            if at < now {
                notification.text = None;
                notification.remove_when = None;
                true
            } else {
                false
            }
        },
        None => false,
    }
}

/// What the text widget shows for `notification`: its text, or nothing.
pub fn shown_text(notification: &Notification) -> (shown: String)
    ensures
        shown@ == match notification@.text {
            Some(text) => text,
            None => Seq::<char>::empty(),
        },
{
    match &notification.text {
        Some(text) => text.clone(),
        None => String::new(),
    }
}

} // verus!
