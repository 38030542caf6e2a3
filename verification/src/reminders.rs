//! Reminders to listen, and the notifications that they become.

use vstd::prelude::*;
use vstd::string::*;

use crate::failure::{Failure, FailureModel};
use crate::media::MediaKind;
use crate::text::{concat3, lowered, opt_str, same_text, to_lowered};

verus! {

/// How often a reminder comes back.
#[derive(Clone, Copy, Debug, PartialEq, Eq, Structural)]
pub enum Recurrence {
    Once,
    Daily,
    Weekly,
    Monthly,
}

impl Default for Recurrence {
    fn default() -> (r: Self)
        ensures
            r == Recurrence::Once,
    {
        Recurrence::Once
    }
}

impl Recurrence {
    pub open spec fn name(self) -> Seq<char> {
        match self {
            Recurrence::Once => "none"@,
            Recurrence::Daily => "daily"@,
            Recurrence::Weekly => "weekly"@,
            Recurrence::Monthly => "monthly"@,
        }
    }

    /// The recurrence that a word stands for, in any case of its letters.
    pub open spec fn named(s: Seq<char>) -> Option<Recurrence> {
        let word = lowered(s);
        if word == "none"@ || word == "once"@ || word == "one-shot"@ {
            Some(Recurrence::Once)
        } else if word == "daily"@ || word == "day"@ {
            Some(Recurrence::Daily)
        } else if word == "weekly"@ || word == "week"@ {
            Some(Recurrence::Weekly)
        } else if word == "monthly"@ || word == "month"@ {
            Some(Recurrence::Monthly)
        } else {
            None
        }
    }

    pub fn label(self) -> (r: &'static str)
        ensures
            r@ == self.name(),
    {
        match self {
            Recurrence::Once => "none",
            Recurrence::Daily => "daily",
            Recurrence::Weekly => "weekly",
            Recurrence::Monthly => "monthly",
        }
    }

    /// The recurrence that a word stands for.
    pub fn parse(value: &str) -> (r: Option<Recurrence>)
        ensures
            r == Recurrence::named(value@),
    {
        let word = to_lowered(value);
        let w = word.as_str();
        if same_text(w, "none") || same_text(w, "once") || same_text(w, "one-shot") {
            Some(Recurrence::Once)
        } else if same_text(w, "daily") || same_text(w, "day") {
            Some(Recurrence::Daily)
        } else if same_text(w, "weekly") || same_text(w, "week") {
            Some(Recurrence::Weekly)
        } else if same_text(w, "monthly") || same_text(w, "month") {
            Some(Recurrence::Monthly)
        } else {
            None
        }
    }

    pub fn is_recurring(self) -> (r: bool)
        ensures
            r == (self != Recurrence::Once),
    {
        self != Recurrence::Once
    }
}

/// Every recurrence is found again under its own name.
pub proof fn recurrence_names_round_trip(recurrence: Recurrence)
    ensures
        Recurrence::named(recurrence.name()) == Some(recurrence),
{
    reveal_strlit("none");
    reveal_strlit("once");
    reveal_strlit("one-shot");
    reveal_strlit("daily");
    reveal_strlit("day");
    reveal_strlit("weekly");
    reveal_strlit("week");
    reveal_strlit("monthly");
    reveal_strlit("month");
    let s = recurrence.name();
    assert(lowered(s) =~= s);
    assert("daily"@[0] != "month"@[0]);
    assert("none"@.len() == 4 && "once"@.len() == 4 && "one-shot"@.len() == 8);
    assert("daily"@.len() == 5 && "day"@.len() == 3 && "weekly"@.len() == 6);
    assert("week"@.len() == 4 && "monthly"@.len() == 7 && "month"@.len() == 5);
}

/// The life of a reminder.
#[derive(Clone, Copy, Debug, PartialEq, Eq, Structural)]
pub enum ReminderState {
    Active,
    Completed,
    Cancelled,
}

impl Default for ReminderState {
    fn default() -> (r: Self)
        ensures
            r == ReminderState::Active,
    {
        ReminderState::Active
    }
}

/// A reminder of a media item, with what the item looked like when it was
/// made. Times are Unix epoch milliseconds.
#[derive(Clone, Debug, PartialEq)]
pub struct Reminder {
    pub id: String,
    pub media_uri: String,
    pub media_kind: MediaKind,
    pub name: String,
    pub subtitle: String,
    pub image_url: Option<String>,
    pub anchor_at_ms: i64,
    pub recurrence: Recurrence,
    pub tz: String,
    pub next_due_at_ms: i64,
    pub state: ReminderState,
    pub message: Option<String>,
    pub created_at_ms: i64,
}

/// The life of a notification.
#[derive(Clone, Copy, Debug, PartialEq, Eq, Structural)]
pub enum NotificationState {
    Unseen,
    Seen,
    Snoozed,
    Dismissed,
    Done,
}

impl Default for NotificationState {
    fn default() -> (r: Self)
        ensures
            r == NotificationState::Unseen,
    {
        NotificationState::Unseen
    }
}

/// A reminder that came due.
#[derive(Clone, Debug, PartialEq)]
pub struct Notification {
    pub id: String,
    pub reminder_id: String,
    pub media_uri: String,
    pub media_kind: MediaKind,
    pub name: String,
    pub subtitle: String,
    pub image_url: Option<String>,
    pub due_at_ms: i64,
    pub fired_at_ms: i64,
    pub state: NotificationState,
    pub snoozed_until_ms: Option<i64>,
    pub acted: Option<String>,
    pub message: Option<String>,
}

/// What a user does with a notification.
#[derive(Clone, Copy, Debug, PartialEq, Eq, Structural)]
pub enum NotificationAction {
    Seen,
    Dismiss,
    Snooze,
    Play,
    Queue,
}

/// What an action leaves of a notification: its state, until when it sleeps,
/// what was done, and whether the schedule has to be looked at again.
#[derive(Clone, Copy, Debug, PartialEq, Eq)]
pub struct NotificationEffect {
    pub state: NotificationState,
    pub snoozed_until_ms: Option<i64>,
    pub acted: Option<&'static str>,
    pub wakes_scheduler: bool,
}

/// How long a notification sleeps where nobody says how long.
pub const DEFAULT_SNOOZE_MS: i64 = 3_600_000;

/// What an action leaves of a notification.
pub fn notification_effect(
    action: NotificationAction,
    snooze_until_ms: Option<i64>,
    now_ms: i64,
) -> (r: NotificationEffect)
    requires
        action == NotificationAction::Snooze && snooze_until_ms is None ==> now_ms
            + 3_600_000 <= i64::MAX,
    ensures
        r.state == (match action {
            NotificationAction::Seen => NotificationState::Seen,
            NotificationAction::Dismiss => NotificationState::Dismissed,
            NotificationAction::Snooze => NotificationState::Snoozed,
            NotificationAction::Play => NotificationState::Done,
            NotificationAction::Queue => NotificationState::Done,
        }),
        r.snoozed_until_ms == (match action {
            NotificationAction::Snooze => match snooze_until_ms {
                Some(until) => Some(until),
                None => Some((now_ms + 3_600_000) as i64),
            },
            _ => None,
        }),
        opt_str(r.acted) == (match action {
            NotificationAction::Play => Some("played"@),
            NotificationAction::Queue => Some("queued"@),
            _ => None,
        }),
        r.wakes_scheduler == (action == NotificationAction::Snooze),
{
    match action {
        NotificationAction::Seen => NotificationEffect {
            state: NotificationState::Seen,
            snoozed_until_ms: None,
            acted: None,
            wakes_scheduler: false,
        },
        NotificationAction::Dismiss => NotificationEffect {
            state: NotificationState::Dismissed,
            snoozed_until_ms: None,
            acted: None,
            wakes_scheduler: false,
        },
        NotificationAction::Snooze => {
            let until: i64 = match snooze_until_ms {
                Some(until) => until,
                None => now_ms + DEFAULT_SNOOZE_MS,
            };
            NotificationEffect {
                state: NotificationState::Snoozed,
                snoozed_until_ms: Some(until),
                acted: None,
                wakes_scheduler: true,
            }
        },
        NotificationAction::Play => NotificationEffect {
            state: NotificationState::Done,
            snoozed_until_ms: None,
            acted: Some("played"),
            wakes_scheduler: false,
        },
        NotificationAction::Queue => NotificationEffect {
            state: NotificationState::Done,
            snoozed_until_ms: None,
            acted: Some("queued"),
            wakes_scheduler: false,
        },
    }
}

/// The failure of a notification that is not there.
pub fn notification_not_found(id: &str) -> (r: Failure)
    ensures
        r@ == FailureModel::Refused("notification "@ + id@ + " not found"@),
{
    Failure::Refused(concat3("notification ", id, " not found"))
}

/// The words for each recurrence, in any case of their letters; no other word
/// stands for one.
pub proof fn recurrences_have_their_words(s: Seq<char>)
    ensures
        ({
            let word = lowered(s);
            let once = word == "none"@ || word == "once"@ || word == "one-shot"@;
            let daily = word == "daily"@ || word == "day"@;
            let weekly = word == "weekly"@ || word == "week"@;
            let monthly = word == "monthly"@ || word == "month"@;
            &&& Recurrence::named(s) == Some(Recurrence::Once) <==> once
            &&& Recurrence::named(s) == Some(Recurrence::Daily) <==> daily
            &&& Recurrence::named(s) == Some(Recurrence::Weekly) <==> weekly
            &&& Recurrence::named(s) == Some(Recurrence::Monthly) <==> monthly
            &&& Recurrence::named(s) is None <==> !once && !daily && !weekly && !monthly
        }),
{
    reveal_strlit("none");
    reveal_strlit("once");
    reveal_strlit("one-shot");
    reveal_strlit("daily");
    reveal_strlit("day");
    reveal_strlit("weekly");
    reveal_strlit("week");
    reveal_strlit("monthly");
    reveal_strlit("month");
    assert("none"@.len() == 4 && "once"@.len() == 4 && "one-shot"@.len() == 8);
    assert("daily"@.len() == 5 && "day"@.len() == 3 && "weekly"@.len() == 6);
    assert("week"@.len() == 4 && "monthly"@.len() == 7 && "month"@.len() == 5);
    assert("none"@[0] == 'n' && "once"@[0] == 'o' && "week"@[0] == 'w');
    assert("daily"@[0] == 'd' && "month"@[0] == 'm');
}

/// A notification that is put to sleep wakes when it was told to, or after an
/// hour; playing and queueing are done with it, and only sleeping has the
/// schedule looked at again.
pub proof fn notifications_sleep_for_an_hour(
    action: NotificationAction,
    until_ms: Option<i64>,
    now_ms: i64,
    answer: NotificationEffect,
)
    requires
        call_ensures(notification_effect, (action, until_ms, now_ms), answer),
        now_ms + 3_600_000 <= i64::MAX,
    ensures
        action is Snooze <==> answer.state is Snoozed,
        action is Snooze <==> answer.wakes_scheduler,
        action is Snooze <==> answer.snoozed_until_ms is Some,
        action is Snooze && until_ms is Some ==> answer.snoozed_until_ms == until_ms,
        action is Snooze && until_ms is None ==> answer.snoozed_until_ms->0 - now_ms == 60 * 60
            * 1000,
        action is Seen <==> answer.state is Seen,
        action is Dismiss <==> answer.state is Dismissed,
        action is Play || action is Queue <==> answer.state is Done,
        action is Play <==> opt_str(answer.acted) == Some("played"@),
        action is Queue <==> opt_str(answer.acted) == Some("queued"@),
{
    reveal_strlit("played");
    reveal_strlit("queued");
    assert("played"@[0] != "queued"@[0]);
}

} // verus!
