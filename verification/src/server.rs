//! The bus service state: id allocation with replace semantics, the static
//! capability and server-information answers, and the decision of what each
//! Notify or CloseNotification call feeds into the pipeline and whether it is
//! fanned out to applet connections.

use crate::model::{
    hint_args_view, hints_view, spec_decode_actions, spec_decode_hints, spec_hints_data_len_ok,
    spec_transient, strings_view, HintValue, HintValueV, Notification,
};
use crate::pipeline::Input;
use vstd::prelude::*;

verus! {

/// The bus service: owns the monotonically increasing id counter. The
/// connection set that notifications are fanned out to lives with the caller;
/// this state only decides.
#[derive(Debug, Clone, PartialEq, Eq)]
pub struct Notifications {
    /// The id the next allocating Notify call returns; never 0.
    pub next_id: u32,
}

/// Fresh-id allocation: the stored counter is returned as the id, and the
/// counter advances by one, wrapping past u32::MAX back to 1 so that 0 is
/// never issued. Id reuse after the counter wraps (about four billion
/// notifications) is an accepted limitation.
pub open spec fn spec_alloc_id(next: u32) -> (u32, u32) {
    (next, if next == u32::MAX {
        1u32
    } else {
        (next + 1) as u32
    })
}

/// What a Notify call builds: the notification carries the settled id, the
/// verbatim strings, the pairwise-decoded actions, the per-key decoded hints,
/// and the caller's clock reading.
pub open spec fn spec_built_notification(
    n: Notification,
    id: u32,
    app_name: Seq<char>,
    app_icon: Seq<char>,
    summary: Seq<char>,
    body: Seq<char>,
    actions: Seq<Seq<char>>,
    hints: Seq<(Seq<char>, HintValueV)>,
    expire_timeout: i32,
    time: u64,
) -> bool {
    &&& n.id == id
    &&& n.app_name@ == app_name
    &&& n.app_icon@ == app_icon
    &&& n.summary@ == summary
    &&& n.body@ == body
    &&& crate::model::actions_view(n.actions@) == spec_decode_actions(actions)
    &&& hints_view(n.hints@) == spec_decode_hints(hints)
    &&& spec_hints_data_len_ok(hints_view(n.hints@))
    &&& n.expire_timeout == expire_timeout
    &&& n.time == time
}

/// The full contract of a Notify call on the service state `pre` leaving it
/// in `post`: id settlement (fresh allocation for replaces_id 0, verbatim use
/// otherwise, without validating that the id is live), the built
/// notification forwarded as a Notification or Replace message, and fan-out
/// exactly for non-transient notifications.
pub open spec fn spec_notify_outcome(
    pre: Notifications,
    post: Notifications,
    app_name: Seq<char>,
    replaces_id: u32,
    app_icon: Seq<char>,
    summary: Seq<char>,
    body: Seq<char>,
    actions: Seq<Seq<char>>,
    hints: Seq<(Seq<char>, HintValueV)>,
    expire_timeout: i32,
    now: u64,
    r: NotifyOutcome,
) -> bool {
    &&& post.wf()
    &&& r.id != 0
    &&& (replaces_id == 0 ==> r.id == spec_alloc_id(pre.next_id).0 && post.next_id == spec_alloc_id(
        pre.next_id,
    ).1)
    &&& (replaces_id != 0 ==> r.id == replaces_id && post.next_id == pre.next_id)
    &&& match r.input {
        Input::Notification(n) => {
            &&& replaces_id == 0
            &&& spec_built_notification(
                n,
                r.id,
                app_name,
                app_icon,
                summary,
                body,
                actions,
                hints,
                expire_timeout,
                now,
            )
            &&& r.fan_out == !spec_transient(hints_view(n.hints@))
        },
        Input::Replace(n) => {
            &&& replaces_id != 0
            &&& spec_built_notification(
                n,
                r.id,
                app_name,
                app_icon,
                summary,
                body,
                actions,
                hints,
                expire_timeout,
                now,
            )
            &&& r.fan_out == !spec_transient(hints_view(n.hints@))
        },
        _ => false,
    }
}

/// What one Notify call decides: the id acknowledged to the caller, whether
/// the notification is fanned out to the connected applets, and the message
/// to enqueue into the pipeline. Fan-out and enqueueing are the caller's
/// fire-and-forget work; the id is returned regardless of their success.
#[derive(Debug, Clone, PartialEq, Eq)]
pub struct NotifyOutcome {
    /// The id returned to the notifying application; never 0.
    pub id: u32,
    /// Whether the notification is sent to the applet connections (it is not
    /// when the notification is marked transient).
    pub fan_out: bool,
    /// The message to forward into the pipeline channel: Notification for a
    /// fresh id, Replace when the caller named one.
    pub input: Input,
}

impl Notifications {
    /// The id counter never holds 0: 0 is the wire sentinel for "allocate".
    pub open spec fn wf(&self) -> bool {
        self.next_id >= 1
    }

    /// A fresh service state, with the id counter seeded at 1.
    pub fn new() -> (r: Notifications)
        ensures
            r.wf(),
            r.next_id == 1,
    {
        Notifications { next_id: 1 }
    }

    /// Handles a Notify call: settles the id (allocating only when
    /// `replaces_id` is 0; an unknown nonzero id is used as given and becomes
    /// an insert downstream), builds the notification, and decides fan-out
    /// and the pipeline message. Never fails: malformed actions and hints
    /// degrade, they do not reject the call.
    pub fn notify(
        &mut self,
        app_name: &str,
        replaces_id: u32,
        app_icon: &str,
        summary: &str,
        body: &str,
        actions: Vec<String>,
        hints: Vec<(String, HintValue)>,
        expire_timeout: i32,
        now: u64,
    ) -> (r: NotifyOutcome)
        requires
            old(self).wf(),
        ensures
            spec_notify_outcome(
                *old(self),
                *final(self),
                app_name@,
                replaces_id,
                app_icon@,
                summary@,
                body@,
                strings_view(actions@),
                hint_args_view(hints@),
                expire_timeout,
                now,
                r,
            ),
    {
        let id = if replaces_id == 0 {
            let id = self.next_id;
            self.next_id = if self.next_id == u32::MAX {
                1
            } else {
                self.next_id + 1
            };
            id
        } else {
            replaces_id
        };
        let n = Notification::new(
            app_name,
            id,
            app_icon,
            summary,
            body,
            actions,
            hints,
            expire_timeout,
            now,
        );
        let fan_out = !n.transient();
        let input = if replaces_id == 0 {
            Input::Notification(n)
        } else {
            Input::Replace(n)
        };
        NotifyOutcome { id, fan_out, input }
    }

    /// Handles a CloseNotification call: the request is enqueued for the
    /// pipeline, which answers it with a NotificationClosed signal whether or
    /// not the id was ever issued.
    pub fn close_notification(&self, id: u32) -> (r: Input)
        ensures
            r == Input::CloseNotification(id),
    {
        Input::CloseNotification(id)
    }

    /// The static capability list.
    pub fn get_capabilities(&self) -> (r: Vec<String>)
        ensures
            r@.len() == 8,
            r@[0]@ == "body"@,
            r@[1]@ == "icon-static"@,
            r@[2]@ == "persistence"@,
            r@[3]@ == "actions"@,
            r@[4]@ == "action-icons"@,
            r@[5]@ == "body-markup"@,
            r@[6]@ == "body-hyperlinks"@,
            r@[7]@ == "sound"@,
    {
        let mut r: Vec<String> = Vec::new();
        r.push("body".to_owned());
        r.push("icon-static".to_owned());
        r.push("persistence".to_owned());
        r.push("actions".to_owned());
        r.push("action-icons".to_owned());
        r.push("body-markup".to_owned());
        r.push("body-hyperlinks".to_owned());
        r.push("sound".to_owned());
        r
    }

    /// The static server identification: name, vendor, version, and the
    /// notification protocol version spoken.
    pub fn get_server_information(&self) -> (r: (String, String, String, String))
        ensures
            r.0@ == "cosmic-notifications"@,
            r.1@ == "System76"@,
            r.2@ == "0.1.0"@,
            r.3@ == "1.2"@,
    {
        (
            "cosmic-notifications".to_owned(),
            "System76".to_owned(),
            "0.1.0".to_owned(),
            "1.2".to_owned(),
        )
    }
}

/// Ids of successive fresh Notify calls advance by exactly one, wrapping past
/// u32::MAX back to 1; 0 is never issued.
pub proof fn lemma_fresh_ids_advance(next: u32)
    requires
        next >= 1,
    ensures
        ({
            let (id1, next1) = spec_alloc_id(next);
            let (id2, _) = spec_alloc_id(next1);
            &&& id1 == next
            &&& id1 != 0
            &&& id2 != 0
            &&& id2 == (if id1 == u32::MAX {
                1u32
            } else {
                (id1 + 1) as u32
            })
        }),
{
}

/// No deduplication: two Notify calls with identical payloads, both with
/// replaces_id 0, yield two distinct ids and two independent Notification
/// messages, each carrying its own id.
pub proof fn lemma_no_deduplication(
    pre: Notifications,
    mid: Notifications,
    post: Notifications,
    app_name: Seq<char>,
    app_icon: Seq<char>,
    summary: Seq<char>,
    body: Seq<char>,
    actions: Seq<Seq<char>>,
    hints: Seq<(Seq<char>, HintValueV)>,
    expire_timeout: i32,
    now1: u64,
    now2: u64,
    r1: NotifyOutcome,
    r2: NotifyOutcome,
)
    requires
        pre.wf(),
        spec_notify_outcome(
            pre,
            mid,
            app_name,
            0,
            app_icon,
            summary,
            body,
            actions,
            hints,
            expire_timeout,
            now1,
            r1,
        ),
        spec_notify_outcome(
            mid,
            post,
            app_name,
            0,
            app_icon,
            summary,
            body,
            actions,
            hints,
            expire_timeout,
            now2,
            r2,
        ),
    ensures
        r1.id != r2.id,
        r1.input matches Input::Notification(n1) && n1.id == r1.id,
        r2.input matches Input::Notification(n2) && n2.id == r2.id,
{
}

} // verus!

