//! The event pipeline: the Starting -> Waiting -> Finished driver that turns
//! low-level channel messages into presentation-layer events and outbound bus
//! signals. The driver loop, the channel and the bus live with the caller;
//! this module decides every transition and every emission.

use crate::model::{spec_action_key, spec_reason_code, ActionId, CloseReason, Notification};
use crate::server::{spec_notify_outcome, Notifications, NotifyOutcome};
use crate::model::HintValueV;
use vstd::prelude::*;

verus! {

/// How many times bus registration is attempted before the pipeline gives
/// up and finishes.
pub const BUS_REGISTRATION_ATTEMPTS: u32 = 5;

/// A message arriving on the pipeline's single inbound channel.
#[derive(Debug, Clone, PartialEq, Eq)]
pub enum Input {
    /// A freshly allocated notification from the bus service.
    Notification(Notification),
    /// A notification replacing an existing id.
    Replace(Notification),
    /// A CloseNotification bus call to acknowledge and forward.
    CloseNotification(u32),
    /// The presentation layer closed a notification for the given reason.
    Closed(u32, CloseReason),
    /// The presentation layer dismissed a notification.
    Dismissed(u32),
    /// A newly built applet connection registered itself; the connection
    /// handle itself lives with the caller.
    AppletConn,
    /// An applet invoked an action on a notification.
    AppletActivated { id: u32, action: ActionId },
}

/// A lifecycle event handed to the presentation layer.
#[derive(Debug, Clone, PartialEq, Eq)]
pub enum Event {
    /// The pipeline is registered on the bus and ready for requests; the
    /// caller attaches the channel sender to this event.
    Ready,
    Notification(Notification),
    Replace(Notification),
    CloseNotification(u32),
}

/// An outbound bus signal with its wire arguments.
#[derive(Debug, Clone, PartialEq, Eq)]
pub enum Signal {
    /// NotificationClosed(id, reason code).
    NotificationClosed(u32, u32),
    /// ActionInvoked(id, action key).
    ActionInvoked(u32, String),
}

/// The pipeline driver's state. Finished is absorbing: no transition leaves
/// it, and the driver parks there forever.
#[derive(Debug, Clone, Copy, PartialEq, Eq)]
pub enum State {
    Starting,
    Waiting,
    Finished,
}

/// What one Waiting-state step emits: events to the presentation layer,
/// signals to the bus, and whether a new applet connection joins the
/// caller's connection set.
#[derive(Debug, Clone, PartialEq, Eq)]
pub struct StepOutcome {
    pub events: Vec<Event>,
    pub signals: Vec<Signal>,
    pub add_applet_conn: bool,
}

/// The events one inbound message maps to: Notification, Replace and
/// CloseNotification are forwarded to the presentation layer, everything
/// else emits none.
pub open spec fn spec_step_events(input: Input) -> Seq<Event> {
    match input {
        Input::Notification(n) => seq![Event::Notification(n)],
        Input::Replace(n) => seq![Event::Replace(n)],
        Input::CloseNotification(id) => seq![Event::CloseNotification(id)],
        _ => Seq::empty(),
    }
}

/// The signals one inbound message maps to: a Closed acknowledgment carries
/// its reason's wire code, CloseNotification always answers with code 3,
/// Dismissed with code 2, and an applet activation becomes ActionInvoked
/// with the action's wire key; nothing else signals.
pub open spec fn spec_step_signals_ok(input: Input, signals: Seq<Signal>) -> bool {
    match input {
        Input::Closed(id, reason) => signals == seq![
            Signal::NotificationClosed(id, spec_reason_code(reason)),
        ],
        Input::CloseNotification(id) => signals == seq![Signal::NotificationClosed(id, 3u32)],
        Input::Dismissed(id) => signals == seq![Signal::NotificationClosed(id, 2u32)],
        Input::AppletActivated { id, action } => signals.len() == 1 && (signals[0] matches
            Signal::ActionInvoked(sid, key) && sid == id && key@ == spec_action_key(action@)),
        _ => signals == Seq::<Signal>::empty(),
    }
}

impl State {
    /// Bus registration succeeded: the pipeline enters its steady state and
    /// the presentation layer is told it is ready.
    pub fn bus_registered(&mut self) -> (ev: Event)
        requires
            *old(self) is Starting,
        ensures
            *final(self) is Waiting,
            ev == Event::Ready,
    {
        *self = State::Waiting;
        Event::Ready
    }

    /// Bus registration attempts are exhausted: the pipeline finishes and
    /// never serves. This is the pipeline's only fatal path.
    pub fn bus_registration_failed(&mut self)
        requires
            *old(self) is Starting,
        ensures
            *final(self) is Finished,
    {
        *self = State::Finished;
    }

    /// Whether registration should be attempted again after `attempt` failed
    /// tries: a small bounded number of attempts is made before giving up.
    pub fn should_retry_registration(attempt: u32) -> (r: bool)
        ensures
            r == (attempt < BUS_REGISTRATION_ATTEMPTS),
    {
        attempt < BUS_REGISTRATION_ATTEMPTS
    }

    /// The inbound channel was closed by its only sender: the pipeline is
    /// permanently drained and finishes.
    pub fn channel_closed(&mut self)
        requires
            *old(self) is Waiting,
        ensures
            *final(self) is Finished,
    {
        *self = State::Finished;
    }

    /// Processes one inbound message in the steady state: each message maps
    /// to exactly one of forward-to-presentation, forward-to-bus-as-signal,
    /// or a connection-set mutation, and the state stays Waiting. Message
    /// order is the channel's order; this step neither reorders nor drops.
    pub fn handle_input(&mut self, input: Input) -> (r: StepOutcome)
        requires
            *old(self) is Waiting,
        ensures
            *final(self) is Waiting,
            r.events@ == spec_step_events(input),
            spec_step_signals_ok(input, r.signals@),
            r.add_applet_conn == (input is AppletConn),
    {
        let mut events: Vec<Event> = Vec::new();
        let mut signals: Vec<Signal> = Vec::new();
        let mut add_applet_conn = false;
        match input {
            Input::Notification(n) => {
                events.push(Event::Notification(n));
                proof {
                    assert(events@ =~= spec_step_events(input));
                }
            },
            Input::Replace(n) => {
                events.push(Event::Replace(n));
                proof {
                    assert(events@ =~= spec_step_events(input));
                }
            },
            Input::CloseNotification(id) => {
                events.push(Event::CloseNotification(id));
                signals.push(Signal::NotificationClosed(id, 3));
                proof {
                    assert(events@ =~= spec_step_events(input));
                    assert(signals@ =~= seq![Signal::NotificationClosed(id, 3u32)]);
                }
            },
            Input::Closed(id, reason) => {
                let code = reason.code();
                signals.push(Signal::NotificationClosed(id, code));
                proof {
                    assert(signals@ =~= seq![
                        Signal::NotificationClosed(id, spec_reason_code(reason)),
                    ]);
                }
            },
            Input::Dismissed(id) => {
                signals.push(Signal::NotificationClosed(id, 2));
                proof {
                    assert(signals@ =~= seq![Signal::NotificationClosed(id, 2u32)]);
                }
            },
            Input::AppletConn => {
                add_applet_conn = true;
            },
            Input::AppletActivated { id, action } => {
                let key = action.key();
                signals.push(Signal::ActionInvoked(id, key));
            },
        }
        StepOutcome { events, signals, add_applet_conn }
    }
}

/// One CloseNotification request yields exactly one NotificationClosed
/// signal, carrying that id and reason code 3 (closed by request), whether
/// or not the id was ever issued.
pub proof fn lemma_close_notification_signal(id: u32, signals: Seq<Signal>)
    requires
        spec_step_signals_ok(Input::CloseNotification(id), signals),
    ensures
        signals.len() == 1,
        signals[0] == Signal::NotificationClosed(id, 3u32),
{
}

/// A Notify call that names a previously issued id (any nonzero id, as all
/// issued ids are) reaches the event-channel observer as exactly one Replace
/// event carrying that id, and never as a fresh Notification event, whatever
/// the notification's fields.
pub proof fn lemma_replace_reaches_observer(
    pre: Notifications,
    post: Notifications,
    app_name: Seq<char>,
    replaces_id: u32,
    app_icon: Seq<char>,
    summary: Seq<char>,
    body: Seq<char>,
    actions: Seq<Seq<char>>,
    hints: Seq<(Seq<char>, HintValueV)>,
    expire_timeout: i32,
    now: u64,
    r: NotifyOutcome,
    events: Seq<Event>,
)
    requires
        spec_notify_outcome(
            pre,
            post,
            app_name,
            replaces_id,
            app_icon,
            summary,
            body,
            actions,
            hints,
            expire_timeout,
            now,
            r,
        ),
        replaces_id != 0,
        events == spec_step_events(r.input),
    ensures
        events.len() == 1,
        events[0] matches Event::Replace(n) && n.id == replaces_id,
        forall|i: int| 0 <= i < events.len() ==> !(#[trigger] events[i] is Notification),
{
}

} // verus!
