//! The line-delimited, fd-passing protocol between the daemon and the panel
//! process: requests arrive as one serialized value per line, the daemon
//! answers a client registration by sending a fixed 4-byte id payload
//! alongside a transferred socket, and notification events are broadcast to
//! every registered applet socket. The sockets themselves live with the
//! caller; this module parses the requests, encodes the id payload, and
//! drives the protocol's state.

use crate::model::Notification;
use crate::strutil::{
    all_radix_digits, parse_u32_radix, radix_value, str_chars, str_eq,
};
use vstd::arithmetic::div_mod::{lemma_div_denominator, lemma_fundamental_div_mod};
use vstd::prelude::*;

verus! {

/// A request the panel sends the daemon, one per line.
#[derive(Debug, Clone, Copy, PartialEq, Eq)]
pub enum PanelRequest {
    /// The panel instance restarted: all per-applet state derived from the
    /// previous instance is dropped.
    Init,
    /// The panel wants a dedicated duplex socket for applet instance `id`.
    NewNotificationsClient { id: u32 },
}

/// An event the daemon streams to panel applets.
#[derive(Debug, Clone, PartialEq, Eq)]
pub enum AppletEvent {
    Notification(Notification),
    Replace(Notification),
    Closed(u32),
}

/// The request denoted by one line: the bare word `Init`, or
/// `NewNotificationsClient(id:N)` with N a decimal number fitting in a u32.
/// Exactly this compact serialized form is accepted — no surrounding or
/// interior whitespace — which is precisely what the peer's serializer
/// writes. Anything else is a protocol violation; the line is skipped and
/// the connection stays open.
pub open spec fn spec_parse_panel_request(s: Seq<char>) -> Option<PanelRequest> {
    if s == "Init"@ {
        Some(PanelRequest::Init)
    } else {
        let prefix = "NewNotificationsClient(id:"@;
        if s.len() > prefix.len() + 1 && s.take(prefix.len() as int) == prefix && s.last() == ')'
            && all_radix_digits(s.subrange(prefix.len() as int, s.len() - 1), 10) && radix_value(
            s.subrange(prefix.len() as int, s.len() - 1),
            10,
        ) <= u32::MAX {
            Some(
                PanelRequest::NewNotificationsClient {
                    id: radix_value(s.subrange(prefix.len() as int, s.len() - 1), 10) as u32,
                },
            )
        } else {
            None
        }
    }
}

/// Parses one line of the panel protocol.
pub fn parse_panel_request(line: &str) -> (r: Option<PanelRequest>)
    ensures
        r == spec_parse_panel_request(line@),
{
    if str_eq(line, "Init") {
        return Some(PanelRequest::Init);
    }
    let chars = str_chars(line);
    let prefix = str_chars("NewNotificationsClient(id:");
    proof {
        reveal_strlit("NewNotificationsClient(id:");
    }
    let n = chars.len();
    let plen = prefix.len();
    if n < plen + 2 {
        return None;
    }
    let mut j: usize = 0;
    while j < plen
        invariant
            line@ != "Init"@,
            chars@ == line@,
            prefix@ == "NewNotificationsClient(id:"@,
            plen == prefix@.len(),
            n == chars@.len(),
            n >= plen + 2,
            j <= plen,
            forall|i: int| 0 <= i < j ==> chars@[i] == prefix@[i],
        decreases plen - j,
    {
        if chars[j] != prefix[j] {
            proof {
                assert(line@.take(plen as int)[j as int] != "NewNotificationsClient(id:"@[j as int]);
            }
            return None;
        }
        j += 1;
    }
    proof {
        assert(line@.take(plen as int) =~= "NewNotificationsClient(id:"@);
    }
    if chars[n - 1] != ')' {
        return None;
    }
    let mut digits: Vec<char> = Vec::new();
    let mut k: usize = plen;
    while k < n - 1
        invariant
            line@ != "Init"@,
            chars@ == line@,
            n == chars@.len(),
            n >= plen + 2,
            plen == "NewNotificationsClient(id:"@.len(),
            line@.take(plen as int) == "NewNotificationsClient(id:"@,
            chars@[n as int - 1] == ')',
            plen <= k <= n - 1,
            digits@ =~= chars@.subrange(plen as int, k as int),
        decreases n - k,
    {
        digits.push(chars[k]);
        k += 1;
    }
    proof {
        assert(digits@ =~= line@.subrange(plen as int, n as int - 1));
    }
    match parse_u32_radix(digits.as_slice(), 10) {
        Some(id) => Some(PanelRequest::NewNotificationsClient { id }),
        None => None,
    }
}

/// The 4-byte little-endian payload that accompanies a transferred applet
/// socket, carrying the applet instance id.
pub open spec fn spec_le_bytes(id: u32) -> Seq<u8> {
    seq![
        (id % 256) as u8,
        ((id / 256) % 256) as u8,
        ((id / 65536) % 256) as u8,
        ((id / 16777216) % 256) as u8,
    ]
}

/// The little-endian bytes determine the id: the payload is lossless.
pub proof fn lemma_le_bytes_value(id: u32)
    ensures
        ({
            let b = spec_le_bytes(id);
            &&& b.len() == 4
            &&& id == b[0] + 256 * (b[1] as int) + 65536 * (b[2] as int) + 16777216 * (
            b[3] as int)
        }),
{
    lemma_fundamental_div_mod(id as int, 256);
    lemma_fundamental_div_mod(id as int / 256, 256);
    lemma_fundamental_div_mod(id as int / 65536, 256);
    lemma_div_denominator(id as int, 256, 256);
    lemma_div_denominator(id as int, 65536, 256);
    assert(id as int / 16777216 < 256);
    assert((id as int / 16777216) % 256 == id as int / 16777216) by {
        lemma_fundamental_div_mod(id as int / 16777216, 256);
        lemma_div_denominator(id as int, 16777216, 256);
    }
}

impl PanelRequest {
    /// Encodes the id payload sent alongside a transferred applet socket.
    pub fn id_to_le_bytes(id: u32) -> (r: Vec<u8>)
        ensures
            r@ == spec_le_bytes(id),
    {
        let mut r: Vec<u8> = Vec::new();
        r.push((id % 256) as u8);
        r.push(((id / 256) % 256) as u8);
        r.push(((id / 65536) % 256) as u8);
        r.push(((id / 16777216) % 256) as u8);
        proof {
            assert(r@ =~= spec_le_bytes(id));
        }
        r
    }
}

/// The panel-protocol driver's state: the count of registered applet sockets
/// stands for the socket set the caller owns. Finished is absorbing.
#[derive(Debug, Clone, Copy, PartialEq, Eq)]
pub enum State {
    Starting,
    Waiting { applets: u64 },
    Finished,
}

/// An event the panel driver reports to its consumer.
#[derive(Debug, Clone, Copy, PartialEq, Eq)]
pub enum Event {
    /// The inherited socket is set up; requests can flow.
    Ready,
}

/// A message arriving at the panel driver.
#[derive(Debug, Clone, PartialEq, Eq)]
pub enum Input {
    /// A notification event to broadcast to every applet socket.
    AppletEvent(AppletEvent),
    /// A parsed request line from the panel.
    PanelRequest(PanelRequest),
}

/// What the caller must do after one panel driver step.
#[derive(Debug, Clone, PartialEq, Eq)]
pub enum PanelAction {
    /// Serialize the event and write it as one line to every applet socket;
    /// a failing socket is skipped, not evicted.
    Broadcast(AppletEvent),
    /// Drop every applet socket of the previous panel instance.
    ClearApplets,
    /// Create a socket pair, mark the transferred end close-on-exec, and
    /// send it with `id_bytes` as the ancillary payload over the control
    /// socket; on success report back with `fd_sent`.
    SendFd { id: u32, id_bytes: Vec<u8> },
}

impl State {
    /// The inherited control socket was set up: the driver enters its steady
    /// state with no applet sockets yet.
    pub fn socket_ready(&mut self) -> (ev: Event)
        requires
            *old(self) is Starting,
        ensures
            *final(self) == (State::Waiting { applets: 0u64 }),
            ev == Event::Ready,
    {
        *self = State::Waiting { applets: 0 };
        Event::Ready
    }

    /// The inherited socket is missing or invalid: the panel driver finishes;
    /// the daemon degrades to bus-only operation.
    pub fn socket_failed(&mut self)
        requires
            *old(self) is Starting,
        ensures
            *final(self) is Finished,
    {
        *self = State::Finished;
    }

    /// The channel of inbound messages was closed: the driver finishes.
    pub fn channel_closed(&mut self)
        requires
            *old(self) is Waiting,
        ensures
            *final(self) is Finished,
    {
        *self = State::Finished;
    }

    /// Processes one inbound message in the steady state: an event is
    /// broadcast, an Init request drops all applet sockets, and a client
    /// registration answers with an fd transfer carrying the id's 4-byte
    /// little-endian payload. The state stays Waiting.
    pub fn handle_input(&mut self, input: Input) -> (r: PanelAction)
        requires
            *old(self) is Waiting,
        ensures
            *final(self) is Waiting,
            match input {
                Input::AppletEvent(e) => r == PanelAction::Broadcast(e) && *final(self) == *old(
                    self,
                ),
                Input::PanelRequest(req) => match req {
                    PanelRequest::Init => r == PanelAction::ClearApplets && *final(self) == (
                    State::Waiting { applets: 0u64 }),
                    PanelRequest::NewNotificationsClient { id } => (r matches PanelAction::SendFd {
                        id: rid,
                        id_bytes,
                    } && rid == id && id_bytes@ == spec_le_bytes(id)) && *final(self) == *old(
                        self,
                    ),
                },
            },
    {
        match input {
            Input::AppletEvent(e) => PanelAction::Broadcast(e),
            Input::PanelRequest(req) => match req {
                PanelRequest::Init => {
                    *self = State::Waiting { applets: 0 };
                    PanelAction::ClearApplets
                },
                PanelRequest::NewNotificationsClient { id } => {
                    let id_bytes = PanelRequest::id_to_le_bytes(id);
                    PanelAction::SendFd { id, id_bytes }
                },
            },
        }
    }

    /// An fd transfer succeeded and the daemon kept its end: one more applet
    /// socket is registered. The count is bounded by the machine's fd space,
    /// far below u64::MAX.
    pub fn fd_sent(&mut self)
        requires
            *old(self) matches State::Waiting { applets } && applets < u64::MAX,
        ensures
            *old(self) matches State::Waiting { applets } && *final(self) == (State::Waiting {
                applets: (applets + 1) as u64,
            }),
    {
        match self {
            State::Waiting { applets } => {
                *applets = *applets + 1;
            },
            _ => {
                proof {
                    assert(false);
                }
            },
        }
    }
}

} // verus!
