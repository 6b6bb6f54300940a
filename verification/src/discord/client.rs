//! One connection's worth of Discord IPC state: the handshake/READY dance,
//! what to send and when, and what the caller has to react to.
//!
//! The pipe and the JSON live with the caller, which drives this from its own
//! event loop: it performs the I/O, hands the outcome here, and does what the
//! answer says.
use crate::discord::protocol::{
    decode_step, frame_error_of, frame_event_of, opt_string_view, Frame, FrameDecoder, Opcode,
    ProtocolError,
};
use crate::numbers::{decimal, push_decimal, signed_decimal, push_signed_decimal};
use crate::portable::models::ConnState;
use crate::strings::{push_str, str_eq, to_owned_string};
use vstd::prelude::*;

verus! {

/// Something the caller has to react to. Ordinary traffic (PONGs, command
/// replies) is handled here and reported as nothing at all.
#[derive(Debug, Clone, PartialEq, Eq)]
pub enum Event {
    /// The handshake completed; activities sent from now on will stick.
    Ready,
    /// Discord went away. The client is already back to `Disconnected`.
    Closed,
    /// Discord rejected something: a bad client id, a malformed activity, a
    /// rate limit. Diagnostic only; an ERROR frame does not by itself end the
    /// connection.
    Error(String),
}

/// An event as the contracts describe it.
pub enum EventView {
    Ready,
    Closed,
    Error(Seq<char>),
}

pub open spec fn event_view(e: Event) -> EventView {
    match e {
        Event::Ready => EventView::Ready,
        Event::Closed => EventView::Closed,
        Event::Error(s) => EventView::Error(s@),
    }
}

pub open spec fn event_views(v: Seq<Event>) -> Seq<EventView> {
    v.map_values(|e: Event| event_view(e))
}

/// The text a rejection or a close is reported with: the message and the
/// code when both arrived, whichever one did otherwise, and what arrived
/// verbatim when neither did, so the report is never empty of what Discord
/// sent.
pub open spec fn reason_of(message: Option<Seq<char>>, code: Option<i64>, raw: Seq<char>) -> Seq<char> {
    match (message, code) {
        (Some(m), Some(c)) => m + " (code "@ + signed_decimal(c as int) + ")"@,
        (Some(m), None) => m,
        (None, Some(c)) => "code "@ + signed_decimal(c as int),
        (None, None) => raw,
    }
}

pub open spec fn opt_str(o: Option<&str>) -> Option<Seq<char>> {
    match o {
        Some(s) => Some(s@),
        None => None,
    }
}

/// The reason an ERROR frame or a CLOSE gives, from its message and code
/// and, failing both, the body as it arrived.
pub fn describe_reason(message: Option<&str>, code: Option<i64>, raw: &str) -> (r: String)
    ensures
        r@ == reason_of(opt_str(message), code, raw@),
{
    match (message, code) {
        (Some(m), Some(c)) => {
            let mut out = to_owned_string(m);
            push_str(&mut out, " (code ");
            push_signed_decimal(&mut out, c);
            push_str(&mut out, ")");
            out
        },
        (Some(m), None) => to_owned_string(m),
        (None, Some(c)) => {
            let mut out = to_owned_string("code ");
            push_signed_decimal(&mut out, c);
            out
        },
        (None, None) => to_owned_string(raw),
    }
}

/// The reason a frame gives: an ERROR frame explains itself in its `data`
/// object, a CLOSE at the top level; a `data` that is no object is no
/// explanation, and the top level is read instead.
pub open spec fn frame_reason_of(
    top: (Option<Seq<char>>, Option<i64>),
    data: Option<(Option<Seq<char>>, Option<i64>)>,
    raw: Seq<char>,
) -> Seq<char> {
    match data {
        Some(d) => reason_of(d.0, d.1, raw),
        None => reason_of(top.0, top.1, raw),
    }
}

/// `top_*` are the `message` and `code` at the top of the body, `data` the
/// same two fields of its `data` member when that is an object, and `raw`
/// the body as it arrived.
pub fn frame_reason(
    top_message: Option<&str>,
    top_code: Option<i64>,
    data: Option<(Option<&str>, Option<i64>)>,
    raw: &str,
) -> (r: String)
    ensures
        r@ == frame_reason_of(
            (opt_str(top_message), top_code),
            match data {
                Some(d) => Some((opt_str(d.0), d.1)),
                None => None,
            },
            raw@,
        ),
{
    match data {
        Some((message, code)) => describe_reason(message, code, raw),
        None => describe_reason(top_message, top_code, raw),
    }
}

/// What one decoded frame asks of the caller.
pub struct FrameOutcome {
    /// What to report, in order.
    pub events: Vec<Event>,
    /// Echo the frame's body back as a PONG.
    pub pong: bool,
    /// Stop reading frames: the connection is over.
    pub stop: bool,
}

/// One connection's state, without the pipe.
pub struct Client {
    decoder: FrameDecoder,
    state: ConnState,
    /// The id used for the live connection.
    client_id: Option<String>,
    nonce: u64,
    /// Whether a pipe is open.
    open: bool,
}

/// The id a command is sent with: `ceyrad-` and the running count.
pub open spec fn nonce_text(n: u64) -> Seq<char> {
    "ceyrad-"@ + decimal(n as nat)
}

impl Client {
    pub closed spec fn wf(&self) -> bool {
        &&& self.decoder.wf()
        &&& (self.state != ConnState::Disconnected ==> self.open)
        &&& (self.open <==> self.client_id is Some)
    }

    pub closed spec fn spec_state(&self) -> ConnState {
        self.state
    }

    pub closed spec fn spec_client_id(&self) -> Option<Seq<char>> {
        match self.client_id {
            Some(s) => Some(s@),
            None => None,
        }
    }

    /// Whether a pipe is open.
    pub closed spec fn is_open(&self) -> bool {
        self.open
    }

    /// How many commands have been sent with a nonce.
    pub closed spec fn sent(&self) -> u64 {
        self.nonce
    }

    /// The bytes received and not yet taken as a frame.
    pub closed spec fn pending(&self) -> Seq<u8> {
        self.decoder@
    }

    pub fn new() -> (c: Self)
        ensures
            c.wf(),
            c.spec_state() == ConnState::Disconnected,
            c.spec_client_id() is None,
            !c.is_open(),
            c.sent() == 0,
            c.pending() == Seq::<u8>::empty(),
    {
        Client {
            decoder: FrameDecoder::new(),
            state: ConnState::Disconnected,
            client_id: None,
            nonce: 0,
            open: false,
        }
    }

    pub fn state(&self) -> (s: ConnState)
        ensures
            s == self.spec_state(),
    {
        self.state
    }

    /// How many commands have gone out with a nonce; the count has to stay
    /// below `u64::MAX` for another one to be numbered.
    pub fn commands_sent(&self) -> (n: u64)
        ensures
            n == self.sent(),
    {
        self.nonce
    }

    pub fn client_id(&self) -> (r: Option<&str>)
        ensures
            opt_str(r) == self.spec_client_id(),
    {
        match &self.client_id {
            Some(s) => Some(s.as_str()),
            None => None,
        }
    }

    fn next_nonce(&mut self) -> (r: String)
        requires
            old(self).sent() < u64::MAX,
        ensures
            final(self).sent() == old(self).sent() + 1,
            r@ == nonce_text(final(self).sent()),
            final(self).decoder == old(self).decoder,
            final(self).state == old(self).state,
            final(self).client_id == old(self).client_id,
            final(self).open == old(self).open,
    {
        self.nonce = self.nonce + 1;
        let mut out = to_owned_string("ceyrad-");
        push_decimal(&mut out, self.nonce);
        out
    }

    /// The pipe opened and the handshake went out under `client_id`. Success
    /// here only means `Connecting`; the connection is usable once a READY
    /// arrives. Whatever was half-read on an earlier pipe is dropped.
    pub fn connect(&mut self, client_id: &str)
        requires
            old(self).wf(),
        ensures
            final(self).wf(),
            final(self).spec_state() == ConnState::Connecting,
            final(self).spec_client_id() == Some(client_id@),
            final(self).is_open(),
            final(self).sent() == old(self).sent(),
            final(self).pending() == Seq::<u8>::empty(),
    {
        self.decoder = FrameDecoder::new();
        self.state = ConnState::Connecting;
        self.client_id = Some(to_owned_string(client_id));
        self.open = true;
    }

    /// Drops the connection. Returns the nonce to send a final null activity
    /// with, when `clear_activity` asks for one and there is a live connection
    /// to send it on, so a deliberate teardown doesn't leave a stale presence
    /// behind; the caller sends it before closing the pipe.
    pub fn disconnect(&mut self, clear_activity: bool) -> (r: Option<String>)
        requires
            old(self).wf(),
            clear_activity && old(self).spec_state() == ConnState::Connected ==> old(self).sent() < u64::MAX,
        ensures
            final(self).wf(),
            final(self).spec_state() == ConnState::Disconnected,
            final(self).spec_client_id() is None,
            !final(self).is_open(),
            final(self).pending() == old(self).pending(),
            (clear_activity && old(self).spec_state() == ConnState::Connected) ==> {
                &&& final(self).sent() == old(self).sent() + 1
                &&& r matches Some(n) && n@ == nonce_text(final(self).sent())
            },
            !(clear_activity && old(self).spec_state() == ConnState::Connected) ==> {
                &&& final(self).sent() == old(self).sent()
                &&& r is None
            },
    {
        let nonce = if clear_activity && self.state == ConnState::Connected {
            Some(self.next_nonce())
        } else {
            None
        };
        self.state = ConnState::Disconnected;
        self.client_id = None;
        self.open = false;
        nonce
    }

    /// Whether an activity may be sent now and, if so, the nonce to send it
    /// with. Only a connection past its READY takes activities.
    pub fn set_activity(&mut self) -> (r: Option<String>)
        requires
            old(self).wf(),
            old(self).spec_state() == ConnState::Connected ==> old(self).sent() < u64::MAX,
        ensures
            final(self).wf(),
            final(self).spec_state() == old(self).spec_state(),
            final(self).spec_client_id() == old(self).spec_client_id(),
            final(self).is_open() == old(self).is_open(),
            final(self).pending() == old(self).pending(),
            old(self).spec_state() == ConnState::Connected ==> {
                &&& final(self).sent() == old(self).sent() + 1
                &&& r matches Some(n) && n@ == nonce_text(final(self).sent())
            },
            old(self).spec_state() != ConnState::Connected ==> {
                &&& final(self).sent() == old(self).sent()
                &&& r is None
            },
    {
        if !self.open || self.state != ConnState::Connected {
            return None;
        }
        Some(self.next_nonce())
    }

    /// Ends the connection from this side: back to `Disconnected`, and the
    /// caller is told so.
    fn fail(&mut self, events: &mut Vec<Event>)
        requires
            old(self).wf(),
        ensures
            final(self).wf(),
            final(self).spec_state() == ConnState::Disconnected,
            final(self).spec_client_id() is None,
            !final(self).is_open(),
            final(self).sent() == old(self).sent(),
            final(self).pending() == old(self).pending(),
            event_views(final(events)@) == event_views(old(events)@).push(EventView::Closed),
    {
        self.open = false;
        self.client_id = None;
        self.state = ConnState::Disconnected;
        let ghost before = events@;
        events.push(Event::Closed);
        proof {
            assert(event_views(events@) =~= event_views(before).push(EventView::Closed));
        }
    }

    /// The pipe broke or Discord closed it.
    pub fn closed(&mut self) -> (events: Vec<Event>)
        requires
            old(self).wf(),
        ensures
            final(self).wf(),
            final(self).spec_state() == ConnState::Disconnected,
            final(self).spec_client_id() is None,
            !final(self).is_open(),
            final(self).sent() == old(self).sent(),
            final(self).pending() == old(self).pending(),
            event_views(events@) == seq![EventView::Closed],
    {
        let mut events: Vec<Event> = Vec::new();
        self.fail(&mut events);
        proof {
            assert(event_views(Seq::<Event>::empty()) =~= Seq::<EventView>::empty());
        }
        events
    }

    /// Bytes read off the pipe.
    pub fn received(&mut self, bytes: &[u8])
        requires
            old(self).wf(),
        ensures
            final(self).wf(),
            final(self).pending() == old(self).pending() + bytes@,
            final(self).spec_state() == old(self).spec_state(),
            final(self).spec_client_id() == old(self).spec_client_id(),
            final(self).is_open() == old(self).is_open(),
            final(self).sent() == old(self).sent(),
    {
        self.decoder.push(bytes);
    }

    /// The next whole frame received. A framing violation ends the connection:
    /// the error is returned and the caller is told the connection closed.
    pub fn next_frame(&mut self) -> (r: (Result<Option<Frame>, ProtocolError>, Vec<Event>))
        requires
            old(self).wf(),
        ensures
            final(self).wf(),
            final(self).pending() == decode_step(old(self).pending()).1,
            final(self).sent() == old(self).sent(),
            match (r.0, decode_step(old(self).pending()).0) {
                (Ok(None), Ok(None)) => true,
                (Ok(Some(frame)), Ok(Some((op, body)))) => frame.opcode == op && frame.payload@ == body,
                (Err(e), Err(expected)) => e == expected,
                _ => false,
            },
            r.0 is Ok ==> {
                &&& final(self).spec_state() == old(self).spec_state()
                &&& final(self).spec_client_id() == old(self).spec_client_id()
                &&& final(self).is_open() == old(self).is_open()
                &&& r.1@.len() == 0
            },
            r.0 is Err ==> {
                &&& final(self).spec_state() == ConnState::Disconnected
                &&& final(self).spec_client_id() is None
                &&& !final(self).is_open()
                &&& event_views(r.1@) == seq![EventView::Closed]
            },
    {
        let mut events: Vec<Event> = Vec::new();
        let frame = self.decoder.next_frame();
        if frame.is_err() {
            self.fail(&mut events);
            proof {
                assert(event_views(Seq::<Event>::empty()) =~= Seq::<EventView>::empty());
            }
        }
        (frame, events)
    }

    /// What a decoded frame means. `event` is the FRAME's `evt` field and
    /// `reason` the text its rejection or close is reported with.
    pub fn on_frame(&mut self, opcode: Opcode, event: Option<&str>, reason: &str) -> (r: FrameOutcome)
        requires
            old(self).wf(),
        ensures
            final(self).wf(),
            final(self).sent() == old(self).sent(),
            final(self).pending() == old(self).pending(),
            event_views(r.events@) == frame_events(opcode, opt_str(event), reason@, old(self).spec_state()),
            r.pong == (opcode == Opcode::Ping && old(self).is_open()),
            r.stop == (opcode == Opcode::Close),
            opcode == Opcode::Close ==> {
                &&& final(self).spec_state() == ConnState::Disconnected
                &&& final(self).spec_client_id() is None
                &&& !final(self).is_open()
            },
            opcode != Opcode::Close ==> {
                &&& final(self).spec_state() == frame_state(opcode, opt_str(event), old(self).spec_state())
                &&& final(self).spec_client_id() == old(self).spec_client_id()
                &&& final(self).is_open() == old(self).is_open()
            },
    {
        let mut events: Vec<Event> = Vec::new();
        let mut pong = false;
        let mut stop = false;
        proof {
            reveal_strlit("READY");
            reveal_strlit("ERROR");
        }
        match opcode {
            Opcode::Frame => {
                let is_ready = match event {
                    Some(e) => str_eq(e, "READY"),
                    None => false,
                };
                let is_error = match event {
                    Some(e) => str_eq(e, "ERROR"),
                    None => false,
                };
                if is_ready && self.state == ConnState::Connecting {
                    self.state = ConnState::Connected;
                    events.push(Event::Ready);
                } else if is_error {
                    events.push(Event::Error(to_owned_string(reason)));
                }
            },
            // Discord expects the payload echoed back verbatim.
            Opcode::Ping => {
                pong = self.open;
            },
            Opcode::Close => {
                let mut text = to_owned_string("closed: ");
                push_str(&mut text, reason);
                events.push(Event::Error(text));
                self.fail(&mut events);
                stop = true;
            },
            Opcode::Handshake | Opcode::Pong => {},
        }
        proof {
            assert(event_views(events@) =~= frame_events(opcode, opt_str(event), reason@, old(self).spec_state()));
        }
        FrameOutcome { events, pong, stop }
    }

    /// What a decoded frame asks of the caller, read from the frame itself:
    /// its `evt` and, for a rejection or a close, the reason its body gives.
    pub fn handle_frame(&mut self, frame: &Frame) -> (r: FrameOutcome)
        requires
            old(self).wf(),
        ensures
            final(self).wf(),
            final(self).sent() == old(self).sent(),
            final(self).pending() == old(self).pending(),
            event_views(r.events@) == frame_events(
                frame.opcode,
                frame_event_of(frame.payload@),
                frame_error_of(frame.payload@),
                old(self).spec_state(),
            ),
            r.pong == (frame.opcode == Opcode::Ping && old(self).is_open()),
            r.stop == (frame.opcode == Opcode::Close),
            frame.opcode == Opcode::Close ==> {
                &&& final(self).spec_state() == ConnState::Disconnected
                &&& final(self).spec_client_id() is None
                &&& !final(self).is_open()
            },
            frame.opcode != Opcode::Close ==> {
                &&& final(self).spec_state() == frame_state(
                    frame.opcode,
                    frame_event_of(frame.payload@),
                    old(self).spec_state(),
                )
                &&& final(self).spec_client_id() == old(self).spec_client_id()
                &&& final(self).is_open() == old(self).is_open()
            },
    {
        let event = frame.event();
        let reason = frame.error_message();
        let e = match &event {
            Some(s) => Some(s.as_str()),
            None => None,
        };
        proof {
            assert(opt_str(e) == opt_string_view(event));
        }
        self.on_frame(frame.opcode, e, reason.as_str())
    }
}

/// The state after a frame other than CLOSE: a READY moves a connecting
/// client to connected, and nothing else moves it.
pub open spec fn frame_state(opcode: Opcode, event: Option<Seq<char>>, state: ConnState) -> ConnState {
    if opcode == Opcode::Frame && event == Some("READY"@) && state == ConnState::Connecting {
        ConnState::Connected
    } else {
        state
    }
}

/// What a frame is reported as: a READY that completes the handshake, a
/// rejection, or a close followed by `Closed`. A READY after the first, a
/// command reply, a PING or a PONG report nothing.
pub open spec fn frame_events(opcode: Opcode, event: Option<Seq<char>>, reason: Seq<char>, state: ConnState) -> Seq<EventView> {
    match opcode {
        Opcode::Frame => if event == Some("READY"@) && state == ConnState::Connecting {
            seq![EventView::Ready]
        } else if event == Some("ERROR"@) {
            seq![EventView::Error(reason)]
        } else {
            Seq::empty()
        },
        Opcode::Close => seq![EventView::Error("closed: "@ + reason), EventView::Closed],
        _ => Seq::empty(),
    }
}

} // verus!
