//! One child and the sessions that share it.
//!
//! The proxy decides what goes where; reading and writing are left to its
//! caller. `S` is the sending end of a session's stream, and `W` is what wakes
//! a caller that waits for the answer to one request.

use std::collections::HashMap;

use vstd::prelude::*;

use crate::child::stdin_closed;
use crate::config::McpEntry;
use crate::error::{ProxyError, Result};
use crate::json::{
    json_text, member, raw_name, reads_back, text_json, unsigned, with_member, Json, JsonV,
};
use crate::jsonrpc::{
    answers, inbound, is_request, numbers_below_next, numbers_until, outbound, IdMux, Inbound,
    InboundV, MuxV, Outbound, OutboundV,
};
use crate::session::SessionRegistry;
use crate::table::Table;

verus! {

/// One child, and who listens to it.
pub struct ChildProxy<S, W> {
    pub id: String,
    sessions: SessionRegistry<S>,
    mux: IdMux,
    pending_requests: HashMap<u64, W>,
    active_sessions: Table<()>,
    pub is_http: bool,
}

/// What a `ChildProxy` is: the streams by session id, the open requests, the callers that wait
/// for the answer to a number, and the ids of the sessions that may speak.
#[verifier::ext_equal]
pub struct ProxyV<S, W> {
    pub id: Seq<char>,
    pub sessions: Map<Seq<char>, S>,
    pub mux: MuxV,
    pub waiting: Map<u64, W>,
    pub active: Set<Seq<char>>,
    pub is_http: bool,
}

impl<S, W> View for ChildProxy<S, W> {
    type V = ProxyV<S, W>;

    closed spec fn view(&self) -> ProxyV<S, W> {
        ProxyV {
            id: self.id@,
            sessions: self.sessions@,
            mux: self.mux@,
            waiting: self.pending_requests@,
            active: self.active_sessions@.dom(),
            is_http: self.is_http,
        }
    }
}

/// How the child behind a proxy is to be started.
#[derive(Debug)]
pub enum Launch<'a> {
    /// Nothing is started: each line is posted to `url`.
    Http { url: &'a String },
    /// A process is started; each line goes to its standard input.
    Stdio {
        program: &'a String,
        args: &'a Vec<String>,
        env: &'a Table<String>,
        cwd: &'a Option<String>,
    },
}

/// What is to be written for a message whose answer a caller waits for.
#[derive(Debug)]
pub enum Dispatch {
    /// Write `line`, and then wait for the answer to `outbound_id`.
    Request { outbound_id: u64, line: String },
    /// Write `line`; there will be no answer.
    Passthrough { line: String },
}

/// Who gets what for a message of the child.
#[derive(Debug)]
pub enum Delivery<W> {
    /// The line was no JSON text.
    NotJson,
    /// The caller that waits gets its answer.
    Answer { waiter: W, payload: Json },
    /// The caller that waits gets no answer: nobody knows its request any more.
    HangUp { waiter: W },
    /// One session gets `text` on its stream, if it has one.
    Session { session_id: String, text: String },
    /// Every session gets `text` on its stream.
    AllSessions { text: String },
    /// A response to nothing that is open: it goes to nobody.
    Unmapped(Json),
    /// Nobody waits for this.
    Nobody,
}

/// What a `Delivery` is.
pub enum DeliveryV<W> {
    NotJson,
    Answer { waiter: W, payload: JsonV },
    HangUp { waiter: W },
    Session { session_id: Seq<char>, text: Seq<char> },
    AllSessions { text: Seq<char> },
    Unmapped(JsonV),
    Nobody,
}

impl<W> View for Delivery<W> {
    type V = DeliveryV<W>;

    open spec fn view(&self) -> DeliveryV<W> {
        match *self {
            Delivery::NotJson => DeliveryV::NotJson,
            Delivery::Answer { waiter, payload } => DeliveryV::Answer { waiter, payload: payload@ },
            Delivery::HangUp { waiter } => DeliveryV::HangUp { waiter },
            Delivery::Session { session_id, text } => DeliveryV::Session {
                session_id: session_id@,
                text: text@,
            },
            Delivery::AllSessions { text } => DeliveryV::AllSessions { text: text@ },
            Delivery::Unmapped(payload) => DeliveryV::Unmapped(payload@),
            Delivery::Nobody => DeliveryV::Nobody,
        }
    }
}

/// A message for an HTTP endpoint, and the number of the request that it is.
#[derive(Debug)]
pub struct HttpPost {
    pub body: Json,
    pub outbound_id: Option<u64>,
}

impl HttpPost {
    /// The message `body`: it is the request whose number is its id.
    pub fn new(body: Json) -> (post: Self)
        ensures
            post.body@ == body@,
            post.outbound_id == unsigned(member(body@, "id"@)),
    {
        let outbound_id: Option<u64> = match body.get("id") {
            Some(id) => id.as_u64(),
            None => None,
        };
        HttpPost { body, outbound_id }
    }

    /// Reads a line that is to be posted; one that is no JSON text is not.
    pub fn read(line: &str) -> (post: Option<Self>)
        ensures
            (match post {
                Some(p) => text_json(line@) == Some(p.body@) && p.outbound_id == unsigned(
                    member(p.body@, "id"@),
                ),
                None => text_json(line@) is None,
            }),
    {
        match Json::parse(line) {
            Some(body) => Some(HttpPost::new(body)),
            None => None,
        }
    }
}

/// What becomes of a message of the child. What it says of its own accord goes to every session.
/// Anything else is for the caller that waits for its number, and where none waits for the
/// session that asked.
pub open spec fn routed<S, W>(proxy: ProxyV<S, W>, message: JsonV) -> (
    ProxyV<S, W>,
    DeliveryV<W>,
) {
    let (mux, out) = outbound(proxy.mux, message);
    if out is Broadcast {
        (proxy, DeliveryV::AllSessions { text: json_text(message) })
    } else {
        match unsigned(member(message, "id"@)) {
            Some(n) if proxy.waiting.contains_key(n) => answered(proxy, n, message),
            _ => (
                ProxyV { mux, ..proxy },
                match out {
                    OutboundV::RoutedResponse { session_id, payload } => DeliveryV::Session {
                        session_id,
                        text: json_text(payload),
                    },
                    _ => DeliveryV::Unmapped(message),
                },
            ),
        }
    }
}

/// What the caller that waits for `n` gets for `message`.
pub open spec fn answered<S, W>(proxy: ProxyV<S, W>, n: u64, message: JsonV) -> (
    ProxyV<S, W>,
    DeliveryV<W>,
) {
    let (mux, out) = outbound(proxy.mux, message);
    (
        ProxyV { mux, waiting: proxy.waiting.remove(n), ..proxy },
        match out {
            OutboundV::RoutedResponse { payload, .. } => DeliveryV::Answer {
                waiter: proxy.waiting[n],
                payload,
            },
            _ => DeliveryV::HangUp { waiter: proxy.waiting[n] },
        },
    )
}

/// What becomes of an HTTP endpoint's reply to the request `outbound_id`: the caller that waits
/// for it gets the body of a reply that tells success.
pub open spec fn http_answered<S, W>(
    proxy: ProxyV<S, W>,
    outbound_id: Option<u64>,
    status: u16,
    body: Option<JsonV>,
) -> (ProxyV<S, W>, DeliveryV<W>) {
    match (outbound_id, body) {
        (Some(n), Some(message)) if 200 <= status < 300 && proxy.waiting.contains_key(n) => answered(
            proxy,
            n,
            message,
        ),
        _ => (proxy, DeliveryV::Nobody),
    }
}

/// The proxy after session `session` has sent `payload`.
pub open spec fn sent<S, W>(proxy: ProxyV<S, W>, session: Seq<char>, payload: JsonV) -> ProxyV<
    S,
    W,
> {
    ProxyV { mux: inbound(proxy.mux, session, payload).0, ..proxy }
}

/// What goes to the child when session `session` sends `payload`.
pub open spec fn sent_payload<S, W>(
    proxy: ProxyV<S, W>,
    session: Seq<char>,
    payload: JsonV,
) -> JsonV {
    match inbound(proxy.mux, session, payload).1 {
        InboundV::Request { payload, .. } => payload,
        InboundV::Passthrough(payload) => payload,
    }
}

/// The proxy after its child has exited.
pub open spec fn exited<S, W>(proxy: ProxyV<S, W>) -> ProxyV<S, W> {
    ProxyV {
        mux: MuxV { next: proxy.mux.next, pending: Map::empty() },
        waiting: Map::empty(),
        ..proxy
    }
}

/// `line` holds the message `payload` and nothing else, in one line, and can be read back.
pub open spec fn is_line(line: Seq<char>, payload: JsonV) -> bool {
    &&& line == json_text(payload)
    &&& !line.contains('\n')
    &&& reads_back(payload, text_json(line))
}

/// What sessions hear for a message of the child is one line that can be read back: the message
/// itself, or the answer under the id that was asked with.
pub open spec fn heard_in_lines<S, W>(
    delivery: DeliveryV<W>,
    proxy: ProxyV<S, W>,
    message: JsonV,
) -> bool {
    match delivery {
        DeliveryV::AllSessions { text } => is_line(text, message),
        DeliveryV::Session { text, .. } => outbound(proxy.mux, message).1 matches
            OutboundV::RoutedResponse { payload, .. } && is_line(text, payload),
        _ => true,
    }
}

/// The proxy after session `session` has sent `payload` and its caller waits.
pub open spec fn after_request<S, W>(
    proxy: ProxyV<S, W>,
    session: Seq<char>,
    payload: JsonV,
    waiter: W,
) -> ProxyV<S, W> {
    if is_request(payload) {
        ProxyV {
            waiting: proxy.waiting.insert(proxy.mux.next, waiter),
            ..sent(proxy, session, payload)
        }
    } else {
        proxy
    }
}

/// `dispatch` is what is to be written when session `session` sends `payload` and its caller
/// waits. Whoever reads the line of a request finds its number in it.
pub open spec fn dispatches<S, W>(
    dispatch: Dispatch,
    proxy: ProxyV<S, W>,
    session: Seq<char>,
    payload: JsonV,
) -> bool {
    let message = sent_payload(proxy, session, payload);
    match dispatch {
        Dispatch::Request { outbound_id, line } => {
            &&& is_request(payload)
            &&& outbound_id == proxy.mux.next
            &&& is_line(line@, message)
            &&& text_json(line@) matches Some(read) ==> member(read, "id"@) == Some(
                JsonV::Unsigned(outbound_id),
            )
        },
        Dispatch::Passthrough { line } => !is_request(payload) && is_line(line@, message),
    }
}

impl<S, W> ChildProxy<S, W> {
    /// A proxy without sessions, and how to start what stands behind it.
    pub fn spawn<'a>(id: &str, entry: &'a McpEntry) -> (r: (Self, Launch<'a>))
        ensures
            r.0@ == (ProxyV {
                id: id@,
                sessions: Map::<Seq<char>, S>::empty(),
                mux: MuxV { next: 1, pending: Map::empty() },
                waiting: Map::<u64, W>::empty(),
                active: Set::empty(),
                is_http: entry.is_http,
            }),
            numbers_in_order(r.0@),
            r.1 == (if entry.is_http {
                Launch::Http { url: &entry.command }
            } else {
                Launch::Stdio {
                    program: &entry.command,
                    args: &entry.args,
                    env: &entry.env,
                    cwd: &entry.cwd,
                }
            }),
    {
        let proxy = ChildProxy {
            id: id.to_owned(),
            sessions: SessionRegistry::new(),
            mux: IdMux::new(),
            pending_requests: HashMap::new(),
            active_sessions: Table::new(),
            is_http: entry.is_http,
        };
        assert(proxy@.active =~= Set::empty());
        let launch = if entry.is_http {
            Launch::Http { url: &entry.command }
        } else {
            Launch::Stdio {
                program: &entry.command,
                args: &entry.args,
                env: &entry.env,
                cwd: &entry.cwd,
            }
        };
        (proxy, launch)
    }

    /// Gives a session its stream; from then on it may speak.
    pub fn register_session(&mut self, session_id: String, tx: S)
        ensures
            final(self)@ == (ProxyV {
                sessions: old(self)@.sessions.insert(session_id@, tx),
                active: old(self)@.active.insert(session_id@),
                ..old(self)@
            }),
    {
        self.add_active_session(session_id.clone());
        self.sessions.register(session_id, tx);
    }

    /// Takes a session's stream away.
    pub fn drop_session(&mut self, session_id: &str)
        ensures
            final(self)@ == (ProxyV {
                sessions: old(self)@.sessions.remove(session_id@),
                ..old(self)@
            }),
    {
        self.sessions.remove(session_id);
    }

    /// Lets a session speak.
    pub fn add_active_session(&mut self, session_id: String)
        ensures
            final(self)@ == (ProxyV {
                active: old(self)@.active.insert(session_id@),
                ..old(self)@
            }),
    {
        let _ = self.active_sessions.insert(session_id, ());
        assert(self@.active =~= old(self)@.active.insert(session_id@));
    }

    /// Lets a session speak no more, unless it has a stream.
    pub fn drop_active_session(&mut self, session_id: &str)
        ensures
            final(self)@ == (ProxyV {
                active: old(self)@.active.remove(session_id@),
                ..old(self)@
            }),
    {
        let _ = self.active_sessions.remove(session_id);
        assert(self@.active =~= old(self)@.active.remove(session_id@));
    }

    /// Whether a session may speak.
    pub fn has_active_session(&self, session_id: &str) -> (r: bool)
        ensures
            r == (self@.active.contains(session_id@) || self@.sessions.contains_key(session_id@)),
    {
        self.active_sessions.contains_key(session_id) || self.sessions.get(session_id).is_some()
    }

    /// Takes a message from a session whose caller waits for the answer. The answer to a request
    /// wakes `waiter`.
    pub fn send_request_from_session(
        &mut self,
        session_id: &str,
        payload: Json,
        waiter: W,
    ) -> (dispatch: Dispatch)
        ensures
            final(self)@ == after_request(old(self)@, session_id@, payload@, waiter),
            dispatches(dispatch, old(self)@, session_id@, payload@),
    {
        broadcast use vstd::std_specs::hash::group_hash_axioms;

        match self.mux.rewrite_inbound(session_id, payload) {
            Inbound::Request { original_id: _, outbound_id, payload } => {
                let _ = self.pending_requests.insert(outbound_id, waiter);
                proof {
                    reveal_strlit("id");
                    reveal_strlit("$serde_json::private::RawValue");
                    assert("id"@.len() != raw_name().len());
                    assert(payload@->Object_0.dom().contains("id"@));
                }
                Dispatch::Request { outbound_id, line: payload.to_text() }
            },
            Inbound::Passthrough(payload) => Dispatch::Passthrough { line: payload.to_text() },
        }
    }

    /// Tells the proxy whether the line of the request `outbound_id` could be written. If not,
    /// nobody waits for its answer any more.
    pub fn request_written(&mut self, outbound_id: u64, written: bool) -> (r: Result<()>)
        ensures
            written ==> r is Ok && final(self)@ == old(self)@,
            !written ==> {
                &&& r matches Err(ProxyError::ChildExited { id, reason }) && id@ == old(self)@.id
                    && reason@ == "stdin channel closed"@
                &&& final(self)@ == (ProxyV {
                    waiting: old(self)@.waiting.remove(outbound_id),
                    ..old(self)@
                })
            },
    {
        broadcast use vstd::std_specs::hash::group_hash_axioms;

        if written {
            return Ok(());
        }
        let _ = self.pending_requests.remove(&outbound_id);
        assert(self@.waiting =~= old(self)@.waiting.remove(outbound_id));
        Err(stdin_closed(self.id.as_str()))
    }

    /// What the caller of a request gets: the answer that woke it, or an error where it was let
    /// go without one.
    pub fn request_answered(&self, answer: Option<Json>) -> (r: Result<Json>)
        ensures
            (match answer {
                Some(payload) => r matches Ok(p) && p@ == payload@,
                None => r matches Err(ProxyError::ChildExited { id, reason }) && id@ == self@.id
                    && reason@ == "oneshot receiver hung up (child exited?)"@,
            }),
    {
        match answer {
            Some(payload) => Ok(payload),
            None => Err(
                ProxyError::ChildExited {
                    id: self.id.clone(),
                    reason: "oneshot receiver hung up (child exited?)".to_owned(),
                },
            ),
        }
    }

    /// What the caller of a message gets that has no answer.
    pub fn unanswered() -> (r: Json)
        ensures
            r@ == JsonV::Null,
    {
        Json::Null
    }

    /// The child has exited: nobody will answer what is open, so the callers that wait are let
    /// go. The sessions stay. Returns whether any has a stream, so that the child is to be
    /// started again.
    pub fn child_exited(&mut self) -> (attached: bool)
        ensures
            final(self)@ == exited(old(self)@),
            attached == (old(self)@.sessions != Map::<Seq<char>, S>::empty()),
    {
        broadcast use vstd::std_specs::hash::group_hash_axioms;

        self.mux.close_all();
        self.pending_requests.clear();
        assert(self@.waiting =~= Map::empty());
        !self.sessions.is_empty()
    }

    /// Takes a message from a session whose answers come on its stream. The line is for the
    /// child.
    pub fn send_from_session(&mut self, session_id: &str, payload: Json) -> (line: String)
        ensures
            final(self)@ == sent(old(self)@, session_id@, payload@),
            is_line(line@, sent_payload(old(self)@, session_id@, payload@)),
    {
        match self.mux.rewrite_inbound(session_id, payload) {
            Inbound::Request { original_id: _, outbound_id: _, payload } => payload.to_text(),
            Inbound::Passthrough(payload) => payload.to_text(),
        }
    }

    /// How many sessions have a stream.
    pub fn session_count(&self) -> (n: usize)
        ensures
            n == self@.sessions.len(),
            self@.sessions.dom().finite(),
    {
        self.sessions.len()
    }

    /// Takes a line that the child wrote.
    pub fn child_line(&mut self, line: &str) -> (delivery: Delivery<W>)
        ensures
            (final(self)@, delivery@) == (match text_json(line@) {
                Some(message) => routed(old(self)@, message),
                None => (old(self)@, DeliveryV::NotJson),
            }),
            text_json(line@) matches Some(message) ==> heard_in_lines(
                delivery@,
                old(self)@,
                message,
            ),
    {
        match Json::parse(line) {
            Some(message) => self.route_message(message),
            None => Delivery::NotJson,
        }
    }

    /// Takes a message of the child.
    pub fn route_message(&mut self, message: Json) -> (delivery: Delivery<W>)
        ensures
            (final(self)@, delivery@) == routed(old(self)@, message@),
            heard_in_lines(delivery@, old(self)@, message@),
    {
        broadcast use vstd::std_specs::hash::group_hash_axioms;

        let number: Option<u64> = match message.get("id") {
            Some(id) => id.as_u64(),
            None => None,
        };
        if message.get("method").is_none() {
            if let Some(n) = number {
                if let Some(waiter) = self.pending_requests.remove(&n) {
                    assert(self@.waiting =~= old(self)@.waiting.remove(n));
                    return self.answer(waiter, message);
                }
                assert(self@.waiting =~= old(self)@.waiting);
            }
        }
        match self.mux.classify_outbound(message) {
            Outbound::RoutedResponse { session_id, payload } => Delivery::Session {
                session_id,
                text: payload.to_text(),
            },
            Outbound::Broadcast(payload) => Delivery::AllSessions { text: payload.to_text() },
            Outbound::UnknownResponse(payload) => Delivery::Unmapped(payload),
        }
    }

    /// What `waiter` gets for `message`.
    fn answer(&mut self, waiter: W, message: Json) -> (delivery: Delivery<W>)
        ensures
            final(self)@ == (ProxyV { mux: outbound(old(self)@.mux, message@).0, ..old(self)@ }),
            delivery@ == (match outbound(old(self)@.mux, message@).1 {
                OutboundV::RoutedResponse { payload, .. } => DeliveryV::Answer { waiter, payload },
                _ => DeliveryV::HangUp { waiter },
            }),
    {
        match self.mux.classify_outbound(message) {
            Outbound::RoutedResponse { session_id: _, payload } => Delivery::Answer {
                waiter,
                payload,
            },
            _ => Delivery::HangUp { waiter },
        }
    }

    /// The streams that get a delivery.
    pub fn recipients(&self, delivery: &Delivery<W>) -> (to: Vec<&S>)
        ensures
            (match delivery@ {
                DeliveryV::Session { session_id, .. } => if self@.sessions.contains_key(
                    session_id,
                ) {
                    to@ == seq![&self@.sessions[session_id]]
                } else {
                    to@.len() == 0
                },
                DeliveryV::AllSessions { .. } => exists|ids: Seq<Seq<char>>|
                    {
                        &&& #[trigger] ids.no_duplicates()
                        &&& ids.to_set() == self@.sessions.dom()
                        &&& to@ == ids.map_values(|id: Seq<char>| &self@.sessions[id])
                    },
                _ => to@.len() == 0,
            }),
    {
        match delivery {
            Delivery::Session { session_id, text: _ } => {
                let mut to: Vec<&S> = Vec::new();
                if let Some(tx) = self.sessions.get(session_id.as_str()) {
                    to.push(tx);
                }
                to
            },
            Delivery::AllSessions { text: _ } => {
                let to: Vec<&S> = self.sessions.all();
                proof {
                    let ids = self.sessions.ids();
                    assert(ids.no_duplicates());
                    assert(to@ =~= ids.map_values(|id: Seq<char>| &self@.sessions[id]));
                }
                to
            },
            _ => Vec::new(),
        }
    }

    /// Takes an HTTP endpoint's reply: its status, and its body where that is a JSON text.
    pub fn http_reply(
        &mut self,
        outbound_id: Option<u64>,
        status: u16,
        body: Option<Json>,
    ) -> (delivery: Delivery<W>)
        ensures
            (final(self)@, delivery@) == http_answered(
                old(self)@,
                outbound_id,
                status,
                match body {
                    Some(b) => Some(b@),
                    None => None,
                },
            ),
    {
        broadcast use vstd::std_specs::hash::group_hash_axioms;

        if status < 200 || status >= 300 {
            return Delivery::Nobody;
        }
        match (outbound_id, body) {
            (Some(n), Some(message)) => match self.pending_requests.remove(&n) {
                Some(waiter) => {
                    assert(self@.waiting =~= old(self)@.waiting.remove(n));
                    self.answer(waiter, message)
                },
                None => {
                    assert(self@.waiting =~= old(self)@.waiting);
                    Delivery::Nobody
                },
            },
            _ => Delivery::Nobody,
        }
    }
}

/// Every number that is open or waited for lies below the next one.
pub open spec fn numbers_in_order<S, W>(proxy: ProxyV<S, W>) -> bool {
    &&& numbers_below_next(proxy.mux)
    &&& forall|n: u64| #[trigger] proxy.waiting.contains_key(n) ==> n < proxy.mux.next
}

/// Something that happens to a proxy.
pub enum Event<S, W> {
    Registered { session: Seq<char>, tx: S },
    Dropped { session: Seq<char> },
    Activated { session: Seq<char> },
    Deactivated { session: Seq<char> },
    Sent { session: Seq<char>, payload: JsonV },
    SentAndWaits { session: Seq<char>, payload: JsonV, waiter: W },
    NotWritten { number: u64 },
    ChildSaid { message: JsonV },
    HttpReplied { outbound_id: Option<u64>, status: u16, body: Option<JsonV> },
    ChildExited,
}

/// The proxy after an event.
pub open spec fn after_event<S, W>(proxy: ProxyV<S, W>, event: Event<S, W>) -> ProxyV<S, W> {
    match event {
        Event::Registered { session, tx } => ProxyV {
            sessions: proxy.sessions.insert(session, tx),
            active: proxy.active.insert(session),
            ..proxy
        },
        Event::Dropped { session } => ProxyV { sessions: proxy.sessions.remove(session), ..proxy },
        Event::Activated { session } => ProxyV { active: proxy.active.insert(session), ..proxy },
        Event::Deactivated { session } => ProxyV { active: proxy.active.remove(session), ..proxy },
        Event::Sent { session, payload } => sent(proxy, session, payload),
        Event::SentAndWaits { session, payload, waiter } => after_request(
            proxy,
            session,
            payload,
            waiter,
        ),
        Event::NotWritten { number } => ProxyV {
            waiting: proxy.waiting.remove(number),
            ..proxy
        },
        Event::ChildSaid { message } => routed(proxy, message).0,
        Event::HttpReplied { outbound_id, status, body } => http_answered(
            proxy,
            outbound_id,
            status,
            body,
        ).0,
        Event::ChildExited => exited(proxy),
    }
}

/// The proxy after a run of events.
pub open spec fn after_events<S, W>(proxy: ProxyV<S, W>, events: Seq<Event<S, W>>) -> ProxyV<S, W>
    decreases events.len(),
{
    if events.len() == 0 {
        proxy
    } else {
        after_event(after_events(proxy, events.drop_last()), events.last())
    }
}

/// An event that ends the request `n`: the child answers it or exits, it could not be written, or
/// an HTTP endpoint tells success to it or in its number.
pub open spec fn ends<S, W>(event: Event<S, W>, n: u64) -> bool {
    match event {
        Event::ChildSaid { message } => answers(message, n),
        Event::NotWritten { number } => number == n,
        Event::HttpReplied { outbound_id: Some(number), status, body: Some(message) } => {
            &&& 200 <= status < 300
            &&& number == n || answers(message, n)
        },
        Event::ChildExited => true,
        _ => false,
    }
}

/// Whether an event is a request of a session.
pub open spec fn asks<S, W>(event: Event<S, W>) -> bool {
    match event {
        Event::Sent { payload, .. } => is_request(payload),
        Event::SentAndWaits { payload, .. } => is_request(payload),
        _ => false,
    }
}

/// How many of the events are requests of sessions.
pub open spec fn requested<S, W>(events: Seq<Event<S, W>>) -> nat
    decreases events.len(),
{
    if events.len() == 0 {
        0
    } else if asks(events.last()) {
        requested(events.drop_last()) + 1
    } else {
        requested(events.drop_last())
    }
}

/// Whatever happens, numbers are given out in turn and stay in order until they run out; then
/// the next one is neither open nor waited for.
pub proof fn law_numbers_stay_in_order<S, W>(proxy: ProxyV<S, W>, events: Seq<Event<S, W>>)
    requires
        numbers_in_order(proxy),
        proxy.mux.next + requested(events) <= u64::MAX,
    ensures
        ({
            let last = after_events(proxy, events);
            &&& numbers_in_order(last)
            &&& last.mux.next == proxy.mux.next + requested(events)
            &&& !last.mux.pending.contains_key(last.mux.next)
            &&& !last.waiting.contains_key(last.mux.next)
        }),
    decreases events.len(),
{
    if events.len() > 0 {
        law_numbers_stay_in_order(proxy, events.drop_last());
    }
}

/// A request that is open stays open, with its session, its id and the caller that waits for it,
/// until an event ends it or so many requests follow that one takes the same number again.
pub proof fn law_open_request_stays<S, W>(proxy: ProxyV<S, W>, events: Seq<Event<S, W>>, n: u64)
    requires
        proxy.mux.pending.contains_key(n),
        requested(events) <= numbers_until(proxy.mux.next, n),
        forall|i: int| 0 <= i < events.len() ==> !ends(#[trigger] events[i], n),
    ensures
        ({
            let last = after_events(proxy, events);
            &&& last.mux.pending.contains_key(n)
            &&& last.mux.pending[n] == proxy.mux.pending[n]
            &&& last.waiting.contains_key(n) == proxy.waiting.contains_key(n)
            &&& proxy.waiting.contains_key(n) ==> last.waiting[n] == proxy.waiting[n]
            &&& numbers_until(last.mux.next, n) == numbers_until(proxy.mux.next, n) - requested(
                events,
            )
        }),
    decreases events.len(),
{
    if events.len() > 0 {
        let before = events.drop_last();
        assert forall|i: int| 0 <= i < before.len() implies !ends(#[trigger] before[i], n) by {
            assert(before[i] == events[i]);
        }
        law_open_request_stays(proxy, before, n);
        assert(!ends(events[events.len() - 1], n));
    }
}

/// The answer to a request that a session sent goes to that session's stream and to nobody else,
/// under the id that the session sent, whatever happens in between. Nobody waits for the number
/// when the request takes it.
pub proof fn law_answer_goes_to_the_session_that_asked<S, W>(
    proxy: ProxyV<S, W>,
    session: Seq<char>,
    request: JsonV,
    events: Seq<Event<S, W>>,
    answer: JsonV,
)
    requires
        !proxy.waiting.contains_key(proxy.mux.next),
        is_request(request),
        requested(events) <= u64::MAX,
        forall|i: int| 0 <= i < events.len() ==> !ends(#[trigger] events[i], proxy.mux.next),
        answers(answer, proxy.mux.next),
    ensures
        ({
            let later = after_events(sent(proxy, session, request), events);
            routed(later, answer).1 == DeliveryV::<W>::Session {
                session_id: session,
                text: json_text(
                    with_member(answer, "id"@, member(request, "id"@)->Some_0),
                ),
            }
        }),
{
    law_open_request_stays(sent(proxy, session, request), events, proxy.mux.next);
}

/// The answer to a request whose caller waits wakes that caller, under the id that the caller
/// sent, whatever happens in between; and then nobody waits for it any more.
pub proof fn law_answer_wakes_the_caller_that_waits<S, W>(
    proxy: ProxyV<S, W>,
    session: Seq<char>,
    request: JsonV,
    waiter: W,
    events: Seq<Event<S, W>>,
    answer: JsonV,
)
    requires
        is_request(request),
        requested(events) <= u64::MAX,
        forall|i: int| 0 <= i < events.len() ==> !ends(#[trigger] events[i], proxy.mux.next),
        answers(answer, proxy.mux.next),
    ensures
        ({
            let later = after_events(after_request(proxy, session, request, waiter), events);
            let (last, delivery) = routed(later, answer);
            &&& delivery == (DeliveryV::Answer {
                waiter,
                payload: with_member(answer, "id"@, member(request, "id"@)->Some_0),
            })
            &&& !last.waiting.contains_key(proxy.mux.next)
            &&& !last.mux.pending.contains_key(proxy.mux.next)
        }),
{
    law_open_request_stays(
        after_request(proxy, session, request, waiter),
        events,
        proxy.mux.next,
    );
}

/// The success of an HTTP endpoint wakes the caller that waits, under the id that it sent,
/// whatever happens in between.
pub proof fn law_http_reply_wakes_the_caller_that_waits<S, W>(
    proxy: ProxyV<S, W>,
    session: Seq<char>,
    request: JsonV,
    waiter: W,
    events: Seq<Event<S, W>>,
    status: u16,
    answer: JsonV,
)
    requires
        is_request(request),
        requested(events) <= u64::MAX,
        forall|i: int| 0 <= i < events.len() ==> !ends(#[trigger] events[i], proxy.mux.next),
        200 <= status < 300,
        answers(answer, proxy.mux.next),
    ensures
        ({
            let later = after_events(after_request(proxy, session, request, waiter), events);
            http_answered(later, Some(proxy.mux.next), status, Some(answer)).1
                == (DeliveryV::Answer {
                waiter,
                payload: with_member(answer, "id"@, member(request, "id"@)->Some_0),
            })
        }),
{
    law_open_request_stays(
        after_request(proxy, session, request, waiter),
        events,
        proxy.mux.next,
    );
}

/// A number that is neither open nor waited for stays so until a request takes it again.
proof fn lemma_closed_number_stays<S, W>(proxy: ProxyV<S, W>, events: Seq<Event<S, W>>, n: u64)
    requires
        !proxy.mux.pending.contains_key(n),
        !proxy.waiting.contains_key(n),
        requested(events) <= numbers_until(proxy.mux.next, n),
    ensures
        ({
            let last = after_events(proxy, events);
            &&& !last.mux.pending.contains_key(n)
            &&& !last.waiting.contains_key(n)
            &&& numbers_until(last.mux.next, n) == numbers_until(proxy.mux.next, n) - requested(
                events,
            )
        }),
    decreases events.len(),
{
    if events.len() > 0 {
        lemma_closed_number_stays(proxy, events.drop_last(), n);
    }
}

/// A request is answered once: whatever happens after its answer, a second answer to its number
/// goes to nobody and changes nothing, unless so many requests follow that one takes the same
/// number again.
pub proof fn law_answer_is_delivered_once<S, W>(
    proxy: ProxyV<S, W>,
    answer: JsonV,
    events: Seq<Event<S, W>>,
    again: JsonV,
    n: u64,
)
    requires
        answers(answer, n),
        answers(again, n),
        requested(events) <= numbers_until(proxy.mux.next, n),
    ensures
        ({
            let later = after_events(routed(proxy, answer).0, events);
            routed(later, again) == (later, DeliveryV::<W>::Unmapped(again))
        }),
{
    lemma_closed_number_stays(routed(proxy, answer).0, events, n);
}

/// The sessions outlast the child: after it has exited they have their streams and may speak as
/// before, nothing that it had been asked is open or waited for, and the next request gets the
/// next number.
pub proof fn law_sessions_outlast_the_child<S, W>(proxy: ProxyV<S, W>, n: u64)
    ensures
        exited(proxy).sessions == proxy.sessions,
        exited(proxy).active == proxy.active,
        exited(proxy).mux.next == proxy.mux.next,
        !exited(proxy).mux.pending.contains_key(n),
        !exited(proxy).waiting.contains_key(n),
{
}

/// What the child says of its own accord goes to every session as it is, even under an id for
/// which a caller waits; and it leaves everything as it was.
pub proof fn law_every_session_hears_the_child<S, W>(proxy: ProxyV<S, W>, message: JsonV)
    requires
        member(message, "method"@) is Some,
    ensures
        routed(proxy, message) == (
            proxy,
            DeliveryV::<W>::AllSessions { text: json_text(message) },
        ),
{
}

/// A session that has a stream may speak. It may still speak when the stream is gone, and no
/// more once it is let go altogether.
pub proof fn law_sessions_speak_until_let_go<S, W>(proxy: ProxyV<S, W>, session: Seq<char>, tx: S)
    ensures
        ({
            let opened = after_event(proxy, Event::Registered { session, tx });
            let dropped = after_event(opened, Event::Dropped { session });
            let gone = after_event(dropped, Event::Deactivated { session });
            &&& opened.sessions.contains_key(session) && opened.sessions[session] == tx
            &&& dropped.active.contains(session) && !dropped.sessions.contains_key(session)
            &&& !gone.active.contains(session) && !gone.sessions.contains_key(session)
        }),
{
}

/// What goes to the child is what the session sent. A message that is no request goes as it is; of
/// a request every member but the id does, and the id is the next number.
pub proof fn law_the_child_gets_what_the_session_sent<S, W>(
    proxy: ProxyV<S, W>,
    session: Seq<char>,
    payload: JsonV,
    members: Map<Seq<char>, JsonV>,
    name: Seq<char>,
)
    ensures
        !is_request(payload) ==> sent_payload(proxy, session, payload) == payload,
        members.contains_key("method"@) && members.contains_key("id"@) && members["id"@]
            != JsonV::Null ==> {
            let out = sent_payload(proxy, session, JsonV::Object(members));
            &&& out matches JsonV::Object(m) && m == members.insert(
                "id"@,
                JsonV::Unsigned(proxy.mux.next),
            )
            &&& name != "id"@ ==> member(out, name) == (if members.contains_key(name) {
                Some(members[name])
            } else {
                None
            })
            &&& member(out, "id"@) == Some(JsonV::Unsigned(proxy.mux.next))
        },
        (payload matches JsonV::Object(m) ==> !m.contains_key("method"@) || !m.contains_key("id"@)
            || m["id"@] == JsonV::Null) ==> sent_payload(proxy, session, payload) == payload,
{
}

/// Sending touches nothing but the open requests: a request opens the next number for its
/// session, under its id, and anything else opens nothing. Where a caller waits, it waits for
/// that number alone.
pub proof fn law_sending_opens_one_number<S, W>(
    proxy: ProxyV<S, W>,
    session: Seq<char>,
    payload: JsonV,
    waiter: W,
    members: Map<Seq<char>, JsonV>,
    n: u64,
)
    ensures
        members.contains_key("method"@) && members.contains_key("id"@) && members["id"@]
            != JsonV::Null ==> {
            let after = sent(proxy, session, JsonV::Object(members));
            let waits = after_request(proxy, session, JsonV::Object(members), waiter);
            &&& after.mux.pending == proxy.mux.pending.insert(
                proxy.mux.next,
                (session, members["id"@]),
            )
            &&& after.mux.next == (if proxy.mux.next == u64::MAX {
                0
            } else {
                proxy.mux.next + 1
            })
            &&& after.waiting == proxy.waiting
            &&& waits.mux == after.mux
            &&& waits.waiting.contains_key(proxy.mux.next)
            &&& waits.waiting[proxy.mux.next] == waiter
            &&& n != proxy.mux.next ==> waits.waiting.contains_key(n) == proxy.waiting.contains_key(
                n,
            )
            &&& n != proxy.mux.next && proxy.waiting.contains_key(n) ==> waits.waiting[n]
                == proxy.waiting[n]
        },
        (payload matches JsonV::Object(m) ==> !m.contains_key("method"@) || !m.contains_key("id"@)
            || m["id"@] == JsonV::Null) ==> sent(proxy, session, payload) == proxy && after_request(
            proxy,
            session,
            payload,
            waiter,
        ) == proxy,
        ({
            let after = sent(proxy, session, payload);
            let waits = after_request(proxy, session, payload, waiter);
            &&& after.sessions == proxy.sessions && waits.sessions == proxy.sessions
            &&& after.active == proxy.active && waits.active == proxy.active
            &&& after.id == proxy.id && waits.id == proxy.id
            &&& after.is_http == proxy.is_http && waits.is_http == proxy.is_http
            &&& after.waiting == proxy.waiting
        }),
{
}

/// Who gets an object of the child is settled by its members: one with a method goes to every
/// session; one without, whose id is a number, to the caller that waits for it, else to the
/// session that asked; and no session or caller gets anything else.
pub proof fn law_members_settle_who_gets_a_message<S, W>(
    proxy: ProxyV<S, W>,
    members: Map<Seq<char>, JsonV>,
    n: u64,
)
    ensures
        ({
            let message = JsonV::Object(members);
            let (after, delivery) = routed(proxy, message);
            let answers_n = !members.contains_key("method"@) && members.contains_key("id"@)
                && members["id"@] == JsonV::Unsigned(n);
            let open = proxy.mux.pending.contains_key(n);
            let waited = proxy.waiting.contains_key(n);
            &&& members.contains_key("method"@) ==> delivery == DeliveryV::<W>::AllSessions {
                text: json_text(message),
            } && after == proxy
            &&& answers_n && open && waited ==> delivery == (DeliveryV::Answer {
                waiter: proxy.waiting[n],
                payload: JsonV::Object(members.insert("id"@, proxy.mux.pending[n].1)),
            })
            &&& answers_n && !open && waited ==> delivery == (DeliveryV::HangUp {
                waiter: proxy.waiting[n],
            })
            &&& answers_n && open && !waited ==> delivery == (DeliveryV::<W>::Session {
                session_id: proxy.mux.pending[n].0,
                text: json_text(
                    JsonV::Object(members.insert("id"@, proxy.mux.pending[n].1)),
                ),
            })
            &&& answers_n && !open && !waited ==> delivery == DeliveryV::<W>::Unmapped(message)
                && after == proxy
            &&& answers_n ==> after.mux.pending == proxy.mux.pending.remove(n) && after.waiting
                == proxy.waiting.remove(n) && after.mux.next == proxy.mux.next
        }),
{
    let after = routed(proxy, JsonV::Object(members)).0;
    assert(proxy.mux.pending.contains_key(n) || proxy.mux.pending.remove(n)
        =~= proxy.mux.pending);
    assert(proxy.waiting.contains_key(n) || proxy.waiting.remove(n) =~= proxy.waiting);
}

/// What is no object, and an object without a method whose id is missing or no unsigned integer,
/// goes to nobody and changes nothing.
pub proof fn law_other_messages_go_to_nobody<S, W>(proxy: ProxyV<S, W>, message: JsonV)
    requires
        message matches JsonV::Object(members) ==> !members.contains_key("method"@) && (
        members.contains_key("id"@) ==> !(members["id"@] is Unsigned)),
    ensures
        routed(proxy, message) == (proxy, DeliveryV::<W>::Unmapped(message)),
{
}

/// No message of the child, and no reply of an endpoint, touches the sessions.
pub proof fn law_messages_leave_the_sessions<S, W>(
    proxy: ProxyV<S, W>,
    message: JsonV,
    outbound_id: Option<u64>,
    status: u16,
    body: Option<JsonV>,
)
    ensures
        ({
            let after = routed(proxy, message).0;
            let replied = http_answered(proxy, outbound_id, status, body).0;
            &&& after.sessions == proxy.sessions && replied.sessions == proxy.sessions
            &&& after.active == proxy.active && replied.active == proxy.active
            &&& after.id == proxy.id && replied.id == proxy.id
            &&& after.is_http == proxy.is_http && replied.is_http == proxy.is_http
            &&& after.mux.next == proxy.mux.next && replied.mux.next == proxy.mux.next
        }),
{
}

/// An endpoint's reply is for the caller that waits for the number it was posted under, and only
/// where it tells success and has a body: the caller gets the body under its own id, or is let go
/// where the body answers nothing that is open. Any other reply changes nothing.
pub proof fn law_replies_are_for_the_caller_that_waits<S, W>(
    proxy: ProxyV<S, W>,
    number: u64,
    status: u16,
    members: Map<Seq<char>, JsonV>,
    outbound_id: Option<u64>,
    body: Option<JsonV>,
    n: u64,
)
    ensures
        !(200 <= status <= 299) || outbound_id is None || body is None || !proxy.waiting.contains_key(
            outbound_id->Some_0,
        ) ==> http_answered(proxy, outbound_id, status, body) == (proxy, DeliveryV::<W>::Nobody),
        200 <= status <= 299 && proxy.waiting.contains_key(number) ==> {
            let (after, delivery) = http_answered(
                proxy,
                Some(number),
                status,
                Some(JsonV::Object(members)),
            );
            let answers_n = !members.contains_key("method"@) && members.contains_key("id"@)
                && members["id"@] == JsonV::Unsigned(n) && proxy.mux.pending.contains_key(n);
            &&& after.waiting == proxy.waiting.remove(number)
            &&& answers_n ==> delivery == (DeliveryV::Answer {
                waiter: proxy.waiting[number],
                payload: JsonV::Object(members.insert("id"@, proxy.mux.pending[n].1)),
            }) && after.mux.pending == proxy.mux.pending.remove(n)
            &&& members.contains_key("method"@) || !members.contains_key("id"@) || !(
            members["id"@] is Unsigned) || !proxy.mux.pending.contains_key(
                members["id"@]->Unsigned_0,
            ) ==> delivery == (DeliveryV::HangUp { waiter: proxy.waiting[number] })
                && after.mux.pending == proxy.mux.pending
        },
        200 <= status <= 299 && proxy.waiting.contains_key(number) && (body matches Some(b)
            && !(b is Object)) ==> http_answered(proxy, Some(number), status, body) == (
            ProxyV { waiting: proxy.waiting.remove(number), ..proxy },
            DeliveryV::HangUp { waiter: proxy.waiting[number] },
        ),
{
}

/// A line is the message's text and nothing else, without a line feed; and what is written for a
/// message is that line, under the next number where it is a request.
pub proof fn law_what_is_written_is_the_message<S, W>(
    line: Seq<char>,
    payload: JsonV,
    dispatch: Dispatch,
    proxy: ProxyV<S, W>,
    session: Seq<char>,
    members: Map<Seq<char>, JsonV>,
)
    ensures
        is_line(line, payload) ==> line == json_text(payload) && forall|i: int|
            0 <= i < line.len() ==> #[trigger] line[i] != '\n',
        dispatches(dispatch, proxy, session, JsonV::Object(members)) && members.contains_key(
            "method"@,
        ) && members.contains_key("id"@) && members["id"@] != JsonV::Null ==> (
        dispatch matches Dispatch::Request { outbound_id, line: written } && outbound_id
            == proxy.mux.next && written@ == json_text(
            JsonV::Object(members.insert("id"@, JsonV::Unsigned(proxy.mux.next))),
        )),
        dispatches(dispatch, proxy, session, payload) && (payload matches JsonV::Object(m)
            ==> !m.contains_key("method"@) || !m.contains_key("id"@) || m["id"@] == JsonV::Null)
            ==> (dispatch matches Dispatch::Passthrough { line: written } && written@ == json_text(
            payload,
        )),
{
    if is_line(line, payload) {
        assert forall|i: int| 0 <= i < line.len() implies #[trigger] line[i] != '\n' by {
            assert(line.contains(line[i]));
        }
    }
}

/// A child's end touches neither who it is nor who may speak, nor the next number.
pub proof fn law_an_exit_closes_requests_only<S, W>(proxy: ProxyV<S, W>)
    ensures
        exited(proxy) == (ProxyV {
            id: proxy.id,
            sessions: proxy.sessions,
            mux: MuxV { next: proxy.mux.next, pending: Map::empty() },
            waiting: Map::<u64, W>::empty(),
            active: proxy.active,
            is_http: proxy.is_http,
        }),
{
}

/// A delivery is told whole: no part of it is left out or changed.
pub proof fn law_deliveries_are_told_whole<W>(
    waiter: W,
    payload: Json,
    session: String,
    text: String,
)
    ensures
        (Delivery::Answer { waiter, payload })@ == (DeliveryV::Answer {
            waiter,
            payload: payload@,
        }),
        (Delivery::HangUp { waiter })@ == (DeliveryV::HangUp { waiter }),
        (Delivery::<W>::Session { session_id: session, text })@ == (DeliveryV::<W>::Session {
            session_id: session@,
            text: text@,
        }),
        (Delivery::<W>::AllSessions { text })@ == (DeliveryV::<W>::AllSessions { text: text@ }),
        Delivery::<W>::Unmapped(payload)@ == DeliveryV::<W>::Unmapped(payload@),
        Delivery::<W>::NotJson@ == DeliveryV::<W>::NotJson,
        Delivery::<W>::Nobody@ == DeliveryV::<W>::Nobody,
{
}

/// What a session hears for a message of the child is one line and no more.
pub proof fn law_what_sessions_hear_is_one_line<S, W>(
    proxy: ProxyV<S, W>,
    message: JsonV,
    delivery: DeliveryV<W>,
    i: int,
)
    requires
        heard_in_lines(delivery, proxy, message),
    ensures
        delivery matches DeliveryV::AllSessions { text } ==> (0 <= i < text.len() ==> text[i] != '\n'),
        delivery matches DeliveryV::Session { text, .. } ==> (0 <= i < text.len() ==> text[i] != '\n'),
        delivery matches DeliveryV::AllSessions { text } ==> text == json_text(message)
            && reads_back(message, text_json(text)),
{
    match delivery {
        DeliveryV::AllSessions { text } => {
            if 0 <= i < text.len() {
                assert(text.contains(text[i]));
            }
        },
        DeliveryV::Session { text, .. } => {
            if 0 <= i < text.len() {
                assert(text.contains(text[i]));
            }
        },
        _ => {},
    }
}

} // verus!
