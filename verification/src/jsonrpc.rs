//! JSON-RPC ids: many sessions share one child, and each keeps its own ids.
//!
//! A request goes to the child under a fresh number; the answer to that number
//! goes back to the session that asked, under the id that it asked with.

use std::collections::HashMap;

use vstd::prelude::*;

use crate::json::{member, unsigned, with_member, Json, JsonV};

verus! {

/// A message from a session, by the routing that it needs.
#[derive(Debug)]
pub enum Inbound {
    /// A request: it goes to the child under the number `outbound_id`.
    Request { original_id: Json, outbound_id: u64, payload: Json },
    /// A notification or a response: it goes to the child as it is.
    Passthrough(Json),
}

/// A message from the child, by the routing that it needs.
#[derive(Debug)]
pub enum Outbound {
    /// A response to a request that is still open: it goes to the session that asked.
    RoutedResponse { session_id: String, payload: Json },
    /// A response to nothing that is open.
    UnknownResponse(Json),
    /// A notification or a request of the child's own: it goes to every session.
    Broadcast(Json),
}

/// What an `Inbound` is.
pub enum InboundV {
    Request { original_id: JsonV, outbound_id: u64, payload: JsonV },
    Passthrough(JsonV),
}

/// What an `Outbound` is.
pub enum OutboundV {
    RoutedResponse { session_id: Seq<char>, payload: JsonV },
    UnknownResponse(JsonV),
    Broadcast(JsonV),
}

impl View for Inbound {
    type V = InboundV;

    open spec fn view(&self) -> InboundV {
        match *self {
            Inbound::Request { original_id, outbound_id, payload } => InboundV::Request {
                original_id: original_id@,
                outbound_id,
                payload: payload@,
            },
            Inbound::Passthrough(payload) => InboundV::Passthrough(payload@),
        }
    }
}

impl View for Outbound {
    type V = OutboundV;

    open spec fn view(&self) -> OutboundV {
        match *self {
            Outbound::RoutedResponse { session_id, payload } => OutboundV::RoutedResponse {
                session_id: session_id@,
                payload: payload@,
            },
            Outbound::UnknownResponse(payload) => OutboundV::UnknownResponse(payload@),
            Outbound::Broadcast(payload) => OutboundV::Broadcast(payload@),
        }
    }
}

/// The open requests of one child.
#[derive(Debug)]
pub struct IdMux {
    next: u64,
    pending: HashMap<u64, (String, Json)>,
}

/// What an `IdMux` is: the number of the next request, and under each number that is open the
/// session that asked and the id that it asked with.
#[verifier::ext_equal]
pub struct MuxV {
    pub next: u64,
    pub pending: Map<u64, (Seq<char>, JsonV)>,
}

impl View for IdMux {
    type V = MuxV;

    closed spec fn view(&self) -> MuxV {
        MuxV {
            next: self.next,
            pending: self.pending@.map_values(|e: (String, Json)| (e.0@, e.1@)),
        }
    }
}

/// The number after `n`; after the last one the numbers begin anew.
pub open spec fn number_after(n: u64) -> u64 {
    if n == u64::MAX {
        0
    } else {
        (n + 1) as u64
    }
}

/// A request has a method and an id that is not null.
pub open spec fn is_request(payload: JsonV) -> bool {
    &&& member(payload, "method"@) is Some
    &&& member(payload, "id"@) is Some
    &&& member(payload, "id"@) != Some(JsonV::Null)
}

/// A response has no method; `n` is the number that it answers.
pub open spec fn answers(payload: JsonV, n: u64) -> bool {
    &&& member(payload, "method"@) is None
    &&& member(payload, "id"@) == Some(JsonV::Unsigned(n))
}

/// What becomes of a message that session `session` sends to the child.
pub open spec fn inbound(mux: MuxV, session: Seq<char>, payload: JsonV) -> (MuxV, InboundV) {
    if is_request(payload) {
        let id = member(payload, "id"@)->Some_0;
        (
            MuxV {
                next: number_after(mux.next),
                pending: mux.pending.insert(mux.next, (session, id)),
            },
            InboundV::Request {
                original_id: id,
                outbound_id: mux.next,
                payload: with_member(payload, "id"@, JsonV::Unsigned(mux.next)),
            },
        )
    } else {
        (mux, InboundV::Passthrough(payload))
    }
}

/// What becomes of a message that the child sends.
pub open spec fn outbound(mux: MuxV, payload: JsonV) -> (MuxV, OutboundV) {
    if member(payload, "method"@) is Some {
        (mux, OutboundV::Broadcast(payload))
    } else {
        match unsigned(member(payload, "id"@)) {
            Some(n) => if mux.pending.contains_key(n) {
                (
                    MuxV { next: mux.next, pending: mux.pending.remove(n) },
                    OutboundV::RoutedResponse {
                        session_id: mux.pending[n].0,
                        payload: with_member(payload, "id"@, mux.pending[n].1),
                    },
                )
            } else {
                (mux, OutboundV::UnknownResponse(payload))
            },
            None => (mux, OutboundV::UnknownResponse(payload)),
        }
    }
}

impl IdMux {
    /// No request is open, and the first one gets the number one.
    pub fn new() -> (mux: Self)
        ensures
            mux@ == (MuxV { next: 1, pending: Map::empty() }),
            numbers_below_next(mux@),
    {
        let mux = IdMux { next: 1, pending: HashMap::new() };
        assert(mux@.pending =~= Map::empty());
        mux
    }

    /// Takes a message from a session: a request gets the next number.
    pub fn rewrite_inbound(&mut self, session_id: &str, payload: Json) -> (result: Inbound)
        ensures
            (final(self)@, result@) == inbound(old(self)@, session_id@, payload@),
            (match payload@ {
                JsonV::Object(members) if members.contains_key("method"@) && members.contains_key(
                    "id"@,
                ) && members["id"@] != JsonV::Null => {
                    &&& result matches Inbound::Request { original_id, outbound_id, payload: out }
                        && original_id@ == members["id"@] && outbound_id == old(self)@.next && out@
                        == JsonV::Object(members.insert("id"@, JsonV::Unsigned(outbound_id)))
                    &&& final(self)@.pending == old(self)@.pending.insert(
                        old(self)@.next,
                        (session_id@, members["id"@]),
                    )
                },
                _ => {
                    &&& result matches Inbound::Passthrough(out) && out@ == payload@
                    &&& final(self)@ == old(self)@
                },
            }),
    {
        broadcast use vstd::std_specs::hash::group_hash_axioms;

        let mut payload = payload;
        let has_method: bool = payload.get("method").is_some();
        let id: Option<Json> = match payload.get("id") {
            Some(id) => Some(id.clone()),
            None => None,
        };
        match id {
            Some(original_id) => {
                if has_method && !original_id.is_null() {
                    let outbound_id: u64 = self.next;
                    self.next = outbound_id.wrapping_add(1);
                    let _ = self.pending.insert(
                        outbound_id,
                        (session_id.to_owned(), original_id.clone()),
                    );
                    payload.set("id", Json::Unsigned(outbound_id));
                    assert(self@.pending =~= old(self)@.pending.insert(
                        outbound_id,
                        (session_id@, original_id@),
                    ));
                    Inbound::Request { original_id, outbound_id, payload }
                } else {
                    Inbound::Passthrough(payload)
                }
            },
            None => Inbound::Passthrough(payload),
        }
    }

    /// Takes a message from the child: a response to an open request closes it.
    pub fn classify_outbound(&mut self, payload: Json) -> (result: Outbound)
        ensures
            (final(self)@, result@) == outbound(old(self)@, payload@),
            (match payload@ {
                JsonV::Object(members) if members.contains_key("method"@) => {
                    &&& result matches Outbound::Broadcast(out) && out@ == payload@
                    &&& final(self)@ == old(self)@
                },
                JsonV::Object(members) if members.contains_key("id"@) && members["id"@] is Unsigned
                    && old(self)@.pending.contains_key(members["id"@]->Unsigned_0) => {
                    let n = members["id"@]->Unsigned_0;
                    let (session, id) = old(self)@.pending[n];
                    &&& result matches Outbound::RoutedResponse { session_id, payload: out }
                        && session_id@ == session && out@ == JsonV::Object(
                        members.insert("id"@, id),
                    )
                    &&& final(self)@.pending == old(self)@.pending.remove(n)
                },
                _ => {
                    &&& result matches Outbound::UnknownResponse(out) && out@ == payload@
                    &&& final(self)@ == old(self)@
                },
            }),
    {
        broadcast use vstd::std_specs::hash::group_hash_axioms;

        let mut payload = payload;
        if payload.get("method").is_some() {
            return Outbound::Broadcast(payload);
        }
        let number: Option<u64> = match payload.get("id") {
            Some(id) => id.as_u64(),
            None => None,
        };
        match number {
            Some(outbound_id) => match self.pending.remove(&outbound_id) {
                Some((session_id, original_id)) => {
                    payload.set("id", original_id);
                    assert(self@.pending =~= old(self)@.pending.remove(outbound_id));
                    Outbound::RoutedResponse { session_id, payload }
                },
                None => {
                    assert(self@.pending =~= old(self)@.pending);
                    Outbound::UnknownResponse(payload)
                },
            },
            None => Outbound::UnknownResponse(payload),
        }
    }

    /// How many requests are open.
    pub fn pending_count(&self) -> (n: usize)
        ensures
            n == self@.pending.len(),
            self@.pending.dom().finite(),
    {
        broadcast use vstd::std_specs::hash::group_hash_axioms;

        assert(self@.pending.dom() =~= self.pending@.dom());
        self.pending.len()
    }

    /// Closes every request: the child that they went to is gone. Numbers go on from where they
    /// were.
    pub fn close_all(&mut self)
        ensures
            final(self)@ == (MuxV { next: old(self)@.next, pending: Map::empty() }),
    {
        broadcast use vstd::std_specs::hash::group_hash_axioms;

        self.pending.clear();
        assert(self@.pending =~= Map::empty());
    }
}

impl Default for IdMux {
    fn default() -> (mux: Self)
        ensures
            mux@ == (MuxV { next: 1, pending: Map::empty() }),
    {
        IdMux::new()
    }
}

/// Every open number lies below the next one.
pub open spec fn numbers_below_next(mux: MuxV) -> bool {
    forall|n: u64| #[trigger] mux.pending.contains_key(n) ==> n < mux.next
}

/// A message that passes: from a session to the child, or from the child.
pub enum Traffic {
    FromSession { session: Seq<char>, payload: JsonV },
    FromChild { payload: JsonV },
}

/// The open requests after one message.
pub open spec fn after_message(mux: MuxV, message: Traffic) -> MuxV {
    match message {
        Traffic::FromSession { session, payload } => inbound(mux, session, payload).0,
        Traffic::FromChild { payload } => outbound(mux, payload).0,
    }
}

/// The open requests after a run of messages.
pub open spec fn after_traffic(mux: MuxV, messages: Seq<Traffic>) -> MuxV
    decreases messages.len(),
{
    if messages.len() == 0 {
        mux
    } else {
        after_message(after_traffic(mux, messages.drop_last()), messages.last())
    }
}

/// None of the messages is the child's answer to `n`.
pub open spec fn leaves_unanswered(messages: Seq<Traffic>, n: u64) -> bool {
    forall|i: int|
        0 <= i < messages.len() ==> !(#[trigger] messages[i] matches Traffic::FromChild {
            payload,
        } && answers(payload, n))
}

/// How many of the messages are requests of sessions.
pub open spec fn requests(messages: Seq<Traffic>) -> nat
    decreases messages.len(),
{
    if messages.len() == 0 {
        0
    } else {
        let before = requests(messages.drop_last());
        match messages.last() {
            Traffic::FromSession { payload, .. } => if is_request(payload) {
                before + 1
            } else {
                before
            },
            Traffic::FromChild { .. } => before,
        }
    }
}

/// How many requests come before one takes the number `n`, where `next` is the next number.
pub open spec fn numbers_until(next: u64, n: u64) -> nat {
    if next <= n {
        (n - next) as nat
    } else {
        (u64::MAX - next + 1 + n) as nat
    }
}

/// Requests are numbered in turn: after `k` of them the next one gets the number `k + 1`, for
/// every number that there is, and that number is not open.
pub proof fn law_requests_are_numbered_in_turn(
    messages: Seq<Traffic>,
    session: Seq<char>,
    payload: JsonV,
)
    requires
        requests(messages) < u64::MAX,
        is_request(payload),
    ensures
        ({
            let mux = after_traffic(MuxV { next: 1, pending: Map::empty() }, messages);
            &&& inbound(mux, session, payload).1 matches InboundV::Request { outbound_id, .. }
                && outbound_id == requests(messages) + 1
            &&& !mux.pending.contains_key(mux.next)
        }),
{
    lemma_numbers_below_next(MuxV { next: 1, pending: Map::empty() }, messages);
}

/// Every open number stays below the next one until the numbers run out.
proof fn lemma_numbers_below_next(mux: MuxV, messages: Seq<Traffic>)
    requires
        numbers_below_next(mux),
        mux.next + requests(messages) <= u64::MAX,
    ensures
        numbers_below_next(after_traffic(mux, messages)),
        after_traffic(mux, messages).next == mux.next + requests(messages),
    decreases messages.len(),
{
    if messages.len() > 0 {
        lemma_numbers_below_next(mux, messages.drop_last());
    }
}

/// Each request takes a number that is not open, and leaves every open number below the next,
/// until the numbers run out. A message of the child leaves them so too.
pub proof fn law_numbers_are_fresh(mux: MuxV, session: Seq<char>, payload: JsonV)
    requires
        numbers_below_next(mux),
    ensures
        !mux.pending.contains_key(mux.next),
        mux.next < u64::MAX ==> numbers_below_next(inbound(mux, session, payload).0),
        numbers_below_next(outbound(mux, payload).0),
{
}

/// A session's request reaches the child whole, but for its id: that becomes the number under
/// which it is open.
pub proof fn law_request_keeps_its_members(
    mux: MuxV,
    session: Seq<char>,
    payload: JsonV,
    name: Seq<char>,
)
    requires
        is_request(payload),
    ensures
        inbound(mux, session, payload).1 matches InboundV::Request { payload: sent, .. } && {
            &&& member(sent, "id"@) == Some(JsonV::Unsigned(mux.next))
            &&& name != "id"@ ==> member(sent, name) == member(payload, name)
        },
{
}

/// The answer to a request goes to the session that asked and to no other, under the id that the
/// session asked with and otherwise unchanged, and the request is no longer open.
pub proof fn law_answer_returns_to_its_session(
    mux: MuxV,
    session: Seq<char>,
    request: JsonV,
    answer: JsonV,
    name: Seq<char>,
)
    requires
        is_request(request),
        answers(answer, mux.next),
    ensures
        ({
            let open = inbound(mux, session, request).0;
            let (closed, result) = outbound(open, answer);
            &&& closed.pending == mux.pending.remove(mux.next)
            &&& result matches OutboundV::RoutedResponse { session_id, payload } && {
                &&& session_id == session
                &&& member(payload, "id"@) == member(request, "id"@)
                &&& name != "id"@ ==> member(payload, name) == member(answer, name)
            }
        }),
{
    let open = inbound(mux, session, request).0;
    assert(open.pending.remove(mux.next) =~= mux.pending.remove(mux.next));
}

/// The same holds whatever passes between the request and its answer, unless so many requests
/// follow that one takes the same number again: no traffic of other sessions, and nothing else
/// that the child says, diverts an answer.
pub proof fn law_traffic_diverts_no_answer(
    mux: MuxV,
    session: Seq<char>,
    request: JsonV,
    messages: Seq<Traffic>,
    answer: JsonV,
)
    requires
        is_request(request),
        requests(messages) <= u64::MAX,
        leaves_unanswered(messages, mux.next),
        answers(answer, mux.next),
    ensures
        ({
            let open = inbound(mux, session, request).0;
            outbound(after_traffic(open, messages), answer).1 == (OutboundV::RoutedResponse {
                session_id: session,
                payload: with_member(answer, "id"@, member(request, "id"@)->Some_0),
            })
        }),
{
    let open = inbound(mux, session, request).0;
    lemma_number_stays(open, messages, mux.next);
}

/// Until a request takes the number `n` again, it is closed if it was, and open with its session
/// and its id if it was and the child does not answer it.
proof fn lemma_number_stays(mux: MuxV, messages: Seq<Traffic>, n: u64)
    requires
        requests(messages) <= numbers_until(mux.next, n),
    ensures
        ({
            let last = after_traffic(mux, messages);
            &&& !mux.pending.contains_key(n) ==> !last.pending.contains_key(n)
            &&& mux.pending.contains_key(n) && leaves_unanswered(messages, n)
                ==> last.pending.contains_key(n) && last.pending[n] == mux.pending[n]
            &&& numbers_until(last.next, n) == numbers_until(mux.next, n) - requests(messages)
        }),
    decreases messages.len(),
{
    if messages.len() > 0 {
        let before = messages.drop_last();
        lemma_number_stays(mux, before, n);
        if leaves_unanswered(messages, n) {
            assert forall|i: int| 0 <= i < before.len() implies !(
            #[trigger] before[i] matches Traffic::FromChild { payload } && answers(payload, n)) by {
                assert(before[i] == messages[i]);
            }
            assert(messages[messages.len() - 1] == messages.last());
        }
    }
}

/// A request is answered once: whatever passes after its answer, a second answer to its number
/// is known to nobody and changes nothing, unless so many requests follow that one takes the
/// same number again.
pub proof fn law_answer_is_routed_once(
    mux: MuxV,
    answer: JsonV,
    messages: Seq<Traffic>,
    again: JsonV,
    n: u64,
)
    requires
        answers(answer, n),
        answers(again, n),
        requests(messages) <= numbers_until(mux.next, n),
    ensures
        ({
            let later = after_traffic(outbound(mux, answer).0, messages);
            &&& !later.pending.contains_key(n)
            &&& outbound(later, again) == (later, OutboundV::UnknownResponse(again))
        }),
{
    lemma_number_stays(outbound(mux, answer).0, messages, n);
}

/// What the child says of its own accord, whether or not it bears an id, goes to every session
/// as it is, and closes no request.
pub proof fn law_child_messages_are_broadcast(mux: MuxV, payload: JsonV)
    requires
        member(payload, "method"@) is Some,
    ensures
        outbound(mux, payload) == (mux, OutboundV::Broadcast(payload)),
{
}

/// A notification and a response of a session pass as they are, and open no request.
pub proof fn law_notifications_pass(mux: MuxV, session: Seq<char>, payload: JsonV)
    requires
        !is_request(payload),
    ensures
        inbound(mux, session, payload) == (mux, InboundV::Passthrough(payload)),
{
}

/// Whatever its method is, an object that has one, and an id that is not null, is a request: it
/// goes to the child with its id replaced by the next number and nothing else changed, and that
/// number is open for the session that sent it, under the id that it sent.
pub proof fn law_any_method_with_an_id_is_a_request(
    mux: MuxV,
    session: Seq<char>,
    members: Map<Seq<char>, JsonV>,
    other: u64,
)
    requires
        members.contains_key("method"@),
        members.contains_key("id"@),
        members["id"@] != JsonV::Null,
    ensures
        is_request(JsonV::Object(members)),
        ({
            let (after, result) = inbound(mux, session, JsonV::Object(members));
            &&& result == (InboundV::Request {
                original_id: members["id"@],
                outbound_id: mux.next,
                payload: JsonV::Object(members.insert("id"@, JsonV::Unsigned(mux.next))),
            })
            &&& after.pending.contains_key(mux.next)
            &&& after.pending[mux.next] == (session, members["id"@])
            &&& other != mux.next ==> (after.pending.contains_key(other)
                == mux.pending.contains_key(other) && (mux.pending.contains_key(other)
                ==> after.pending[other] == mux.pending[other]))
            &&& after.next == (if mux.next == u64::MAX {
                0
            } else {
                mux.next + 1
            })
        }),
{
}

/// Anything else that a session sends passes as it is and opens nothing: what is no object, and
/// an object without a method, without an id or with the id null.
pub proof fn law_anything_else_of_a_session_passes(
    mux: MuxV,
    session: Seq<char>,
    payload: JsonV,
)
    requires
        payload matches JsonV::Object(members) ==> {
            ||| !members.contains_key("method"@)
            ||| !members.contains_key("id"@)
            ||| members["id"@] == JsonV::Null
        },
    ensures
        !is_request(payload),
        inbound(mux, session, payload) == (mux, InboundV::Passthrough(payload)),
{
}

/// An object without a method whose id is an open number answers it: it goes to the session under
/// that number with its id replaced by the one the session sent and nothing else changed, and
/// that number alone is closed.
pub proof fn law_the_id_of_an_answer_is_its_number(
    mux: MuxV,
    members: Map<Seq<char>, JsonV>,
    n: u64,
    other: u64,
)
    requires
        !members.contains_key("method"@),
        members.contains_key("id"@),
        members["id"@] == JsonV::Unsigned(n),
        mux.pending.contains_key(n),
    ensures
        answers(JsonV::Object(members), n),
        ({
            let (after, result) = outbound(mux, JsonV::Object(members));
            &&& result == (OutboundV::RoutedResponse {
                session_id: mux.pending[n].0,
                payload: JsonV::Object(members.insert("id"@, mux.pending[n].1)),
            })
            &&& !after.pending.contains_key(n)
            &&& other != n ==> (after.pending.contains_key(other) == mux.pending.contains_key(
                other,
            ) && (mux.pending.contains_key(other) ==> after.pending[other]
                == mux.pending[other]))
            &&& after.next == mux.next
        }),
{
}

/// Whatever its method is, an object of the child that has one goes to every session as it is.
pub proof fn law_any_method_of_the_child_is_broadcast(mux: MuxV, members: Map<Seq<char>, JsonV>)
    requires
        members.contains_key("method"@),
    ensures
        outbound(mux, JsonV::Object(members)) == (
            mux,
            OutboundV::Broadcast(JsonV::Object(members)),
        ),
{
}

/// Anything else that the child says answers nothing and closes nothing: what is no object, and
/// an object without a method whose id is missing, no unsigned integer or no open number.
pub proof fn law_anything_else_of_the_child_is_unknown(mux: MuxV, payload: JsonV)
    requires
        payload matches JsonV::Object(members) ==> {
            &&& !members.contains_key("method"@)
            &&& members.contains_key("id"@) ==> (members["id"@] matches JsonV::Unsigned(n)
                ==> !mux.pending.contains_key(n))
        },
    ensures
        outbound(mux, payload) == (mux, OutboundV::UnknownResponse(payload)),
{
}

/// What comes back to the caller is what was decided: no part of it is left out or changed.
pub proof fn law_decisions_are_told_whole(id: Json, n: u64, payload: Json, session: String)
    ensures
        (Inbound::Request { original_id: id, outbound_id: n, payload })@ == (InboundV::Request {
            original_id: id@,
            outbound_id: n,
            payload: payload@,
        }),
        Inbound::Passthrough(payload)@ == InboundV::Passthrough(payload@),
        (Outbound::RoutedResponse { session_id: session, payload })@
            == (OutboundV::RoutedResponse { session_id: session@, payload: payload@ }),
        Outbound::UnknownResponse(payload)@ == OutboundV::UnknownResponse(payload@),
        Outbound::Broadcast(payload)@ == OutboundV::Broadcast(payload@),
{
}

} // verus!
