//! The PubSub dispatcher: which requests await a reply, which subscriptions
//! are live, and where each frame that arrives over the WebSocket goes.
//!
//! `P` is the handle through which a request's reply is handed over and `S`
//! the handle through which a subscription's notifications are; the network
//! side owns the socket and performs what these functions decide.

use vstd::prelude::*;
use vstd::string::*;
use std::collections::HashMap;
use crate::json::{
    Json, JsonNumber, has_no_member, is_first_member, lemma_lookup_absent, lemma_lookup_first,
    lemma_lookup_found, lookup, members_named_are_null, parse_json, serde_parse,
};
use crate::provider::successor_id;
use crate::rpc::{Reply, error_member, frame_request, request_text, take_error_member};
use crate::text::{decimal, push_decimal};

verus! {

broadcast use vstd::std_specs::hash::group_hash_axioms;

/// The state of a PubSub connection.
pub struct PubsubState<P, S> {
    pending: HashMap<u64, P>,
    subscriptions: HashMap<u64, S>,
    last_id: u64,
    open: bool,
}

/// What a `PubsubState` is: the requests that await a reply, by id; the live
/// subscriptions, by the id the server gave them; the id of the last request
/// framed; whether the connection is still open.
pub struct PubsubView<P, S> {
    pub pending: Map<u64, P>,
    pub subscriptions: Map<u64, S>,
    pub last_id: u64,
    pub open: bool,
}

impl<P, S> View for PubsubState<P, S> {
    type V = PubsubView<P, S>;

    closed spec fn view(&self) -> PubsubView<P, S> {
        PubsubView {
            pending: self.pending@,
            subscriptions: self.subscriptions@,
            last_id: self.last_id,
            open: self.open,
        }
    }
}

/// Where a frame goes.
#[derive(Debug, PartialEq)]
pub enum Delivery<P> {
    /// To the request that awaited it, with what it answers.
    Reply(P, Reply),
    /// To the live subscription with this id, with the notification's result.
    Notify(u64, Json),
    /// Nowhere.
    Ignored,
}

/// The `id` member of a frame, where it is a `u64`.
pub open spec fn frame_id(frame: Json) -> Option<u64> {
    match frame.field("id"@) {
        Some(v) => v.spec_as_u64(),
        None => None,
    }
}

/// What a response frame answers: its non-null `error` member, else its
/// `result` member (`null` where it has none).
pub open spec fn reply_of(frame: Json) -> Reply {
    match error_member(frame) {
        Some(e) => Reply::ErrorObject(e),
        None => Reply::Result(
            match frame.field("result"@) {
                Some(r) => r,
                None => Json::Null,
            },
        ),
    }
}

/// The subscription a notification frame is for, and its result (`null`
/// where it has none): taken from the frame's `params` member.
pub open spec fn notification_of(frame: Json) -> Option<(u64, Json)> {
    match frame.field("params"@) {
        Some(params) => match params.field("subscription"@) {
            Some(s) => match s.spec_as_u64() {
                Some(sid) => Some(
                    (
                        sid,
                        match params.field("result"@) {
                            Some(r) => r,
                            None => Json::Null,
                        },
                    ),
                ),
                None => None,
            },
            None => None,
        },
        None => None,
    }
}

/// Where `frame` goes in state `v`, and the state after. A frame with a `u64`
/// id answers the request with that id, if one is pending, which then no
/// longer is; it goes nowhere otherwise. Any other frame is a notification
/// for a live subscription, or goes nowhere.
pub open spec fn dispatch_spec<P, S>(v: PubsubView<P, S>, frame: Json) -> (PubsubView<P, S>, Delivery<P>) {
    match frame_id(frame) {
        Some(id) => if v.pending.contains_key(id) {
            (
                PubsubView { pending: v.pending.remove(id), ..v },
                Delivery::Reply(v.pending[id], reply_of(frame)),
            )
        } else {
            (v, Delivery::Ignored)
        },
        None => match notification_of(frame) {
            Some((sid, result)) => if v.subscriptions.contains_key(sid) {
                (v, Delivery::Notify(sid, result))
            } else {
                (v, Delivery::Ignored)
            },
            None => (v, Delivery::Ignored),
        },
    }
}

/// The parameters `[sub_id]` of an unsubscribe request.
pub open spec fn unsubscribe_params(sub_id: u64) -> Seq<char> {
    "["@ + decimal(sub_id as nat) + "]"@
}

/// The JSON text `[sub_id]`.
pub fn unsubscribe_params_text(sub_id: u64) -> (t: String)
    ensures
        t@ == unsubscribe_params(sub_id),
{
    let mut t = String::from_str("[");
    push_decimal(&mut t, sub_id);
    t.append("]");
    t
}

/// Splits a response frame into what it answers.
fn into_reply(frame: Json) -> (r: Reply)
    ensures
        r == reply_of(frame),
{
    match take_error_member(frame) {
        Ok(e) => Reply::ErrorObject(e),
        Err(frame) => match frame.into_field("result") {
            Some(r) => Reply::Result(r),
            None => Reply::Result(Json::Null),
        },
    }
}

impl<P, S> PubsubState<P, S> {
    /// An open connection with nothing pending and no subscription.
    pub fn new() -> (s: Self)
        ensures
            s@.pending.is_empty(),
            s@.subscriptions.is_empty(),
            s@.last_id == 0,
            s@.open,
    {
        PubsubState { pending: HashMap::new(), subscriptions: HashMap::new(), last_id: 0, open: true }
    }

    /// Whether the connection is still open.
    pub fn is_open(&self) -> (b: bool)
        ensures
            b == self@.open,
    {
        self.open
    }

    /// Draw the id for the next request.
    pub fn next_id(&mut self) -> (id: u64)
        ensures
            id == successor_id(old(self)@.last_id),
            final(self)@ == (PubsubView { last_id: id, ..old(self)@ }),
    {
        let id = self.last_id.wrapping_add(1);
        self.last_id = id;
        id
    }

    /// Frame a request to `method` with the JSON text `params` under a fresh
    /// id, and register `reply` to receive its answer.
    pub fn begin_request(&mut self, method: &str, params: &str, reply: P) -> (r: (u64, String))
        ensures
            r.0 == successor_id(old(self)@.last_id),
            r.1@ == request_text(r.0 as nat, method@, params@),
            final(self)@ == (PubsubView {
                pending: old(self)@.pending.insert(r.0, reply),
                last_id: r.0,
                ..old(self)@
            }),
    {
        let id = self.next_id();
        let body = frame_request(id, method, params);
        self.pending.insert(id, reply);
        (id, body)
    }

    /// Withdraw the request `id`, whose frame could not be sent.
    pub fn abandon_request(&mut self, id: u64) -> (r: Option<P>)
        ensures
            final(self)@ == (PubsubView { pending: old(self)@.pending.remove(id), ..old(self)@ }),
            r == (if old(self)@.pending.contains_key(id) { Some(old(self)@.pending[id]) } else { None::<P> }),
    {
        self.pending.remove(&id)
    }

    /// Start delivering notifications for the subscription `sub_id`.
    pub fn add_subscription(&mut self, sub_id: u64, sink: S) -> (r: Option<S>)
        ensures
            final(self)@ == (PubsubView {
                subscriptions: old(self)@.subscriptions.insert(sub_id, sink),
                ..old(self)@
            }),
            r == (if old(self)@.subscriptions.contains_key(sub_id) {
                Some(old(self)@.subscriptions[sub_id])
            } else {
                None::<S>
            }),
    {
        self.subscriptions.insert(sub_id, sink)
    }

    /// Stop delivering notifications for the subscription `sub_id`.
    pub fn remove_subscription(&mut self, sub_id: u64) -> (r: Option<S>)
        ensures
            final(self)@ == (PubsubView {
                subscriptions: old(self)@.subscriptions.remove(sub_id),
                ..old(self)@
            }),
            r == (if old(self)@.subscriptions.contains_key(sub_id) {
                Some(old(self)@.subscriptions[sub_id])
            } else {
                None::<S>
            }),
    {
        self.subscriptions.remove(&sub_id)
    }

    /// The sink of the live subscription `sub_id`.
    pub fn subscription(&self, sub_id: u64) -> (r: Option<&S>)
        ensures
            match r {
                Some(s) => self@.subscriptions.contains_key(sub_id) && self@.subscriptions[sub_id] == *s,
                None => !self@.subscriptions.contains_key(sub_id),
            },
    {
        self.subscriptions.get(&sub_id)
    }

    /// Route a frame.
    pub fn dispatch(&mut self, frame: Json) -> (d: Delivery<P>)
        ensures
            (final(self)@, d) == dispatch_spec(old(self)@, frame),
    {
        let id = match frame.get("id") {
            Some(v) => v.as_u64(),
            None => None,
        };
        match id {
            Some(id) => match self.pending.remove(&id) {
                Some(p) => Delivery::Reply(p, into_reply(frame)),
                None => {
                    assert(self.pending@ =~= old(self).pending@);
                    Delivery::Ignored
                },
            },
            None => match frame.into_field("params") {
                Some(params) => {
                    let sid = match params.get("subscription") {
                        Some(s) => s.as_u64(),
                        None => None,
                    };
                    match sid {
                        Some(sid) => {
                            if self.subscriptions.contains_key(&sid) {
                                let result = match params.into_field("result") {
                                    Some(r) => r,
                                    None => Json::Null,
                                };
                                Delivery::Notify(sid, result)
                            } else {
                                Delivery::Ignored
                            }
                        },
                        None => Delivery::Ignored,
                    }
                },
                None => Delivery::Ignored,
            },
        }
    }

    /// Route a text frame: one that is not JSON goes nowhere.
    pub fn receive_text(&mut self, text: &str) -> (d: Delivery<P>)
        ensures
            match serde_parse(text@) {
                Ok(frame) => (final(self)@, d) == dispatch_spec(old(self)@, frame),
                Err(_) => final(self)@ == old(self)@ && d is Ignored,
            },
    {
        match parse_json(text) {
            Ok(frame) => self.dispatch(frame),
            Err(_) => Delivery::Ignored,
        }
    }

    /// End the subscription `sub_id` and frame its unsubscribe request to
    /// `method`, whose answer goes to `reply`.
    pub fn begin_unsubscribe(&mut self, sub_id: u64, method: &str, reply: P) -> (r: (u64, String))
        ensures
            r.0 == successor_id(old(self)@.last_id),
            r.1@ == request_text(r.0 as nat, method@, unsubscribe_params(sub_id)),
            final(self)@ == (PubsubView {
                pending: old(self)@.pending.insert(r.0, reply),
                subscriptions: old(self)@.subscriptions.remove(sub_id),
                last_id: r.0,
                open: old(self)@.open,
            }),
    {
        self.subscriptions.remove(&sub_id);
        let params = unsubscribe_params_text(sub_id);
        self.begin_request(method, params.as_str(), reply)
    }

    /// End the subscription `sub_id` without awaiting the server: frame an
    /// unsubscribe request to `method` whose answer nobody awaits.
    pub fn cancel_subscription(&mut self, sub_id: u64, method: &str) -> (body: String)
        ensures
            body@ == request_text(
                successor_id(old(self)@.last_id) as nat,
                method@,
                unsubscribe_params(sub_id),
            ),
            final(self)@ == (PubsubView {
                subscriptions: old(self)@.subscriptions.remove(sub_id),
                last_id: successor_id(old(self)@.last_id),
                ..old(self)@
            }),
    {
        self.subscriptions.remove(&sub_id);
        let params = unsubscribe_params_text(sub_id);
        let id = self.next_id();
        frame_request(id, method, params.as_str())
    }

    /// The connection has closed: every pending request is handed back, to be
    /// failed, every subscription ends, and the connection is no longer open.
    pub fn close(&mut self) -> (failed: HashMap<u64, P>)
        ensures
            failed@ == old(self)@.pending,
            final(self)@ == (PubsubView {
                pending: Map::<u64, P>::empty(),
                subscriptions: Map::<u64, S>::empty(),
                last_id: old(self)@.last_id,
                open: false,
            }),
    {
        let mut failed = HashMap::new();
        std::mem::swap(&mut failed, &mut self.pending);
        self.subscriptions.clear();
        self.open = false;
        failed
    }
}

} // verus!

verus! {

/// A reply frame reaches the request it answers: once `reply` waits under
/// `id`, a frame whose id is `id` is handed to `reply` with what it answers,
/// and `id` waits no more; the subscriptions are untouched.
pub proof fn law_reply_reaches_its_request<P, S>(v: PubsubView<P, S>, id: u64, reply: P, frame: Json)
    requires
        frame_id(frame) == Some(id),
    ensures
        ({
            let (after, d) = dispatch_spec(PubsubView { pending: v.pending.insert(id, reply), ..v }, frame);
            &&& d == Delivery::Reply(reply, reply_of(frame))
            &&& after.pending == v.pending.remove(id)
            &&& after.subscriptions == v.subscriptions
            &&& after.last_id == v.last_id
        }),
{
    assert(v.pending.insert(id, reply).remove(id) =~= v.pending.remove(id));
}

/// A reply is handed over once: the same frame a second time goes nowhere.
pub proof fn law_reply_delivered_once<P, S>(v: PubsubView<P, S>, frame: Json)
    requires
        dispatch_spec(v, frame).1 is Reply,
    ensures
        dispatch_spec(dispatch_spec(v, frame).0, frame).1 is Ignored,
{
}

/// Notifications change nothing: a frame that goes to a subscription leaves
/// the state as it was.
pub proof fn law_notification_keeps_state<P, S>(v: PubsubView<P, S>, frame: Json)
    requires
        dispatch_spec(v, frame).1 is Notify,
    ensures
        dispatch_spec(v, frame).0 == v,
{
}

/// Once a subscription has ended, its notifications go nowhere and change
/// nothing.
pub proof fn law_ended_subscription_is_silent<P, S>(v: PubsubView<P, S>, sub_id: u64, frame: Json)
    requires
        !v.subscriptions.contains_key(sub_id),
        notification_of(frame) matches Some((s, _)) && s == sub_id,
    ensures
        frame_id(frame) is None ==> dispatch_spec(v, frame) == (v, Delivery::<P>::Ignored),
{
}

/// A closed connection is silent: with nothing pending and no subscription,
/// every frame goes nowhere and the state stays as it is.
pub proof fn law_closed_connection_is_silent<P, S>(v: PubsubView<P, S>, frame: Json)
    requires
        v.pending.is_empty(),
        v.subscriptions.is_empty(),
    ensures
        dispatch_spec(v, frame) == (v, Delivery::<P>::Ignored),
{
}

} // verus!

verus! {

/// A frame whose first `id` member is the non-negative integer `k`, while a
/// request waits under `k`, whose first `error` member is not `null`, answers
/// that request with the error member itself, and `k` waits no more.
pub proof fn law_error_reply_is_the_error_member<P, S>(
    v: PubsubView<P, S>,
    members: Vec<(String, Json)>,
    k: u64,
    i_id: int,
    i_error: int,
)
    requires
        is_first_member(members@, "id"@, i_id),
        members@[i_id].1 == Json::Number(JsonNumber::PosInt(k)),
        v.pending.contains_key(k),
        is_first_member(members@, "error"@, i_error),
        !(members@[i_error].1 is Null),
    ensures
        dispatch_spec(v, Json::Object(members)) == (
            PubsubView { pending: v.pending.remove(k), ..v },
            Delivery::Reply(v.pending[k], Reply::ErrorObject(members@[i_error].1)),
        ),
{
    lemma_lookup_first(members@, "id"@, i_id);
    lemma_lookup_first(members@, "error"@, i_error);
}

/// A frame whose first `id` member is `k`, while a request waits under `k`,
/// with no non-null `error` member, answers that request with the value of
/// its first `result` member, whatever it is; with `null` where it has none.
pub proof fn law_result_reply_is_the_result_member<P, S>(
    v: PubsubView<P, S>,
    members: Vec<(String, Json)>,
    k: u64,
    i_id: int,
)
    requires
        is_first_member(members@, "id"@, i_id),
        members@[i_id].1 == Json::Number(JsonNumber::PosInt(k)),
        v.pending.contains_key(k),
        members_named_are_null(members@, "error"@),
    ensures
        forall|i: int| is_first_member(members@, "result"@, i) ==> dispatch_spec(v, Json::Object(members)) == (
            PubsubView { pending: v.pending.remove(k), ..v },
            Delivery::Reply(v.pending[k], Reply::Result(members@[i].1)),
        ),
        has_no_member(members@, "result"@) ==> dispatch_spec(v, Json::Object(members)) == (
            PubsubView { pending: v.pending.remove(k), ..v },
            Delivery::Reply(v.pending[k], Reply::Result(Json::Null)),
        ),
{
    lemma_lookup_first(members@, "id"@, i_id);
    if lookup(members@, "error"@) is Some {
        lemma_lookup_found(members@, "error"@);
    }
    assert forall|i: int| is_first_member(members@, "result"@, i) implies dispatch_spec(v, Json::Object(members)) == (
        PubsubView { pending: v.pending.remove(k), ..v },
        Delivery::Reply(v.pending[k], Reply::Result(members@[i].1)),
    ) by {
        lemma_lookup_first(members@, "result"@, i);
    }
    if has_no_member(members@, "result"@) {
        lemma_lookup_absent(members@, "result"@);
    }
}

/// A frame without an `id` member whose first `params` member is an object
/// whose first `subscription` member is the live subscription `s` is
/// delivered to `s` with the value of that object's first `result` member,
/// whatever it is, or with `null` where it has none; nothing changes.
pub proof fn law_notification_carries_the_result_member<P, S>(
    v: PubsubView<P, S>,
    members: Vec<(String, Json)>,
    params: Vec<(String, Json)>,
    s: u64,
    i_params: int,
    i_sub: int,
)
    requires
        has_no_member(members@, "id"@),
        is_first_member(members@, "params"@, i_params),
        members@[i_params].1 == Json::Object(params),
        is_first_member(params@, "subscription"@, i_sub),
        params@[i_sub].1 == Json::Number(JsonNumber::PosInt(s)),
        v.subscriptions.contains_key(s),
    ensures
        forall|i: int| is_first_member(params@, "result"@, i) ==> dispatch_spec(v, Json::Object(members))
            == (v, Delivery::<P>::Notify(s, params@[i].1)),
        has_no_member(params@, "result"@) ==> dispatch_spec(v, Json::Object(members))
            == (v, Delivery::<P>::Notify(s, Json::Null)),
{
    lemma_lookup_absent(members@, "id"@);
    lemma_lookup_first(members@, "params"@, i_params);
    lemma_lookup_first(params@, "subscription"@, i_sub);
    assert forall|i: int| is_first_member(params@, "result"@, i) implies dispatch_spec(v, Json::Object(members))
        == (v, Delivery::<P>::Notify(s, params@[i].1)) by {
        lemma_lookup_first(params@, "result"@, i);
    }
    if has_no_member(params@, "result"@) {
        lemma_lookup_absent(params@, "result"@);
    }
}

} // verus!
