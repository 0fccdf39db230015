//! The client session state machine. The caller reads each client message,
//! hands it in with the session's state, and performs the action that comes
//! back: replying, opening a backend link, forwarding, or disconnecting.
use crate::backend::{is_search_done, search_done, LdapError, SearchRelay};
use crate::cache::{key_view, request_key, CacheKey, CachedValue, ResultCache};
use crate::message::{
    bind_operror, copy_controls, entry_equal, result_equal, BindRequest, BindResponse, LdapMsg,
    LdapOp, SearchEntry, SearchRequest, RESULT_OPERATIONS_ERROR, RESULT_SUCCESS,
};
use crate::policy::AuthMap;
use ldap3_proto::control::LdapControl;
use vstd::prelude::*;

verus! {

pub enum ClientState {
    Unbound,
    /// Bound as `dn`, whose policy stands at position `policy` of the
    /// authorization map.
    Authenticated { dn: String, policy: usize },
}

impl ClientState {
    /// The state refers to a policy of `map`.
    pub open spec fn valid_for(self, map: AuthMap) -> bool {
        self matches ClientState::Authenticated { policy, .. } ==> policy < map.entries@.len()
    }
}

pub enum ClientAction {
    /// Send this reply, then read the next message.
    Reply(LdapMsg),
    /// Send these replies in order, then read the next message.
    ReplyAll(Vec<LdapMsg>),
    /// Open a fresh backend link, then forward this bind on it. The client's
    /// message identifier is `msgid`; `dn` resolves to the policy at
    /// position `policy`.
    ConnectAndBind {
        msgid: i32,
        dn: String,
        policy: usize,
        request: BindRequest,
        ctrl: Vec<LdapControl>,
    },
    /// Forward this search on the session's backend link and relay what comes
    /// back through the relay.
    ForwardSearch { relay: SearchRelay, request: SearchRequest, ctrl: Vec<LdapControl> },
    /// Send this reply, then end the session.
    ReplyThenDisconnect(LdapMsg),
    /// End the session without a reply.
    Disconnect,
}

/// A bind refusal: an operations error that says nothing of the cause.
pub open spec fn is_bind_operror(m: LdapMsg, msgid: i32) -> bool {
    &&& m.msgid == msgid
    &&& m.ctrl@.len() == 0
    &&& m.op matches LdapOp::BindResponse(b) && b.res.code == RESULT_OPERATIONS_ERROR
        && b.res.matcheddn@.len() == 0 && b.res.referral@.len() == 0 && b.saslcreds is None
}

/// `m` passes `e` on to the client under `msgid`.
pub open spec fn is_entry_reply(m: LdapMsg, e: SearchEntry, msgid: i32) -> bool {
    &&& m.msgid == msgid
    &&& m.ctrl@.len() == 0
    &&& m.op matches LdapOp::SearchResultEntry(x) && entry_equal(x, e)
}

/// `msgs` replays `v` to the client under `msgid`: each entry in order, then
/// the final result with its controls.
pub open spec fn is_replay(msgs: Seq<LdapMsg>, v: CachedValue, msgid: i32) -> bool {
    &&& msgs.len() == v.entries@.len() + 1
    &&& forall|i: int|
        0 <= i < v.entries@.len() ==> is_entry_reply(#[trigger] msgs[i], v.entries@[i], msgid)
    &&& msgs.last().msgid == msgid
    &&& msgs.last().ctrl@ == v.ctrl@
    &&& msgs.last().op matches LdapOp::SearchResultDone(res) && result_equal(res, v.result)
}

/// The replies that serve a cached result set to the client.
pub fn replay(v: &CachedValue, msgid: i32) -> (r: Vec<LdapMsg>)
    ensures
        is_replay(r@, *v, msgid),
{
    let mut msgs: Vec<LdapMsg> = Vec::new();
    let mut i: usize = 0;
    while i < v.entries.len()
        invariant
            i <= v.entries@.len(),
            msgs@.len() == i,
            forall|j: int|
                0 <= j < i ==> is_entry_reply(#[trigger] msgs@[j], v.entries@[j], msgid),
        decreases v.entries@.len() - i,
    {
        let e = v.entries[i].duplicate();
        msgs.push(LdapMsg { msgid, op: LdapOp::SearchResultEntry(e), ctrl: Vec::new() });
        i = i + 1;
    }
    msgs.push(
        LdapMsg {
            msgid,
            op: LdapOp::SearchResultDone(v.result.duplicate()),
            ctrl: copy_controls(&v.ctrl),
        },
    );
    msgs
}

/// The step that a client message takes a session through: `r` is the next
/// state and the action.
pub open spec fn client_step(
    state: ClientState,
    msg: LdapMsg,
    map: AuthMap,
    cache: ResultCache,
    now: u64,
    r: (ClientState, ClientAction),
) -> bool {
    match msg.op {
        LdapOp::BindRequest(b) => {
            &&& r.0 is Unbound
            &&& !map.has(b.dn@) ==> (r.1 matches ClientAction::Reply(m) && is_bind_operror(
                m,
                msg.msgid,
            ))
            &&& map.has(b.dn@) ==> (r.1 matches ClientAction::ConnectAndBind {
                msgid,
                dn,
                policy,
                request,
                ctrl,
            } && msgid == msg.msgid && dn@ == b.dn@ && map.policy_at(b.dn@, policy as int)
                && request == b && ctrl == msg.ctrl)
        },
        LdapOp::SearchRequest(sr) => match state {
            ClientState::Unbound => r.1 is Disconnect,
            ClientState::Authenticated { dn, policy } => {
                let key = request_key(sr);
                let config = map.entries@[policy as int].1;
                &&& r.0 == state
                &&& !config.permits_base(key.0) ==> (r.1 matches ClientAction::Reply(m)
                    && is_search_done(m, msg.msgid, RESULT_SUCCESS))
                &&& config.permits_base(key.0) && cache.has_fresh(key, now) ==> (
                r.1 matches ClientAction::ReplyAll(msgs) && exists|v: CachedValue|
                    cache.holds(key, v) && now < v.valid_until && is_replay(
                        msgs@,
                        v,
                        msg.msgid,
                    ))
                &&& config.permits_base(key.0) && !cache.has_fresh(key, now) ==> (
                r.1 matches ClientAction::ForwardSearch { relay, request, ctrl }
                    && relay.msgid == msg.msgid && key_view(relay.key) == key && relay.ttl
                    == config.cache_ttl && relay.entries@.len() == 0 && request == sr && ctrl
                    == msg.ctrl)
            },
        },
        _ => r.1 is Disconnect,
    }
}

/// What a client message leads to, given the session's state.
///
/// A bind always drops the prior state: an unknown identity is refused with a
/// generic operations error, a known one leads to a fresh backend link. An
/// unbind ends the session. A search of an authenticated session that its
/// policy does not permit gets an empty successful result; a permitted one is
/// served from a fresh cache entry or forwarded. A search before any bind, and
/// any other operation, ends the session without a reply.
pub fn on_client_message(
    state: ClientState,
    msg: LdapMsg,
    map: &AuthMap,
    cache: &ResultCache,
    now: u64,
) -> (r: (ClientState, ClientAction))
    requires
        state.valid_for(*map),
        cache.wf(),
    ensures
        r.0.valid_for(*map),
        client_step(state, msg, *map, *cache, now, r),
{
    let msgid = msg.msgid;
    match msg.op {
        LdapOp::BindRequest(b) => {
            match map.find(&b.dn) {
                None => (ClientState::Unbound, ClientAction::Reply(bind_operror(msgid, "unable to bind"))),
                Some(policy) => {
                    let dn = b.dn.clone();
                    (
                        ClientState::Unbound,
                        ClientAction::ConnectAndBind { msgid, dn, policy, request: b, ctrl: msg.ctrl },
                    )
                },
            }
        },
        LdapOp::SearchRequest(sr) => match state {
            ClientState::Unbound => (ClientState::Unbound, ClientAction::Disconnect),
            ClientState::Authenticated { dn, policy } => {
                let key = CacheKey::from_request(&sr);
                let config = &map.entries[policy].1;
                if !config.permits(&key.base) {
                    (
                        ClientState::Authenticated { dn, policy },
                        ClientAction::Reply(search_done(msgid, RESULT_SUCCESS)),
                    )
                } else {
                    match cache.get(&key, now) {
                        Some(v) => (
                            ClientState::Authenticated { dn, policy },
                            ClientAction::ReplyAll(replay(v, msgid)),
                        ),
                        None => {
                            let relay = SearchRelay {
                                msgid,
                                key,
                                ttl: config.cache_ttl,
                                entries: Vec::new(),
                            };
                            (
                                ClientState::Authenticated { dn, policy },
                                ClientAction::ForwardSearch { relay, request: sr, ctrl: msg.ctrl },
                            )
                        },
                    }
                }
            },
        },
        _ => (ClientState::Unbound, ClientAction::Disconnect),
    }
}

/// What follows a failed attempt to open the backend link for a bind: a
/// generic refusal, and the end of the session.
pub fn on_connect_failure(msgid: i32) -> (r: (ClientState, ClientAction))
    ensures
        r.0 is Unbound,
        r.1 matches ClientAction::ReplyThenDisconnect(m) && is_bind_operror(m, msgid),
{
    (ClientState::Unbound, ClientAction::ReplyThenDisconnect(bind_operror(msgid, "unable to bind")))
}

/// The step that the backend's answer to a forwarded bind takes a session
/// through.
pub open spec fn bind_result_step(
    msgid: i32,
    dn: String,
    policy: usize,
    result: Result<(BindResponse, Vec<LdapControl>), LdapError>,
    r: (ClientState, ClientAction),
) -> bool {
    match result {
        Ok((resp, ctrl)) => {
            &&& r.1 == ClientAction::Reply(
                LdapMsg { msgid, op: LdapOp::BindResponse(resp), ctrl },
            )
            &&& resp.res.code == RESULT_SUCCESS ==> r.0 == (ClientState::Authenticated {
                dn,
                policy,
            })
            &&& resp.res.code != RESULT_SUCCESS ==> r.0 is Unbound
        },
        Err(_) => {
            &&& r.0 is Unbound
            &&& r.1 matches ClientAction::ReplyThenDisconnect(m) && is_bind_operror(m, msgid)
        },
    }
}

/// What follows the backend's answer to a forwarded bind: on success the
/// session is bound as `dn` under `policy`; any other code is relayed and
/// leaves it unbound; a backend error gives a generic refusal and ends it.
/// The backend's response is relayed under the client's `msgid`.
pub fn on_bind_result(
    msgid: i32,
    dn: String,
    policy: usize,
    result: Result<(BindResponse, Vec<LdapControl>), LdapError>,
) -> (r: (ClientState, ClientAction))
    ensures
        bind_result_step(msgid, dn, policy, result, r),
{
    match result {
        Ok((resp, ctrl)) => {
            let valid = resp.res.code == RESULT_SUCCESS;
            let reply = ClientAction::Reply(LdapMsg { msgid, op: LdapOp::BindResponse(resp), ctrl });
            if valid {
                (ClientState::Authenticated { dn, policy }, reply)
            } else {
                (ClientState::Unbound, reply)
            }
        },
        Err(_) => on_connect_failure(msgid),
    }
}

/// A session that a successful bind has just authenticated and that then
/// receives an unbind ends at once: nothing is forwarded, and the backend link
/// goes with the session.
pub proof fn lemma_bind_then_unbind_releases(
    msgid: i32,
    dn: String,
    policy: usize,
    resp: BindResponse,
    ctrl: Vec<LdapControl>,
    bound: (ClientState, ClientAction),
    unbind: LdapMsg,
    map: AuthMap,
    cache: ResultCache,
    now: u64,
    next: (ClientState, ClientAction),
)
    requires
        resp.res.code == RESULT_SUCCESS,
        bind_result_step(msgid, dn, policy, Ok((resp, ctrl)), bound),
        unbind.op is UnbindRequest,
        client_step(bound.0, unbind, map, cache, now, next),
    ensures
        bound.0 == (ClientState::Authenticated { dn, policy }),
        next.1 is Disconnect,
{
}

/// A search that the session's policy does not permit never reaches the
/// backend or the cache: it is answered with an empty successful result.
pub proof fn lemma_denied_search_stays_local(
    dn: String,
    policy: usize,
    msg: LdapMsg,
    sr: SearchRequest,
    map: AuthMap,
    cache: ResultCache,
    now: u64,
    r: (ClientState, ClientAction),
)
    requires
        policy < map.entries@.len(),
        msg.op == LdapOp::SearchRequest(sr),
        !map.entries@[policy as int].1.permits_base(request_key(sr).0),
        client_step(ClientState::Authenticated { dn, policy }, msg, map, cache, now, r),
    ensures
        !(r.1 is ConnectAndBind),
        !(r.1 is ForwardSearch),
        r.1 matches ClientAction::Reply(m) && is_search_done(m, msg.msgid, RESULT_SUCCESS),
{
}

/// A search before any bind ends the session; nothing is forwarded.
pub proof fn lemma_search_before_bind_disconnects(
    msg: LdapMsg,
    sr: SearchRequest,
    map: AuthMap,
    cache: ResultCache,
    now: u64,
    r: (ClientState, ClientAction),
)
    requires
        msg.op == LdapOp::SearchRequest(sr),
        client_step(ClientState::Unbound, msg, map, cache, now, r),
    ensures
        r.1 is Disconnect,
{
}

} // verus!
