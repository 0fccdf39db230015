//! The protocol side of a backend session: message identifiers, and what the
//! single response to a request means.
use crate::cache::{came_from, key_view, total_size, CacheKey, CachedValue, ResultCache};
use crate::message::{
    copy_controls, entry_equal, result_equal, BindRequest, BindResponse, LdapMsg, LdapOp,
    LdapResult, SearchEntry, SearchRequest, RESULT_OPERATIONS_ERROR,
};
use ldap3_proto::control::LdapControl;
use vstd::prelude::*;

verus! {

#[derive(Clone, Copy, PartialEq, Eq, Structural, Debug)]
pub enum LdapError {
    TlsError,
    ConnectError,
    Transport,
    InvalidProtocolState,
}

/// What the backend transport yielded when a response was awaited.
pub enum Received {
    Message(LdapMsg),
    /// The transport failed to read or decode.
    Fault,
    /// The transport closed.
    Closed,
}

/// Message identifiers of one backend session: the last one handed out,
/// 0 before the first request.
pub struct BackendSession {
    pub msg_counter: i32,
}

impl BackendSession {
    pub fn new() -> (r: BackendSession)
        ensures
            r.msg_counter == 0,
    {
        BackendSession { msg_counter: 0 }
    }

    /// No identifier is left to hand out.
    pub fn exhausted(&self) -> (r: bool)
        ensures
            r == (self.msg_counter == i32::MAX),
    {
        self.msg_counter == i32::MAX
    }

    pub fn next_msgid(&mut self) -> (r: i32)
        requires
            old(self).msg_counter < i32::MAX,
        ensures
            final(self).msg_counter == old(self).msg_counter + 1,
            r == final(self).msg_counter,
    {
        self.msg_counter = self.msg_counter + 1;
        self.msg_counter
    }

    /// The bind request to send, under the next identifier.
    pub fn bind_request(&mut self, lbr: BindRequest, ctrl: Vec<LdapControl>) -> (r: LdapMsg)
        requires
            old(self).msg_counter < i32::MAX,
        ensures
            final(self).msg_counter == old(self).msg_counter + 1,
            r == (LdapMsg { msgid: final(self).msg_counter, op: LdapOp::BindRequest(lbr), ctrl }),
    {
        let msgid = self.next_msgid();
        LdapMsg { msgid, op: LdapOp::BindRequest(lbr), ctrl }
    }

    /// The search request to send, under the next identifier.
    pub fn search_request(&mut self, sr: SearchRequest, ctrl: Vec<LdapControl>) -> (r: LdapMsg)
        requires
            old(self).msg_counter < i32::MAX,
        ensures
            final(self).msg_counter == old(self).msg_counter + 1,
            r == (LdapMsg { msgid: final(self).msg_counter, op: LdapOp::SearchRequest(sr), ctrl }),
    {
        let msgid = self.next_msgid();
        LdapMsg { msgid, op: LdapOp::SearchRequest(sr), ctrl }
    }
}

/// The meaning of what came back for a bind request: the bind response and
/// its controls, a transport error, or a protocol-state error for any other
/// message or a closed connection.
pub fn bind_reply(received: Received) -> (r: Result<(BindResponse, Vec<LdapControl>), LdapError>)
    ensures
        match received {
            Received::Message(m) => match m.op {
                LdapOp::BindResponse(b) => r == Ok::<_, LdapError>((b, m.ctrl)),
                _ => r == Err::<(BindResponse, Vec<LdapControl>), _>(LdapError::InvalidProtocolState),
            },
            Received::Fault => r == Err::<(BindResponse, Vec<LdapControl>), _>(LdapError::Transport),
            Received::Closed => r == Err::<(BindResponse, Vec<LdapControl>), _>(
                LdapError::InvalidProtocolState,
            ),
        },
{
    match received {
        Received::Message(m) => match m.op {
            LdapOp::BindResponse(b) => Ok((b, m.ctrl)),
            _ => Err(LdapError::InvalidProtocolState),
        },
        Received::Fault => Err(LdapError::Transport),
        Received::Closed => Err(LdapError::InvalidProtocolState),
    }
}

/// A search-done reply with the given code and no further detail.
pub open spec fn is_search_done(m: LdapMsg, msgid: i32, code: i64) -> bool {
    &&& m.msgid == msgid
    &&& m.ctrl@.len() == 0
    &&& m.op matches LdapOp::SearchResultDone(res) && res.code == code && res.matcheddn@.len()
        == 0 && res.message@.len() == 0 && res.referral@.len() == 0
}

/// The search-done reply that ends a search with `code`.
pub fn search_done(msgid: i32, code: i64) -> (r: LdapMsg)
    ensures
        is_search_done(r, msgid, code),
{
    LdapMsg {
        msgid,
        op: LdapOp::SearchResultDone(
            LdapResult {
                code,
                matcheddn: String::new(),
                message: String::new(),
                referral: Vec::new(),
            },
        ),
        ctrl: Vec::new(),
    }
}

/// A search forwarded to the backend: the client's message identifier, where
/// its result goes in the cache and for how long, and the entries so far.
pub struct SearchRelay {
    pub msgid: i32,
    pub key: CacheKey,
    pub ttl: u64,
    pub entries: Vec<SearchEntry>,
}

pub enum RelayStep {
    /// Pass this entry on to the client and await the next message.
    Entry(SearchRelay, LdapMsg),
    /// Pass this final result on to the client: the search is complete.
    Done(LdapMsg),
    /// The backend link failed: send this generic failure and end the session.
    Failed(LdapError, LdapMsg),
}

impl SearchRelay {
    /// Handles what the backend sent next for this search. Entries are passed
    /// on as they come; the final result is passed on and the complete result
    /// set stored in the cache, fresh for `ttl` from `now` (unless that instant
    /// lies beyond the clock's range).
    pub fn step(self, received: Received, cache: &mut ResultCache, now: u64) -> (r: RelayStep)
        requires
            old(cache).wf(),
        ensures
            final(cache).wf(),
            match received {
                Received::Message(m) => match m.op {
                    LdapOp::SearchResultEntry(e) => {
                        &&& *final(cache) == *old(cache)
                        &&& r matches RelayStep::Entry(next, out)
                        && out == (LdapMsg { msgid: self.msgid, op: LdapOp::SearchResultEntry(e), ctrl: m.ctrl })
                        && next.msgid == self.msgid && next.key == self.key && next.ttl == self.ttl
                        && next.entries@.len() == self.entries@.len() + 1
                        && next.entries@.drop_last() == self.entries@
                        && entry_equal(next.entries@.last(), e)
                    },
                    LdapOp::SearchResultDone(res) => {
                        &&& r matches RelayStep::Done(out) && out.msgid == self.msgid
                            && out.op == LdapOp::SearchResultDone(res) && out.ctrl == m.ctrl
                        &&& now + self.ttl <= u64::MAX ==> {
                            &&& final(cache).slots@.len() >= 1
                            &&& final(cache).slots@.last().0 == self.key
                            &&& final(cache).slots@.last().1.valid_until == now + self.ttl
                            &&& final(cache).slots@.last().1.entries == self.entries
                            &&& result_equal(final(cache).slots@.last().1.result, res)
                            &&& final(cache).slots@.last().1.ctrl@ == m.ctrl@
                            &&& final(cache).budget == old(cache).budget
                            &&& forall|j: int|
                                0 <= j < final(cache).slots@.len() - 1 ==> came_from(
                                    #[trigger] final(cache).slots@[j],
                                    old(cache).slots@,
                                    key_view(self.key),
                                )
                            &&& total_size(final(cache).slots@) <= final(cache).budget
                                || final(cache).slots@.len() == 1
                        }
                        &&& now + self.ttl > u64::MAX ==> *final(cache) == *old(cache)
                    },
                    _ => {
                        &&& *final(cache) == *old(cache)
                        &&& r matches RelayStep::Failed(err, out)
                        && err == LdapError::InvalidProtocolState
                        && is_search_done(out, self.msgid, RESULT_OPERATIONS_ERROR)
                    },
                },
                Received::Fault => {
                        &&& *final(cache) == *old(cache)
                        &&& r matches RelayStep::Failed(err, out)
                    && err == LdapError::Transport
                    && is_search_done(out, self.msgid, RESULT_OPERATIONS_ERROR)
                    },
                Received::Closed => {
                        &&& *final(cache) == *old(cache)
                        &&& r matches RelayStep::Failed(err, out)
                    && err == LdapError::InvalidProtocolState
                    && is_search_done(out, self.msgid, RESULT_OPERATIONS_ERROR)
                    },
            },
    {
        let msgid = self.msgid;
        match received {
            Received::Message(m) => match m.op {
                LdapOp::SearchResultEntry(e) => {
                    let mut entries = self.entries;
                    entries.push(e.duplicate());
                    let next = SearchRelay { msgid, key: self.key, ttl: self.ttl, entries };
                    RelayStep::Entry(next, LdapMsg { msgid, op: LdapOp::SearchResultEntry(e), ctrl: m.ctrl })
                },
                LdapOp::SearchResultDone(res) => {
                    if now <= u64::MAX - self.ttl {
                        let value = CachedValue {
                            valid_until: 0,
                            entries: self.entries,
                            result: res.duplicate(),
                            ctrl: copy_controls(&m.ctrl),
                        };
                        cache.put(self.key, value, now, self.ttl);
                    }
                    RelayStep::Done(LdapMsg { msgid, op: LdapOp::SearchResultDone(res), ctrl: m.ctrl })
                },
                _ => RelayStep::Failed(
                    LdapError::InvalidProtocolState,
                    search_done(msgid, RESULT_OPERATIONS_ERROR),
                ),
            },
            Received::Fault => RelayStep::Failed(
                LdapError::Transport,
                search_done(msgid, RESULT_OPERATIONS_ERROR),
            ),
            Received::Closed => RelayStep::Failed(
                LdapError::InvalidProtocolState,
                search_done(msgid, RESULT_OPERATIONS_ERROR),
            ),
        }
    }
}

} // verus!
