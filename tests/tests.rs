use ldap3_proto::proto::{LdapBindCred, LdapFilter, LdapResultCode};
use ldap_proxy::backend::{
    bind_reply, BackendSession, LdapError, Received, RelayStep, SearchRelay,
};
use ldap_proxy::cache::{CacheKey, CachedValue, ResultCache};
use ldap_proxy::connector::{after_attempt, first_action, AttemptOutcome, ConnectAction};
use ldap_proxy::message::{
    bind_operror, BindRequest, BindResponse, LdapMsg, LdapOp, LdapResult, PartialAttribute,
    SearchEntry, SearchRequest, SearchScope, RESULT_OPERATIONS_ERROR, RESULT_SUCCESS,
};
use ldap_proxy::policy::{AuthMap, DnConfig};
use ldap_proxy::proxy::{on_bind_result, on_client_message, on_connect_failure, ClientAction, ClientState};

fn result(code: i64) -> LdapResult {
    LdapResult {
        code,
        matcheddn: String::new(),
        message: String::new(),
        referral: Vec::new(),
    }
}

fn entry(dn: &str) -> SearchEntry {
    SearchEntry {
        dn: dn.to_string(),
        attributes: vec![PartialAttribute {
            atype: "cn".to_string(),
            vals: vec![b"x".to_vec()],
        }],
    }
}

fn search(base: &str) -> SearchRequest {
    SearchRequest {
        base: base.to_string(),
        scope: SearchScope::Subtree,
        aliases: 0,
        sizelimit: 0,
        timelimit: 0,
        typesonly: false,
        filter: LdapFilter::Present("objectClass".to_string()),
        filter_text: "(objectClass=*)".to_string(),
        attrs: vec!["cn".to_string()],
    }
}

fn search_msg(msgid: i32, base: &str) -> LdapMsg {
    LdapMsg { msgid, op: LdapOp::SearchRequest(search(base)), ctrl: Vec::new() }
}

fn bind_msg(msgid: i32, dn: &str) -> LdapMsg {
    LdapMsg {
        msgid,
        op: LdapOp::BindRequest(BindRequest {
            dn: dn.to_string(),
            cred: LdapBindCred::Simple("secret".to_string()),
        }),
        ctrl: Vec::new(),
    }
}

fn people_map() -> AuthMap {
    let mut map = AuthMap::new();
    map.insert(
        "cn=reader".to_string(),
        DnConfig { allowed_bases: vec!["ou=People".to_string()], cache_ttl: 100 },
    );
    map
}

fn value(valid_until: u64, dns: &[&str]) -> CachedValue {
    CachedValue {
        valid_until,
        entries: dns.iter().map(|d| entry(d)).collect(),
        result: result(RESULT_SUCCESS),
        ctrl: Vec::new(),
    }
}

fn key(base: &str) -> CacheKey {
    CacheKey::from_request(&search(base))
}

fn bound_state() -> ClientState {
    ClientState::Authenticated { dn: "cn=reader".to_string(), policy: 0 }
}

#[test]
fn hello_world() {
    assert_eq!(2 + 2, 4);
}

#[test]
fn test_cachedvalue() {
    let cv = CachedValue {
        valid_until: 60,
        entries: Vec::with_capacity(5),
        result: LdapResult {
            code: LdapResultCode::Busy as i64,
            matcheddn: "dn=doo".to_string(),
            message: "ohno".to_string(),
            referral: Vec::with_capacity(5),
        },
        ctrl: Vec::with_capacity(5),
    };
    assert_eq!(cv.size(), 144);
}

#[test]
fn size_counts_entries() {
    let cv = CachedValue {
        valid_until: 0,
        entries: vec![SearchEntry {
            dn: "cn=a".to_string(),
            attributes: vec![PartialAttribute {
                atype: "cn".to_string(),
                vals: vec![b"a".to_vec(), b"bc".to_vec()],
            }],
        }],
        result: result(RESULT_SUCCESS),
        ctrl: Vec::new(),
    };
    // record 144; entry 48 + 4; attribute 48 + 2; values 24 + 1 and 24 + 2
    assert_eq!(cv.size(), 144 + 52 + 50 + 25 + 26);
}

#[test]
fn size_ignores_expiry() {
    let a = value(10, &["cn=a", "cn=b"]);
    let b = value(99999, &["cn=a", "cn=b"]);
    assert_eq!(a.size(), b.size());
}

#[test]
fn cache_round_trip() {
    let mut cache = ResultCache::new(1_000_000);
    cache.put(key("ou=people"), value(0, &["cn=a", "cn=b"]), 10, 5);
    let got = cache.get(&key("ou=people"), 14).expect("fresh");
    assert_eq!(got.valid_until, 15);
    assert_eq!(got.entries.len(), 2);
    assert_eq!(got.entries[0].dn, "cn=a");
    assert_eq!(got.entries[1].dn, "cn=b");
    assert_eq!(got.result.code, RESULT_SUCCESS);
}

#[test]
fn cache_expiry() {
    let mut cache = ResultCache::new(1_000_000);
    cache.put(key("ou=people"), value(0, &["cn=a"]), 10, 5);
    assert!(cache.get(&key("ou=people"), 15).is_none());
    assert!(cache.get(&key("ou=people"), 100).is_none());
    assert!(cache.get(&key("ou=other"), 11).is_none());
}

#[test]
fn cache_replaces_same_key() {
    let mut cache = ResultCache::new(1_000_000);
    cache.put(key("ou=people"), value(0, &["cn=a"]), 0, 50);
    cache.put(key("OU=People "), value(0, &["cn=b", "cn=c"]), 0, 50);
    assert_eq!(cache.slots.len(), 1);
    let got = cache.get(&key("ou=people"), 1).unwrap();
    assert_eq!(got.entries.len(), 2);
}

#[test]
fn cache_evicts_oldest_over_budget() {
    let one = value(0, &["cn=a"]).size();
    let mut cache = ResultCache::new(one + one / 2);
    cache.put(key("ou=a"), value(0, &["cn=a"]), 0, 50);
    cache.put(key("ou=b"), value(0, &["cn=b"]), 0, 50);
    assert_eq!(cache.slots.len(), 1);
    assert!(cache.get(&key("ou=a"), 1).is_none());
    assert!(cache.get(&key("ou=b"), 1).is_some());
}

#[test]
fn cache_keeps_newest_even_when_too_large() {
    let mut cache = ResultCache::new(10);
    cache.put(key("ou=a"), value(0, &["cn=a"]), 0, 50);
    assert!(cache.get(&key("ou=a"), 1).is_some());
}

#[test]
fn key_is_normalised() {
    let k = key("  OU=People ");
    assert_eq!(k.base, "ou=people");
    assert_eq!(k.filter, "(objectclass=*)");
    assert_eq!(k.attrs, vec!["cn".to_string()]);
}

#[test]
fn policy_permits_subtree_only() {
    let config = DnConfig { allowed_bases: vec![" OU=People".to_string()], cache_ttl: 1 };
    assert!(config.permits(&"ou=people".to_string()));
    assert!(config.permits(&"uid=a,ou=people".to_string()));
    assert!(!config.permits(&"ou=peoplex".to_string()));
    assert!(!config.permits(&"uid=a,ou=groups".to_string()));
    assert!(!config.permits(&"xou=people".to_string()));
}

#[test]
fn unknown_dn_bind_is_refused() {
    let map = people_map();
    let cache = ResultCache::new(1000);
    let (state, action) = on_client_message(bound_state(), bind_msg(3, "cn=nobody"), &map, &cache, 0);
    assert!(matches!(state, ClientState::Unbound));
    match action {
        ClientAction::Reply(m) => {
            assert_eq!(m.msgid, 3);
            match m.op {
                LdapOp::BindResponse(b) => {
                    assert_eq!(b.res.code, RESULT_OPERATIONS_ERROR);
                    assert_eq!(b.res.message, "unable to bind");
                }
                _ => panic!("not a bind response"),
            }
        }
        _ => panic!("expected a reply"),
    }
}

#[test]
fn known_dn_bind_connects() {
    let map = people_map();
    let cache = ResultCache::new(1000);
    let (state, action) = on_client_message(ClientState::Unbound, bind_msg(1, "cn=reader"), &map, &cache, 0);
    assert!(matches!(state, ClientState::Unbound));
    match action {
        ClientAction::ConnectAndBind { msgid, dn, policy, request, .. } => {
            assert_eq!(msgid, 1);
            assert_eq!(dn, "cn=reader");
            assert_eq!(policy, 0);
            assert_eq!(request.dn, "cn=reader");
        }
        _ => panic!("expected a backend connection"),
    }
}

#[test]
fn bind_results() {
    let ok = BindResponse { res: result(RESULT_SUCCESS), saslcreds: None };
    let (state, action) = on_bind_result(4, "cn=reader".to_string(), 0, Ok((ok, Vec::new())));
    assert!(matches!(state, ClientState::Authenticated { policy: 0, .. }));
    assert!(matches!(action, ClientAction::Reply(LdapMsg { msgid: 4, .. })));

    let bad = BindResponse { res: result(LdapResultCode::InvalidCredentials as i64), saslcreds: None };
    let (state, action) = on_bind_result(4, "cn=reader".to_string(), 0, Ok((bad, Vec::new())));
    assert!(matches!(state, ClientState::Unbound));
    match action {
        ClientAction::Reply(LdapMsg { op: LdapOp::BindResponse(b), .. }) => {
            assert_eq!(b.res.code, 49)
        }
        _ => panic!("expected the backend's reply"),
    }

    let (state, action) = on_bind_result(4, "cn=reader".to_string(), 0, Err(LdapError::Transport));
    assert!(matches!(state, ClientState::Unbound));
    assert!(matches!(action, ClientAction::ReplyThenDisconnect(_)));

    let (_, action) = on_connect_failure(5);
    assert!(matches!(action, ClientAction::ReplyThenDisconnect(LdapMsg { msgid: 5, .. })));
}

#[test]
fn bind_then_unbind_disconnects() {
    let map = people_map();
    let cache = ResultCache::new(1000);
    let ok = BindResponse { res: result(RESULT_SUCCESS), saslcreds: None };
    let (state, _) = on_bind_result(1, "cn=reader".to_string(), 0, Ok((ok, Vec::new())));
    let unbind = LdapMsg { msgid: 2, op: LdapOp::UnbindRequest, ctrl: Vec::new() };
    let (_, action) = on_client_message(state, unbind, &map, &cache, 0);
    assert!(matches!(action, ClientAction::Disconnect));
}

#[test]
fn denied_search_gets_empty_success() {
    let map = people_map();
    let cache = ResultCache::new(1000);
    let (state, action) = on_client_message(bound_state(), search_msg(7, "ou=groups"), &map, &cache, 0);
    assert!(matches!(state, ClientState::Authenticated { .. }));
    match action {
        ClientAction::Reply(m) => {
            assert_eq!(m.msgid, 7);
            match m.op {
                LdapOp::SearchResultDone(r) => assert_eq!(r.code, RESULT_SUCCESS),
                _ => panic!("expected a search-done"),
            }
        }
        _ => panic!("expected a local reply"),
    }
}

#[test]
fn search_before_bind_disconnects() {
    let map = people_map();
    let cache = ResultCache::new(1000);
    let (_, action) = on_client_message(ClientState::Unbound, search_msg(1, "ou=people"), &map, &cache, 0);
    assert!(matches!(action, ClientAction::Disconnect));
}

#[test]
fn unsupported_operation_disconnects() {
    let map = people_map();
    let cache = ResultCache::new(1000);
    let msg = LdapMsg { msgid: 1, op: LdapOp::Unsupported, ctrl: Vec::new() };
    let (_, action) = on_client_message(bound_state(), msg, &map, &cache, 0);
    assert!(matches!(action, ClientAction::Disconnect));
}

#[test]
fn search_is_forwarded_then_served_from_cache() {
    let map = people_map();
    let mut cache = ResultCache::new(1_000_000);
    let mut backend_calls = 0;
    let mut state = bound_state();
    let mut client_saw: Vec<Vec<LdapMsg>> = Vec::new();
    for (round, now) in [(0, 10u64), (1, 50u64)] {
        let (next, action) = on_client_message(state, search_msg(10 + round, "uid=x,ou=people"), &map, &cache, now);
        state = next;
        let mut replies = Vec::new();
        match action {
            ClientAction::ForwardSearch { relay, .. } => {
                backend_calls += 1;
                let backend = vec![
                    LdapOp::SearchResultEntry(entry("cn=a,ou=people")),
                    LdapOp::SearchResultEntry(entry("cn=b,ou=people")),
                    LdapOp::SearchResultDone(result(RESULT_SUCCESS)),
                ];
                let mut relay: Option<SearchRelay> = Some(relay);
                for op in backend {
                    let msg = LdapMsg { msgid: 99, op, ctrl: Vec::new() };
                    match relay.take().unwrap().step(Received::Message(msg), &mut cache, now) {
                        RelayStep::Entry(next, out) => {
                            relay = Some(next);
                            replies.push(out);
                        }
                        RelayStep::Done(out) => replies.push(out),
                        RelayStep::Failed(..) => panic!("backend failed"),
                    }
                }
            }
            ClientAction::ReplyAll(msgs) => replies = msgs,
            _ => panic!("unexpected action"),
        }
        client_saw.push(replies);
    }
    assert_eq!(backend_calls, 1);
    for replies in &client_saw {
        assert_eq!(replies.len(), 3);
        let dns: Vec<String> = replies[..2]
            .iter()
            .map(|m| match &m.op {
                LdapOp::SearchResultEntry(e) => e.dn.clone(),
                _ => panic!("expected an entry"),
            })
            .collect();
        assert_eq!(dns, vec!["cn=a,ou=people".to_string(), "cn=b,ou=people".to_string()]);
        assert!(matches!(&replies[2].op, LdapOp::SearchResultDone(r) if r.code == RESULT_SUCCESS));
    }
    assert_eq!(client_saw[0][0].msgid, 10);
    assert_eq!(client_saw[1][0].msgid, 11);
}

#[test]
fn relay_failures() {
    let mut cache = ResultCache::new(1000);
    let relay = SearchRelay { msgid: 3, key: key("ou=people"), ttl: 5, entries: Vec::new() };
    match relay.step(Received::Fault, &mut cache, 0) {
        RelayStep::Failed(e, out) => {
            assert_eq!(e, LdapError::Transport);
            assert_eq!(out.msgid, 3);
        }
        _ => panic!("expected a failure"),
    }
    let relay = SearchRelay { msgid: 3, key: key("ou=people"), ttl: 5, entries: Vec::new() };
    match relay.step(Received::Closed, &mut cache, 0) {
        RelayStep::Failed(e, _) => assert_eq!(e, LdapError::InvalidProtocolState),
        _ => panic!("expected a failure"),
    }
    assert_eq!(cache.slots.len(), 0);
}

#[test]
fn message_ids_start_at_one() {
    let mut s = BackendSession::new();
    assert_eq!(s.next_msgid(), 1);
    assert_eq!(s.next_msgid(), 2);
    let req = BindRequest { dn: "cn=a".to_string(), cred: LdapBindCred::Simple(String::new()) };
    let m = s.bind_request(req, Vec::new());
    assert_eq!(m.msgid, 3);
    assert!(!s.exhausted());
}

#[test]
fn bind_reply_classification() {
    let ok = LdapMsg {
        msgid: 1,
        op: LdapOp::BindResponse(BindResponse { res: result(RESULT_SUCCESS), saslcreds: None }),
        ctrl: Vec::new(),
    };
    assert!(bind_reply(Received::Message(ok)).is_ok());
    let wrong = LdapMsg { msgid: 1, op: LdapOp::UnbindRequest, ctrl: Vec::new() };
    assert_eq!(bind_reply(Received::Message(wrong)).err(), Some(LdapError::InvalidProtocolState));
    assert_eq!(bind_reply(Received::Fault).err(), Some(LdapError::Transport));
    assert_eq!(bind_reply(Received::Closed).err(), Some(LdapError::InvalidProtocolState));
}

#[test]
fn operror_reply() {
    let m = bind_operror(9, "unable to bind");
    assert_eq!(m.msgid, 9);
    assert!(m.ctrl.is_empty());
}

#[test]
fn connector_empty_list_fails() {
    assert_eq!(first_action(0), ConnectAction::Fail(LdapError::ConnectError));
}

#[test]
fn connector_fails_over_to_last() {
    let n = 4;
    let mut action = first_action(n);
    let mut attempts = 0;
    loop {
        match action {
            ConnectAction::Attempt(i) => {
                attempts += 1;
                let outcome = if i == n - 1 {
                    AttemptOutcome::Connected
                } else if i % 2 == 0 {
                    AttemptOutcome::Refused
                } else {
                    AttemptOutcome::TimedOut
                };
                action = after_attempt(n, i, outcome);
            }
            _ => break,
        }
    }
    assert_eq!(action, ConnectAction::Handshake(3));
    assert_eq!(attempts, 4);
    assert_eq!(after_attempt(2, 1, AttemptOutcome::Refused), ConnectAction::Fail(LdapError::ConnectError));
}
