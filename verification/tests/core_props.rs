use cultivation_proxy::assets::{bg_file_action, collect_themes, join_path, BgAction, ThemeEntry};
use cultivation_proxy::ca::{
    CaManager, CertRecord, IssueError, KeyPair, LeafCache, RootAuthority, verify_leaf,
    LEAF_VALIDITY_SECS,
};
use cultivation_proxy::lifecycle::{connect_proxy, disconnect_proxy};
use cultivation_proxy::encoding::base64_decode;
use cultivation_proxy::http::{parse_connect_target, parse_request_head};
use cultivation_proxy::lifecycle::{contains_name, watcher_poll, ConfigError, ProxyState, WatcherState};
use cultivation_proxy::router::{relay_response, route_request, RedirectRule};
use cultivation_proxy::session::{session_step, SessionAction, SessionEvent, SessionState};
use cultivation_proxy::tls::client_hello_sni;
use cultivation_proxy::web::status_is_ok;

fn test_root() -> RootAuthority {
    RootAuthority {
        cert: CertRecord {
            subject: b"cultivation root".to_vec(),
            issuer_key: b"root-public".to_vec(),
            public_key: b"root-public".to_vec(),
            is_ca: true,
            not_before: 1_000,
            not_after: 200_000_000,
        },
        private_key: b"root-private".to_vec(),
    }
}

fn other_root() -> RootAuthority {
    RootAuthority {
        cert: CertRecord {
            subject: b"other root".to_vec(),
            issuer_key: b"other-public".to_vec(),
            public_key: b"other-public".to_vec(),
            is_ca: true,
            not_before: 5,
            not_after: 99,
        },
        private_key: b"other-private".to_vec(),
    }
}

#[test]
fn ensure_ca_installs_candidate() {
    let mut ca = CaManager::new();
    let first = ca.ensure_ca(test_root());
    assert_eq!(first.cert.subject, b"cultivation root".to_vec());
    assert_eq!(first.private_key, b"root-private".to_vec());
}

#[test]
fn ensure_ca_idempotent() {
    let mut ca = CaManager::new();
    let first = ca.ensure_ca(test_root());
    let second = ca.ensure_ca(other_root());
    assert_eq!(first.cert.subject, second.cert.subject);
    assert_eq!(first.cert.public_key, second.cert.public_key);
    assert_eq!(first.cert.issuer_key, second.cert.issuer_key);
    assert_eq!(first.cert.not_before, second.cert.not_before);
    assert_eq!(first.cert.not_after, second.cert.not_after);
    assert_eq!(first.private_key, second.private_key);
}

#[test]
fn ensure_ca_byte_identical_files() {
    let mut ca = CaManager::new();
    let first = ca.ensure_ca(test_root());
    let second = ca.ensure_ca(other_root());
    assert_eq!(first.cert.encode(), second.cert.encode());
    assert_eq!(first.private_key, second.private_key);
    // The encoding separates the fields: two different roots differ.
    assert_ne!(test_root().cert.encode(), other_root().cert.encode());
}

#[test]
fn leaf_validity() {
    let mut ca = CaManager::new();
    ca.ensure_ca(test_root());
    let now = 10_000u64;
    let fresh = KeyPair { private_key: b"leaf-private".to_vec(), public_key: b"leaf-public".to_vec() };
    let leaf = ca.issue_leaf(&b"api.example.com".to_vec(), fresh, now).unwrap();
    assert_eq!(leaf.cert.subject, b"api.example.com".to_vec());
    assert_eq!(leaf.cert.issuer_key, b"root-public".to_vec());
    assert!(!leaf.cert.is_ca);
    assert!(leaf.cert.not_before <= now && now <= leaf.cert.not_after);
    assert_eq!(leaf.cert.not_after, now + LEAF_VALIDITY_SECS);
    assert_eq!(leaf.cert.public_key, b"leaf-public".to_vec());
    assert_eq!(leaf.private_key, b"leaf-private".to_vec());
}

#[test]
fn leaf_verifies_against_root() {
    let mut ca = CaManager::new();
    let root = ca.ensure_ca(test_root());
    let now = 10_000u64;
    let fresh = KeyPair { private_key: b"lk".to_vec(), public_key: b"lp".to_vec() };
    let domain = b"play.example.net".to_vec();
    let leaf = ca.issue_leaf(&domain, fresh, now).unwrap();
    assert!(verify_leaf(&leaf.cert, &root.cert, &domain, now));
    assert!(verify_leaf(&leaf.cert, &root.cert, &domain, now + LEAF_VALIDITY_SECS));
    // Wrong domain, wrong root, or an expired clock must all be refused.
    assert!(!verify_leaf(&leaf.cert, &root.cert, &b"evil.example.net".to_vec(), now));
    assert!(!verify_leaf(&leaf.cert, &other_root().cert, &domain, now));
    assert!(!verify_leaf(&leaf.cert, &root.cert, &domain, now + LEAF_VALIDITY_SECS + 1));
    assert!(!verify_leaf(&leaf.cert, &root.cert, &domain, 1));
}

#[test]
fn leaf_cache_round_trip() {
    let mut ca = CaManager::new();
    ca.ensure_ca(test_root());
    let fresh = KeyPair { private_key: b"lk".to_vec(), public_key: b"lp".to_vec() };
    let domain = b"cdn.example.com".to_vec();
    let leaf = ca.issue_leaf(&domain, fresh, 50).unwrap();
    let mut cache = LeafCache::new();
    assert!(cache.lookup(&domain).is_none());
    cache.insert(domain.clone(), leaf);
    let hit = cache.lookup(&domain).unwrap();
    assert_eq!(hit.cert.subject, domain);
    assert!(cache.lookup(&b"other.example.com".to_vec()).is_none());
    cache.clear();
    assert!(cache.lookup(&domain).is_none());
}

#[test]
fn disconnect_invalidates_leaf_cache() {
    let mut ca = CaManager::new();
    ca.ensure_ca(test_root());
    let fresh = KeyPair { private_key: b"lk".to_vec(), public_key: b"lp".to_vec() };
    let domain = b"cdn.example.com".to_vec();
    let leaf = ca.issue_leaf(&domain, fresh, 50).unwrap();
    let mut cache = LeafCache::new();
    cache.insert(domain.clone(), leaf);
    let mut p = ProxyState::new();
    p.connect(8365).unwrap();
    disconnect_proxy(&mut p, &mut cache);
    assert!(!p.listening);
    assert!(cache.lookup(&domain).is_none());
}

#[test]
fn connect_proxy_establishes_root_then_listens() {
    let mut ca = CaManager::new();
    let mut p = ProxyState::new();
    let root = connect_proxy(&mut ca, &mut p, test_root(), 8365).unwrap();
    assert_eq!(root.cert.subject, b"cultivation root".to_vec());
    assert!(p.listening);
    assert_eq!(p.port, 8365);
    // An invalid port refuses the listener but the root stays on record.
    let mut p2 = ProxyState::new();
    let r = connect_proxy(&mut ca, &mut p2, other_root(), 0);
    assert!(matches!(r, Err(ConfigError::InvalidPort)));
    assert!(!p2.listening);
}

#[test]
fn leaf_needs_root() {
    let ca = CaManager::new();
    let fresh = KeyPair { private_key: b"k".to_vec(), public_key: b"p".to_vec() };
    let r = ca.issue_leaf(&b"example.org".to_vec(), fresh, 1);
    assert!(matches!(r, Err(IssueError::NoRoot)));
}

fn demo_rules() -> Vec<RedirectRule> {
    vec![RedirectRule {
        match_host: b"api.example.com".to_vec(),
        match_path: b"/foo".to_vec(),
        target_host: b"local.test".to_vec(),
        target_port: 9000,
        replace_path: None,
    }]
}

#[test]
fn rewrite_correctness_match() {
    let rules = demo_rules();
    let raw = b"GET /foo HTTP/1.1\r\nHost: api.example.com\r\n\r\n".to_vec();
    let d = route_request(&rules, &b"api.example.com".to_vec(), &raw);
    assert!(d.redirect);
    assert_eq!(d.host, b"local.test".to_vec());
    assert_eq!(d.port, 9000);
    assert_eq!(d.data, raw);
}

#[test]
fn rewrite_correctness_no_match() {
    let rules = demo_rules();
    let raw = b"GET /bar HTTP/1.1\r\nHost: api.example.com\r\n\r\n".to_vec();
    let d = route_request(&rules, &b"api.example.com".to_vec(), &raw);
    assert!(!d.redirect);
    assert_eq!(d.host, b"api.example.com".to_vec());
    assert_eq!(d.port, 443);
    assert_eq!(d.data, raw);
}

#[test]
fn relay_transparency_binary_body() {
    let rules = demo_rules();
    let mut raw = b"POST /upload HTTP/1.1\r\nHost: other.example.com\r\nContent-Length: 4\r\n\r\n".to_vec();
    raw.extend_from_slice(&[0u8, 159, 146, 150]);
    let d = route_request(&rules, &b"other.example.com".to_vec(), &raw);
    assert!(!d.redirect);
    assert_eq!(d.data, raw);
    let back = relay_response(&raw);
    assert_eq!(back, raw);
}

#[test]
fn relay_transparency_unparsable_head() {
    let rules = demo_rules();
    let raw = b"\x16\x03\x01garbage-without-head-end".to_vec();
    let d = route_request(&rules, &b"fallback.example.com".to_vec(), &raw);
    assert!(!d.redirect);
    assert_eq!(d.host, b"fallback.example.com".to_vec());
    assert_eq!(d.data, raw);
}

#[test]
fn path_prefix_replacement() {
    let rules = vec![RedirectRule {
        match_host: b"api.example.com".to_vec(),
        match_path: b"/foo".to_vec(),
        target_host: b"local.test".to_vec(),
        target_port: 9000,
        replace_path: Some(b"/v2/foo".to_vec()),
    }];
    let raw = b"GET /foo/x HTTP/1.1\r\nHost: api.example.com\r\n\r\nbody".to_vec();
    let d = route_request(&rules, &b"api.example.com".to_vec(), &raw);
    assert!(d.redirect);
    assert_eq!(
        d.data,
        b"GET /v2/foo/x HTTP/1.1\r\nHost: api.example.com\r\n\r\nbody".to_vec()
    );
}

#[test]
fn first_match_wins() {
    let rules = vec![
        RedirectRule {
            match_host: b"api.example.com".to_vec(),
            match_path: b"/".to_vec(),
            target_host: b"first.test".to_vec(),
            target_port: 1,
            replace_path: None,
        },
        RedirectRule {
            match_host: b"api.example.com".to_vec(),
            match_path: b"/foo".to_vec(),
            target_host: b"second.test".to_vec(),
            target_port: 2,
            replace_path: None,
        },
    ];
    let raw = b"GET /foo HTTP/1.1\r\nHost: api.example.com\r\n\r\n".to_vec();
    let d = route_request(&rules, &b"api.example.com".to_vec(), &raw);
    assert!(d.redirect);
    assert_eq!(d.host, b"first.test".to_vec());
    assert_eq!(d.port, 1);
}

#[test]
fn parse_head_extracts_parts() {
    let raw = b"GET /path/q HTTP/1.1\r\nAccept: */*\r\nhOsT:   api.example.com\r\n\r\n".to_vec();
    let h = parse_request_head(&raw).unwrap();
    assert_eq!(h.method, b"GET".to_vec());
    assert_eq!(h.target, b"/path/q".to_vec());
    assert_eq!(h.host.unwrap(), b"api.example.com".to_vec());
    assert_eq!(h.head_len, raw.len());
}

#[test]
fn parse_head_without_host() {
    let raw = b"GET / HTTP/1.1\r\nAccept: */*\r\n\r\ntail".to_vec();
    let h = parse_request_head(&raw).unwrap();
    assert_eq!(h.method, b"GET".to_vec());
    assert!(h.host.is_none());
    assert_eq!(h.head_len, raw.len() - 4);
}

#[test]
fn parse_head_rejects_torn_input() {
    let raw = b"GET / HTTP/1.1\r\nHost: a\r\n".to_vec();
    assert!(parse_request_head(&raw).is_none());
}

#[test]
fn connect_target_parsed() {
    let raw = b"CONNECT api.example.com:443 HTTP/1.1\r\nHost: api.example.com:443\r\n\r\n".to_vec();
    let (host, port) = parse_connect_target(&raw).unwrap();
    assert_eq!(host, b"api.example.com".to_vec());
    assert_eq!(port, 443);
    let raw2 = b"CONNECT h:65535 HTTP/1.1\r\n\r\n".to_vec();
    assert_eq!(parse_connect_target(&raw2).unwrap().1, 65535);
}

#[test]
fn connect_target_rejected() {
    // Port above the range, an ordinary GET, and a target without a colon.
    let raw = b"CONNECT api.example.com:70000 HTTP/1.1\r\n\r\n".to_vec();
    assert!(parse_connect_target(&raw).is_none());
    let raw2 = b"GET /x HTTP/1.1\r\n\r\n".to_vec();
    assert!(parse_connect_target(&raw2).is_none());
    let raw3 = b"CONNECT apiexamplecom HTTP/1.1\r\n\r\n".to_vec();
    assert!(parse_connect_target(&raw3).is_none());
    let raw4 = b"CONNECT api.example.com:4x3 HTTP/1.1\r\n\r\n".to_vec();
    assert!(parse_connect_target(&raw4).is_none());
}

/// A minimal TLS client hello whose extension block is `exts`.
fn client_hello_with(exts: &[u8]) -> Vec<u8> {
    let mut v = vec![22u8, 3, 1, 0, 0];
    v.extend_from_slice(&[1, 0, 0, 0]);
    v.extend_from_slice(&[3, 3]);
    v.extend_from_slice(&[0u8; 32]);
    v.push(0);
    v.extend_from_slice(&[0, 2, 0, 0x2f]);
    v.extend_from_slice(&[1, 0]);
    let total = exts.len() as u16;
    v.extend_from_slice(&total.to_be_bytes());
    v.extend_from_slice(exts);
    v
}

fn sni_extension(name: &[u8]) -> Vec<u8> {
    let mut e = vec![0u8, 0];
    let body_len = (name.len() + 5) as u16;
    e.extend_from_slice(&body_len.to_be_bytes());
    e.extend_from_slice(&((name.len() + 3) as u16).to_be_bytes());
    e.push(0);
    e.extend_from_slice(&(name.len() as u16).to_be_bytes());
    e.extend_from_slice(name);
    e
}

#[test]
fn sni_extracted_from_client_hello() {
    let hello = client_hello_with(&sni_extension(b"api.example.com"));
    let name = client_hello_sni(&hello).unwrap();
    assert_eq!(name, b"api.example.com".to_vec());
}

#[test]
fn sni_found_after_other_extensions() {
    let mut exts = vec![0u8, 0x0a, 0, 2, 0, 29];
    exts.extend_from_slice(&sni_extension(b"play.example.net"));
    let hello = client_hello_with(&exts);
    let name = client_hello_sni(&hello).unwrap();
    assert_eq!(name, b"play.example.net".to_vec());
}

#[test]
fn sni_absent_or_not_a_hello() {
    let hello = client_hello_with(&[0u8, 0x0a, 0, 2, 0, 29]);
    assert!(client_hello_sni(&hello).is_none());
    let not_tls = b"GET / HTTP/1.1\r\n\r\n".to_vec();
    assert!(client_hello_sni(&not_tls).is_none());
    assert!(client_hello_sni(&vec![22u8; 10]).is_none());
}

#[test]
fn watcher_teardown() {
    let mut w = WatcherState::new();
    let mut p = ProxyState::new();
    p.connect(8035).unwrap();
    w.enable_process_watcher(b"game.exe".to_vec());
    assert!(w.is_game_running());
    let live = vec![b"explorer.exe".to_vec(), b"init".to_vec()];
    let fired = watcher_poll(&mut w, &mut p, &live);
    assert!(fired);
    assert!(!w.is_game_running());
    assert!(!p.listening);
}

#[test]
fn watcher_keeps_live_process() {
    let mut w = WatcherState::new();
    let mut p = ProxyState::new();
    p.connect(8035).unwrap();
    w.enable_process_watcher(b"game.exe".to_vec());
    let live = vec![b"init".to_vec(), b"game.exe".to_vec()];
    let fired = watcher_poll(&mut w, &mut p, &live);
    assert!(!fired);
    assert!(w.is_game_running());
    assert!(p.listening);
}

#[test]
fn watcher_idle_without_name() {
    let mut w = WatcherState::new();
    let mut p = ProxyState::new();
    p.connect(8035).unwrap();
    let live: Vec<Vec<u8>> = Vec::new();
    let fired = watcher_poll(&mut w, &mut p, &live);
    assert!(!fired);
    assert!(p.listening);
}

#[test]
fn contains_name_finds_exact() {
    let live = vec![b"a".to_vec(), b"game.exe".to_vec()];
    assert!(contains_name(&live, &b"game.exe".to_vec()));
    assert!(!contains_name(&live, &b"game".to_vec()));
}

#[test]
fn connect_rejects_port_zero() {
    let mut p = ProxyState::new();
    let r = p.connect(0);
    assert!(matches!(r, Err(ConfigError::InvalidPort)));
    assert!(!p.listening);
}

#[test]
fn connect_twice_keeps_first_port() {
    let mut p = ProxyState::new();
    p.connect(8035).unwrap();
    p.connect(9999).unwrap();
    assert!(p.listening);
    assert_eq!(p.port, 8035);
    p.disconnect();
    p.disconnect();
    assert!(!p.listening);
    assert_eq!(p.port, 8035);
}

#[test]
fn session_happy_path() {
    let rules = demo_rules();
    let s = SessionState::Accepted;
    let (s, a) = session_step(s, SessionEvent::TargetHost { domain: b"api.example.com".to_vec() }, &rules);
    match &a {
        SessionAction::IssueLeafAndHandshake { domain } => assert_eq!(domain, &b"api.example.com".to_vec()),
        _ => panic!("expected a leaf to be minted"),
    }
    let (s, a) = session_step(s, SessionEvent::ClientHandshakeDone, &rules);
    match &a {
        SessionAction::DialUpstream { domain } => assert_eq!(domain, &b"api.example.com".to_vec()),
        _ => panic!("expected the upstream dial"),
    }
    let (s, a) = session_step(s, SessionEvent::UpstreamConnected, &rules);
    assert!(matches!(a, SessionAction::HandshakeUpstream));
    let (s, a) = session_step(s, SessionEvent::UpstreamHandshakeDone, &rules);
    assert!(matches!(a, SessionAction::Idle));
    let req = b"GET /foo HTTP/1.1\r\nHost: api.example.com\r\n\r\n".to_vec();
    let (s, a) = session_step(s, SessionEvent::ClientData { data: req.clone() }, &rules);
    match &a {
        SessionAction::Forward { decision } => {
            assert!(decision.redirect);
            assert_eq!(decision.host, b"local.test".to_vec());
            assert_eq!(decision.data, req);
        },
        _ => panic!("expected the request to be forwarded"),
    }
    match &s {
        SessionState::Relaying { rewritten, .. } => assert!(*rewritten),
        _ => panic!("expected the session to keep relaying"),
    }
    let resp = b"HTTP/1.1 200 OK\r\n\r\nhi".to_vec();
    let (s, a) = session_step(s, SessionEvent::UpstreamData { data: resp.clone() }, &rules);
    match &a {
        SessionAction::Respond { data } => assert_eq!(data, &resp),
        _ => panic!("expected the response to be handed back"),
    }
    let (s, a) = session_step(s, SessionEvent::PeerClosed, &rules);
    assert!(matches!(a, SessionAction::CloseBoth));
    assert!(matches!(s, SessionState::Closed));
}

#[test]
fn session_isolation_on_handshake_failure() {
    let rules = demo_rules();
    let mut p = ProxyState::new();
    p.connect(8035).unwrap();

    // First connection is accepted and its client handshake fails.
    assert!(p.on_accept());
    let s1 = SessionState::Accepted;
    let (s1, _) = session_step(s1, SessionEvent::TargetHost { domain: b"a.example.com".to_vec() }, &rules);
    let (s1, a1) = session_step(s1, SessionEvent::Fault, &rules);
    assert!(matches!(s1, SessionState::Failed));
    assert!(matches!(a1, SessionAction::CloseBoth));
    p.on_session_end();

    // The listener is untouched and a concurrent session completes.
    assert!(p.listening);
    assert!(p.on_accept());
    let s2 = SessionState::Accepted;
    let (s2, _) = session_step(s2, SessionEvent::TargetHost { domain: b"b.example.com".to_vec() }, &rules);
    let (s2, _) = session_step(s2, SessionEvent::ClientHandshakeDone, &rules);
    let (s2, _) = session_step(s2, SessionEvent::UpstreamConnected, &rules);
    let (s2, _) = session_step(s2, SessionEvent::UpstreamHandshakeDone, &rules);
    assert!(matches!(s2, SessionState::Relaying { .. }));
}

#[test]
fn session_fails_on_protocol_violation() {
    let rules = demo_rules();
    let (s, a) = session_step(SessionState::Accepted, SessionEvent::ClientHandshakeDone, &rules);
    assert!(matches!(s, SessionState::Failed));
    assert!(matches!(a, SessionAction::CloseBoth));
}

#[test]
fn base64_decodes_hello() {
    let r = base64_decode(&b"aGVsbG8=".to_vec()).unwrap();
    assert_eq!(r, b"hello".to_vec());
}

#[test]
fn base64_rejects_invalid() {
    assert!(base64_decode(&b"!!!not base64!!!".to_vec()).is_none());
}

#[test]
fn base64_empty_stays_empty() {
    let r = base64_decode(&Vec::new()).unwrap();
    assert!(r.is_empty());
}

#[test]
fn bg_action_cases() {
    assert_eq!(bg_file_action(true, false, false), BgAction::UseLocal);
    assert_eq!(bg_file_action(false, false, true), BgAction::Unavailable);
    assert_eq!(bg_file_action(false, true, false), BgAction::Unavailable);
    assert_eq!(bg_file_action(false, true, true), BgAction::CopyFromGame);
}

#[test]
fn join_path_uses_backslash() {
    let r = join_path(&b"C:\\data".to_vec(), &b"bg\\img.png".to_vec());
    assert_eq!(r, b"C:\\data\\bg\\img.png".to_vec());
}

#[test]
fn collect_themes_keeps_indexed_folders() {
    let entries = vec![
        ThemeEntry { path: b"themes/a".to_vec(), index_json: Some(b"{\"name\":\"a\"}".to_vec()) },
        ThemeEntry { path: b"themes/b".to_vec(), index_json: None },
        ThemeEntry { path: b"themes/c".to_vec(), index_json: Some(b"{}".to_vec()) },
    ];
    let themes = collect_themes(&entries);
    assert_eq!(themes.len(), 2);
    assert_eq!(themes[0].path, b"themes/a".to_vec());
    assert_eq!(themes[0].json, b"{\"name\":\"a\"}".to_vec());
    assert_eq!(themes[1].path, b"themes/c".to_vec());
}

#[test]
fn status_only_200_is_ok() {
    assert!(status_is_ok(200));
    assert!(!status_is_ok(204));
    assert!(!status_is_ok(404));
}
