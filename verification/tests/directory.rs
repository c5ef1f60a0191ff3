use peakrunner::announce::{status_fresh, Admission, AnnounceBook, ANNOUNCE_TTL_MS, FRESH_MS, MAX_ANNOUNCED,
    MIN_ANNOUNCE_GAP_MS};
use peakrunner::lan::{Directory, Refusal, Request, Response, MAX_PER_OWNER, STALE_MS};

/// IPv4 addresses as IPv6-mapped integers.
fn v4(a: u8, b: u8, c: u8, d: u8) -> u128 {
    0xffff_0000_0000 | (a as u128) << 24 | (b as u128) << 16 | (c as u128) << 8 | d as u128
}

fn reg(host: &str) -> Request {
    Request::Register { name: "Test".into(), host: host.into(), port: 7781, players: 0, max_players: 8, map: "Valley".into() }
}

fn handle(d: &mut Directory, request: Request, peer: u128) -> Response {
    let host_is_peer = match &request {
        Request::Register { host, .. } => host == "127.0.0.1",
        _ => false,
    };
    d.handle(request, peer, host_is_peer, true, 0)
}

#[test]
fn listings_require_owner_token_and_cannot_redirect_clients() {
    let ip = v4(127, 0, 0, 1);
    let mut state = Directory::new();
    assert!(matches!(handle(&mut state, reg("1.2.3.4"), ip), Response::Refused(_)));
    let Response::Registered { id, token } = handle(&mut state, reg("127.0.0.1"), ip) else { panic!() };
    assert!(matches!(handle(&mut state, Request::Unregister { id: id.clone(), token: "wrong".into() }, ip),
        Response::Refused(_)));
    assert_eq!(state.listings.len(), 1);
    assert!(matches!(handle(&mut state, Request::Heartbeat { id: id.clone(), token: token.clone(), players: 2 }, ip),
        Response::Done));
    assert!(matches!(handle(&mut state, Request::Unregister { id, token }, ip), Response::Done));
    assert!(state.listings.is_empty());
}

#[test]
fn registrations_get_hex_identities_and_are_listed() {
    let ip = v4(10, 0, 0, 2);
    let mut d = Directory::new();
    let Response::Registered { id, token } = d.handle(reg("10.0.0.2"), ip, true, true, 1000) else { panic!() };
    assert_eq!(id.len(), 16);
    assert_eq!(token.len(), 48);
    assert!(id.chars().chain(token.chars()).all(|c| c.is_ascii_digit() || ('a'..='f').contains(&c)));
    let Response::Servers(servers) = d.handle(Request::List, ip, false, false, 1000) else { panic!() };
    assert_eq!(servers.len(), 1);
    assert_eq!((servers[0].id.as_str(), servers[0].port, servers[0].map.as_str()), (id.as_str(), 7781, "Valley"));
    // Another address cannot keep it alive or take it down, even with the token.
    let other = v4(10, 0, 0, 3);
    assert!(matches!(d.handle(Request::Heartbeat { id: id.clone(), token: token.clone(), players: 1 }, other, false,
        false, 2000), Response::Refused(Refusal::NotAuthorized)));
    assert!(matches!(d.handle(Request::Unregister { id: id.clone(), token: token.clone() }, other, false, false, 2000),
        Response::Refused(Refusal::NotAuthorized)));
    assert!(matches!(d.handle(Request::Heartbeat { id: "nope".into(), token: token.clone(), players: 1 }, ip, false,
        false, 2000), Response::Refused(Refusal::UnknownServer)));
    assert!(matches!(d.handle(Request::Heartbeat { id: id.clone(), token: token.clone(), players: 9 }, ip, false,
        false, 2000), Response::Refused(Refusal::NotAuthorized)), "more players than seats");
    assert_eq!(d.heartbeat(&id, &token, 3, ip, 5000), Ok(()));
    assert_eq!((d.listings[0].advert.players, d.listings[0].seen_ms), (3, 5000));
    d.expire(5000 + STALE_MS - 1);
    assert_eq!(d.listings.len(), 1);
    d.expire(5000 + STALE_MS);
    assert!(d.listings.is_empty(), "a silent server lapses");
}

#[test]
fn bad_adverts_and_full_directories_are_refused() {
    let ip = v4(10, 0, 0, 2);
    let mut d = Directory::new();
    let ask = |name: &str, port: u16, players: u32, max_players: u32| Request::Register { name: name.into(),
        host: "10.0.0.2".into(), port, players, max_players, map: "Valley".into() };
    for bad in [ask("", 7781, 0, 8), ask(&"n".repeat(65), 7781, 0, 8), ask("a\u{7}b", 7781, 0, 8), ask("ok", 0, 0, 8),
        ask("ok", 7781, 3, 2), ask("ok", 7781, 0, 1), ask("ok", 7781, 0, 9)] {
        assert!(matches!(d.handle(bad, ip, true, true, 0), Response::Refused(Refusal::InvalidAdvert)));
    }
    assert!(matches!(d.handle(ask("ok", 7781, 0, 8), ip, true, false, 0), Response::Refused(Refusal::InvalidAdvert)),
        "unknown map");
    for _ in 0..MAX_PER_OWNER {
        assert!(matches!(d.handle(ask("ok", 7781, 0, 8), ip, true, true, 0), Response::Registered { .. }));
    }
    assert!(matches!(d.handle(ask("ok", 7781, 0, 8), ip, true, true, 0), Response::Refused(Refusal::ListingLimit)));
    assert_eq!(Refusal::ListingLimit.message(), "listing limit");
    assert_eq!(Refusal::InvalidAdvert.message(), "invalid advert; advertised IP must match registering peer");
    assert_eq!(Refusal::EntropyUnavailable.message(), "entropy unavailable");
}

#[test]
fn a_registration_reuses_its_identity_slot() {
    let ip = v4(192, 168, 1, 5);
    let mut d = Directory::new();
    let mut random = [7u8; 32];
    let (id, token) = d.register("Alpha".into(), "192.168.1.5".into(), 7000, 1, 4, "Valley".into(), random, ip, 10);
    assert_eq!(id, "0707070707070707");
    assert_eq!(token, "07".repeat(24));
    random[31] = 0xab;
    let (same, other) = d.register("Beta".into(), "192.168.1.5".into(), 7001, 2, 4, "Valley".into(), random, ip, 20);
    assert_eq!(same, id);
    assert!(other.ends_with("ab"));
    assert_eq!(d.listings.len(), 1, "the same identity replaces its listing");
    assert_eq!((d.listings[0].advert.name.as_str(), d.listings[0].token.as_str()), ("Beta", other.as_str()));
    assert_eq!(d.adverts()[0].port, 7001);
}

#[test]
fn announces_are_rate_limited_capped_and_owned() {
    let mut d: AnnounceBook<()> = AnnounceBook::new();
    let advertised = "quic://play.peakrunner.net:7777";
    let a = v4(198, 51, 100, 7);
    let b = v4(203, 0, 113, 9);
    let t0 = 1_000_000;
    assert_eq!(d.screen(advertised, "quic://play.peakrunner.net:7777", Some(Some(7777)), true, a, t0),
        Err(Admission::NoContent), "the backend is already listed");
    assert_eq!(d.screen(advertised, "https://x.example:7778", None, false, a, t0), Err(Admission::BadRequest));
    assert_eq!(d.screen(advertised, "quic://x.example:80", Some(Some(80)), true, a, t0), Err(Admission::BadRequest),
        "privileged ports refused");
    assert_eq!(d.screen(advertised, "quic://x.example:7778", Some(Some(7778)), true, a, t0), Ok(true));
    assert_eq!(d.screen(advertised, "quic://x.example:7779", Some(Some(7779)), true, a, t0),
        Err(Admission::TooManyRequests), "too soon");
    d.list("quic://x.example:7778".into(), a, (), t0).unwrap();
    let t1 = t0 + MIN_ANNOUNCE_GAP_MS;
    assert_eq!(d.screen(advertised, "quic://x.example:7778", Some(Some(7778)), true, a, t1), Ok(false),
        "a heartbeat refreshes");
    assert_eq!(d.screen(advertised, "quic://x.example:7778", Some(Some(7778)), true, b, t1), Err(Admission::Forbidden),
        "someone else can't take it over");
    for port in 7780..7783 {
        d.list(format!("quic://x.example:{port}"), a, (), t1).unwrap();
    }
    let t2 = t1 + MIN_ANNOUNCE_GAP_MS;
    assert_eq!(d.screen(advertised, "quic://x.example:7790", Some(Some(7790)), true, a, t2),
        Err(Admission::TooManyRequests), "per-address cap");
}

#[test]
fn announced_entries_lapse_and_the_directory_fills_up() {
    let mut d: AnnounceBook<u8> = AnnounceBook::new();
    let t0 = 5_000_000;
    for i in 0..MAX_ANNOUNCED as u128 {
        d.list(format!("quic://h{i}.example:8000"), 1000 + i, 1, t0).unwrap();
    }
    assert_eq!(d.list("quic://late.example:8000".into(), 7, 1, t0), Err(Admission::ServiceUnavailable));
    assert_eq!(d.screen("quic://home:7777", "quic://late.example:8000", Some(None), true, 7, t0),
        Err(Admission::ServiceUnavailable));
    // Relisting a known URL is not blocked by the cap.
    assert_eq!(d.list("quic://h0.example:8000".into(), 1000, 2, t0), Ok(()));
    assert_eq!(d.showing(t0).len(), MAX_ANNOUNCED);
    assert!(d.showing(t0 + FRESH_MS).is_empty(), "stale status reports hide entries");
    d.report("quic://h3.example:8000", 9, t0 + ANNOUNCE_TTL_MS - 1);
    assert_eq!(d.showing(t0 + ANNOUNCE_TTL_MS - 1), vec![3]);
    d.expire(t0 + ANNOUNCE_TTL_MS);
    assert!(d.entries.is_empty(), "announces stopped: every entry lapses");
    assert_eq!(Admission::TooManyRequests.code(), 429);
    assert_eq!(Admission::ServiceUnavailable.code(), 503);
    assert!(status_fresh(10, 10 + FRESH_MS - 1) && !status_fresh(10, 10 + FRESH_MS));
    assert!(status_fresh(50, 10), "a report stamped later than now is current");
}
