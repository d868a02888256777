use monitor::plugin::http::{
    address_is_blocked, log_host, plugin_http_fetch, request_timeout_ms, start_fetch, target_of, Address,
    Fetch, FetchEvent, ERR_SSRF,
};

fn v4(octets: [u8; 4]) -> Address {
    Address::V4 { octets }
}

fn v6(segments: [u16; 8]) -> Address {
    Address::V6 { segments }
}

#[test]
fn address_is_blocked_classifies_private_and_reserved_ranges() {
    for blocked in [
        v4([10, 1, 2, 3]),
        v4([172, 16, 0, 1]),
        v4([172, 31, 255, 255]),
        v4([192, 168, 1, 1]),
        v4([127, 0, 0, 1]),
        v4([127, 9, 9, 9]),
        v4([169, 254, 169, 254]),
        v4([169, 254, 0, 1]),
        v4([0, 0, 0, 0]),
        v4([255, 255, 255, 255]),
        v4([100, 64, 0, 1]),
        v4([100, 127, 255, 255]),
        v4([192, 0, 0, 1]),
        v4([198, 18, 0, 1]),
        v4([240, 0, 0, 1]),
        v4([224, 0, 0, 1]),
        v6([0, 0, 0, 0, 0, 0, 0, 1]),
        v6([0, 0, 0, 0, 0, 0, 0, 0]),
        v6([0xfc00, 0, 0, 0, 0, 0, 0, 1]),
        v6([0xfd12, 0x3456, 0, 0, 0, 0, 0, 1]),
        v6([0xfe80, 0, 0, 0, 0, 0, 0, 1]),
        v6([0xff02, 0, 0, 0, 0, 0, 0, 1]),
        v6([0, 0, 0, 0, 0, 0xffff, 0x7f00, 1]),
        v6([0, 0, 0, 0, 0, 0xffff, 0x0a00, 1]),
    ] {
        assert!(address_is_blocked(blocked), "{blocked:?}");
    }
    for allowed in [
        v4([8, 8, 8, 8]),
        v4([1, 1, 1, 1]),
        v4([172, 32, 0, 1]),
        v4([100, 63, 255, 255]),
        v6([0x2606, 0x4700, 0, 0, 0, 0, 0, 0x1111]),
    ] {
        assert!(!address_is_blocked(allowed), "{allowed:?}");
    }
}

#[test]
fn documentation_and_edges_of_ranges() {
    for blocked in [v4([192, 0, 2, 1]), v4([198, 51, 100, 7]), v4([203, 0, 113, 9]), v4([198, 19, 255, 255])] {
        assert!(address_is_blocked(blocked), "{blocked:?}");
    }
    for allowed in [
        v4([192, 0, 1, 1]),
        v4([198, 20, 0, 1]),
        v4([0, 0, 0, 1]),
        v4([223, 255, 255, 255]),
        v4([172, 15, 0, 1]),
        v6([0xfec0, 0, 0, 0, 0, 0, 0, 1]),
        v6([0, 0, 0, 0, 0, 0xffff, 0x0808, 0x0808]),
        v6([0, 0, 0, 0, 0, 0, 0, 2]),
    ] {
        assert!(!address_is_blocked(allowed), "{allowed:?}");
    }
}

fn run(url: &str, literal: Option<Address>, resolved: Option<Vec<Address>>) -> Result<(), i32> {
    match plugin_http_fetch(url, 10) {
        Fetch::Done { result } => result.map(|_| ()),
        check => match check.next(FetchEvent::Literal(literal)) {
            Fetch::Done { result } => result.map(|_| ()),
            Fetch::Send { .. } => Ok(()),
            resolve => match resolve.next(FetchEvent::Resolved(resolved)) {
                Fetch::Done { result } => result.map(|_| ()),
                _ => Ok(()),
            },
        },
    }
}

#[test]
fn http_target_is_allowed_refuses_private_hosts() {
    for (url, literal) in [
        ("https://127.0.0.1/hook", v4([127, 0, 0, 1])),
        ("https://169.254.169.254/latest/meta-data", v4([169, 254, 169, 254])),
        ("https://10.1.2.3/x", v4([10, 1, 2, 3])),
        ("https://192.168.1.1/x", v4([192, 168, 1, 1])),
        ("https://[::1]/x", v6([0, 0, 0, 0, 0, 0, 0, 1])),
    ] {
        assert_eq!(run(url, Some(literal), None), Err(ERR_SSRF), "{url}");
    }
    assert_eq!(run("https://localhost/x", None, Some(vec![v4([127, 0, 0, 1])])), Err(ERR_SSRF));
    assert_eq!(run("https://", None, None), Err(-2));
}

#[test]
fn a_host_with_one_blocked_address_is_refused() {
    let public = v4([1, 1, 1, 1]);
    assert_eq!(run("https://example.com/", None, Some(vec![public, v4([10, 0, 0, 1])])), Err(-9));
    assert_eq!(run("https://example.com/", None, Some(vec![public])), Ok(()));
    assert_eq!(run("https://example.com/", None, None), Err(-4), "no answer in time");
    assert_eq!(run("https://example.com/", Some(public), None), Ok(()));
}

#[test]
fn targets_come_from_the_url() {
    let t = target_of("https://[::1]:8443/x").ok().unwrap();
    assert_eq!((t.host.as_str(), t.port), ("::1", 8443));
    let t = target_of("https://Example.COM/a?b").ok().unwrap();
    assert_eq!((t.host.as_str(), t.port), ("example.com", 443));
    assert_eq!(target_of("not a url").err(), Some(-2));
    assert_eq!(target_of("data:text/plain,x").err(), Some(-2));
}

fn body(cap: usize, success: bool, pieces: &[&[u8]]) -> Result<Vec<u8>, i32> {
    let mut state = plugin_http_fetch("https://example.com/", cap)
        .next(FetchEvent::Literal(Some(v4([1, 1, 1, 1]))))
        .next(FetchEvent::Answered(Some(success)));
    for piece in pieces {
        state = state.next(FetchEvent::Piece(piece.to_vec()));
    }
    match state.next(FetchEvent::End) {
        Fetch::Done { result } => result,
        _ => panic!("the body has ended"),
    }
}

#[test]
fn bodies_are_cut_at_the_bound() {
    assert_eq!(body(5, true, &[b"abc", b"def", b"ghi"]), Ok(b"abcde".to_vec()));
    assert_eq!(body(9, true, &[b"abc", b"def"]), Ok(b"abcdef".to_vec()));
    assert_eq!(body(0, true, &[b"abc"]), Ok(Vec::new()));
    assert_eq!(body(9, false, &[b"abc"]), Err(-5));
    assert_eq!(body(0, false, &[]), Err(-5));
}

#[test]
fn a_broken_network_ends_a_fetch() {
    let sent = || {
        plugin_http_fetch("https://example.com/", 5).next(FetchEvent::Literal(Some(v4([1, 1, 1, 1]))))
    };
    assert!(matches!(sent().next(FetchEvent::Answered(None)), Fetch::Done { result: Err(-4) }));
    let reading = sent().next(FetchEvent::Answered(Some(true)));
    assert!(matches!(reading.next(FetchEvent::Broken), Fetch::Done { result: Err(-4) }));
    assert!(matches!(sent().next(FetchEvent::End), Fetch::Send { cap: 5 }), "a stray event");
    assert!(matches!(start_fetch(Err(-2), 5), Fetch::Done { result: Err(-2) }));
}

#[test]
fn timeouts_shrink_with_the_call() {
    assert_eq!(request_timeout_ms(1_000), 1_000);
    assert_eq!(request_timeout_ms(60_000), 4_000);
}

#[test]
fn only_the_host_is_logged() {
    assert_eq!(log_host("https://api.example.com/bot123:secret/send?x=1"), "api.example.com");
    assert_eq!(log_host("https://h"), "h");
    assert_eq!(log_host("https:/"), "");
    assert_eq!(log_host(""), "");
}
