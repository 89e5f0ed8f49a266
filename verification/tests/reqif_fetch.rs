use kr0ki_core::reqif_fetch::{accept_chunk, check_resolved, fetch_step, follow_redirect, is_disallowed_address, plan_hop, start_fetch, transport_error, FetchAction, FetchConfig, FetchError, FetchEvent, FetchPhase, HopPlan, IpAddress};
use kr0ki_core::reqif_import::DEFAULT_MAX_REQIF_IMPORT_BYTES;

fn v4(a: u8, b: u8, c: u8, d: u8) -> IpAddress {
    IpAddress::V4(a, b, c, d)
}

#[test]
fn loopback_v4_is_disallowed() {
    assert!(is_disallowed_address(v4(127, 0, 0, 1)));
}

#[test]
fn loopback_v6_is_disallowed() {
    assert!(is_disallowed_address(IpAddress::V6(0, 0, 0, 0, 0, 0, 0, 1)));
}

#[test]
fn private_v4_ranges_are_disallowed() {
    assert!(is_disallowed_address(v4(10, 0, 0, 1)));
    assert!(is_disallowed_address(v4(172, 16, 0, 1)));
    assert!(is_disallowed_address(v4(192, 168, 1, 1)));
}

#[test]
fn link_local_v4_including_cloud_metadata_is_disallowed() {
    assert!(is_disallowed_address(v4(169, 254, 169, 254)));
}

#[test]
fn unique_local_and_link_local_v6_are_disallowed() {
    assert!(is_disallowed_address(IpAddress::V6(0xfc00, 0, 0, 0, 0, 0, 0, 1)));
    assert!(is_disallowed_address(IpAddress::V6(0xfe80, 0, 0, 0, 0, 0, 0, 1)));
}

#[test]
fn ipv4_mapped_ipv6_private_address_is_disallowed() {
    let mapped = IpAddress::V6(0, 0, 0, 0, 0, 0xffff, 0x0a00, 0x0001);
    assert!(is_disallowed_address(mapped));
}

#[test]
fn a_normal_public_v4_address_is_allowed() {
    assert!(!is_disallowed_address(v4(8, 8, 8, 8)));
    assert!(!is_disallowed_address(IpAddress::V6(0x2001, 0x4860, 0x4860, 0, 0, 0, 0, 0x8888)));
}

#[test]
fn other_reserved_ranges() {
    assert!(is_disallowed_address(v4(0, 0, 0, 0)));
    assert!(is_disallowed_address(v4(224, 0, 0, 1)));
    assert!(is_disallowed_address(v4(255, 255, 255, 255)));
    assert!(is_disallowed_address(v4(192, 0, 2, 1)));
    assert!(is_disallowed_address(v4(198, 51, 100, 7)));
    assert!(is_disallowed_address(v4(203, 0, 113, 9)));
    assert!(is_disallowed_address(IpAddress::V6(0xff02, 0, 0, 0, 0, 0, 0, 1)));
    assert!(!is_disallowed_address(v4(172, 32, 0, 1)));
}

#[test]
fn non_https_scheme_is_rejected_before_resolution() {
    match plan_hop("http://example.com/doc.reqif", false) {
        HopPlan::Fail(FetchError::UnsupportedScheme { scheme }) => assert_eq!(scheme, "http"),
        other => panic!("unexpected {other:?}"),
    }
}

#[test]
fn https_urls_are_resolved_on_their_port() {
    match plan_hop("https://example.com/doc.reqif", false) {
        HopPlan::Resolve(hop) => {
            assert_eq!(hop.host, "example.com");
            assert_eq!(hop.port, 443);
            assert_eq!(hop.url, "https://example.com/doc.reqif");
        }
        other => panic!("unexpected {other:?}"),
    }
    match plan_hop("https://[fc00::1]:8443/doc.reqif", false) {
        HopPlan::Resolve(hop) => {
            assert_eq!(hop.host, "[fc00::1]");
            assert_eq!(hop.port, 8443);
        }
        other => panic!("unexpected {other:?}"),
    }
    assert!(matches!(plan_hop("not a url", false), HopPlan::Fail(FetchError::InvalidUrl(_))));
    assert!(matches!(plan_hop("https://example.com/", true), HopPlan::Fail(FetchError::Timeout)));
}

#[test]
fn loopback_literal_is_rejected() {
    assert_eq!(
        check_resolved("127.0.0.1", &[v4(127, 0, 0, 1)]),
        Err(FetchError::DisallowedAddress(v4(127, 0, 0, 1)))
    );
}

#[test]
fn cloud_metadata_endpoint_is_rejected() {
    assert_eq!(
        check_resolved("169.254.169.254", &[v4(169, 254, 169, 254)]),
        Err(FetchError::DisallowedAddress(v4(169, 254, 169, 254)))
    );
}

#[test]
fn private_ipv6_literal_is_rejected() {
    let addr = IpAddress::V6(0xfc00, 0, 0, 0, 0, 0, 0, 1);
    assert_eq!(check_resolved("[fc00::1]", &[addr]), Err(FetchError::DisallowedAddress(addr)));
}

#[test]
fn every_resolved_address_is_checked_and_the_first_is_pinned() {
    assert_eq!(check_resolved("h", &[v4(8, 8, 8, 8), v4(1, 1, 1, 1)]), Ok(v4(8, 8, 8, 8)));
    assert_eq!(
        check_resolved("h", &[v4(8, 8, 8, 8), v4(10, 1, 2, 3)]),
        Err(FetchError::DisallowedAddress(v4(10, 1, 2, 3)))
    );
    assert_eq!(check_resolved("h", &[]), Err(FetchError::Resolution("no addresses for h".into())));
}

#[test]
fn redirects_are_counted_and_joined() {
    assert_eq!(
        follow_redirect("https://a.example/x/y", 0, 3, Some("/z")),
        Ok(("https://a.example/z".to_string(), 1))
    );
    assert_eq!(
        follow_redirect("https://a.example/", 3, 3, Some("/z")),
        Err(FetchError::TooManyRedirects { max: 3 })
    );
    assert_eq!(
        follow_redirect("https://a.example/", 0, 3, None),
        Err(FetchError::DisallowedRedirect("redirect with no Location header".into()))
    );
}

#[test]
fn oversized_response_is_aborted_mid_stream() {
    let mut body = Vec::new();
    assert_eq!(accept_chunk(&mut body, &[1; 600], 1024), Ok(()));
    assert_eq!(accept_chunk(&mut body, &[2; 600], 1024), Err(FetchError::TooLarge { maximum: 1024 }));
    assert_eq!(body.len(), 600);
    assert_eq!(accept_chunk(&mut body, &[3; 424], 1024), Ok(()));
    assert_eq!(body.len(), 1024);
}

#[test]
fn default_config_and_transport_errors() {
    let config = FetchConfig::default();
    assert_eq!(config.max_bytes, DEFAULT_MAX_REQIF_IMPORT_BYTES);
    assert_eq!(config.max_redirects, 3);
    assert_eq!(config.timeout, std::time::Duration::from_secs(15));
    assert_eq!(transport_error(true, "slow".into()), FetchError::Timeout);
    assert_eq!(transport_error(false, "reset".into()), FetchError::Http("reset".into()));
}

fn stream(chunks: &[&[u8]], max_bytes: usize) -> Result<Vec<u8>, FetchError> {
    let mut body = Vec::new();
    for chunk in chunks {
        accept_chunk(&mut body, chunk, max_bytes)?;
    }
    Ok(body)
}

#[test]
fn a_streamed_body_is_refused_exactly_when_it_passes_the_limit() {
    assert_eq!(stream(&[&[1, 2, 3], &[4, 5]], 5), Ok(vec![1, 2, 3, 4, 5]));
    assert_eq!(stream(&[&[1, 2, 3], &[4, 5], &[6]], 5), Err(FetchError::TooLarge { maximum: 5 }));
    assert_eq!(stream(&[&[], &[1; 5], &[]], 5), Ok(vec![1; 5]));
    assert_eq!(stream(&[], 0), Ok(Vec::new()));
}

#[test]
fn a_fetch_steps_through_plan_resolve_request_redirect_and_stream() {
    let state = start_fetch("https://example.com/a", 1);
    let (state, action) = fetch_step(state, FetchEvent::Clock { deadline_passed: false });
    assert!(matches!(&action, FetchAction::Resolve { host, port } if host == "example.com" && *port == 443));
    let public = IpAddress::V4(93, 184, 216, 34);
    let (state, action) = fetch_step(state, FetchEvent::Resolved(vec![public]));
    match &action {
        FetchAction::Request { url, host, port, address } => {
            assert_eq!(url, "https://example.com/a");
            assert_eq!(host, "example.com");
            assert_eq!(*port, 443);
            assert_eq!(*address, public);
        }
        _ => panic!("expected a request"),
    }
    let (state, action) = fetch_step(state, FetchEvent::Redirect(Some("/b".to_string())));
    assert!(matches!(action, FetchAction::CheckClock));
    assert_eq!(state.current, "https://example.com/b");
    assert_eq!(state.redirects, 1);
    let (state, _) = fetch_step(state, FetchEvent::Clock { deadline_passed: false });
    let (state, _) = fetch_step(state, FetchEvent::Resolved(vec![public]));
    let (state, action) = fetch_step(state, FetchEvent::Redirect(Some("/c".to_string())));
    assert!(matches!(action, FetchAction::Stop(FetchError::TooManyRedirects { max: 1 })));
    assert!(matches!(state.phase, FetchPhase::Failed));
}

#[test]
fn a_fetch_stops_on_a_plain_url_a_private_address_or_a_passed_deadline() {
    let (_, action) = fetch_step(start_fetch("http://example.com/", 3), FetchEvent::Clock { deadline_passed: false });
    assert!(matches!(action, FetchAction::Stop(FetchError::UnsupportedScheme { scheme }) if scheme == "http"));
    let (_, action) = fetch_step(start_fetch("https://example.com/", 3), FetchEvent::Clock { deadline_passed: true });
    assert!(matches!(action, FetchAction::Stop(FetchError::Timeout)));
    let (state, _) = fetch_step(start_fetch("https://internal.example/", 3), FetchEvent::Clock { deadline_passed: false });
    let private = IpAddress::V4(10, 0, 0, 7);
    let (state, action) = fetch_step(state, FetchEvent::Resolved(vec![IpAddress::V4(93, 184, 216, 34), private]));
    assert!(matches!(action, FetchAction::Stop(FetchError::DisallowedAddress(a)) if a == private));
    assert!(matches!(state.phase, FetchPhase::Failed));
    let (state, _) = fetch_step(start_fetch("https://example.com/", 3), FetchEvent::Clock { deadline_passed: false });
    let (state, _) = fetch_step(state, FetchEvent::Resolved(vec![IpAddress::V4(93, 184, 216, 34)]));
    let (state, action) = fetch_step(state, FetchEvent::Final);
    assert!(matches!(action, FetchAction::StreamBody));
    assert!(matches!(state.phase, FetchPhase::Streaming));
}
