//! Requests to the gateway.

use kaonic::gateway::audio::{AudioError, AudioOutput};
use kaonic::gateway::radio::{
    BandwidthFilter, HardwareRadioConfig, OfdmBandwidthOption, OfdmMcs, OfdmModulation,
};
use kaonic::gateway::startup::FrameStats;
use kaonic::http::installer::{
    body_failed, proxy_answer, proxy_target, upload_content_type, HttpMethod, InstallerRequest, Surface,
};
use kaonic::http::plugin_api::{
    authorize, check_key, check_plugin, ensure_token, existing_token, generate_token, get_contacts, get_identity,
    check_value, get_store, get_store_keys, is_exposed, listen_port, load_or_create_token, mode_to_restore, peer_service_plugin, peer_services,
    post_services, put_store, store_changed, stored_value, token_from, token_written, valid_name, KnownNode,
    LocalNode, ServiceRequest, TokenCache, TokenPlan, DEFAULT_PORT, MAX_JSON_DEPTH, MAX_VALUE_BYTES, TOKEN_LEN, TOKEN_MODE,
};
use kaonic::http::probe::{
    after_fallback, after_payload, check_address, get_speed_payload, parse_ping_latency, payload_len,
    ping_arguments, ping_outcome, plan_speed_test, speed_setup_failed, BodyEvent, Download, HttpAnswer, SendFailure,
    SpeedPayloadQuery, SpeedSetup, SpeedStep, VpnSpeedTestRequest, MAX_DOWNLOAD,
};
use kaonic::http::remote_api::{
    check_bridge, check_identity, check_runtime, check_upload, class_list, class_set, clean_tag, default_shell_timeout,
    default_true, deny_mesh_client, fec_status, features_response, identity_text, link_class, media_closed, media_opened, multipart_failed,
    node_added, node_codename, pairing_done, parse_hash, plugin_action, post_add_node, post_media, post_shell, put_features, put_fec, put_node_tag, remote_error, tag_saved, AddNodeRequest,
    ClassRequest, FeatureFlags, FecStats, LinkClass, LiveSettings, PairingStep, PluginAction, RemoteFailure, RemoteSettings,
    ShellRequest, TagRequest, UploadQuery,
};
use kaonic::http::system::{
    audio_output, build_frame_stats, build_ws_interfaces, check_service, get_info, get_radio, map_audio_error,
    pick_message, post_radio_test, post_system_codename, put_radio_status, put_settings_status, radio_test_sent,
    request_service_restart, request_system_reboot, rootca_failed, RadioTestRequest, RunOutput, SettingsOutcome,
};
use kaonic::http::vpn::{
    access_status, are_peers_readable, codename_for, deny_mesh, find_node, forwardable_interfaces, gateway_status, policy_failed, get_vpn_gateway, get_vpn_routes,
    get_vpn_uplink, normalize_vpn_peer_hashes, put_vpn_access, put_vpn_gateway, put_vpn_routes, put_vpn_uplink,
    read_routes, routes_status, save_failed, selected_peer, uplink_status, LiveGateway, LiveUplink, NetInterface, PairedNode,
    PutVpnAccessRequest, PutVpnGatewayRequest, PutVpnRoutesRequest, PutVpnUplinkRequest, RemoteRoute,
};
use kaonic::http::wifi::{
    checked_ssid, find_network, get_wifi_networks, map_network_error, network_connecting, network_removed, network_saved,
    post_wifi_network, remember_network, saved_psk, NetworkErrorKind, SavedWifiNetwork, WifiNetworkRequest,
};
use kaonic::http::ws::{initial_events, publish_periodic_events, EventKind};
use kaonic::net::IpAddress;
use kaonic::route::{write_net, Ipv4Net};

#[test]
fn parses_ping_latency_from_output() {
    let output = b"64 bytes from 10.20.78.77: icmp_seq=1 ttl=64 time=12.34 ms\n";
    assert_eq!(parse_ping_latency(output), Some("12.34 ms".into()));
}

#[test]
fn missing_ping_latency_returns_none() {
    let output = b"1 packets transmitted, 0 packets received, 100% packet loss\n";
    assert_eq!(parse_ping_latency(output), None);
}

#[test]
fn parses_busybox_sub_millisecond_latency() {
    let output = b"64 bytes from 10.20.78.77: seq=0 ttl=64 time<1 ms\n";
    assert_eq!(parse_ping_latency(output), Some("<1 ms".into()));
}

#[test]
fn plugin_and_key_names_stay_inside_one_path_segment() {
    assert!(valid_name("kaonic-audio-ptt"));
    assert!(valid_name("allowed_contacts"));
    assert!(!valid_name(""));
    assert!(!valid_name("../etc/passwd"));
    assert!(!valid_name("a/b"));
    assert!(!valid_name(&"x".repeat(65)));
}

#[test]
fn reserved_namespaces_are_unreachable_from_a_plugin() {
    // The gateway keeps each paired peer's service directory under this name. If a
    // plugin could address it, it could invent contacts, and pairing would no longer
    // decide who is trusted.
    assert!(!valid_name(&peer_service_plugin()));
    assert!(!valid_name("@anything"));
}

#[test]
fn a_wrong_token_is_rejected_even_from_loopback() {
    let mut cache = TokenCache::new();
    let token = ensure_token(&mut cache, Some(generate_token())).expect("token");
    assert!(token.len() >= TOKEN_LEN);
    assert_eq!(ensure_token(&mut cache, Some(generate_token())).as_deref(), Some(token.as_str()));

    let loopback = IpAddress::V4([127, 0, 0, 1]);
    let header = Some(format!("Bearer {token}"));
    assert!(authorize(&loopback, Some(token.clone()), header.clone()).is_ok());

    assert!(authorize(&loopback, Some(token.clone()), Some("Bearer nope".into())).is_err());
    assert!(authorize(&loopback, Some(token.clone()), None).is_err());

    // Even with the right token, off-device callers never get in.
    let mesh = IpAddress::V4([10, 55, 0, 2]);
    assert!(authorize(&mesh, Some(token), header).is_err());
}

// ── Tokens ───────────────────────────────────────────────────────────────────

#[test]
fn tokens_are_made_of_letters_and_digits() {
    let token = generate_token();
    assert_eq!(token.len(), 48);
    assert!(token.chars().all(|c| c.is_ascii_lowercase() || c.is_ascii_digit()));
    assert_ne!(token, generate_token());
    assert_eq!(token_from(&[0, 25, 26, 35]), "az09");
    assert_eq!(existing_token(Some(format!(" {token}\n"))), Some(token.clone()));
    assert_eq!(existing_token(Some("short".into())), None);
    assert_eq!(existing_token(None), None);
    assert!(matches!(load_or_create_token(Some(token.clone())), TokenPlan::Keep(t) if t == token));
    assert!(matches!(load_or_create_token(Some("short".into())), TokenPlan::Create { token, replaces: true } if token.len() == 48));
    assert!(matches!(load_or_create_token(Some(" \n".into())), TokenPlan::Create { replaces: false, .. }));
    assert!(matches!(load_or_create_token(None), TokenPlan::Create { replaces: false, .. }));
    assert_eq!(token_written("t".into(), true).as_deref(), Some("t"));
    assert_eq!(token_written("t".into(), false), None);
    assert!(is_exposed(0o644) && is_exposed(0o620) && is_exposed(0o601));
    assert!(!is_exposed(0o600) && !is_exposed(0o100600));
}

#[test]
fn the_token_file_ends_private() {
    // A file that is written over keeps its mode, so it is restored afterwards.
    assert_eq!(mode_to_restore(0o100644, true), Some(0o600));
    assert_eq!(mode_to_restore(0o100400, true), Some(0o600));
    assert_eq!(mode_to_restore(0o100600, true), None);
    assert_eq!(mode_to_restore(0o100640, false), Some(0o600));
    assert_eq!(mode_to_restore(0o100400, false), None);
    assert_eq!(TOKEN_MODE, 0o600);
}

#[test]
fn a_token_of_another_length_is_refused() {
    let loopback = IpAddress::V4([127, 0, 0, 1]);
    let ask = |offered: &str| authorize(&loopback, Some("abc".into()), Some(format!("Bearer {offered}")));
    assert!(ask("abc").is_ok());
    for wrong in ["", "ab", "abcd", "abd", "xbc"] {
        assert_eq!(ask(wrong).unwrap_err().status, 401);
    }
}

#[test]
fn a_missing_token_is_kept_missing() {
    let mut cache = TokenCache::new();
    assert_eq!(ensure_token(&mut cache, None), None);
    assert_eq!(ensure_token(&mut cache, Some("late".into())), None);
    let reply = authorize(&IpAddress::V4([127, 0, 0, 1]), None, None).unwrap_err();
    assert_eq!((reply.status, reply.detail.as_str()), (503, "plugin API token is unavailable"));
}

#[test]
fn every_refusal_has_its_status() {
    let v6 = IpAddress::V6([0, 0, 0, 0, 0, 0, 0, 1]);
    let far = IpAddress::V6([0xfe80, 0, 0, 0, 0, 0, 0, 1]);
    let token = Some("t".repeat(48));
    let header = Some(format!("Bearer  {} ", "t".repeat(48)));
    assert!(authorize(&v6, token.clone(), header.clone()).is_ok());
    assert_eq!(authorize(&far, token.clone(), header).unwrap_err().status, 403);
    let reply = authorize(&v6, token.clone(), Some("Basic x".into())).unwrap_err();
    assert_eq!((reply.status, reply.detail.as_str()), (401, "invalid plugin token"));
    let near = Some(format!("Bearer {}x", "t".repeat(47)));
    assert_eq!(authorize(&v6, token, near).unwrap_err().status, 401);
    assert_eq!(listen_port(Some("9000".into())), 9000);
    assert_eq!(listen_port(Some("70000".into())), DEFAULT_PORT);
    assert_eq!(listen_port(Some(" 9000".into())), DEFAULT_PORT);
    assert_eq!(listen_port(None), 8781);
}

// ── Identity, contacts, services and the store ───────────────────────────────

fn node(paired: bool, services: Option<&str>) -> KnownNode {
    KnownNode {
        identity_hash: "id".into(),
        destination_hash: "dest".into(),
        codename: "fox".into(),
        tag: "base".into(),
        paired,
        online: true,
        hops: Some(2),
        rssi: Some(-60),
        last_seen_ts: 5,
        vpn_tunnel_ip: "10.20.0.2".into(),
        kept_services: services.map(|s| s.to_string()),
    }
}

#[test]
fn the_node_names_itself() {
    let local = LocalNode { codename: "mesh".into(), identity_hash: "id".into(), destination_hash: "dest".into() };
    let shown = get_identity(Some(local.clone()), Some("kept".into()), "K1".into(), "1.0".into(), "vpn".into());
    assert_eq!((shown.codename.as_str(), shown.remote_enabled, shown.api_version), ("kept", true, 1));
    assert_eq!(get_identity(Some(local), None, "K1".into(), "1.0".into(), "vpn".into()).codename, "mesh");
    let alone = get_identity(None, None, "K1".into(), "1.0".into(), "vpn".into());
    assert_eq!((alone.codename.as_str(), alone.identity_hash.as_str(), alone.remote_enabled), ("", "", false));
}

#[test]
fn contacts_are_the_paired_nodes() {
    let kept = r#"{"ptt":"bb","chat":"aa"}"#;
    let shown = get_contacts(&[node(false, None), node(true, Some(kept)), node(true, Some("not json"))]);
    assert_eq!(shown.contacts.len(), 2);
    let services: Vec<(&str, &str)> =
        shown.contacts[0].services.iter().map(|s| (s.service.as_str(), s.destination.as_str())).collect();
    assert_eq!(services, vec![("chat", "aa"), ("ptt", "bb")]);
    assert!(shown.contacts[1].services.is_empty());
    assert!(peer_services(None).is_empty());
    assert!(peer_services(Some(r#"{"a":1}"#.into())).is_empty());
}

#[test]
fn services_are_checked() {
    let ask = |service: &str, destination: &str| {
        post_services(&ServiceRequest { service: service.into(), destination: destination.into() })
    };
    let entry = ask("ptt", " 0123456789ABCDEF0123456789ABCDEF ").unwrap();
    assert_eq!((entry.service.as_str(), entry.destination.as_str()), ("ptt", "0123456789abcdef0123456789abcdef"));
    assert_eq!(ask("a/b", "0123456789abcdef0123456789abcdef").unwrap_err().detail, "invalid service name");
    let reply = ask("ptt", "xyz").unwrap_err();
    assert_eq!((reply.status, reply.detail.as_str()), (400, "destination must be a 16-byte hex hash"));
}

#[test]
fn values_are_kept_under_valid_names() {
    assert_eq!(check_plugin("@peers").unwrap_err().detail, "invalid plugin name");
    assert_eq!(check_key("ptt", "a b").unwrap_err().detail, "invalid plugin or key");
    assert_eq!(get_store_keys("ptt", Ok(vec!["k".into()])).unwrap().keys, vec!["k"]);
    assert_eq!(get_store_keys("ptt", Err("locked".into())).unwrap_err().detail, "plugin store: locked");
    assert_eq!(get_store("ptt", "k", Ok(Some("[]".into()))).unwrap(), serde_json::Value::Array(vec![]));
    assert_eq!(get_store("ptt", "k", Ok(Some("a b".into()))).unwrap(), serde_json::Value::String("a b".into()));
    let missing = get_store("ptt", "k", Ok(None)).unwrap_err();
    assert_eq!((missing.status, missing.detail.as_str()), (404, "no such key"));
    assert!(check_value("ptt", "k", &"x".repeat(MAX_VALUE_BYTES)).is_ok());
    let large = check_value("ptt", "k", &"x".repeat(MAX_VALUE_BYTES + 1)).unwrap_err();
    assert_eq!((large.status, large.detail.as_str()), (413, "values are limited to 65536 bytes"));
    assert_eq!(check_value("ptt", "", "x").unwrap_err().status, 400);
    assert_eq!(store_changed(false, Ok(())).detail, "stored");
    assert_eq!(store_changed(true, Ok(())).detail, "deleted");
    assert_eq!(store_changed(true, Err("x".into())).status, 500);
}

#[test]
fn kept_values_are_json_or_strings() {
    let value = stored_value(r#"{"a":[1,true]}"#.into());
    assert_eq!(value["a"][1], serde_json::Value::Bool(true));
    assert_eq!(stored_value("plain text".into()), serde_json::Value::String("plain text".into()));
    assert_eq!(stored_value("\"quoted\"".into()), serde_json::Value::String("quoted".into()));
    let words = serde_json::Value::String("a \"b\"\n\u{1}é".into());
    let kept = put_store("ptt", "k", &words).unwrap();
    assert_eq!(kept, "\"a \\\"b\\\"\\n\\u0001é\"");
    assert_eq!(stored_value(kept), words);
    assert_eq!(put_store("ptt", "k", &value).unwrap(), r#"{"a":[1,true]}"#);
    assert_eq!(put_store("ptt", "@k", &words).unwrap_err().status, 400);
    let long = serde_json::Value::String("x".repeat(MAX_VALUE_BYTES - 2));
    assert!(put_store("ptt", "k", &long).is_ok());
    let longer = serde_json::Value::String("x".repeat(MAX_VALUE_BYTES - 1));
    assert_eq!(put_store("ptt", "k", &longer).unwrap_err().status, 413);
}

#[test]
fn values_come_back_unchanged() {
    let number = |text: &str| -> serde_json::Value { serde_json::from_str(text).unwrap() };
    let mut object = serde_json::Map::new();
    object.insert("b".into(), serde_json::Value::Null);
    object.insert("a".into(), serde_json::Value::Array(vec![number("0"), serde_json::Value::Bool(false)]));
    let mut deep = serde_json::Value::Null;
    for _ in 0..MAX_JSON_DEPTH {
        deep = serde_json::Value::Array(vec![deep]);
    }
    let values = [
        serde_json::Value::Null,
        serde_json::Value::Bool(true),
        serde_json::Value::from(i64::MIN),
        serde_json::Value::from(-1),
        serde_json::Value::from(u64::MAX),
        serde_json::Value::String("null".into()),
        serde_json::Value::Array(vec![]),
        serde_json::Value::Object(serde_json::Map::new()),
        serde_json::Value::Object(object),
        deep.clone(),
    ];
    for value in values {
        let kept = put_store("ptt", "k", &value).unwrap();
        assert_eq!(get_store("ptt", "k", Ok(Some(kept))).unwrap(), value);
    }
    let deeper = put_store("ptt", "k", &serde_json::Value::Array(vec![deep])).unwrap();
    assert!(get_store("ptt", "k", Ok(Some(deeper))).unwrap().is_string());
    let mut reserved = serde_json::Map::new();
    reserved.insert("$serde_json::private::RawValue".into(), serde_json::Value::String("[1]".into()));
    let kept = put_store("ptt", "k", &serde_json::Value::Object(reserved)).unwrap();
    assert_eq!(stored_value(kept), serde_json::Value::Array(vec![number("1")]));
}

// ── Probes ───────────────────────────────────────────────────────────────────

#[test]
fn pings_are_run_and_read() {
    assert_eq!(check_address("10.0.0.1", Ok([10, 0, 0, 1])).unwrap(), [10, 0, 0, 1]);
    let bad = check_address(" x ", Err("invalid IPv4 address syntax".into())).unwrap_err();
    assert_eq!((bad.status, bad.detail.as_str()), (400, "invalid IPv4 address 'x': invalid IPv4 address syntax"));
    assert!(ping_arguments(&[10, 0, 0, 1]).iter().any(|a| a == "10.0.0.1"));
    let up = ping_outcome(&[10, 0, 0, 1], Some(Ok((true, b"time=3.2 ms\n".to_vec())))).unwrap();
    assert_eq!((up.ok, up.latency.as_deref()), (true, Some("3.2 ms")));
    let down = ping_outcome(&[10, 0, 0, 1], Some(Ok((false, b"time=3.2 ms\n".to_vec())))).unwrap();
    assert!(!down.ok);
    let elsewhere = ping_outcome(&[10, 0, 0, 1], None).unwrap();
    assert_eq!((elsewhere.ok, elsewhere.latency.as_deref()), (true, Some("1.0 ms")));
    let missing = ping_outcome(&[10, 0, 0, 1], Some(Err("no ping".into()))).unwrap_err();
    assert_eq!((missing.status, missing.detail.as_str()), (502, "failed to execute ping 10.0.0.1: no ping"));
    assert_eq!(ping_arguments(&[10, 0, 0, 1]), vec!["-n", "-c", "1", "-W", "3", "10.0.0.1"]);
}

#[test]
fn speed_payloads_are_bounded() {
    assert_eq!(payload_len(None), 32 * 1024);
    assert_eq!(payload_len(Some(1)), 1024);
    assert_eq!(payload_len(Some(5000)), 5000);
    assert_eq!(payload_len(Some(usize::MAX)), 256 * 1024);
    let body = get_speed_payload(&SpeedPayloadQuery { bytes: Some(1024) });
    assert_eq!(body.len(), 1024);
    assert_eq!(&body[..10], &[0, 31, 62, 93, 124, 155, 186, 217, 248, 28]);
}

#[test]
fn speed_tests_go_to_peers_only() {
    let request = VpnSpeedTestRequest { address: "10.20.0.2".into(), bytes: None };
    let peers = [None, Some("10.20.0.2".to_string())];
    let plan = plan_speed_test(&request, Ok([10, 20, 0, 2]), true, &peers).unwrap();
    assert_eq!(plan.url, "https://10.20.0.2/api/speed-payload?bytes=32768");
    assert_eq!(plan.fallback_url, "https://10.20.0.2/");
    assert!(plan_speed_test(&request, Ok([10, 20, 0, 3]), true, &peers).is_err());
    assert!(plan_speed_test(&request, Ok([10, 20, 0, 2]), false, &peers).is_err());
    assert_eq!(plan_speed_test(&request, Err("bad".into()), true, &peers).unwrap_err().status, 400);
    assert_eq!(
        speed_setup_failed(SpeedSetup::BuildClient, "tls").detail,
        "failed to build speed-test client: tls"
    );
}

#[test]
fn speed_tests_fall_back_and_fail() {
    let ok = |status: u16, words: &str| HttpAnswer { status, words: words.into() };
    assert!(matches!(after_payload(&Ok(ok(404, "404 Not Found"))), SpeedStep::Fallback));
    assert!(matches!(after_payload(&Ok(ok(200, "200 OK"))), SpeedStep::Download));
    assert!(matches!(after_payload(&Ok(ok(500, "500 X"))), SpeedStep::Fail(r) if r.detail == "speed-test returned 500 X"));
    let failure = |timeout: bool, connect: bool| -> Result<HttpAnswer, SendFailure> {
        Err(SendFailure { timeout, connect, causes: vec!["a".into(), "b".into()] })
    };
    assert!(matches!(after_payload(&failure(true, false)), SpeedStep::Fail(r)
        if r.detail == "speed-test failed: timed out — the link is too slow or the peer is unreachable (a: b)"));
    assert!(matches!(after_payload(&failure(false, true)), SpeedStep::Fail(r)
        if r.detail == "speed-test failed: could not connect to the peer (a: b)"));
    assert!(matches!(after_payload(&failure(false, false)), SpeedStep::Fail(r) if r.detail == "speed-test failed: a: b"));
    assert!(matches!(after_fallback(&Err("x".into())), SpeedStep::Fail(r) if r.detail == "speed-test fallback failed: x"));
    assert!(matches!(after_fallback(&Ok(ok(404, "404"))), SpeedStep::Fail(_)));

    let mut download = Download::new();
    assert_eq!(download.read(&BodyEvent::Chunk(1000)).ok(), Some(true));
    assert_eq!(download.read(&BodyEvent::End).ok(), Some(false));
    let result = download.finish(4);
    assert_eq!((result.ok, result.bytes, result.duration_ms, result.bps), (true, 1000, 4, 2_000_000));
    assert_eq!(download.finish(0).duration_ms, 1);
    let over = download.read(&BodyEvent::Chunk(MAX_DOWNLOAD as usize)).unwrap_err();
    assert_eq!(over.detail, "speed-test response exceeded the size limit");
    assert_eq!(
        download.read(&BodyEvent::Failed { timeout: true, err: "x".into() }).unwrap_err().detail,
        "speed-test timed out while downloading"
    );
    assert_eq!(
        download.read(&BodyEvent::Failed { timeout: false, err: "x".into() }).unwrap_err().detail,
        "failed to read speed-test body: x"
    );
}

// ── The tunnel ───────────────────────────────────────────────────────────────

const NODE: &str = "0123456789abcdef0123456789abcdef";

fn paired() -> Vec<PairedNode> {
    vec![
        PairedNode { identity_hash: NODE.into(), codename: "fox".into() },
        PairedNode { identity_hash: "ffffffffffffffffffffffffffffffff".into(), codename: "".into() },
    ]
}

#[test]
fn the_uplink_has_to_be_paired() {
    let request = |enabled: bool, peer: Option<&str>| PutVpnUplinkRequest { enabled, peer: peer.map(|p| p.to_string()) };
    let upper = format!(" {} ", NODE.to_uppercase());
    let plan = put_vpn_uplink(false, &request(true, Some(&upper)), &paired(), Some("tunnel".into())).unwrap();
    assert_eq!(plan.saved.peer.as_deref(), Some(NODE));
    assert_eq!(plan.applied.peer.as_deref(), Some("tunnel"));
    let refused = |from_mesh: bool, peer: Option<&str>, tunnel: Option<&str>| {
        let reply =
            put_vpn_uplink(from_mesh, &request(true, peer), &paired(), tunnel.map(|t| t.to_string())).unwrap_err();
        (reply.status, reply.detail)
    };
    assert_eq!(
        refused(true, Some(NODE), Some("t")),
        (403, "not permitted from the mesh; use the device's own interface".into())
    );
    assert_eq!(refused(false, Some(" "), Some("t")), (400, "choose a node to route through".into()));
    assert_eq!(refused(false, Some("12"), Some("t")), (400, "invalid node hash".into()));
    assert_eq!(
        refused(false, Some(&"e".repeat(32)), Some("t")),
        (400, "that node is not paired; pair it first on the Remote page".into())
    );
    // A node without a name is paired all the same.
    let nameless = "f".repeat(32);
    let plan = put_vpn_uplink(false, &request(true, Some(&nameless)), &paired(), Some("t".into())).unwrap();
    assert_eq!((plan.saved.enabled, plan.saved.peer.as_deref()), (true, Some(nameless.as_str())));
    assert_eq!(codename_for(&paired(), &nameless), None);
    assert!(find_node(&paired(), &nameless).is_some() && find_node(&paired(), "e").is_none());
    assert_eq!(
        refused(false, Some(NODE), None),
        (400, "that node's keys are not on file; re-pair it on the Remote page".into())
    );
    assert!(put_vpn_uplink(false, &request(false, None), &paired(), None).is_ok());
    assert_eq!(selected_peer(&request(true, Some("ÄB"))).as_deref(), Some("äb"));
    assert_eq!(codename_for(&paired(), NODE).as_deref(), Some("fox"));
    assert_eq!(uplink_status(true).status, "Router selected");
    assert_eq!(uplink_status(false).status, "Router cleared");
    let live = LiveUplink { enabled: true, active: false, routes: vec![], default_route: true, detail: None };
    let shown = get_vpn_uplink(live, Some(NODE.into()), &paired());
    assert_eq!((shown.peer_codename.as_deref(), shown.default_route), (Some("fox"), true));
}

#[test]
fn routes_are_read_in_order() {
    let texts = |list: &[&str]| -> Vec<String> { list.iter().map(|s| s.to_string()).collect() };
    let nets = read_routes(&texts(&[" 192.168.10.0/24 ", "0.0.0.0/0", "10.1.2.3"])).unwrap();
    let written: Vec<String> = nets.iter().map(write_net).collect();
    assert_eq!(written, vec!["192.168.10.0/24", "0.0.0.0/0", "10.1.2.3"]);
    let bad = read_routes(&texts(&["10.0.0.0/8", "10.0.0.1/8", "x"])).unwrap_err();
    assert_eq!(bad.status, 400);
    assert!(bad.detail.starts_with("invalid route '10.0.0.1/8': "));
    let request = PutVpnRoutesRequest { routes: texts(&["10.0.0.0/8"]) };
    assert_eq!(put_vpn_routes(true, &request).unwrap_err().status, 403);
    assert_eq!(put_vpn_routes(false, &request).unwrap()[0].length, 8);
    assert_eq!(routes_status().status, "VPN advertised routes updated");
    assert_eq!(write_net(&Ipv4Net { address: [1, 2, 3, 4], length: 32 }), "1.2.3.4");
    assert_eq!(save_failed("failed to save config: ", "full").detail, "failed to save config: full");
}

#[test]
fn gateway_mode_needs_a_destination_and_an_interface() {
    let listed = [("wlan0", true), ("lo", true), ("usb0", false), ("kaonic0", true), ("tun1", true), ("eth0", true)];
    let names: Vec<NetInterface> = listed.iter().map(|&(n, up)| NetInterface { name: n.into(), up }).collect();
    assert_eq!(forwardable_interfaces(&names), vec!["eth0", "wlan0"]);
    let request = |enabled: bool, egress: Option<&str>, routes: &[&str]| PutVpnGatewayRequest {
        enabled,
        egress_interface: egress.map(|e| e.to_string()),
        routes: routes.iter().map(|s| s.to_string()).collect(),
    };
    let config = put_vpn_gateway(false, &request(true, Some(" eth0 "), &["0.0.0.0/0"]), &names).unwrap();
    assert_eq!((config.egress_interface.as_deref(), config.routes.len()), (Some("eth0"), 1));
    let none = put_vpn_gateway(false, &request(true, None, &[]), &names).unwrap_err();
    assert_eq!(none.detail, "list at least one destination to forward (0.0.0.0/0 shares the full uplink)");
    let tunnel = put_vpn_gateway(false, &request(true, Some("tun1"), &["0.0.0.0/0"]), &names).unwrap_err();
    assert_eq!(tunnel.detail, "'tun1' is not an interface this node can forward out of");
    let down = put_vpn_gateway(false, &request(true, Some("usb0"), &["0.0.0.0/0"]), &names).unwrap_err();
    assert_eq!(down.detail, "'usb0' is not an interface this node can forward out of");
    assert_eq!(put_vpn_gateway(true, &request(false, None, &[]), &names).unwrap_err().status, 403);
    assert!(put_vpn_gateway(false, &request(false, Some(" "), &[]), &names).unwrap().egress_interface.is_none());
    assert_eq!(gateway_status(true).status, "VPN gateway mode enabled");
    let live = LiveGateway { enabled: true, active: true, egress_interface: None, routes: vec![], detail: None };
    assert_eq!(get_vpn_gateway(live, &names).available_interfaces, vec!["eth0", "wlan0"]);
}

#[test]
fn allowed_peers_are_normalised() {
    let texts = |list: &[&str]| -> Vec<String> { list.iter().map(|s| s.to_string()).collect() };
    let other = "00000000000000000000000000000001";
    let upper = NODE.to_uppercase();
    let list = normalize_vpn_peer_hashes(&texts(&[&upper, other, NODE])).unwrap();
    assert_eq!(list, vec![other, NODE]);
    assert_eq!(normalize_vpn_peer_hashes(&list).unwrap(), list);
    assert_eq!(normalize_vpn_peer_hashes(&texts(&[" "])).unwrap_err().detail, "peer hash is required");
    assert_eq!(
        normalize_vpn_peer_hashes(&texts(&[NODE, "ab"])).unwrap_err().detail,
        "invalid peer hash 'ab': IncorrectHash"
    );
    // A peer after the first that is complained about is not looked at.
    let unreadable = "x".repeat(32);
    assert!(are_peers_readable(&texts(&[NODE, "ab", &unreadable])));
    assert!(!are_peers_readable(&texts(&[NODE, &unreadable, "ab"])));
    assert_eq!(normalize_vpn_peer_hashes(&texts(&["ab", &unreadable])).unwrap_err().status, 400);
    let request = PutVpnAccessRequest { allow_all_peers: false, peers: texts(&[NODE]) };
    assert_eq!(put_vpn_access(true, &request).unwrap_err().status, 403);
    let peers = put_vpn_access(false, &request).unwrap();
    assert_eq!(access_status(false, peers).status, "VPN access updated (allowlist only)");
    assert_eq!(access_status(true, vec![]).status, "VPN access updated (allow all peers)");
    let unapplied = policy_failed("no tunnel");
    assert_eq!((unapplied.status, unapplied.detail.as_str()), (400, "failed to apply VPN peer policy: no tunnel"));
    assert!(deny_mesh(false).is_ok());
    let routes = [
        RemoteRoute { network: "a".into(), installed: true },
        RemoteRoute { network: "b".into(), installed: false },
    ];
    assert_eq!(get_vpn_routes(None, vec!["x".into()], &routes).remote_installed, vec!["a"]);
}

// ── The device ───────────────────────────────────────────────────────────────

fn run(success: bool, stdout: &[u8], stderr: &[u8]) -> Option<Result<RunOutput, String>> {
    Some(Ok(RunOutput { success, stdout: stdout.to_vec(), stderr: stderr.to_vec() }))
}

#[test]
fn restarts_are_judged() {
    assert_eq!(request_system_reboot(None).unwrap().status, "Mock reboot requested");
    assert_eq!(request_service_restart("a.service", None).unwrap().status, "Mock restart requested for a.service");
    assert_eq!(request_system_reboot(run(true, b"", b"")).unwrap().status, "Reboot requested");
    let denied = request_system_reboot(run(false, b"out", b" den\xFFied \n")).unwrap_err();
    assert_eq!((denied.status, denied.detail.as_str()), (500, "den\u{FFFD}ied"));
    assert_eq!(request_system_reboot(run(false, b" out ", b" ")).unwrap_err().detail, "out");
    assert_eq!(request_system_reboot(run(false, b"", b"")).unwrap_err().detail, "systemctl reboot failed");
    assert_eq!(
        request_system_reboot(Some(Err("missing".into()))).unwrap_err().detail,
        "failed to execute systemctl reboot: missing"
    );
    assert_eq!(request_service_restart("a.service", run(true, b"", b"")).unwrap().status, "Restart requested for a.service");
    assert_eq!(
        request_service_restart("a.service", run(false, b"", b"")).unwrap_err().detail,
        "systemctl restart a.service failed"
    );
    assert_eq!(check_service(false).unwrap_err().detail, "unsupported service");
    assert_eq!(pick_message("out", " ", "default"), "out");
    assert_eq!(rootca_failed(true, "/ca", "no file").status, 404);
    assert_eq!(rootca_failed(false, "/ca", "denied").detail, "failed to read root CA certificate /ca: denied");
}

#[test]
fn radio_tests_are_checked() {
    let ask = |message: &str, module: usize| {
        post_radio_test(&RadioTestRequest { message: message.into() }, module, true, 4096)
    };
    assert_eq!(ask(" hello ", 0).unwrap(), "hello");
    assert_eq!(ask("hello", 2).unwrap_err().status, 404);
    assert_eq!(ask("  ", 0).unwrap_err().detail, "message is required");
    assert_eq!(ask(&"x".repeat(2048), 0).unwrap_err().detail, "message exceeds 2047 characters");
    let wide = ask(&"é".repeat(2000), 0).unwrap_err();
    assert_eq!((wide.status, wide.detail.as_str()), (503, "message exceeds 2047 bytes"));
    assert_eq!(radio_test_sent(0, Ok(())).unwrap().status, "Sent test frame on Radio A");
    assert_eq!(radio_test_sent(1, Ok(())).unwrap().status, "Sent test frame on Radio B");
    assert_eq!(radio_test_sent(1, Err("x".into())).unwrap_err().detail, "transmit: x");
}

#[test]
fn device_answers() {
    assert_eq!(get_info("K1").serial, "K1");
    assert_eq!(put_settings_status(SettingsOutcome::Applied), 204);
    assert_eq!(put_settings_status(SettingsOutcome::PolicyFailed), 400);
    assert_eq!(put_settings_status(SettingsOutcome::SaveFailed), 500);
    assert_eq!((put_radio_status(true), put_radio_status(false)), (204, 500));
    let ofdm = OfdmModulation { mcs: OfdmMcs::QamC1_2, opt: OfdmBandwidthOption::Option2, pdt: 3, tx_power: 10 };
    let radio = HardwareRadioConfig::with_defaults(ofdm, BandwidthFilter::Narrow);
    assert_eq!(get_radio(&radio, 1).unwrap().radio_config.channel, 11);
    assert_eq!(get_radio(&radio, 2).unwrap_err(), 404);
    assert_eq!(audio_output("speaker").unwrap(), AudioOutput::Speaker);
    assert_eq!(audio_output("tuba").unwrap_err(), 404);
    assert_eq!(map_audio_error(&AudioError::InvalidVolume(101)), 400);
    assert_eq!(map_audio_error(&AudioError::NotFound("no card".into())), 404);
    assert_eq!(AudioError::NotFound("no card".into()).message(), "no card");
    assert_eq!(map_audio_error(&AudioError::TaskJoin("x".into())), 500);
    assert_eq!(post_system_codename(Ok("fox".into()), Ok(())).unwrap().codename, "fox");
    assert_eq!(post_system_codename(Err("bad".into()), Ok(())).unwrap_err().status, 400);
    assert_eq!(post_system_codename(Ok("fox".into()), Err("x".into())).unwrap_err().detail, "failed to save codename: x");
    assert_eq!(build_ws_interfaces(Some("a".into()), None).wlan0_ip.as_deref(), Some("a"));
    let mut stats = FrameStats { rx_frames: 0, tx_frames: 1, rx_bytes: 0, tx_bytes: 9, last_rssi: -50 };
    assert_eq!(build_frame_stats(&stats, 1, 2).last_rssi, None);
    stats.rx_frames = 1;
    assert_eq!(build_frame_stats(&stats, 1, 2).last_rssi, Some(-50));
    stats.last_rssi = -200;
    assert_eq!(build_frame_stats(&stats, 1, 2).last_rssi, Some(56));
}

// ── Wireless networks ────────────────────────────────────────────────────────

#[test]
fn a_blank_password_keeps_the_old_one() {
    let list = [SavedWifiNetwork { ssid: "home".into(), psk: "secret".into(), priority: 3, created_at: 1, last_used: 2 }];
    let ask = |ssid: &str, psk: &str| {
        post_wifi_network(&list, &WifiNetworkRequest { ssid: ssid.into(), psk: psk.into() }, 9)
    };
    let kept = ask(" home ", "").unwrap();
    assert_eq!((kept.psk.as_str(), kept.priority, kept.created_at), ("secret", 3, 1));
    assert_eq!(ask("home", "other").unwrap().psk, "other");
    assert_eq!(ask("new", "pw").unwrap().created_at, 9);
    assert_eq!(ask(" ", "pw").unwrap_err().detail, "ssid is required");
    assert_eq!(ask("new", "").unwrap_err().detail, "psk is required");
    assert_eq!(checked_ssid(" a ").unwrap(), "a");
    let known = remember_network(&list, "home".into(), "next".into(), 9);
    assert_eq!((known.psk.as_str(), known.priority, known.created_at, known.last_used), ("next", 3, 1, 9));
    assert_eq!(saved_psk(&list, "home").unwrap(), "secret");
    assert_eq!(saved_psk(&list, "x").unwrap_err().status, 404);
    assert!(find_network(&list, "x").is_none());
    let shown = get_wifi_networks(&list);
    assert_eq!((shown.len(), shown[0].ssid.as_str(), shown[0].priority), (1, "home", 3));
    assert_eq!((shown[0].created_at, shown[0].last_used), (1, 2));
    assert!(!format!("{shown:?}").contains("secret"));
    assert_eq!(network_saved("home").status, "Saved home");
    assert_eq!(network_removed("home").status, "Removed home");
    assert_eq!(network_connecting("home").status, "Connecting to home");
    assert_eq!(map_network_error(NetworkErrorKind::InvalidMode, "bad mode".into()).status, 400);
    assert_eq!(map_network_error(NetworkErrorKind::CommandFailed, "x".into()).status, 500);
}

// ── Other nodes ──────────────────────────────────────────────────────────────

#[test]
fn remote_failures_have_their_status() {
    let status = |f: RemoteFailure| remote_error(f, "w".into()).status;
    assert_eq!(status(RemoteFailure::Unauthorized), 403);
    assert_eq!(status(RemoteFailure::NotFound), 404);
    assert_eq!(status(RemoteFailure::BadRequest), 400);
    assert_eq!(status(RemoteFailure::Unsupported), 501);
    assert_eq!(status(RemoteFailure::Busy), 409);
    assert_eq!(status(RemoteFailure::Other), 502);
    assert_eq!(check_runtime(false).unwrap_err().status, 503);
    assert_eq!(check_bridge(false).unwrap_err().detail, "media bridge not running");
    assert_eq!(deny_mesh_client(true).unwrap_err().status, 403);
    assert_eq!(parse_hash(" 12 ").unwrap_err().detail, "invalid node hash");
    assert_eq!(parse_hash(NODE).unwrap().to_hex_string(), NODE);
    assert_eq!(check_identity(false).unwrap_err().detail, "that code is not a valid node key");
    assert_eq!(multipart_failed("x").detail, "multipart: x");
}

#[test]
fn labels_are_short_and_plain() {
    assert_eq!(clean_tag(" ba\u{7}se\n "), "base");
    assert_eq!(clean_tag(&"é".repeat(60)), "é".repeat(48));
    assert_eq!(tag_saved("").detail, "Tag cleared");
    assert_eq!(tag_saved("base").detail, "Tagged as base");
    let (node, tag) = put_node_tag(NODE, &TagRequest { tag: " x ".into() }).unwrap();
    assert_eq!((node.to_hex_string().as_str(), tag.as_str()), (NODE, "x"));
}

#[test]
fn scanned_codes_are_read() {
    let request = AddNodeRequest { identity_hex: " ABÇ ".into(), codename: "fox".into(), pair: true };
    assert_eq!(identity_text(&request), "abç");
    assert_eq!(node_codename(&request, Some("FOX".into())), "FOX");
    let hash = parse_hash(NODE).unwrap();
    let added = node_added(&hash, "fox".into(), None);
    assert_eq!((added.identity_hash.as_str(), added.codename.as_str()), (NODE, "fox"));
    let failed = node_added(&hash, "fox".into(), Some(Err("no link".into())));
    assert_eq!((failed.pairing.as_str(), failed.detail.as_str()), ("none", "added, but the request did not go out yet: no link"));
}

#[test]
fn plugin_packages_are_checked() {
    assert_eq!(pairing_done(PairingStep::Cancel).detail, "request cancelled");
    assert_eq!(pairing_done(PairingStep::Approve).detail, "pairing approved");
    assert_eq!(pairing_done(PairingStep::Reject).detail, "pairing rejected");
    assert_eq!(pairing_done(PairingStep::Unpair).detail, "unpaired");
    assert_eq!(plugin_action("start").unwrap(), PluginAction::Start);
    assert_eq!(plugin_action("delete").unwrap(), PluginAction::Delete);
    assert_eq!(plugin_action("fly").unwrap_err().detail, "unknown action fly");
    let ask = |len: usize, id: &str| check_upload(len, &UploadQuery { plugin_id: id.into() });
    assert_eq!(ask(1, " ptt-1.0_b ").unwrap(), "ptt-1.0_b");
    assert_eq!(ask(1, "").unwrap(), "");
    assert_eq!(ask(0, "ptt").unwrap_err().detail, "package is empty");
    assert_eq!(ask(1, ".ptt").unwrap_err().detail, "invalid plugin id");
    assert_eq!(ask(1, "a/b").unwrap_err().detail, "invalid plugin id");
}

#[test]
fn link_coding_and_switches() {
    assert_eq!((default_shell_timeout(), default_true()), (20, true));
    let stats = FecStats { verified_fast: 1, decoded_full: 2, failed: 3, header_failed: 4 };
    assert_eq!(put_fec(false, Some(("robust".into(), stats))).unwrap_err().status, 400);
    assert_eq!(put_fec(true, None).unwrap_err().status, 503);
    assert_eq!(put_fec(true, Some(("fast".into(), stats))).unwrap().default_class, "fast");
    let shown = fec_status(Some(("robust".into(), stats))).unwrap();
    assert_eq!((shown.classes.len(), shown.classes[8].as_str(), shown.failed), (9, "none", 3));
    assert_eq!(fec_status(None).unwrap_err().detail, "radio interface not running");
    let class = |word: &str| link_class(&ClassRequest { class: word.into() });
    assert_eq!(class("bulk").unwrap(), LinkClass::Bulk);
    assert_eq!(class("x").unwrap_err().detail, "unknown class x");
    assert_eq!(class_set(&ClassRequest { class: "media".into() }).detail, "link class set to media");
    let saved = FeatureFlags { vpn_enabled: true, remote_enabled: true, shell_enabled: false };
    let shown = features_response(saved, Some(true), true, false);
    assert!(shown.shell_enabled && shown.restart_required);
    assert!(!features_response(saved, None, true, true).restart_required);
    assert_eq!(media_opened(3, "127.0.0.1:1", "127.0.0.1:2").detail, "media channel 3 open: app → 127.0.0.1:1 → radio, radio → 127.0.0.1:2");
    assert_eq!(media_closed(3, Ok(())).unwrap().detail, "media channel 3 closed");
    let failed = media_closed(3, Err("no link".into())).unwrap_err();
    assert_eq!((failed.status, failed.detail.as_str()), (404, "no link"));
}

#[test]
fn the_mesh_is_refused_what_widens_its_powers() {
    let refusal = (403, "not permitted from the mesh; use the device's own interface".to_string());
    let flags = FeatureFlags { vpn_enabled: true, remote_enabled: false, shell_enabled: true };
    assert_eq!(put_features(false, flags).unwrap(), flags);
    let refused = put_features(true, flags).unwrap_err();
    assert_eq!((refused.status, refused.detail), refusal);
    let shell = |from_mesh: bool, running: bool, hash: &str| {
        post_shell(from_mesh, running, hash, ShellRequest { command: "ls".into(), timeout_secs: 5 })
            .map(|(node, asked)| (node.to_hex_string(), asked.command, asked.timeout_secs))
            .map_err(|reply| (reply.status, reply.detail))
    };
    assert_eq!(shell(false, true, NODE).unwrap(), (NODE.to_string(), "ls".to_string(), 5));
    assert_eq!(shell(true, false, "not an address, whatever it holds").unwrap_err(), refusal);
    assert_eq!(shell(false, false, "x").unwrap_err().0, 503);
    assert_eq!(shell(false, true, "x").unwrap_err(), (400, "invalid node hash".into()));
    let open = |from_mesh: bool, hash: &str, running: bool| {
        post_media(from_mesh, hash, running).map(|n| n.to_hex_string()).map_err(|reply| (reply.status, reply.detail))
    };
    assert_eq!(open(false, NODE, true).unwrap(), NODE);
    assert_eq!(open(true, "x", false).unwrap_err(), refusal);
    assert_eq!(open(false, "x", false).unwrap_err().0, 400);
    assert_eq!(open(false, NODE, false).unwrap_err(), (503, "media bridge not running".into()));
    let code = AddNodeRequest { identity_hex: " AB ".into(), codename: "".into(), pair: false };
    assert_eq!(post_add_node(false, true, &code).unwrap(), "ab");
    let refused = post_add_node(true, false, &code).unwrap_err();
    assert_eq!((refused.status, refused.detail), refusal);
    assert_eq!(post_add_node(false, false, &code).unwrap_err().status, 503);
    assert!(class_list().iter().any(|c| c == "tm1280") && class_list().len() == 9);
}

#[test]
fn remote_settings_stay_in_bounds() {
    let wild = RemoteSettings { announce_secs: 1, accept_pairing: true, auto_link: false, chunk_gap_ms: 900, bulk_parity: 99 };
    let tame = kaonic::http::remote_api::put_settings(wild);
    assert_eq!((tame.announce_secs, tame.chunk_gap_ms, tame.bulk_parity), (5, 500, 8));
    assert_eq!(kaonic::http::remote_api::put_settings(tame), tame);
    let live = LiveSettings { auto_link: true, chunk_gap_ms: 7, bulk_parity: 1 };
    let shown = kaonic::http::remote_api::get_settings(tame, Some(live), 2);
    assert_eq!((shown.announce_secs, shown.auto_link, shown.chunk_gap_ms, shown.bulk_parity), (5, true, 7, 1));
    // Without a running remote the parity is the default, whatever is kept.
    let idle = kaonic::http::remote_api::get_settings(tame, None, 2);
    assert_eq!(idle, RemoteSettings { bulk_parity: 2, ..tame });
    assert_eq!(kaonic::http::remote_api::settings_saved(Err("x".into())).status, 500);
}

// ── The installer and events ─────────────────────────────────────────────────

#[test]
fn installer_requests_stay_on_the_device() {
    let url = |r: InstallerRequest| proxy_target(&r);
    assert_eq!(
        url(InstallerRequest::Version { surface: Surface::Update, target: "commd".into() }),
        (HttpMethod::Get, "http://127.0.0.1:8682/api/update/commd/version".into())
    );
    assert_eq!(
        url(InstallerRequest::Upload { surface: Surface::Installer, target: "gateway".into() }),
        (HttpMethod::Post, "http://127.0.0.1:8682/api/installer/gateway/upload".into())
    );
    assert_eq!(url(InstallerRequest::ListPlugins), (HttpMethod::Get, "http://127.0.0.1:8682/api/plugins".into()));
    assert_eq!(
        url(InstallerRequest::DeletePlugin { plugin_id: "ptt".into() }),
        (HttpMethod::Delete, "http://127.0.0.1:8682/api/plugins/ptt".into())
    );
    assert_eq!(upload_content_type(Surface::Update, None).as_deref(), Some("application/octet-stream"));
    assert_eq!(upload_content_type(Surface::Installer, None), None);
    assert_eq!(upload_content_type(Surface::Installer, Some("text/plain".into())).as_deref(), Some("text/plain"));
    assert_eq!(body_failed("x").detail, "failed to read body: x");
    assert_eq!(proxy_answer(Surface::Update, Ok((201, "made".into()))).status, 201);
    assert_eq!(proxy_answer(Surface::Update, Ok((99, "x".into()))).status, 500);
    let gone = proxy_answer(Surface::Update, Err("refused".into()));
    assert_eq!((gone.status, gone.detail.as_str()), (502, r#"{"detail":"kaonic-update unreachable: refused"}"#));
    assert_eq!(
        proxy_answer(Surface::Installer, Err("refused".into())).detail,
        r#"{"detail":"kaonic-installer unreachable: refused"}"#
    );
}

#[test]
fn open_pages_get_everything_first() {
    let opening = initial_events(true);
    assert_eq!(opening.len(), 9);
    assert_eq!(initial_events(false).len(), 8);
    assert!(publish_periodic_events(0, true).is_empty());
    let later = publish_periodic_events(1, true);
    assert_eq!(later.last(), Some(&EventKind::Remote));
    assert!(later.iter().all(|e| opening.contains(e)));
}
