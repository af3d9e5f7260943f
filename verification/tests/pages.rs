//! What the pages show, and the settings page.

use kaonic::dashboard::settings::{
    default_announce_freq_secs, default_config, get_settings, mod_type_str, post_settings, read_number, read_peers, read_settings, settings_saved,
    urlenc, Flash, SettingsForm, SettingsPage,
};
use kaonic::gateway::radio::{
    Accelerator, Antenna, BandwidthFilter, Modulation, OfdmBandwidthOption, OfdmMcs, OfdmModulation, QpskChipFrequency,
    QpskModulation, QpskRateMode, RadioConfig, RadioModuleConfig,
};
use kaonic::net::{IpAddress, SocketAddress};
use kaonic::pages::dashboard::{
    modulation_summary, module_card, port_badge_class, radio_label, service_badge_class, service_badge_label,
    services_text, system_card, traffic_card, vpn_card, vpn_status_badge_class, ServiceStatus, SystemLoad,
};
use kaonic::pages::media::audio_card;
use kaonic::pages::network::{network_banner, text_or, WifiStatus};
use kaonic::pages::remote::{count_nodes, NodeState};
use kaonic::pages::reticulum::{
    event_row, format_timestamp, link_row, peer_row, route_row, summarize, EventInfo, LinkInfo, VpnPeer, VpnRoute,
};
use kaonic::pages::update::{collect_versions, unknown_version, update_card, version_url, VersionInfo};
use kaonic::pages::vpn::{
    banner_modifier, default_advertised_route_strings, device_card, format_relative_time, join_paired,
    load_vpn_snapshot, parse_route_display, peer_count_words, route_editor_text, status_dot_class, truncate_hash,
    vpn_banner, PairedEntry, PairedPeerDto, VpnGatewayDto, VpnUplinkDto,
};

// ── Settings page ────────────────────────────────────────────────────────────

fn address(last: u8, port: u16) -> SocketAddress {
    SocketAddress { ip: IpAddress::V4([192, 168, 10, last]), port }
}

fn ofdm() -> OfdmModulation {
    OfdmModulation { mcs: OfdmMcs::BpskC1_2_4x, opt: OfdmBandwidthOption::Option1, pdt: 3, tx_power: 10 }
}

fn qpsk() -> QpskModulation {
    QpskModulation { fchip: QpskChipFrequency::Fchip100, mode: QpskRateMode::RateMode0, tx_power: 10 }
}

fn form() -> SettingsForm {
    SettingsForm {
        network: " 10.20.0.0/16 ".into(),
        announce_freq_secs: "30".into(),
        peers: " aa \n\n bb\r\ncc".into(),
        radio_listen: "0.0.0.0:9091".into(),
        radio_server: "192.168.10.1:9090".into(),
        radio_module: "1".into(),
        radio_freq_mhz: "915".into(),
        radio_channel_spacing_khz: "400".into(),
        radio_channel: "7".into(),
        radio_bandwidth_filter: "wide".into(),
        modulation_type: "qpsk".into(),
        ofdm_mcs: "6".into(),
        ofdm_opt: "2".into(),
        ofdm_pdt: "4".into(),
        ofdm_tx_power: "12".into(),
        qpsk_fchip: "2".into(),
        qpsk_mode: "4".into(),
        qpsk_tx_power: "9".into(),
    }
}

#[test]
fn the_form_is_read() {
    let config = post_settings(&form(), Some(address(0, 9091)), Some(address(1, 9090))).unwrap();
    assert_eq!((config.network.address, config.network.length), ([10, 20, 0, 0], 16));
    assert_eq!(config.announce_freq_secs, 30);
    assert_eq!(config.peers, vec!["aa", "bb", "cc"]);
    let radio = config.kaonic_ctrl_config.unwrap();
    assert_eq!((radio.listen_addr, radio.server_addr, radio.module), (address(0, 9091), address(1, 9090), 1));
    assert_eq!(
        radio.radio_config,
        Some(RadioConfig { freq: 915_000_000, channel_spacing: 400_000, channel: 7, bandwidth_filter: BandwidthFilter::Wide })
    );
    assert_eq!(
        radio.modulation,
        Some(Modulation::Qpsk(QpskModulation { fchip: QpskChipFrequency::Fchip1000, mode: QpskRateMode::RateMode4, tx_power: 9 }))
    );
}

#[test]
fn the_form_has_defaults() {
    let mut f = form();
    f.announce_freq_secs = "0".into();
    f.radio_freq_mhz = "x".into();
    f.modulation_type = "fsk".into();
    let config = post_settings(&f, Some(address(0, 1)), Some(address(1, 2))).unwrap();
    assert_eq!(config.announce_freq_secs, 1);
    let radio = config.kaonic_ctrl_config.unwrap();
    assert_eq!((radio.radio_config, radio.modulation), (None, Some(Modulation::Off)));
    f.radio_server = " ".into();
    assert!(post_settings(&f, None, None).unwrap().kaonic_ctrl_config.is_none());
    f = form();
    f.modulation_type = " ofdm ".into();
    f.ofdm_mcs = "200".into();
    f.ofdm_opt = "9".into();
    f.ofdm_pdt = "".into();
    f.ofdm_tx_power = "300".into();
    let config = post_settings(&f, Some(address(0, 1)), Some(address(1, 2))).unwrap();
    assert_eq!(
        config.kaonic_ctrl_config.unwrap().modulation,
        Some(Modulation::Ofdm(OfdmModulation { mcs: OfdmMcs::QamC3_4, opt: OfdmBandwidthOption::Option1, pdt: 3, tx_power: 10 }))
    );
}

#[test]
fn the_form_is_refused() {
    let mut f = form();
    f.network = "10.20.0.1/16 & \"more\"".into();
    assert_eq!(
        post_settings(&f, None, None).unwrap_err(),
        "/settings?error=Invalid+network+CIDR%3A+10.20.0.1/16+%26+%22more%22"
    );
    // A frequency that is too large does not keep the network from being refused first.
    f.radio_freq_mhz = u64::MAX.to_string();
    assert!(post_settings(&f, Some(address(0, 1)), Some(address(1, 2))).is_err());
    let mut large = form();
    large.radio_freq_mhz = "18446744073710".into();
    let config = post_settings(&large, Some(address(0, 1)), Some(address(1, 2))).unwrap();
    assert_eq!(config.kaonic_ctrl_config.unwrap().radio_config.unwrap().freq, 448_384);
    assert_eq!(
        post_settings(&form(), None, Some(address(1, 2))).unwrap_err(),
        "/settings?error=Invalid+listen+address%3A+0.0.0.0%3A9091"
    );
    assert_eq!(
        post_settings(&form(), Some(address(1, 2)), None).unwrap_err(),
        "/settings?error=Invalid+server+address%3A+192.168.10.1%3A9090"
    );
    assert_eq!(settings_saved(true), "/settings?saved=1");
    assert_eq!(settings_saved(false), "/settings?error=Failed+to+save+settings");
    assert_eq!(urlenc("a b:c&\"d\"%"), "a+b%3Ac%26%22d%22%");
    assert_eq!(read_number(" +5 ", 9, 1), 5);
    assert_eq!(read_number("10", 9, 1), 1);
    assert_eq!(read_number("-1", 9, 1), 1);
    assert_eq!(read_peers(" \n"), Vec::<String>::new());
}

fn filled_in(page: &SettingsPage) -> SettingsForm {
    SettingsForm {
        network: page.network.clone(),
        announce_freq_secs: page.announce_freq_secs.to_string(),
        peers: page.peers_text.clone(),
        radio_listen: page.listen_addr.map(|a| format!("{a:?}")).unwrap_or_default(),
        radio_server: page.server_addr.map(|a| format!("{a:?}")).unwrap_or_default(),
        radio_module: page.module.to_string(),
        radio_freq_mhz: page.freq_mhz.to_string(),
        radio_channel_spacing_khz: page.ch_spacing_khz.to_string(),
        radio_channel: page.channel.to_string(),
        radio_bandwidth_filter: page.bandwidth_filter.clone(),
        modulation_type: page.mod_type.clone(),
        ofdm_mcs: page.ofdm_mcs.to_string(),
        ofdm_opt: page.ofdm_opt.to_string(),
        ofdm_pdt: page.ofdm_pdt.to_string(),
        ofdm_tx_power: page.ofdm_tx_power.to_string(),
        qpsk_fchip: page.qpsk_fchip.to_string(),
        qpsk_mode: page.qpsk_mode.to_string(),
        qpsk_tx_power: page.qpsk_tx_power.to_string(),
    }
}

#[test]
fn saving_the_page_as_shown_changes_nothing() {
    let first = post_settings(&form(), Some(address(0, 9091)), Some(address(1, 9090))).unwrap();
    let page = get_settings(&first, &Flash { saved: Some("1".into()), error: None }, ofdm(), qpsk());
    assert!(page.saved);
    assert_eq!(page.network, "10.20.0.0/16");
    assert_eq!((page.freq_mhz, page.ch_spacing_khz, page.mod_type.as_str()), (915, 400, "qpsk"));
    let again = read_settings(&filled_in(&page), Ok(first.network), page.listen_addr, page.server_addr).unwrap();
    assert_eq!(again.peers, first.peers);
    assert_eq!(again.announce_freq_secs, first.announce_freq_secs);
    let (a, b) = (again.kaonic_ctrl_config.unwrap(), first.kaonic_ctrl_config.unwrap());
    assert_eq!((a.listen_addr, a.server_addr, a.module), (b.listen_addr, b.server_addr, b.module));
    assert_eq!((a.radio_config, a.modulation), (b.radio_config, b.modulation));
}

#[test]
fn the_default_page() {
    let page = get_settings(&default_config(), &Flash { saved: None, error: Some("x".into()) }, ofdm(), qpsk());
    assert_eq!((page.saved, page.error.as_deref()), (false, Some("x")));
    assert_eq!(page.announce_freq_secs, default_announce_freq_secs());
    assert_eq!((page.freq_mhz, page.ch_spacing_khz, page.channel, page.bandwidth_filter.as_str()), (869, 200, 0, "narrow"));
    assert_eq!((page.mod_type.as_str(), page.ofdm_pdt, page.qpsk_tx_power), ("off", 3, 10));
    assert_eq!(mod_type_str(&Some(Modulation::Fsk)), "off");
    assert_eq!(mod_type_str(&Some(Modulation::Ofdm(ofdm()))), "ofdm");
}

// ── Dashboard ────────────────────────────────────────────────────────────────

fn radio(modulation: Modulation) -> RadioModuleConfig {
    RadioModuleConfig {
        radio_config: RadioConfig { freq: 869_535_000, channel_spacing: 200_000, channel: 11, bandwidth_filter: BandwidthFilter::Wide },
        modulation,
        accelerator: Accelerator::Hardware,
        antenna: Antenna::Internal,
    }
}

#[test]
fn radio_cards() {
    let module = radio(Modulation::Ofdm(OfdmModulation {
        mcs: OfdmMcs::QpskC3_4,
        opt: OfdmBandwidthOption::Option2,
        pdt: 3,
        tx_power: 14,
    }));
    let card = traffic_card(&module);
    assert_eq!((card.frequency.as_str(), card.channel.as_str()), ("869 MHz", "ch 11 · 200 kHz"));
    assert_eq!((card.modulation.as_str(), card.settings.as_str()), ("OFDM", "QPSK ¾ · BW2 · 14 dBm"));
    let card = module_card(1, &module);
    assert_eq!((card.label.as_str(), card.bandwidth.as_str(), card.acceleration.as_str()), ("Radio B", "Wide", "Hardware (FPGA)"));
    let details: Vec<(&str, &str)> = card.details.iter().map(|(a, b)| (a.as_str(), b.as_str())).collect();
    assert_eq!(details, vec![("MCS", "QPSK 3/4"), ("Bandwidth", "BW Opt 2"), ("TX Power", "14 dBm")]);

    let module = radio(Modulation::Qpsk(QpskModulation {
        fchip: QpskChipFrequency::Fchip2000,
        mode: QpskRateMode::RateMode3,
        tx_power: 5,
    }));
    assert_eq!(modulation_summary(&module), ("QPSK", "2 Mchip/s · mode 3 · 5 dBm".to_string()));
    let details = module_card(0, &module).details;
    assert_eq!(details[0], ("Chip Rate".to_string(), "2000 kchip/s".to_string()));
    assert_eq!(details[1], ("Rate Mode".to_string(), "Mode 3".to_string()));
    assert_eq!(modulation_summary(&radio(Modulation::Off)), ("OFF", "disabled".to_string()));
    assert_eq!(modulation_summary(&radio(Modulation::Fsk)), ("FSK", "fsk".to_string()));
    assert_eq!(module_card(2, &radio(Modulation::Off)).modulation, "Off");
    assert_eq!((radio_label(0), radio_label(1), radio_label(2)), ("Radio A", "Radio B", "Radio"));
}

#[test]
fn system_and_service_cards() {
    let card = system_card(&SystemLoad { cpu_freq_mhz: 650, ram_used_mb: 100, ram_total_mb: 400, fs_free_mb: 30, fs_total_mb: 120 });
    assert_eq!((card.cpu_clock.as_str(), card.ram_percent, card.ram_text.as_str()), ("650 MHz", 25, "100 / 400 MB"));
    assert_eq!((card.fs_used_mb, card.fs_percent), (90, 75));
    let none = system_card(&SystemLoad { cpu_freq_mhz: 0, ram_used_mb: 5, ram_total_mb: 0, fs_free_mb: 9, fs_total_mb: 3 });
    assert_eq!((none.cpu_clock.as_str(), none.ram_percent, none.fs_used_mb, none.fs_percent), ("—", 0, 0, 0));

    let service = |load: &str, active: &str| ServiceStatus {
        unit: "u".into(),
        brief_name: "b".into(),
        load_state: load.into(),
        active_state: active.into(),
        status: "s".into(),
    };
    assert_eq!(service_badge_class(&service("loaded", "active")), "badge-ok");
    assert_eq!(service_badge_class(&service("loaded", "reloading")), "badge-warn");
    assert_eq!(service_badge_class(&service("loaded", "failed")), "badge-err");
    assert_eq!(service_badge_class(&service("not-found", "active")), "badge-err");
    assert_eq!(service_badge_label(&service("not-found", "active")), "not-found");
    assert_eq!(service_badge_label(&service("loaded", "active")), "active");
    assert_eq!(services_text(&[service("loaded", "active"), service("masked", "active")]), "1/2 active");
}

fn peer(destination: &str, link_state: &str) -> VpnPeer {
    VpnPeer {
        destination: destination.into(),
        link_state: link_state.into(),
        announced_routes: vec!["10.1.0.0/16".into(), "10.2.0.0/16".into()],
        last_seen_ts: 3_661,
    }
}

#[test]
fn tunnel_and_port_cards() {
    let card = vpn_card("running", &None, &[peer("a", "active"), peer("b", "closed")], 5, 6);
    assert_eq!((card.badge_class.as_str(), card.tunnel_ip.as_str(), card.peer_summary.as_str()), ("badge badge-ok", "—", "1/2 linked"));
    assert_eq!((card.tx_packets.as_str(), card.rx_packets.as_str()), ("5 pkts", "6 pkts"));
    assert_eq!(vpn_status_badge_class("mock"), "badge badge-warn");
    assert_eq!(vpn_status_badge_class("error"), "badge badge-err");
    assert_eq!(vpn_status_badge_class("Running"), "badge");
    assert_eq!(port_badge_class("listening"), "badge badge-ok");
    assert_eq!(port_badge_class("waiting"), "badge badge-warn");
    assert_eq!(port_badge_class("down"), "badge badge-err");
}

// ── Other pages ──────────────────────────────────────────────────────────────

#[test]
fn volume_bars() {
    let card = audio_card(75);
    assert_eq!(card.volume_text, "75%");
    assert_eq!(card.bar_classes.iter().filter(|c| *c == "vol-bar active").count(), 12);
    assert_eq!(card.bar_classes.len(), 16);
    assert_eq!(audio_card(0).bar_classes[0], "vol-bar");
    assert_eq!(audio_card(100).bar_classes[15], "vol-bar active");
}

#[test]
fn the_network_banner() {
    let mut wifi = WifiStatus {
        mode: "sta".into(),
        connected_ssid: None,
        wlan0_ip: Some("192.168.1.2".into()),
        antenna_supported: false,
        antenna: "internal".into(),
        wpa_supplicant_status: "active".into(),
        hostapd_status: "inactive".into(),
    };
    let idle = network_banner(&wifi);
    assert_eq!((idle.status_text.as_str(), idle.dot_class.as_str()), ("Not connected", "status-dot status-dot--warn"));
    assert_eq!(idle.banner_class, "vpn-banner remote-banner vpn-banner--idle");
    assert_eq!((idle.antenna_text.as_str(), idle.antenna_hidden, idle.service_status.as_str()), ("fixed", true, "active"));
    wifi.connected_ssid = Some("home".into());
    assert_eq!(network_banner(&wifi).status_text, "home");
    wifi.mode = "ap".into();
    wifi.antenna_supported = true;
    let ap = network_banner(&wifi);
    assert_eq!((ap.status_text.as_str(), ap.mode_text.as_str(), ap.service_status.as_str()), ("Access Point", "Access Point", "inactive"));
    assert_eq!(ap.antenna_text, "internal");
    assert_eq!(text_or(&None, "x"), "x");
}

#[test]
fn nodes_are_counted() {
    let node = |online: bool, paired: bool| NodeState { online, paired };
    let counts = count_nodes(&[node(true, true), node(true, false), node(false, false)], 4);
    assert_eq!((counts.nodes, counts.online, counts.paired, counts.pending), (3, 2, 1, 4));
}

#[test]
fn mesh_tables() {
    assert_eq!(format_timestamp(3_661), "01:01:01 UTC");
    assert_eq!(format_timestamp(86_399), "23:59:59 UTC");
    assert_eq!(format_timestamp(86_399 + 86_400), "23:59:59 UTC");
    let link = LinkInfo {
        id: "i".into(),
        destination: "d".into(),
        status: "s".into(),
        rtt_ms: Some(12),
        packets: 3,
        bytes: 400,
        last_event: "e".into(),
    };
    assert_eq!(link_row(&link), vec!["i", "d", "s", "12 ms", "3", "400 B", "e"]);
    assert_eq!(link_row(&LinkInfo { rtt_ms: None, ..link.clone() })[3], "—");
    let event = EventInfo {
        ts: 0,
        direction: "in".into(),
        kind: "data".into(),
        link_id: "".into(),
        destination: "d".into(),
        details: "x".into(),
    };
    assert_eq!(event_row(&event), vec!["00:00:00 UTC", "in", "data", "—", "d", "x"]);
    assert_eq!(peer_row(&peer("a", "active")), vec!["a", "active", "10.1.0.0/16, 10.2.0.0/16", "01:01:01 UTC"]);
    assert_eq!(peer_row(&VpnPeer { announced_routes: vec![], ..peer("a", "x") })[2], "—");
    let route = VpnRoute { network: "n".into(), owner: "o".into(), status: "s".into(), installed: true };
    assert_eq!(route_row(&route), vec!["n", "o", "s", "yes"]);
    let sum = summarize(&[link], &[], &[event], &["p".to_string()], &None);
    assert_eq!((sum.incoming_count, sum.outgoing_count, sum.events_count), (1, 0, 1));
    assert_eq!((sum.peers_text.as_str(), sum.interface_text.as_str()), ("1 configured peers", "—"));
}

#[test]
fn update_cards() {
    let info = VersionInfo { version: Some("1.2".into()), hash: Some("0123456789abcdef99".into()) };
    let card = update_card("commd", "file", "status", &info);
    assert_eq!((card.version_text.as_str(), card.hash_text.as_str()), ("1.2", "0123456789abcdef…"));
    assert_eq!(card.onclick, "kaonic_upload('commd', 'file', 'status')");
    let card = update_card("a", "b", "c", &unknown_version());
    assert_eq!((card.version_text.as_str(), card.hash_text.as_str()), ("Unknown", "—"));
    let short = VersionInfo { version: None, hash: Some("abc".into()) };
    assert_eq!(update_card("a", "b", "c", &short).hash_text, "abc…");
    let versions = collect_versions(Some(info), None);
    assert_eq!((versions.commd.version.as_deref(), versions.gateway.version), (Some("1.2"), None));
    assert_eq!(version_url("commd"), "http://127.0.0.1:8682/api/update/commd/version");
}

#[test]
fn tunnel_page_texts() {
    assert_eq!(truncate_hash(" 0123 4567 89ab cdef 99 "), "0123456789abcdef…");
    assert_eq!(truncate_hash("ab cd"), "abcd");
    assert_eq!(truncate_hash("ééééééééé"), "éééééééé…");
    assert_eq!(format_relative_time(0), "never");
    assert_eq!(format_relative_time(60), "00:01:00 UTC");
    assert_eq!(status_dot_class(" Running "), "status-dot status-dot--ok");
    assert_eq!(status_dot_class("ERROR"), "status-dot status-dot--err");
    assert_eq!(status_dot_class("mock"), "status-dot status-dot--idle");
    assert_eq!(status_dot_class("starting"), "status-dot status-dot--warn");
    assert_eq!(banner_modifier("running"), "vpn-banner vpn-banner--ok");
    assert_eq!(banner_modifier("error"), "vpn-banner vpn-banner--err");
    assert_eq!(banner_modifier("mock"), "vpn-banner vpn-banner--idle");
    assert_eq!(parse_route_display("10.9.0.0/24 -> 192.168.1.0/24 "), ("10.9.0.0/24".into(), Some("192.168.1.0/24".into())));
    assert_eq!(parse_route_display(" 10.9.0.0/24"), ("10.9.0.0/24".into(), None));
    assert_eq!(default_advertised_route_strings(vec![]), vec!["192.168.10.0/24"]);
    assert_eq!(route_editor_text(vec!["a".into(), "b".into()]), "a\nb");
    assert_eq!(peer_count_words(1), " node on the tunnel");
    assert_eq!(peer_count_words(0), " nodes on the tunnel");
    let banner = vpn_banner("running", &Some("10.20.0.1".into()), 3, &None);
    assert_eq!((banner.tunnel_ip.as_str(), banner.peers_text.as_str(), banner.error), ("10.20.0.1", "3", None));
    let card = device_card(&["a -> b".to_string()], &None, "linux", &None, &None, &Some("10.0.0.1".into()));
    assert_eq!((card.interface.as_str(), card.wlan0.as_str(), card.usb0.as_str()), ("—", "not connected", "10.0.0.1"));
    assert_eq!(card.backend_badge, "badge reticulum-badge-kind-data");
    assert_eq!(card.routes, vec![("a".to_string(), Some("b".to_string()))]);
    assert_eq!(device_card(&[], &None, "mock", &None, &None, &None).backend_badge, "badge reticulum-badge-soft");
}

#[test]
fn paired_nodes_are_joined_with_the_tunnel() {
    let nodes = [
        PairedEntry { identity_hash: "id1".into(), codename: "fox".into(), vpn_hash: Some("v1".into()) },
        PairedEntry { identity_hash: "id2".into(), codename: "".into(), vpn_hash: None },
    ];
    let tags = [("id1".to_string(), "base".to_string()), ("id1".to_string(), "later".to_string())];
    let peers = vec![peer("v1", "active"), peer("v1", "closed")];
    let routes = vec![
        VpnRoute { network: "n1".into(), owner: "v1".into(), status: "s".into(), installed: true },
        VpnRoute { network: "n2".into(), owner: "v2".into(), status: "s".into(), installed: true },
        VpnRoute { network: "n3".into(), owner: "v1".into(), status: "s".into(), installed: false },
    ];
    let joined = join_paired(&nodes, &tags, &peers, &routes);
    assert_eq!((joined[0].tag.as_str(), joined[0].online), ("base", true));
    assert_eq!(joined[0].routes, vec!["n1", "n3"]);
    assert_eq!((joined[1].tag.as_str(), joined[1].online, joined[1].routes.len()), ("", false, 0));
    assert_eq!(joined[0].display_name(), "base");
    let unnamed = PairedPeerDto {
        identity_hash: "0123456789".into(),
        codename: "".into(),
        tag: "".into(),
        online: false,
        routes: vec![],
    };
    assert_eq!(unnamed.display_name(), "01234567");
    assert_eq!(PairedPeerDto { codename: "fox".into(), ..unnamed }.display_name(), "fox");

    let gateway = VpnGatewayDto { enabled: true, active: false, routes: vec![], egress_interface: None, detail: None };
    let uplink = VpnUplinkDto { enabled: false, active: false, peer: None, routes: vec![], default_route: false, detail: None };
    let snapshot = load_vpn_snapshot("h".into(), "fox".into(), (None, None), &nodes, &tags, peers, routes, (gateway, uplink));
    assert_eq!((snapshot.paired.len(), snapshot.gateway.enabled, snapshot.remote_routes.len()), (2, true, 3));
}
