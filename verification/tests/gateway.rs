//! The gateway's own services: sound, radio, bridges and startup.

use kaonic::atak_bridge::{
    bridge_step, broadcast_address, hex_preview, listen_address, write_spaced_hex, BridgeAction, BridgeEvent,
};
use kaonic::gateway::atak::{
    destination_name, local_address, mcast_group_for_port, mcast_target, port_tag, transmit_addresses, AtakAction,
    AtakBridge, AtakEvent, BridgeMetrics, ATAK_PORTS,
};
use kaonic::gateway::audio::{
    parse_amixer_state, read_arguments, read_headphones_linux, run_amixer, write_arguments, write_headphones_linux,
    AudioControlState, AudioError, AudioOutput, AudioService, CommandOutcome,
};
use kaonic::gateway::media_bridge::{
    bind_failed, check_config, clamp, default_profile, MediaBridge, MediaChannelSpec, MediaConfig, MediaSpecError,
};
use kaonic::gateway::radio::{
    apply_outcome, band_for_config, check_test_frame, gateway_channel_name, link_timers, module_steps,
    test_frame_sent, Accelerator, Antenna, BandwidthFilter, BootSequence, BootStep, HardwareRadioConfig, Modulation,
    OfdmBandwidthOption, OfdmMcs, OfdmModulation, RadioBand, RadioConfig, RadioModuleConfig, RadioStep,
};
use kaonic::gateway::startup::{
    atak_seed_name, ctrl_server, default_db_path, frame_module, frame_preview, next_phase, serial_text,
    should_run_webapp_only, FeedEvent, FrameFeed, FrameLog, StartPhase,
};
use kaonic::http::remote_api::delete_media;
use kaonic::mesh::{is_hash_readable, AddressHash, DestinationDesc, HashError, LinkEvent};
use kaonic::net::{IpAddress, SocketAddress};

#[test]
fn parse_amixer_on_state() {
    let stdout = r#"Simple mixer control 'Headphone',0
  Capabilities: pvolume pswitch
  Playback channels: Front Left - Front Right
  Limits: Playback 0 - 255
  Front Left: Playback 179 [70%] [-19.00dB] [on]
  Front Right: Playback 179 [70%] [-19.00dB] [on]
"#;

    let state = parse_amixer_state(stdout).expect("state should parse");
    assert_eq!(
        state,
        AudioControlState {
            volume: 70,
            muted: false
        }
    );
}

#[test]
fn parse_amixer_off_state() {
    let stdout = r#"Simple mixer control 'Headphone',0
  Front Left: Playback 128 [50%] [-32.00dB] [off]
"#;

    let state = parse_amixer_state(stdout).expect("state should parse");
    assert_eq!(
        state,
        AudioControlState {
            volume: 50,
            muted: true
        }
    );
}

#[test]
fn reject_out_of_range_volume() {
    let err = AudioControlState {
        volume: 101,
        muted: false,
    }
    .validate()
    .expect_err("volume must be rejected");

    assert!(matches!(err, AudioError::InvalidVolume(101)));
}

// ── Sound ────────────────────────────────────────────────────────────────────

fn done(success: bool, stdout: &str, stderr: &str) -> CommandOutcome {
    CommandOutcome::Done { success, stdout: stdout.as_bytes().to_vec(), stderr: stderr.as_bytes().to_vec() }
}

#[test]
fn mixer_output_without_a_level_is_refused() {
    assert!(matches!(parse_amixer_state(""), Err(AudioError::UnexpectedOutput(_))));
    assert!(matches!(parse_amixer_state("Front Left: Playback 1 [on]"), Err(AudioError::UnexpectedOutput(_))));
}

#[test]
fn outputs_have_names_and_defaults() {
    assert_eq!(AudioOutput::parse("speaker"), Some(AudioOutput::Speaker));
    assert_eq!(AudioOutput::parse("headphones"), Some(AudioOutput::Headphones));
    assert_eq!(AudioOutput::parse("Speaker"), None);
    assert_eq!(AudioControlState { volume: 100, muted: true }.validate().unwrap().volume, 100);
}

#[test]
fn mixer_is_run_and_judged() {
    let words = read_arguments();
    assert!(words.len() > 1);
    assert_eq!(run_amixer(&words, done(true, "ok", "")).unwrap(), "ok");
    assert!(matches!(
        run_amixer(&words, done(false, "", " no card \n")),
        Err(AudioError::CommandFailed { message, .. }) if message == "no card"
    ));
    assert!(matches!(run_amixer(&words, CommandOutcome::Io("missing".into())), Err(AudioError::CommandIo { .. })));
    assert!(matches!(run_amixer(&words, CommandOutcome::Lost("gone".into())), Err(AudioError::TaskJoin(e)) if e == "gone"));
    let level = "  Front Left: Playback 128 [50%] [-32.00dB] [off]\n";
    assert_eq!(
        read_headphones_linux(done(true, level, "")).unwrap(),
        AudioControlState { volume: 50, muted: true }
    );
    assert!(write_headphones_linux(AudioControlState { volume: 50, muted: true }, done(false, "", "x"), done(true, level, "")).is_err());
    assert!(write_arguments(AudioControlState { volume: 7, muted: false }).iter().any(|w| w == "7%"));
}

#[test]
fn the_speaker_is_kept_and_the_headphones_are_asked() {
    let mut service = AudioService::new();
    let level = "  Front Left: Playback 128 [50%] [-32.00dB] [on]\n";
    let shown = service
        .write(AudioOutput::Speaker, AudioControlState { volume: 10, muted: true }, Some((done(false, "", ""), done(false, "", ""))))
        .unwrap();
    assert_eq!((shown.volume, shown.muted), (10, true));
    let read = service.read(AudioOutput::Speaker, Some(done(false, "", ""))).unwrap();
    assert_eq!((read.volume, read.muted, read.backend.as_str()), (10, true, "Mock"));
    assert!(matches!(
        service.write(AudioOutput::Speaker, AudioControlState { volume: 101, muted: false }, None),
        Err(AudioError::InvalidVolume(101))
    ));
    let mixed = service.read(AudioOutput::Headphones, Some(done(true, level, ""))).unwrap();
    assert_eq!((mixed.volume, mixed.backend.as_str()), (50, "ALSA Headphone"));
    assert!(service.read(AudioOutput::Headphones, Some(done(false, "", "x"))).is_err());
    let mock = service.read(AudioOutput::Headphones, None).unwrap();
    assert_eq!((mock.volume, mock.backend.as_str()), (60, "Mock"));
    let loud = AudioControlState { volume: 90, muted: false };
    assert!(service.write(AudioOutput::Headphones, loud, Some((done(false, "", "x"), done(true, level, "")))).is_err());
    assert_eq!(service.read(AudioOutput::Headphones, None).unwrap().volume, 60);
    assert_eq!(service.write(AudioOutput::Headphones, loud, None).unwrap().volume, 90);
    assert_eq!(service.read(AudioOutput::Headphones, None).unwrap().volume, 90);
    assert_eq!(service.read(AudioOutput::Speaker, None).unwrap().volume, 10);
}

// ── Bridges ──────────────────────────────────────────────────────────────────

fn hash(byte: u8) -> AddressHash {
    AddressHash { bytes: [byte; 16] }
}

fn desc(byte: u8) -> DestinationDesc {
    DestinationDesc {
        address_hash: hash(byte),
        public_key: [0; 32],
        verifying_key: [0; 32],
        name_hash: [0; 32],
    }
}

#[test]
fn atak_ports_have_their_groups() {
    assert_eq!(ATAK_PORTS[0], (6969, [239, 2, 3, 1]));
    assert_eq!(mcast_group_for_port(6969), [239, 2, 3, 1]);
    assert_eq!(mcast_group_for_port(17012), [224, 10, 10, 1]);
    assert_eq!(mcast_group_for_port(1), [239, 2, 3, 1]);
    assert_eq!(mcast_target(17012), SocketAddress { ip: IpAddress::V4([224, 10, 10, 1]), port: 17012 });
    assert_eq!(port_tag(6969), [0x1B, 0x39]);
    assert_ne!(port_tag(6969), port_tag(17012));
    assert_eq!(destination_name(6969), "atak.6969");
    assert_eq!(atak_seed_name(17012), "atak_identity_seed_17012");
    assert_ne!(atak_seed_name(6969), atak_seed_name(17012));
}

#[test]
fn atak_picks_its_addresses() {
    let all = [
        IpAddress::V4([127, 0, 0, 1]),
        IpAddress::V6([0, 0, 0, 0, 0, 0, 0, 1]),
        IpAddress::V4([10, 0, 0, 2]),
        IpAddress::V4([192, 168, 10, 5]),
    ];
    assert_eq!(local_address(&all), [192, 168, 10, 5]);
    assert_eq!(local_address(&all[..3]), [0, 0, 0, 0]);
    assert_eq!(transmit_addresses(&all), vec![[10, 0, 0, 2], [192, 168, 10, 5]]);
}

#[test]
fn atak_bridge_carries_both_ways() {
    let mut bridge = AtakBridge::new(6969, hash(1));
    assert_eq!(bridge.metrics.dest_hash.as_deref(), Some("01010101010101010101010101010101"));
    assert!(matches!(bridge.step(AtakEvent::Datagram(vec![1])), AtakAction::SendToInLinks(d) if d == vec![1]));
    assert!(matches!(bridge.step(AtakEvent::Link(LinkEvent::Data(vec![2]))), AtakAction::Multicast(d) if d == vec![2]));
    assert!(matches!(bridge.step(AtakEvent::Link(LinkEvent::Activated)), AtakAction::Nothing));
    assert!(matches!(bridge.step(AtakEvent::Tick), AtakAction::Announce));
    assert_eq!((bridge.metrics.rx_packets, bridge.metrics.tx_packets), (1, 1));

    let announce = |peer: u8, tag: [u8; 2], linked: bool| AtakEvent::Announce {
        app_data: tag.to_vec(),
        peer: desc(peer),
        linked,
    };
    assert!(matches!(bridge.step(announce(2, port_tag(6969), false)), AtakAction::OpenLink(d) if d.address_hash.bytes == [2; 16]));
    assert!(matches!(bridge.step(announce(2, port_tag(6969), true)), AtakAction::Nothing));
    assert!(matches!(bridge.step(announce(1, port_tag(6969), false)), AtakAction::Nothing));
    assert!(matches!(bridge.step(announce(2, port_tag(17012), false)), AtakAction::Nothing));
    let mut metrics = BridgeMetrics::new(6969);
    metrics.set_dest_hash("a".into());
    metrics.set_dest_hash("b".into());
    assert_eq!(metrics.dest_hash.as_deref(), Some("a"));
}

#[test]
fn plain_bridge_carries_both_ways() {
    assert!(matches!(bridge_step(&hash(1), BridgeEvent::Datagram(vec![9])), BridgeAction::SendToInLinks(d) if d == vec![9]));
    assert!(matches!(
        bridge_step(&hash(1), BridgeEvent::Received { destination: hash(1), data: vec![8] }),
        BridgeAction::Broadcast(d) if d == vec![8]
    ));
    assert!(matches!(
        bridge_step(&hash(1), BridgeEvent::Received { destination: hash(2), data: vec![8] }),
        BridgeAction::Nothing
    ));
    assert!(matches!(bridge_step(&hash(1), BridgeEvent::Tick), BridgeAction::Announce));
    assert_eq!(listen_address(4000), SocketAddress { ip: IpAddress::V4([0, 0, 0, 0]), port: 4000 });
    assert_eq!(broadcast_address(4000), SocketAddress { ip: IpAddress::V4([255, 255, 255, 255]), port: 4000 });
    assert_eq!(hex_preview(&[0, 0xAB, 0xFF]), "00 ab ff");
    assert_eq!(hex_preview(&[0u8; 17]), format!("{} …", vec!["00"; 16].join(" ")));
    assert_eq!(hex_preview(&[]), "");
    assert_eq!(write_spaced_hex(&[1, 2, 3], 2), "01 02");
}

fn local(port: u16) -> SocketAddress {
    SocketAddress { ip: IpAddress::V4([127, 0, 0, 1]), port }
}

fn spec(stream: u8, profile: &str) -> MediaChannelSpec {
    MediaChannelSpec {
        stream,
        ingress: local(5000),
        egress: local(5001),
        profile: profile.into(),
        k: None,
        m: None,
        block_timeout_ms: None,
        latency_ms: None,
        pack_ms: None,
    }
}

fn preset(k: u8) -> MediaConfig {
    MediaConfig { stream: 1, k, m: 1, block_timeout_ms: 40, latency_budget_ms: 200, pack_window_ms: 0 }
}

#[test]
fn media_channels_are_configured() {
    let voice = preset(4);
    let video = preset(8);
    assert_eq!(default_profile(), "voice");
    assert_eq!(spec(1, "voice").config(voice, video).unwrap(), voice);
    assert_eq!(spec(1, "custom").config(voice, video).unwrap(), voice);
    assert_eq!(spec(1, "video").config(voice, video).unwrap(), video);
    let err = spec(1, "radio").config(voice, video).unwrap_err();
    assert!(matches!(&err, MediaSpecError::UnknownProfile(p) if p == "radio"));
    assert_eq!(err.message(""), "unknown profile radio");

    let mut tuned = spec(1, "voice");
    tuned.k = Some(9);
    tuned.m = Some(3);
    tuned.block_timeout_ms = Some(1);
    tuned.latency_ms = Some(9_999);
    tuned.pack_ms = Some(501);
    assert_eq!(
        tuned.config(voice, video).unwrap(),
        MediaConfig { stream: 1, k: 9, m: 3, block_timeout_ms: 5, latency_budget_ms: 5000, pack_window_ms: 500 }
    );
    let mut open = spec(1, "voice");
    open.egress = SocketAddress { ip: IpAddress::V4([10, 0, 0, 1]), port: 1 };
    assert_eq!(
        open.config(voice, video).unwrap_err().message("10.0.0.1:1"),
        "egress must be a loopback address, got 10.0.0.1:1"
    );
    open.ingress = open.egress;
    assert_eq!(
        open.config(voice, video).unwrap_err().message("10.0.0.1:1"),
        "ingress must be a loopback address, got 10.0.0.1:1"
    );
    assert_eq!((clamp(1, 2, 3), clamp(4, 2, 3), clamp(2, 2, 3)), (2, 3, 2));
}

#[test]
fn media_channels_open_and_close() {
    let mut bridge = MediaBridge::new();
    bridge.claim(hash(1), spec(7, "voice"), preset(4)).unwrap();
    assert!(bridge.claim(hash(1), spec(7, "voice"), preset(4)).is_err());
    bridge.claim(hash(1), spec(8, "voice"), preset(4)).unwrap();
    assert_eq!(bridge.egress(&hash(1), 7), Some(local(5001)));
    assert_eq!(bridge.egress(&hash(2), 7), None);
    assert!(bridge.datagram_in(&hash(1), 7, 100, 1000));
    assert!(!bridge.datagram_in(&hash(1), 7, 1001, 1000));
    bridge.send_failed(&hash(1), 7);
    bridge.delivered(&hash(1), 7);
    let list = bridge.list();
    assert_eq!(list.len(), 2);
    let seven = list.iter().find(|c| c.stream == 7).unwrap();
    assert_eq!(seven.node, "01010101010101010101010101010101");
    assert_eq!(seven.datagrams_out, 1);
    assert!(seven.dropped >= 1);
    // Closing a channel is for the operator.
    let refused = delete_media(&mut bridge, true, &hash(1), 7).unwrap_err();
    assert_eq!((refused.status, bridge.list().len()), (403, 2));
    assert!(delete_media(&mut bridge, false, &hash(1), 7).is_ok());
    let unknown = delete_media(&mut bridge, false, &hash(1), 7).unwrap_err();
    assert_eq!((unknown.status, unknown.detail.as_str(), bridge.list().len()), (404, "channel not open", 1));
    bridge.claim(hash(1), spec(7, "voice"), preset(4)).unwrap();
    assert_eq!(bridge.stop(&hash(1), 7).unwrap().spec.stream, 7);
    assert!(bridge.stop(&hash(1), 7).is_err());
    bridge.release(&hash(1), 8);
    assert!(bridge.list().is_empty());
    // What was released can be claimed again.
    bridge.claim(hash(1), spec(8, "voice"), preset(4)).unwrap();
    assert!(bridge.start(&hash(1), 8, Ok(())).is_ok());
    assert_eq!(bridge.list().len(), 1);
    // A channel that could not be opened gives its place back.
    bridge.claim(hash(2), spec(8, "voice"), preset(4)).unwrap();
    let err = bind_failed("127.0.0.1:5000", "in use");
    assert_eq!(err, "bind 127.0.0.1:5000: in use");
    assert_eq!(bridge.start(&hash(2), 8, Err(err.clone())), Err(err));
    assert_eq!(bridge.list().len(), 1);
    assert_eq!(check_config(preset(4), Ok(())), Ok(preset(4)));
    assert_eq!(check_config(preset(4), Err("k too small".into())), Err("k too small".into()));
}

// ── Radio ────────────────────────────────────────────────────────────────────

fn ofdm() -> OfdmModulation {
    OfdmModulation { mcs: OfdmMcs::QpskC3_4, opt: OfdmBandwidthOption::Option1, pdt: 3, tx_power: 10 }
}

fn module(freq: u64) -> RadioModuleConfig {
    RadioModuleConfig {
        radio_config: RadioConfig { freq, channel_spacing: 200_000, channel: 1, bandwidth_filter: BandwidthFilter::Wide },
        modulation: Modulation::Ofdm(ofdm()),
        accelerator: Accelerator::Native,
        antenna: Antenna::External,
    }
}

#[test]
fn radio_defaults() {
    let radio = HardwareRadioConfig::with_defaults(ofdm(), BandwidthFilter::Narrow);
    let [a, b] = radio.module_configs;
    assert_eq!((a.radio_config.freq, a.radio_config.channel_spacing, a.radio_config.channel), (869_535_000, 200_000, 3));
    assert_eq!(b.radio_config.channel, 11);
    assert_eq!(a.antenna, Antenna::Internal);
    assert_eq!(a.band(), RadioBand::Band09);
    assert_eq!(band_for_config(&module(2_399_999_999).radio_config), RadioBand::Band09);
    assert_eq!(band_for_config(&module(2_400_000_000).radio_config), RadioBand::Band24);
}

#[test]
fn the_antenna_is_switched_at_24_only() {
    assert_eq!(module_steps(&module(869_535_000)).len(), 3);
    let steps = module_steps(&module(2_450_000_000));
    assert_eq!(steps[3], RadioStep::SetAntenna(RadioBand::Band24, Antenna::External));
    assert!(apply_outcome(&steps, &[Ok(()), Ok(()), Ok(()), Ok(())]).is_ok());
    assert_eq!(
        apply_outcome(&steps, &[Ok(()), Err("busy".into()), Err("gone".into()), Ok(())]).unwrap_err(),
        "modulation: busy"
    );
    assert_eq!(apply_outcome(&steps[3..], &[Err("x".into())]).unwrap_err(), "antenna: x");
    assert_eq!(apply_outcome(&steps[..1], &[Err("x".into())]).unwrap_err(), "radio config: x");
    assert_eq!(apply_outcome(&steps[2..3], &[Err("x".into())]).unwrap_err(), "accelerator: x");
}

#[test]
fn start_up_of_the_radio_ends_whatever_fails() {
    let mut boot = BootSequence::new(2);
    let mut seen = Vec::new();
    while boot.step() != BootStep::Done {
        seen.push(boot.step());
        boot.advance(false);
        assert!(seen.len() < 100);
    }
    assert_eq!(boot.failed, vec![0, 1]);
    assert_eq!(seen.iter().filter(|s| **s == BootStep::Ping).count(), 3);
    assert_eq!(seen.iter().filter(|s| **s == BootStep::Apply(1)).count(), 3);

    let mut boot = BootSequence::new(2);
    boot.advance(true);
    assert_eq!(boot.step(), BootStep::Apply(0));
    boot.advance(true);
    assert_eq!(boot.step(), BootStep::Apply(1));
    boot.advance(false);
    assert_eq!(boot.step(), BootStep::Pause);
    boot.advance(true);
    boot.advance(true);
    assert_eq!(boot.step(), BootStep::Done);
    assert!(boot.failed.is_empty());
}

#[test]
fn link_timers_stretch_for_slow_radios() {
    let usual = link_timers(0);
    assert_eq!((usual.in_link_stale, usual.in_link_close, usual.out_link_restart), (30_000_000, 15_000_000, 45_000_000));
    assert_eq!((usual.out_link_repeat, usual.out_link_keep), (10_000_000, 5_000_000));
    assert_eq!(link_timers(1_250_000), usual);
    assert_eq!(link_timers(u64::MAX).out_link_keep, 4 * u128::from(u64::MAX));
    let slow = link_timers(2_000_000);
    assert_eq!((slow.in_link_stale, slow.in_link_close, slow.out_link_restart), (40_000_000, 20_000_000, 60_000_000));
    assert_eq!((slow.out_link_repeat, slow.out_link_keep), (16_000_000, 8_000_000));
}

#[test]
fn channel_names_and_test_frames() {
    assert_eq!(gateway_channel_name(Some(" team ".into())).as_deref(), Some("team"));
    assert_eq!(gateway_channel_name(Some(" 0 ".into())), None);
    assert_eq!(gateway_channel_name(Some("  ".into())), None);
    assert_eq!(gateway_channel_name(None), None);
    assert_eq!(check_test_frame(true, 100, 2, b"x").unwrap_err(), "radio module 2 not found");
    assert_eq!(check_test_frame(true, 100, 0, b"").unwrap_err(), "message is required");
    assert_eq!(check_test_frame(true, 100, 0, &[0; 101]).unwrap_err(), "message exceeds 100 bytes");
    assert_eq!(check_test_frame(true, 4096, 0, &[0; 2048]).unwrap_err(), "message exceeds 2047 bytes");
    assert_eq!(check_test_frame(false, 100, 1, b"x").unwrap_err(), "radio backend unavailable");
    assert!(check_test_frame(true, 100, 1, b"x").is_ok());
    assert_eq!(test_frame_sent(Err("timeout".into())).unwrap_err(), "transmit: timeout");
}

// ── Startup ──────────────────────────────────────────────────────────────────

#[test]
fn webapp_only_follows_the_setting() {
    for yes in ["1", "true", " YES ", "On"] {
        assert!(should_run_webapp_only(Some(yes.into()), true, true));
    }
    for no in ["0", "", "off", "maybe"] {
        assert!(!should_run_webapp_only(Some(no.into()), false, false));
    }
    assert!(!should_run_webapp_only(None, true, true));
    assert!(should_run_webapp_only(None, false, true));
    assert!(should_run_webapp_only(None, true, false));
    assert_eq!(default_db_path(), "kaonic-gateway.db");
    assert_eq!(serial_text(Some(" K1 \n".into())), "K1");
    assert_eq!(serial_text(None), "unknown");
    assert_eq!(ctrl_server(None), SocketAddress { ip: IpAddress::V4([192, 168, 10, 1]), port: 9090 });
    assert_eq!(ctrl_server(Some(local(1))), local(1));
}

#[test]
fn phases_follow_one_another() {
    let path = |webapp: bool| {
        let mut phase = StartPhase::OpenSettings;
        let mut seen = vec![phase];
        while phase != StartPhase::Serve {
            phase = next_phase(phase, true, webapp, 2);
            seen.push(phase);
        }
        seen
    };
    assert_eq!(path(true), vec![StartPhase::OpenSettings, StartPhase::LoadConfig, StartPhase::Serve]);
    assert_eq!(
        path(false),
        vec![
            StartPhase::OpenSettings,
            StartPhase::LoadConfig,
            StartPhase::LoadSeed,
            StartPhase::ConnectRadio,
            StartPhase::AttachRadio,
            StartPhase::StartBridge(0),
            StartPhase::StartBridge(1),
            StartPhase::Serve
        ]
    );
    assert_eq!(next_phase(StartPhase::ConnectRadio, false, false, 2), StartPhase::Failed);
    assert_eq!(next_phase(StartPhase::AttachRadio, true, false, 0), StartPhase::Serve);
}

#[test]
fn frames_are_logged_newest_first() {
    assert_eq!(frame_preview(&[0, 1, 2, 3, 4, 5, 6, 7, 8]), "00 01 02 03 04 05 06 07");
    assert_eq!((frame_module(0), frame_module(1), frame_module(9)), (0, 1, 1));
    let mut feed = FrameFeed::new(2);
    assert!(feed.step(&FeedEvent::Received { module: 0, rssi: -70, frame: vec![1, 2] }, 10));
    assert!(feed.step(&FeedEvent::Sent { module: 5, frame: vec![3] }, 11));
    assert!(feed.step(&FeedEvent::Lagged, 12));
    assert!(!feed.step(&FeedEvent::Closed, 13));
    assert_eq!((feed.first.stats.rx_frames, feed.first.stats.rx_bytes, feed.first.stats.last_rssi), (1, 2, -70));
    assert_eq!((feed.second.stats.tx_frames, feed.second.stats.tx_bytes), (1, 1));
    let sent = &feed.second.recent[0];
    assert_eq!((sent.module, sent.direction.as_str(), sent.rssi, sent.len, sent.ts), (1, "tx", 0, 1, 11));

    let mut log = FrameLog::new(2);
    for i in 0..3u8 {
        log.record_rx(0, -1, &[i], i as u64);
    }
    let shown: Vec<String> = log.recent.iter().map(|f| f.hex.clone()).collect();
    assert_eq!(shown, vec!["02", "01"]);
    log.record_tx(0, &[9], 9);
    assert_eq!(log.recent[0].hex, "09");
    assert_eq!(log.stats.rx_frames, 3);
}

// ── Addresses on the mesh ────────────────────────────────────────────────────

#[test]
fn address_hashes_read_back() {
    let text = "000102030405060708090a0b0c0d0e0f";
    let h = AddressHash::new_from_hex_string(text).unwrap();
    assert_eq!(h.bytes, [0, 1, 2, 3, 4, 5, 6, 7, 8, 9, 10, 11, 12, 13, 14, 15]);
    assert_eq!(h.to_hex_string(), text);
    assert!(matches!(AddressHash::new_from_hex_string("00"), Err(HashError::IncorrectHash)));
    let upper = AddressHash::new_from_hex_string("000102030405060708090A0B0C0D0E0F").unwrap();
    assert!(upper.same_as(&h));
    assert!(!upper.same_as(&hash(1)));
    assert!(is_hash_readable("short"));
    assert!(is_hash_readable(text));
    assert!(!is_hash_readable(&"z".repeat(32)));
}
