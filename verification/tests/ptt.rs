//! Push-to-talk: packets, codec and settings.

use kaonic::mesh::{AddressHash, DestinationDesc, LinkEvent, LinkStatus};
use kaonic::net::{IpAddress, SocketAddress};
use kaonic::ptt::audio::{
    alsa_device_candidates, convert_playback_frame, frame_bytes, frame_samples, list_devices, list_linux_devices,
    parse_devices, playback_format_candidates, probe_frame, resample_mono_pcm, silent_frame, Listing, PlaybackFormat,
};
use kaonic::ptt::codec::{RxCodec, TxCodec};
use kaonic::ptt::config::{
    default_packet_frames, generate_identity_seed, load_config, migrate_config, normalize_selected_peer, seed_text, PluginConfig,
};
use kaonic::ptt::packet::{decode_browser_pcm, decode_packet, decode_pcm, encode_packet, push_sample};
use kaonic::ptt::search::{
    alsa_arguments, describe_failure, stderr_note, stream_failed, Attempt, DeviceSearch, Direction, ProbeFailure,
    SearchStep,
};
use kaonic::ptt::session::{
    browser_step, is_ptt_announce, no_alsa_session, packet_sent, parse_selected_peer, playback_wait_ms,
    prepare_packet, ptt_started, remote_name, should_reuse_existing_out_link, ActiveTx, BrowserMessage, BrowserStep,
    LinkSide, PlaybackOutcome, PttState,
};
use kaonic::ptt::status::{build_status, commit_config, list_peers, plan_config_update, ConfigUpdate};

#[test]
fn round_trip_silence_through_codec2() {
    let cfg = PluginConfig::default();
    let mut tx = TxCodec::new(&cfg).expect("tx codec");
    let mut rx = RxCodec::new(&cfg).expect("rx codec");
    assert_eq!(tx.samples_per_frame(), rx.samples_per_frame());
    assert_eq!(tx.bytes_per_frame(), rx.bytes_per_frame());

    let pcm = vec![0i16; tx.samples_per_frame()];
    let mut encoded = Vec::with_capacity(tx.bytes_per_frame());
    tx.encode_into(&pcm, &mut encoded).expect("encode");
    assert_eq!(encoded.len(), tx.bytes_per_frame());

    let mut out = vec![0i16; rx.samples_per_frame()];
    rx.decode_into(&encoded, &mut out).expect("decode");
}

#[test]
fn rejects_wrong_pcm_size() {
    let cfg = PluginConfig::default();
    let mut tx = TxCodec::new(&cfg).expect("tx codec");
    let mut buf = Vec::new();
    assert!(tx.encode_into(&[0i16; 4], &mut buf).is_err());
}

#[test]
fn rejects_wrong_encoded_size() {
    let cfg = PluginConfig::default();
    let mut rx = RxCodec::new(&cfg).expect("rx codec");
    let mut out = vec![0i16; rx.samples_per_frame()];
    assert!(rx.decode_into(&[0u8; 4], &mut out).is_err());
}

#[test]
fn validates_supported_audio_format() {
    let cfg = PluginConfig::default();
    assert!(cfg.validate().is_ok());
}

#[test]
fn rejects_unsupported_frame_size() {
    let mut cfg = PluginConfig::default();
    cfg.frame_ms = 40;
    assert!(cfg.validate().is_err());
}

#[test]
fn normalizes_selected_peer_hash() {
    assert_eq!(
        normalize_selected_peer(Some("0123456789ABCDEF0123456789ABCDEF".into())).unwrap(),
        Some("0123456789abcdef0123456789abcdef".into())
    );
}

#[test]
fn packet_round_trip_preserves_payload() {
    let packet = encode_packet(42, b"hello");
    assert_eq!(decode_packet(&packet), Some(b"hello".as_slice()));
}

#[test]
fn packet_decoder_rejects_invalid_magic() {
    assert!(decode_packet(b"nopepayload").is_none());
}

#[test]
fn browser_pcm_decoder_accepts_expected_frame() {
    let frame = vec![0u8; 640];
    let pcm = decode_browser_pcm(&frame, 320).expect("valid browser PCM frame");
    assert_eq!(pcm.len(), 320);
}

#[test]
fn browser_pcm_decoder_rejects_wrong_size() {
    let err = decode_browser_pcm(&[0u8; 12], 320).expect_err("wrong browser PCM frame size");
    assert!(err.contains("exactly 640 bytes"));
}

// ── Packets and samples ──────────────────────────────────────────────────────

#[test]
fn packet_starts_with_magic_and_sequence_number() {
    let packet = encode_packet(0x0102_0304, &[0xAA, 0xBB]);
    assert_eq!(packet, vec![b'K', b'P', b'T', b'2', 1, 2, 3, 4, 0xAA, 0xBB]);
    assert_eq!(encode_packet(u32::MAX, &[]), vec![b'K', b'P', b'T', b'2', 255, 255, 255, 255]);
}

#[test]
fn packet_decoder_rejects_short_packets() {
    assert!(decode_packet(b"").is_none());
    assert!(decode_packet(b"KPT2\0\0\0").is_none());
    assert_eq!(decode_packet(b"KPT2\0\0\0\0"), Some(b"".as_slice()));
}

#[test]
fn samples_are_little_endian() {
    assert_eq!(decode_pcm(&[0x01, 0x00, 0xFF, 0xFF, 0x00, 0x80]), vec![1, -1, i16::MIN]);
    let mut out = Vec::new();
    push_sample(&mut out, 1);
    push_sample(&mut out, -1);
    push_sample(&mut out, i16::MIN);
    assert_eq!(out, vec![0x01, 0x00, 0xFF, 0xFF, 0x00, 0x80]);
    assert_eq!(decode_browser_pcm(&[0x34, 0x12, 0xFE, 0xFF], 2).unwrap(), vec![0x1234, -2]);
    assert_eq!(
        decode_browser_pcm(&[0u8; 12], 320).unwrap_err(),
        "browser audio frame must be exactly 640 bytes, got 12"
    );
}

// ── Codec ────────────────────────────────────────────────────────────────────

#[test]
fn codec_frames_have_160_samples_and_8_bytes() {
    let cfg = PluginConfig::default();
    let mut tx = TxCodec::new(&cfg).unwrap();
    let mut rx = RxCodec::new(&cfg).unwrap();
    assert_eq!(tx.samples_per_frame(), 160);
    assert_eq!(rx.bytes_per_frame(), 8);
    assert_eq!(
        tx.encode(&[0i16; 4]).unwrap_err(),
        "codec2 expects 160 pcm samples per frame, got 4"
    );
    assert_eq!(
        rx.decode(&[0u8; 4], 160).unwrap_err(),
        "codec2 expects 8 encoded bytes per frame, got 4"
    );
    assert_eq!(
        rx.decode(&[0u8; 8], 159).unwrap_err(),
        "codec2 decode_into expects 160 sample slots, got 159"
    );
}

#[test]
fn codec_turns_sound_into_other_bytes_than_silence() {
    let cfg = PluginConfig::default();
    let mut quiet = TxCodec::new(&cfg).unwrap();
    let mut loud = TxCodec::new(&cfg).unwrap();
    let tone: Vec<i16> = (0..160).map(|i| if (i / 10) % 2 == 0 { 12_000 } else { -12_000 }).collect();
    let silent = quiet.encode(&[0i16; 160]).unwrap();
    let sounding = loud.encode(&tone).unwrap();
    assert_ne!(silent, sounding);

    let mut rx = RxCodec::new(&cfg).unwrap();
    let mut heard = false;
    for _ in 0..10 {
        let bytes = loud.encode(&tone).unwrap();
        heard = heard || rx.decode(&bytes, 160).unwrap().iter().any(|s| *s != 0);
    }
    assert!(heard);
}

#[test]
fn encoding_appends_to_what_is_there() {
    let cfg = PluginConfig::default();
    let mut tx = TxCodec::new(&cfg).unwrap();
    let mut out = vec![1, 2, 3];
    tx.encode_into(&[0i16; 160], &mut out).unwrap();
    assert_eq!(out.len(), 11);
    assert_eq!(&out[..3], &[1, 2, 3]);
    assert!(tx.encode_into(&[0i16; 1], &mut out).is_err());
    assert_eq!(out.len(), 11);
}

// ── Settings ─────────────────────────────────────────────────────────────────

#[test]
fn seeds_are_64_hexadecimal_digits() {
    let a = generate_identity_seed();
    let b = generate_identity_seed();
    assert_eq!(a.len(), 64);
    assert!(a.chars().all(|c| c.is_ascii_hexdigit()));
    assert_ne!(a, b);
    let bytes: Vec<u8> = (0..32).collect();
    assert_eq!(
        seed_text(&bytes),
        "000102030405060708090a0b0c0d0e0f101112131415161718191a1b1c1d1e1f"
    );
}

#[test]
fn default_settings() {
    assert_eq!(PluginConfig::default().packet_frames, default_packet_frames());
    let cfg = PluginConfig::default();
    assert_eq!(cfg.http_bind, SocketAddress { ip: IpAddress::V4([0, 0, 0, 0]), port: 8780 });
    assert_eq!(cfg.kaonic_ctrl_server, SocketAddress { ip: IpAddress::V4([192, 168, 10, 1]), port: 9090 });
    assert_eq!((cfg.rns_module, cfg.frame_ms, cfg.sample_rate_hz, cfg.packet_frames), (0, 20, 8000, 4));
    assert_eq!((cfg.capture_device.as_str(), cfg.playback_device.as_str()), ("default", "default"));
    assert_eq!(cfg.audio_output, "alsa");
    assert_eq!(cfg.selected_peer, None);
}

#[test]
fn every_invalid_setting_is_named() {
    let complaint = |change: fn(&mut PluginConfig)| {
        let mut cfg = PluginConfig::default();
        change(&mut cfg);
        cfg.validate().unwrap_err()
    };
    assert_eq!(complaint(|c| c.rns_module = 2), "rns_module must be 0 or 1");
    assert_eq!(
        complaint(|c| c.frame_ms = 40),
        "only 20ms audio framing is currently supported (Codec2 native frame)"
    );
    assert_eq!(
        complaint(|c| c.sample_rate_hz = 16_000),
        "only 8kHz audio is currently supported (Codec2 native rate)"
    );
    assert_eq!(complaint(|c| c.packet_frames = 0), "packet_frames must be between 1 and 8");
    assert_eq!(complaint(|c| c.packet_frames = 9), "packet_frames must be between 1 and 8");
    assert_eq!(complaint(|c| c.audio_output = "pulse".into()), "audio_output must be 'alsa' or 'browser'");
    assert_eq!(complaint(|c| c.identity_seed = "abc".into()), "identity_seed must be a 64-character hex string");
    assert_eq!(complaint(|c| c.identity_seed = "g".repeat(64)), "identity_seed must be a 64-character hex string");
    assert_eq!(complaint(|c| c.selected_peer = Some("12".into())), "invalid selected_peer '12': IncorrectHash");
    let mut browser = PluginConfig::default();
    browser.audio_output = "browser".into();
    assert!(browser.validate().is_ok());
}

#[test]
fn selected_peer_may_be_blank_or_too_short() {
    assert_eq!(normalize_selected_peer(None).unwrap(), None);
    assert_eq!(normalize_selected_peer(Some("  ".into())).unwrap(), None);
    assert_eq!(
        normalize_selected_peer(Some(" abcd ".into())).unwrap_err(),
        "invalid selected_peer 'abcd': IncorrectHash"
    );
    let once = normalize_selected_peer(Some(" 0123456789ABCDEF0123456789ABCDEF99 ".into())).unwrap();
    assert_eq!(once.as_deref(), Some("0123456789abcdef0123456789abcdef"));
    assert_eq!(normalize_selected_peer(once.clone()).unwrap(), once);
}

#[test]
fn old_settings_are_brought_up_to_date_once() {
    let mut old = PluginConfig::default();
    old.identity_seed = String::new();
    old.sample_rate_hz = 16_000;
    old.frame_ms = 40;
    let (new, dirty) = load_config(old).unwrap();
    assert!(dirty);
    assert_eq!((new.sample_rate_hz, new.frame_ms, new.identity_seed.len()), (8000, 20, 64));
    let seed = new.identity_seed.clone();
    let (again, dirty) = load_config(new).unwrap();
    assert!(!dirty);
    assert_eq!(again.identity_seed, seed);

    let mut bad = PluginConfig::default();
    bad.packet_frames = 99;
    assert_eq!(load_config(bad).unwrap_err(), "packet_frames must be between 1 and 8");
    let (kept, dirty) = migrate_config(PluginConfig::default(), "unused".into());
    assert!(!dirty);
    assert_eq!(kept.identity_seed.len(), 64);
}

// ── Devices and formats ──────────────────────────────────────────────────────

#[test]
fn frames_fit_the_codec() {
    let cfg = PluginConfig::default();
    assert_eq!(frame_samples(&cfg), 160);
    assert_eq!(frame_bytes(&cfg), 320);
    assert_eq!(silent_frame(&cfg), vec![0i16; 160]);
}

#[test]
fn listings_are_read_without_descriptions() {
    let listing = "null\n    Discard all samples\nhw:CARD=Audio,DEV=0\n\tDirect hardware\n\n  \nplughw:1 \r\n";
    assert_eq!(parse_devices(listing), vec!["null", "hw:CARD=Audio,DEV=0", "plughw:1"]);
    let good = Listing { succeeded: true, stdout: b"default\nde\xFFv\n".to_vec() };
    let bad = Listing { succeeded: false, stdout: b"default\n".to_vec() };
    assert_eq!(list_linux_devices(&good), vec!["default".to_string(), "de\u{FFFD}v".to_string()]);
    assert!(list_linux_devices(&bad).is_empty());
    let devices = list_devices(true, &good, &bad);
    assert_eq!((devices.capture.len(), devices.playback.len()), (2, 0));
    let mock = list_devices(false, &good, &bad);
    assert_eq!(mock.capture, vec!["mock-capture"]);
    assert_eq!(mock.playback, vec!["mock-playback"]);
}

#[test]
fn device_candidates_in_order_and_without_doubles() {
    assert_eq!(alsa_device_candidates("hw:1,0"), vec!["plughw:1,0", "hw:1,0"]);
    assert_eq!(alsa_device_candidates(" plughw:0,0 "), vec!["plughw:0,0"]);
    assert_eq!(alsa_device_candidates("plug:x"), vec!["plug:x"]);
    let default = vec![
        "plughw:0,0",
        "sysdefault:CARD=Audio",
        "default:CARD=Audio",
        "plug:default",
        "default",
        "plug:sysdefault",
        "sysdefault",
    ];
    assert_eq!(alsa_device_candidates(""), default);
    assert_eq!(alsa_device_candidates("Default:CARD=2"), default);
    assert_eq!(
        alsa_device_candidates("SysDefault"),
        vec![
            "plughw:0,0",
            "sysdefault:CARD=Audio",
            "default:CARD=Audio",
            "plug:SysDefault",
            "SysDefault",
            "plug:default",
            "default"
        ]
    );
    assert_eq!(
        alsa_device_candidates("sysdefault:CARD=Audio"),
        vec![
            "plughw:0,0",
            "sysdefault:CARD=Audio",
            "default:CARD=Audio",
            "plug:sysdefault:CARD=Audio",
            "plug:default",
            "default"
        ]
    );
    assert_eq!(alsa_device_candidates("surround:1"), vec!["plug:surround:1", "surround:1"]);
    assert_eq!(alsa_device_candidates("pulse"), vec!["pulse", "plug:pulse"]);
}

#[test]
fn playback_formats_in_order() {
    let mut cfg = PluginConfig::default();
    let rates = |cfg: &PluginConfig| -> Vec<(u32, usize)> {
        playback_format_candidates(cfg).iter().map(|f| (f.sample_rate_hz, f.channels)).collect()
    };
    assert_eq!(rates(&cfg), vec![(48_000, 2), (48_000, 1), (32_000, 2), (32_000, 1), (8_000, 1)]);
    cfg.sample_rate_hz = 32_000;
    assert_eq!(rates(&cfg), vec![(48_000, 2), (48_000, 1), (32_000, 2), (32_000, 1)]);
}

#[test]
fn resampling_repeats_and_skips_samples() {
    assert_eq!(resample_mono_pcm(&[1, 2], 8_000, 24_000), vec![1, 1, 1, 2, 2, 2]);
    assert_eq!(resample_mono_pcm(&[1, 2, 3, 4], 8_000, 4_000), vec![1, 3]);
    assert_eq!(resample_mono_pcm(&[1, 2, 3], 8_000, 8_000), vec![1, 2, 3]);
    assert_eq!(resample_mono_pcm(&[], 8_000, 48_000), Vec::<i16>::new());
    assert_eq!(resample_mono_pcm(&[7], 48_000, 8_000), vec![7]);
    assert_eq!(
        convert_playback_frame(&[0x0102, -1], 8_000, 8_000, 2),
        vec![0x02, 0x01, 0x02, 0x01, 0xFF, 0xFF, 0xFF, 0xFF]
    );
    let cfg = PluginConfig::default();
    let probe = probe_frame(&cfg, &PlaybackFormat { sample_rate_hz: 48_000, channels: 2 });
    assert_eq!(probe, vec![0u8; 160 * 6 * 2 * 2]);
}

// ── The search for a device ──────────────────────────────────────────────────

#[test]
fn search_tries_every_device_in_every_format() {
    let mut cfg = PluginConfig::default();
    cfg.playback_device = "hw:1,0".into();
    let mut search = DeviceSearch::playback(&cfg);
    assert_eq!(search.attempts.len(), 10);
    let first = match search.step() {
        SearchStep::Try(a) => a,
        SearchStep::GiveUp(e) => panic!("{e}"),
    };
    assert_eq!((first.device.as_str(), first.format.sample_rate_hz, first.format.channels), ("plughw:1,0", 48_000, 2));
    assert_eq!(
        alsa_arguments(&first),
        vec!["-q", "-D", "plughw:1,0", "-f", "S16_LE", "-c", "2", "-r", "48000", "-t", "raw"]
    );
    for _ in 0..9 {
        search.failed(ProbeFailure::NoPipe);
    }
    assert!(matches!(search.step(), SearchStep::Try(a) if a.device == "hw:1,0" && a.format.sample_rate_hz == 8_000));
    search.failed(ProbeFailure::ExitedEarly("exit status: 1".into()));
    match search.step() {
        SearchStep::GiveUp(e) => assert_eq!(
            e,
            "aplay exited early for device hw:1,0 rate=8000 channels=1 with status exit status: 1"
        ),
        SearchStep::Try(_) => panic!("nothing is left to try"),
    }
}

#[test]
fn capture_search_uses_the_frames_own_format() {
    let mut cfg = PluginConfig::default();
    cfg.capture_device = "pulse".into();
    let mut search = DeviceSearch::capture(&cfg);
    assert_eq!(search.attempts.len(), 2);
    search.failed(ProbeFailure::Spawn("not found".into()));
    assert!(matches!(search.step(), SearchStep::Try(a) if a.device == "plug:pulse" && a.format.channels == 1));
    search.failed(ProbeFailure::Probe("gone".into()));
    assert!(matches!(search.step(), SearchStep::GiveUp(e) if e == "probe arecord on device plug:pulse: gone"));
    let empty = DeviceSearch { direction: Direction::Capture, attempts: vec![], at: 0, last_err: None };
    assert!(matches!(empty.step(), SearchStep::GiveUp(e) if e == "no usable ALSA capture device candidates"));
    let empty = DeviceSearch { direction: Direction::Playback, attempts: vec![], at: 0, last_err: None };
    assert!(matches!(empty.step(), SearchStep::GiveUp(e) if e == "no usable ALSA playback device candidates"));
}

#[test]
fn failures_are_described() {
    let a = Attempt { device: "d".into(), format: PlaybackFormat { sample_rate_hz: 8000, channels: 1 } };
    let capture = |f: ProbeFailure| describe_failure(Direction::Capture, &a, &f);
    let playback = |f: ProbeFailure| describe_failure(Direction::Playback, &a, &f);
    assert_eq!(capture(ProbeFailure::Spawn("e".into())), "spawn arecord for d: e");
    assert_eq!(capture(ProbeFailure::NoPipe), "arecord stdout unavailable for device d");
    assert_eq!(
        capture(ProbeFailure::ExitedEarly("s".into())),
        "arecord exited early for device d with status s"
    );
    assert_eq!(playback(ProbeFailure::Spawn("e".into())), "spawn aplay for d rate=8000 channels=1: e");
    assert_eq!(playback(ProbeFailure::NoPipe), "aplay stdin unavailable for device d");
    assert_eq!(
        playback(ProbeFailure::ProbeWrite("e".into())),
        "write playback probe to device d rate=8000 channels=1: e"
    );
    assert_eq!(playback(ProbeFailure::Probe("e".into())), "probe aplay on device d rate=8000 channels=1: e");
    assert!(!ProbeFailure::Spawn("e".into()).leaves_program());
    assert!(!ProbeFailure::ExitedEarly("s".into()).leaves_program());
    assert!(ProbeFailure::NoPipe.leaves_program());
    assert_eq!(stream_failed(Direction::Capture, "eof"), "read arecord frame: eof");
    assert_eq!(stream_failed(Direction::Playback, "pipe"), "write aplay frame: pipe");
    assert_eq!(stderr_note(Direction::Playback, " underrun \n").as_deref(), Some("aplay: underrun"));
    assert_eq!(stderr_note(Direction::Capture, "overrun").as_deref(), Some("arecord: overrun"));
    assert_eq!(stderr_note(Direction::Capture, " \t"), None);
}

// ── Sessions and peers ───────────────────────────────────────────────────────

fn hash(byte: u8) -> AddressHash {
    AddressHash { bytes: [byte; 16] }
}

fn desc(byte: u8) -> DestinationDesc {
    DestinationDesc {
        address_hash: hash(byte),
        public_key: [byte; 32],
        verifying_key: [byte; 32],
        name_hash: [byte; 32],
    }
}

fn state() -> PttState {
    PttState::new(PluginConfig::default(), hash(0xEE).to_hex_string())
}

fn status_of(s: &PttState, byte: u8) -> Option<(String, u64)> {
    list_peers(s)
        .into_iter()
        .find(|p| p.hash == hash(byte).to_hex_string())
        .map(|p| (p.status, p.last_seen_ts))
}

#[test]
fn an_announced_peer_is_linked() {
    let mut s = state();
    let open = s.register_announced_peer(desc(1), None, 100).unwrap();
    assert_eq!(open.unwrap().address_hash.bytes, [1; 16]);
    assert_eq!(status_of(&s, 1), Some(("pending".into(), 100)));

    assert!(s.out_link_event(&hash(1), LinkEvent::Proof, 101).is_none());
    assert_eq!(status_of(&s, 1), Some(("handshake".into(), 101)));
    assert!(s.out_link_event(&hash(1), LinkEvent::Activated, 102).is_none());
    assert_eq!(status_of(&s, 1), Some(("active".into(), 102)));

    // An active peer stays active when it announces itself again.
    assert!(s.register_announced_peer(desc(1), Some(LinkStatus::Active), 103).unwrap().is_none());
    assert_eq!(status_of(&s, 1), Some(("active".into(), 103)));
    assert!(s.out_link_event(&hash(1), LinkEvent::Closed, 104).is_none());
    assert_eq!(status_of(&s, 1), Some(("closed".into(), 104)));
    assert!(s.register_announced_peer(desc(1), Some(LinkStatus::Stale), 105).unwrap().is_none());
    assert_eq!(status_of(&s, 1), Some(("discovered".into(), 105)));
}

#[test]
fn own_announcements_and_strangers_are_passed_over() {
    let mut s = state();
    assert!(s.register_announced_peer(desc(0xEE), None, 1).unwrap().is_none());
    s.update_peer_status(&hash(9), "active", 1);
    assert!(list_peers(&s).is_empty());
    assert_eq!(
        s.ensure_out_link(&hash(9), None).unwrap_err(),
        "selected peer /09090909090909090909090909090909/ has not announced audio-ptt yet"
    );
    assert!(is_ptt_announce(b"KAP1"));
    assert!(!is_ptt_announce(b"KAP2"));
    assert!(!is_ptt_announce(b"KAP1x"));
    assert!(should_reuse_existing_out_link(Some(LinkStatus::Pending)));
    assert!(should_reuse_existing_out_link(Some(LinkStatus::Handshake)));
    assert!(!should_reuse_existing_out_link(Some(LinkStatus::Closed)));
    assert!(!should_reuse_existing_out_link(None));
}

#[test]
fn only_one_source_transmits() {
    let mut s = state();
    let refused = s.start_alsa(None, None);
    let reply = refused.refusal.unwrap();
    assert_eq!((reply.status, reply.detail.as_str()), (400, "selected_peer must be configured before transmit"));
    assert_eq!(s.start_alsa(Some(hash(1)), None).refusal.unwrap().status, 409);

    s.register_announced_peer(desc(1), Some(LinkStatus::Active), 1).unwrap();
    let granted = s.start_alsa(Some(hash(1)), Some(LinkStatus::Active));
    assert!(granted.refusal.is_none() && granted.open.is_none());
    assert_eq!(granted.source, Some(ActiveTx::Alsa));
    assert!(s.stats.transmitting);
    assert_eq!(s.active_source().as_deref(), Some("alsa"));

    let second = s.start_alsa(Some(hash(1)), Some(LinkStatus::Active)).refusal.unwrap();
    assert_eq!((second.status, second.detail.as_str()), (409, "another transmit source is already active"));
    let browser = s.start_browser(Some(hash(1)), Some(LinkStatus::Active));
    assert_eq!(browser.refusal.unwrap().status, 409);
    assert_eq!(s.stats.browser_session_seq, 1);

    assert_eq!(s.stop_alsa(), Ok(true));
    assert_eq!(s.alsa_stopped(), "PTT transmit stopped");
    assert!(!s.stats.transmitting && s.active.is_none());
    assert_eq!(s.stop_alsa(), Ok(false));
    assert_eq!(no_alsa_session(), "No ALSA transmit session was active");
    assert_eq!(ptt_started(&hash(1)).detail, "PTT transmit started to 01010101010101010101010101010101");
}

#[test]
fn a_new_browser_session_replaces_the_old_one() {
    let mut s = state();
    assert_eq!(
        s.start_browser(None, None).refusal.unwrap().detail,
        "selected_peer must be configured before browser transmit"
    );
    s.register_announced_peer(desc(1), None, 1).unwrap();
    let first = s.start_browser(Some(hash(1)), None);
    assert_eq!(first.source, Some(ActiveTx::Browser(1)));
    assert_eq!(first.open.unwrap().address_hash.bytes, [1; 16]);
    let second = s.start_browser(Some(hash(1)), Some(LinkStatus::Pending));
    assert_eq!(second.source, Some(ActiveTx::Browser(2)));
    assert_eq!(s.active_source().as_deref(), Some("browser"));
    s.finish_browser_tx_session(1);
    assert!(s.stats.transmitting);
    assert_eq!(
        s.stop_alsa().unwrap_err(),
        "browser PTT session is active; release the browser microphone button to stop transmit"
    );
    s.finish_browser_tx_session(2);
    assert!(!s.stats.transmitting && s.active.is_none());
    s.start_browser(Some(hash(1)), Some(LinkStatus::Active));
    assert!(!s.shutdown_tx_session());
    assert!(!s.stats.transmitting);
    s.start_alsa(Some(hash(1)), Some(LinkStatus::Active));
    assert!(s.shutdown_tx_session());
}

#[test]
fn received_voice_is_counted_or_dropped() {
    let mut s = state();
    let cfg = PluginConfig::default();
    let mut tx = TxCodec::new(&cfg).unwrap();
    let packet = prepare_packet(&mut s.stats, &mut tx, &[0i16; 160]).unwrap();
    assert_eq!(packet.len(), 16);
    assert_eq!(&packet[..8], b"KPT2\0\0\0\0");
    assert_eq!(&prepare_packet(&mut s.stats, &mut tx, &[0i16; 160]).unwrap()[4..8], &[0, 0, 0, 1]);
    assert!(prepare_packet(&mut s.stats, &mut tx, &[0i16; 3]).is_err());
    assert_eq!(s.stats.seq, 2);

    assert_eq!(s.receive_audio(&packet).unwrap().unwrap().len(), 160);
    assert_eq!(s.receive_audio(b"nope").unwrap_err(), "invalid audio packet header");
    assert_eq!(
        s.receive_audio(b"KPT2\0\0\0\0abc").unwrap_err(),
        "codec2 expects 8 encoded bytes per frame, got 3"
    );
    s.audio_delivered(16, "peer".into(), PlaybackOutcome::Queued, 7).unwrap();
    assert_eq!((s.stats.rx_packets, s.stats.rx_bytes), (1, 16));
    assert_eq!(s.stats.last_remote.as_deref(), Some("peer"));
    assert_eq!(
        s.audio_delivered(16, "peer".into(), PlaybackOutcome::Closed, 8).unwrap_err(),
        "playback loop is unavailable"
    );
    s.audio_delivered(16, "peer".into(), PlaybackOutcome::TimedOut, 9).unwrap();
    assert_eq!((s.stats.playback_drops, s.stats.last_playback_error_ts), (1, 9));
    assert_eq!(
        s.stats.last_playback_error.as_deref(),
        Some("playback buffer stayed full for 120 ms, dropping received frame")
    );
    s.receive_failed(LinkSide::Out, "bad", 10);
    assert_eq!(s.stats.last_playback_error.as_deref(), Some("receive audio over out-link: bad"));
    s.receive_failed(LinkSide::In, "bad", 11);
    assert_eq!(s.stats.last_playback_error.as_deref(), Some("receive audio over in-link: bad"));
    s.playback_failed("pipe", 12);
    assert_eq!(s.stats.last_playback_error.as_deref(), Some("playback loop: pipe"));

    // Nobody is heard while this node talks.
    s.stats.transmitting = true;
    assert_eq!(s.receive_audio(&packet), Ok(None));
    assert_eq!(s.stats.dropped_rx_while_talking, 1);
}

#[test]
fn waiting_times_follow_the_frame_length() {
    let mut cfg = PluginConfig::default();
    assert_eq!(playback_wait_ms(&cfg), 120);
    cfg.frame_ms = 21;
    assert_eq!(playback_wait_ms(&cfg), 126);
}

#[test]
fn link_events_hand_voice_over() {
    let mut s = state();
    assert_eq!(s.out_link_event(&hash(1), LinkEvent::Data(vec![1, 2]), 1), Some(vec![1, 2]));
    assert_eq!(s.in_link_event(&hash(0xEE), LinkEvent::Data(vec![3])), Some(vec![3]));
    assert_eq!(s.in_link_event(&hash(1), LinkEvent::Data(vec![3])), None);
    assert_eq!(s.in_link_event(&hash(0xEE), LinkEvent::Activated), None);
    assert_eq!(remote_name(LinkSide::Out, &hash(1)), "01010101010101010101010101010101");
    assert_eq!(remote_name(LinkSide::In, &hash(1)), "incoming-link");
    assert!(matches!(browser_step(&BrowserMessage::Binary(vec![1, 0]), 1), BrowserStep::Send(f) if f == vec![1]));
    assert!(matches!(browser_step(&BrowserMessage::Binary(vec![1]), 1), BrowserStep::Fail(_)));
    assert!(matches!(browser_step(&BrowserMessage::Close, 1), BrowserStep::End));
    assert!(matches!(browser_step(&BrowserMessage::Text, 1), BrowserStep::Ignore));
}

#[test]
fn packets_without_a_link_are_not_counted() {
    let mut s = state();
    assert_eq!(
        packet_sent(&mut s.stats, &hash(1), 0, 16).unwrap_err(),
        "selected peer 01010101010101010101010101010101 does not have an active Reticulum link"
    );
    assert_eq!(s.stats.tx_packets, 0);
    packet_sent(&mut s.stats, &hash(1), 2, 16).unwrap();
    assert_eq!((s.stats.tx_packets, s.stats.tx_bytes), (1, 16));
}

#[test]
fn the_selected_peer_is_shown_first() {
    let mut s = state();
    for byte in [3, 1, 2] {
        s.register_announced_peer(desc(byte), None, byte as u64).unwrap();
    }
    s.config.selected_peer = Some(hash(2).to_hex_string());
    let order: Vec<String> = list_peers(&s).into_iter().map(|p| p.hash).collect();
    assert_eq!(order, vec![hash(2).to_hex_string(), hash(1).to_hex_string(), hash(3).to_hex_string()]);
    let shown = build_status(&s);
    assert_eq!(shown.peers.len(), 3);
    assert_eq!(shown.local_destination, hash(0xEE).to_hex_string());
    assert_eq!(shown.active_source, None);
    assert_eq!(parse_selected_peer(&s.config).unwrap().bytes, [2; 16]);
}

#[test]
fn settings_are_changed_by_the_user() {
    let mut s = state();
    let update = |peer: Option<&str>, capture: &str, playback: &str| ConfigUpdate {
        selected_peer: peer.map(|p| p.to_string()),
        capture_device: capture.into(),
        playback_device: playback.into(),
    };
    let refused = plan_config_update(&s.config, &update(Some("12"), "a", "b")).unwrap_err();
    assert_eq!((refused.status, refused.detail.as_str()), (400, "invalid selected_peer '12': IncorrectHash"));
    let refused = plan_config_update(&s.config, &update(None, " ", "b")).unwrap_err();
    assert_eq!(refused.detail, "capture_device and playback_device must not be empty");
    let mut invalid = s.config.copy();
    invalid.packet_frames = 0;
    assert_eq!(plan_config_update(&invalid, &update(None, "a", "b")).unwrap_err().status, 500);

    let peer = hash(7).to_hex_string();
    let new = plan_config_update(&s.config, &update(Some(&peer), " hw:1 ", "hw:2")).unwrap();
    assert_eq!((new.capture_device.as_str(), new.playback_device.as_str()), ("hw:1", "hw:2"));
    let failed = commit_config(&mut s, new.copy(), Err("write config: full".into()));
    assert_eq!((failed.status, s.config.capture_device.as_str()), (500, "default"));
    let done = commit_config(&mut s, new, Ok(()));
    assert_eq!(done.status, 200);
    assert_eq!(
        done.detail,
        format!("Config saved. selected_peer={peer}; capture_device applies on the next transmit start and playback_device applies on restart.")
    );
    assert_eq!(s.config.capture_device, "hw:1");
}

#[test]
fn played_frames_are_counted() {
    let mut s = state();
    s.stats.record_played_frame(160, 5);
    assert_eq!((s.stats.played_frames, s.stats.last_played_samples, s.stats.last_played_ts), (1, 160, 5));
    s.stats.rx_packets = u64::MAX;
    s.audio_delivered(1, "x".into(), PlaybackOutcome::Queued, 6).unwrap();
    assert_eq!(s.stats.rx_packets, 0);
    assert_eq!(s.stats.next_browser_session_id(), 1);
}
