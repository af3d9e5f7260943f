//! Requests about the device itself: radio tests, restarts, sound and status.

use vstd::prelude::*;

use crate::digits;
use crate::digits::dec_usize;
use crate::gateway::audio::{AudioError, AudioOutput};
use crate::gateway::radio;
use crate::gateway::radio::{check_test_frame, HardwareRadioConfig, RadioModuleConfig};
use crate::gateway::startup::FrameStats;
use crate::http::vpn::SystemActionResponse;
use crate::reply::{
    reply, reply_with, Reply, BAD_REQUEST, INTERNAL_SERVER_ERROR, NOT_FOUND, SERVICE_UNAVAILABLE,
};
use crate::text;
use crate::text::{cat2, cat3, cat4, is_empty, to_chars, trim};

verus! {

/// A request that was carried out without anything to say.
pub const NO_CONTENT: u16 = 204;

#[derive(Clone, Debug)]
pub struct InfoResponse {
    pub serial: String,
}

#[derive(Clone, Debug)]
pub struct RadioTestRequest {
    pub message: String,
}

#[derive(Clone, Debug)]
pub struct RadioTestResponse {
    pub status: String,
}

#[derive(Clone, Debug)]
pub struct ServiceActionRequest {
    pub unit: String,
}

#[derive(Clone, Debug)]
pub struct SetSystemCodenameRequest {
    pub codename: String,
}

#[derive(Clone, Debug)]
pub struct SystemCodenameResponse {
    pub status: String,
    pub codename: String,
}

#[derive(Clone, Debug)]
pub struct PutAudioRequest {
    pub volume: u8,
    pub muted: bool,
}

#[derive(Clone, Debug)]
pub struct AudioSaveResponse {
    pub status: String,
}

/// The device's serial number.
pub fn get_info(serial: &str) -> (r: InfoResponse)
    ensures
        r.serial@ == serial@,
{
    InfoResponse { serial: serial.to_owned() }
}

/// The answer when the certificate of the local authority cannot be read.
pub fn rootca_failed(missing: bool, path: &str, err: &str) -> (r: Reply)
    ensures
        r@ == (
            if missing {
                NOT_FOUND
            } else {
                INTERNAL_SERVER_ERROR
            },
            "failed to read root CA certificate "@ + path@ + ": "@ + err@,
        ),
{
    let status: u16 = if missing {
        NOT_FOUND
    } else {
        INTERNAL_SERVER_ERROR
    };
    reply_with(status, cat4("failed to read root CA certificate ", path, ": ", err))
}

// ── Settings ─────────────────────────────────────────────────────────────────

/// How far a change of all the settings got.
#[derive(Clone, Copy, Debug, PartialEq, Eq, Structural)]
pub enum SettingsOutcome {
    /// They could not be written.
    SaveFailed,
    /// The tunnel did not take the new peers.
    PolicyFailed,
    Applied,
}

/// The status code for a change of all the settings.
pub fn put_settings_status(outcome: SettingsOutcome) -> (r: u16)
    ensures
        r == match outcome {
            SettingsOutcome::SaveFailed => INTERNAL_SERVER_ERROR,
            SettingsOutcome::PolicyFailed => BAD_REQUEST,
            SettingsOutcome::Applied => NO_CONTENT,
        },
{
    match outcome {
        SettingsOutcome::SaveFailed => INTERNAL_SERVER_ERROR,
        SettingsOutcome::PolicyFailed => BAD_REQUEST,
        SettingsOutcome::Applied => NO_CONTENT,
    }
}

/// The settings of one module; there are two.
pub fn get_radio(radio: &HardwareRadioConfig, module: usize) -> (r: Result<RadioModuleConfig, u16>)
    ensures
        r == if module < 2 {
            Ok::<RadioModuleConfig, u16>(radio.module_configs@[module as int])
        } else {
            Err::<RadioModuleConfig, u16>(NOT_FOUND)
        },
{
    if module < 2 {
        Ok(radio.module_configs[module])
    } else {
        Err(NOT_FOUND)
    }
}

/// The status code for a change of a module's settings: they are kept even where
/// the radio does not take them.
pub fn put_radio_status(saved: bool) -> (r: u16)
    ensures
        r == if saved {
            NO_CONTENT
        } else {
            INTERNAL_SERVER_ERROR
        },
{
    if saved {
        NO_CONTENT
    } else {
        INTERNAL_SERVER_ERROR
    }
}

// ── Radio tests ──────────────────────────────────────────────────────────────

/// Why a radio test is refused, if so.
pub open spec fn radio_test_refusal(module: usize, message: Seq<char>, radio_present: bool, frame_size: usize) -> Option<
    (u16, Seq<char>),
> {
    let trimmed = text::trimmed(message);
    if module > 1 {
        Some((NOT_FOUND, "radio module "@ + digits::decimal(module as nat) + " not found"@))
    } else if trimmed.len() == 0 {
        Some((BAD_REQUEST, "message is required"@))
    } else if trimmed.len() > 2047 {
        Some((BAD_REQUEST, "message exceeds 2047 characters"@))
    } else {
        match radio::test_frame_complaint(radio_present, frame_size, module, text::byte_len(trimmed)) {
            Some(e) => Some((SERVICE_UNAVAILABLE, e)),
            None => None,
        }
    }
}

/// The message to send as a radio test: the text without blanks around it.
pub fn post_radio_test(request: &RadioTestRequest, module: usize, radio_present: bool, frame_size: usize) -> (r: Result<
    String,
    Reply,
>)
    ensures
        match r {
            Ok(m) => {
                &&& radio_test_refusal(module, request.message@, radio_present, frame_size) is None
                &&& m@ == text::trimmed(request.message@)
            },
            Err(e) => radio_test_refusal(module, request.message@, radio_present, frame_size) == Some(e@),
        },
{
    if module > 1 {
        return Err(reply_with(NOT_FOUND, cat3("radio module ", dec_usize(module).as_str(), " not found")));
    }
    let message = trim(request.message.as_str());
    if is_empty(message.as_str()) {
        return Err(reply(BAD_REQUEST, "message is required"));
    }
    if to_chars(message.as_str()).len() > 2047 {
        return Err(reply(BAD_REQUEST, "message exceeds 2047 characters"));
    }
    match check_test_frame(radio_present, frame_size, module, message.as_str().as_bytes()) {
        Ok(()) => Ok(message),
        Err(e) => Err(reply_with(SERVICE_UNAVAILABLE, e)),
    }
}

/// What a radio test is answered with, once the frame was sent or not.
pub fn radio_test_sent(module: usize, sent: Result<(), String>) -> (r: Result<RadioTestResponse, Reply>)
    ensures
        match sent {
            Ok(()) => r is Ok && r->Ok_0.status@ == "Sent test frame on "@ + if module == 0 {
                "Radio A"@
            } else {
                "Radio B"@
            },
            Err(e) => r is Err && r->Err_0@ == (SERVICE_UNAVAILABLE, "transmit: "@ + e@),
        },
{
    match radio::test_frame_sent(sent) {
        Ok(()) => Ok(
            RadioTestResponse {
                status: cat2(
                    "Sent test frame on ",
                    if module == 0 {
                        "Radio A"
                    } else {
                        "Radio B"
                    },
                ),
            },
        ),
        Err(e) => Err(reply_with(SERVICE_UNAVAILABLE, e)),
    }
}

// ── Restarts ─────────────────────────────────────────────────────────────────

/// What came of running a program: whether it succeeded and what it printed.
#[derive(Clone, Debug)]
pub struct RunOutput {
    pub success: bool,
    pub stdout: Vec<u8>,
    pub stderr: Vec<u8>,
}

/// What a program that failed says of it: its errors, or else its output, or else a
/// default.
pub open spec fn failure_message(stdout: Seq<char>, stderr: Seq<char>, default: Seq<char>) -> Seq<char> {
    if text::trimmed(stderr).len() > 0 {
        text::trimmed(stderr)
    } else if text::trimmed(stdout).len() > 0 {
        text::trimmed(stdout)
    } else {
        default
    }
}

/// What a program that failed says of it.
pub fn pick_message(stdout: &str, stderr: &str, default: &str) -> (r: String)
    ensures
        r@ == failure_message(stdout@, stderr@, default@),
{
    let stderr = trim(stderr);
    let stdout = trim(stdout);
    let message = if is_empty(stderr.as_str()) {
        stdout
    } else {
        stderr
    };
    if is_empty(message.as_str()) {
        default.to_owned()
    } else {
        message
    }
}

/// Judges a request to restart the device; where there is no service manager to run, it
/// is only acknowledged.
pub fn request_system_reboot(run: Option<Result<RunOutput, String>>) -> (r: Result<SystemActionResponse, Reply>)
    ensures
        match run {
            None => r is Ok && r->Ok_0.status@ == "Mock reboot requested"@,
            Some(Err(e)) => r is Err && r->Err_0@ == (
                INTERNAL_SERVER_ERROR,
                "failed to execute systemctl reboot: "@ + e@,
            ),
            Some(Ok(out)) => if out.success {
                r is Ok && r->Ok_0.status@ == "Reboot requested"@
            } else {
                r is Err && r->Err_0@ == (
                    INTERNAL_SERVER_ERROR,
                    failure_message(
                        text::utf8_lossy(out.stdout@),
                        text::utf8_lossy(out.stderr@),
                        "systemctl reboot failed"@,
                    ),
                )
            },
        },
{
    match run {
        None => Ok(SystemActionResponse { status: "Mock reboot requested".to_owned() }),
        Some(Err(e)) => Err(
            reply_with(INTERNAL_SERVER_ERROR, cat2("failed to execute systemctl reboot: ", e.as_str())),
        ),
        Some(Ok(out)) => {
            if out.success {
                return Ok(SystemActionResponse { status: "Reboot requested".to_owned() });
            }
            let stderr = text::from_utf8_lossy(out.stderr.as_slice());
            let stdout = text::from_utf8_lossy(out.stdout.as_slice());
            Err(
                reply_with(
                    INTERNAL_SERVER_ERROR,
                    pick_message(stdout.as_str(), stderr.as_str(), "systemctl reboot failed"),
                ),
            )
        },
    }
}

/// Judges whether a service may be restarted: only the gateway's own.
pub fn check_service(is_gateway_unit: bool) -> (r: Result<(), Reply>)
    ensures
        match r {
            Ok(()) => is_gateway_unit,
            Err(e) => !is_gateway_unit && e@ == (BAD_REQUEST, "unsupported service"@),
        },
{
    if is_gateway_unit {
        Ok(())
    } else {
        Err(reply(BAD_REQUEST, "unsupported service"))
    }
}

/// Judges a request to restart a service; where there is no service manager to run, it is
/// only acknowledged.
pub fn request_service_restart(unit: &str, run: Option<Result<RunOutput, String>>) -> (r: Result<SystemActionResponse, Reply>)
    ensures
        match run {
            None => r is Ok && r->Ok_0.status@ == "Mock restart requested for "@ + unit@,
            Some(Err(e)) => r is Err && r->Err_0@ == (
                INTERNAL_SERVER_ERROR,
                "failed to execute systemctl restart "@ + unit@ + ": "@ + e@,
            ),
            Some(Ok(out)) => if out.success {
                r is Ok && r->Ok_0.status@ == "Restart requested for "@ + unit@
            } else {
                r is Err && r->Err_0@ == (
                    INTERNAL_SERVER_ERROR,
                    failure_message(
                        text::utf8_lossy(out.stdout@),
                        text::utf8_lossy(out.stderr@),
                        "systemctl restart "@ + unit@ + " failed"@,
                    ),
                )
            },
        },
{
    match run {
        None => Ok(SystemActionResponse { status: cat2("Mock restart requested for ", unit) }),
        Some(Err(e)) => Err(
            reply_with(INTERNAL_SERVER_ERROR, cat4("failed to execute systemctl restart ", unit, ": ", e.as_str())),
        ),
        Some(Ok(out)) => {
            if out.success {
                return Ok(SystemActionResponse { status: cat2("Restart requested for ", unit) });
            }
            let stderr = text::from_utf8_lossy(out.stderr.as_slice());
            let stdout = text::from_utf8_lossy(out.stdout.as_slice());
            let default = cat3("systemctl restart ", unit, " failed");
            Err(
                reply_with(
                    INTERNAL_SERVER_ERROR,
                    pick_message(stdout.as_str(), stderr.as_str(), default.as_str()),
                ),
            )
        },
    }
}

/// What a change of the device's name is answered with, given the name in its
/// normal form and whether it could be written.
pub fn post_system_codename(normalized: Result<String, String>, saved: Result<(), String>) -> (r: Result<
    SystemCodenameResponse,
    Reply,
>)
    ensures
        match (normalized, saved) {
            (Err(e), _) => r is Err && r->Err_0@ == (BAD_REQUEST, e@),
            (Ok(_), Err(e)) => r is Err && r->Err_0@ == (INTERNAL_SERVER_ERROR, "failed to save codename: "@ + e@),
            (Ok(name), Ok(())) => r is Ok && r->Ok_0.status@ == "Codename updated"@ && r->Ok_0.codename@ == name@,
        },
{
    match (normalized, saved) {
        (Err(e), _) => Err(reply_with(BAD_REQUEST, e)),
        (Ok(_), Err(e)) => Err(reply_with(INTERNAL_SERVER_ERROR, cat2("failed to save codename: ", e.as_str()))),
        (Ok(codename), Ok(())) => Ok(SystemCodenameResponse { status: "Codename updated".to_owned(), codename }),
    }
}

// ── Sound ────────────────────────────────────────────────────────────────────

/// The output that a path names; there is no other.
pub fn audio_output(name: &str) -> (r: Result<AudioOutput, u16>)
    ensures
        r == match AudioOutput::named(name@) {
            Some(o) => Ok::<AudioOutput, u16>(o),
            None => Err::<AudioOutput, u16>(NOT_FOUND),
        },
{
    match AudioOutput::parse(name) {
        Some(o) => Ok(o),
        None => Err(NOT_FOUND),
    }
}

/// The status code for an error of the sound system: a bad volume and a card or
/// control that does not exist are the caller's fault.
pub fn map_audio_error(err: &AudioError) -> (r: u16)
    ensures
        r == if *err is InvalidVolume {
            BAD_REQUEST
        } else if *err is NotFound {
            NOT_FOUND
        } else {
            INTERNAL_SERVER_ERROR
        },
{
    match err {
        AudioError::InvalidVolume(_) => BAD_REQUEST,
        AudioError::NotFound(_) => NOT_FOUND,
        _ => INTERNAL_SERVER_ERROR,
    }
}

// ── Status ───────────────────────────────────────────────────────────────────

/// The addresses of the device's interfaces.
#[derive(Clone, Debug)]
pub struct WsInterfacesDto {
    pub wlan0_ip: Option<String>,
    pub usb0_ip: Option<String>,
}

/// The addresses of the device's interfaces, given those that `wlan0` and `usb0` have.
pub fn build_ws_interfaces(wlan0_ip: Option<String>, usb0_ip: Option<String>) -> (r: WsInterfacesDto)
    ensures
        r.wlan0_ip == wlan0_ip,
        r.usb0_ip == usb0_ip,
{
    WsInterfacesDto { wlan0_ip, usb0_ip }
}

/// What a module has received and sent, as it is shown.
#[derive(Clone, Copy, Debug, PartialEq, Eq, Structural)]
pub struct FrameStatsDto {
    pub rx_frames: u64,
    pub rx_bytes: u64,
    pub rx_bps: u64,
    pub tx_frames: u64,
    pub tx_bytes: u64,
    pub tx_bps: u64,
    /// The low byte of the last strength; nothing before the first frame was received.
    pub last_rssi: Option<i8>,
}

/// What a module has received and sent, with the rates it currently does so at.
pub fn build_frame_stats(stats: &FrameStats, rx_bps: u64, tx_bps: u64) -> (r: FrameStatsDto)
    ensures
        r == (FrameStatsDto {
            rx_frames: stats.rx_frames,
            rx_bytes: stats.rx_bytes,
            rx_bps,
            tx_frames: stats.tx_frames,
            tx_bytes: stats.tx_bytes,
            tx_bps,
            last_rssi: if stats.rx_frames > 0 {
                Some(stats.last_rssi as i8)
            } else {
                None
            },
        }),
{
    FrameStatsDto {
        rx_frames: stats.rx_frames,
        rx_bytes: stats.rx_bytes,
        rx_bps,
        tx_frames: stats.tx_frames,
        tx_bytes: stats.tx_bytes,
        tx_bps,
        last_rssi: if stats.rx_frames > 0 {
            Some(#[verifier::truncate] (stats.last_rssi as i8))
        } else {
            None
        },
    }
}

// ── What the requests come to ────────────────────────────────────────────────

/// A test message is sent without white space around it, exactly where there is a radio with the module
/// and the message has at least one and at most 2047 bytes that fit a frame. Otherwise a module that
/// does not exist is not found, and a message that is blank or too long is the caller's error.
pub proof fn law_test_messages_fit_the_radio(
    request: &RadioTestRequest,
    module: usize,
    present: bool,
    frame_size: usize,
    r: Result<String, Reply>,
)
    requires
        call_ensures(post_radio_test, (request, module, present, frame_size), r),
    ensures
        ({
            let m = text::trimmed(request.message@);
            &&& r is Ok <==> {
                &&& module < 2
                &&& present
                &&& m.len() > 0 && m.len() <= 2047
                &&& 0 < text::byte_len(m) <= 2047 && text::byte_len(m) <= frame_size
            }
            &&& r matches Ok(sent) ==> sent@ == m
            &&& module >= 2 ==> r is Err && r->Err_0@.0 == 404
            &&& module < 2 && (m.len() == 0 || m.len() > 2047) ==> r is Err && r->Err_0@.0 == 400
            &&& module < 2 && 0 < m.len() <= 2047 && r is Err ==> r->Err_0@.0 == 503
        }),
{
}

/// The first module is called A and the second B; what could not be sent is reported with its error.
pub proof fn law_test_frames_name_their_radio(module: usize, sent: Result<(), String>, r: Result<RadioTestResponse, Reply>)
    requires
        module < 2,
        call_ensures(radio_test_sent, (module, sent), r),
    ensures
        r is Ok <==> sent is Ok,
        r is Ok && module == 0 ==> r->Ok_0.status@ == "Sent test frame on "@ + "Radio A"@,
        r is Ok && module == 1 ==> r->Ok_0.status@ == "Sent test frame on "@ + "Radio B"@,
        sent matches Err(e) ==> r->Err_0@ == (503u16, "transmit: "@ + e@),
{
}

/// A module's settings are its own, and there are two modules.
pub proof fn law_modules_have_their_own_settings(radio: &HardwareRadioConfig, module: usize, r: Result<RadioModuleConfig, u16>)
    requires
        call_ensures(get_radio, (radio, module), r),
    ensures
        r is Ok <==> module < 2,
        module == 0 ==> r == Ok::<RadioModuleConfig, u16>(radio.module_configs@[0]),
        module == 1 ==> r == Ok::<RadioModuleConfig, u16>(radio.module_configs@[1]),
        module >= 2 ==> r == Err::<RadioModuleConfig, u16>(404),
{
}

/// Settings that were put into force answer with nothing to say, those that could not be written are the
/// device's error, and peers that the tunnel did not take are the caller's.
pub proof fn law_settings_answer_how_far_they_got(outcome: SettingsOutcome, r: u16, saved: bool, module: u16)
    requires
        call_ensures(put_settings_status, (outcome,), r),
        call_ensures(put_radio_status, (saved,), module),
    ensures
        r == 204 <==> outcome == SettingsOutcome::Applied,
        r == 500 <==> outcome == SettingsOutcome::SaveFailed,
        r == 400 <==> outcome == SettingsOutcome::PolicyFailed,
        module == 204 <==> saved,
        module == 500 <==> !saved,
{
}

/// A program that failed is quoted with the first that has something to say of its errors, its output
/// and the default.
pub proof fn law_failures_are_quoted(stdout: &str, stderr: &str, default: &str, r: String)
    requires
        call_ensures(pick_message, (stdout, stderr, default), r),
    ensures
        text::trimmed(stderr@).len() > 0 ==> r@ == text::trimmed(stderr@),
        text::trimmed(stderr@).len() == 0 && text::trimmed(stdout@).len() > 0 ==> r@ == text::trimmed(stdout@),
        text::trimmed(stderr@).len() == 0 && text::trimmed(stdout@).len() == 0 ==> r@ == default@,
{
}

/// A restart is granted exactly where its program succeeded, or where there is none to run; whatever
/// else happened is the device's error.
pub proof fn law_restarts_are_granted_where_they_worked(
    run: Option<Result<RunOutput, String>>,
    reboot: Result<SystemActionResponse, Reply>,
    unit: &str,
    restart: Result<SystemActionResponse, Reply>,
)
    requires
        call_ensures(request_system_reboot, (run,), reboot),
        call_ensures(request_service_restart, (unit, run), restart),
    ensures
        reboot is Ok <==> run is None || (run->0 is Ok && run->0->Ok_0.success),
        restart is Ok <==> run is None || (run->0 is Ok && run->0->Ok_0.success),
        reboot matches Err(e) ==> e@.0 == 500,
        restart matches Err(e) ==> e@.0 == 500,
{
}

/// Only the gateway's own services are restarted.
pub proof fn law_only_own_services_are_restarted(own: bool, r: Result<(), Reply>)
    requires
        call_ensures(check_service, (own,), r),
    ensures
        r is Ok <==> own,
        r matches Err(e) ==> e@.0 == 400,
{
}

/// A name is reported as the device's exactly where it is one and was written.
pub proof fn law_codename_is_changed_once_written(normalized: Result<String, String>, saved: Result<(), String>, r: Result<SystemCodenameResponse, Reply>)
    requires
        call_ensures(post_system_codename, (normalized, saved), r),
    ensures
        r is Ok <==> normalized is Ok && saved is Ok,
        r matches Ok(n) ==> n.codename@ == normalized->Ok_0@,
        normalized is Err ==> r->Err_0@ == (400u16, normalized->Err_0@),
        normalized is Ok && saved is Err ==> r->Err_0@.0 == 500,
{
}

/// What is wrong with a request for sound is the caller's error, what does not exist is not found, and
/// the rest is the device's.
pub proof fn law_sound_errors(err: &AudioError, r: u16, name: &str, output: Result<AudioOutput, u16>)
    requires
        call_ensures(map_audio_error, (err,), r),
        call_ensures(audio_output, (name,), output),
    ensures
        r == 400 <==> *err is InvalidVolume,
        r == 404 <==> *err is NotFound,
        r == 400 || r == 404 || r == 500,
        output == Ok::<AudioOutput, u16>(AudioOutput::Speaker) <==> name@ == "speaker"@,
        output == Ok::<AudioOutput, u16>(AudioOutput::Headphones) <==> name@ == "headphones"@,
        output is Err ==> output->Err_0 == 404,
{
    reveal_strlit("speaker");
    reveal_strlit("headphones");
    assert("speaker"@.len() != "headphones"@.len());
}

/// Each interface is shown with its own address, and a module with its own counts: what it received as
/// received and what it sent as sent. The strength is the low byte of the last, and there is none
/// before a frame was received.
pub proof fn law_status_shows_what_is(
    wlan: Option<String>,
    usb: Option<String>,
    shown: WsInterfacesDto,
    stats: &FrameStats,
    rx_bps: u64,
    tx_bps: u64,
    r: FrameStatsDto,
)
    requires
        call_ensures(build_ws_interfaces, (wlan, usb), shown),
        call_ensures(build_frame_stats, (stats, rx_bps, tx_bps), r),
    ensures
        shown.wlan0_ip == wlan && shown.usb0_ip == usb,
        r.rx_frames == stats.rx_frames && r.rx_bytes == stats.rx_bytes && r.rx_bps == rx_bps,
        r.tx_frames == stats.tx_frames && r.tx_bytes == stats.tx_bytes && r.tx_bps == tx_bps,
        r.last_rssi is Some <==> stats.rx_frames > 0,
        r.last_rssi matches Some(s) ==> -128 <= stats.last_rssi <= 127 ==> s == stats.last_rssi,
{
}

/// A certificate that is not there is not found, and one that cannot be read is a fault of the device.
pub proof fn law_certificates_are_missing_or_unreadable(missing: bool, path: &str, err: &str, r: Reply, serial: &str, info: InfoResponse)
    requires
        call_ensures(rootca_failed, (missing, path, err), r),
        call_ensures(get_info, (serial,), info),
    ensures
        missing ==> r@.0 == 404,
        !missing ==> r@.0 == 500,
        r@.1 == "failed to read root CA certificate "@ + path@ + ": "@ + err@,
        info.serial@ == serial@,
{
}

} // verus!
