//! Measuring the tunnel: pings and speed tests.

use vstd::prelude::*;

use crate::digits;
use crate::digits::dec_usize;
use crate::reply::{
    reply, reply_with, Reply, BAD_GATEWAY, BAD_REQUEST, INTERNAL_SERVER_ERROR, NOT_FOUND, SERVICE_UNAVAILABLE,
};
use crate::route;
use crate::route::write_address;
use crate::text;
use crate::text::{cat2, cat3, cat4, find_text, from_range, is_empty, join, to_chars, trim};

verus! {

#[derive(Clone, Debug)]
pub struct VpnPingRequest {
    pub address: String,
}

#[derive(Clone, Debug)]
pub struct VpnPingResponse {
    pub ok: bool,
    pub latency: Option<String>,
}

#[derive(Clone, Debug)]
pub struct SpeedPayloadQuery {
    pub bytes: Option<usize>,
}

#[derive(Clone, Debug)]
pub struct VpnSpeedTestRequest {
    pub address: String,
    /// The size of the payload to ask for; 32 KiB where it is left out.
    pub bytes: Option<usize>,
}

#[derive(Clone, Copy, Debug, PartialEq, Eq, Structural)]
pub struct VpnSpeedTestResponse {
    pub ok: bool,
    pub bytes: u64,
    pub duration_ms: u64,
    pub bps: u64,
}

/// The complaint about a text that is no IPv4 address.
pub open spec fn address_complaint(text: Seq<char>, err: Seq<char>) -> (u16, Seq<char>) {
    (BAD_REQUEST, "invalid IPv4 address '"@ + text::trimmed(text) + "': "@ + err)
}

/// Takes over the address that a text was read as, without blanks around it.
pub fn check_address(text: &str, parsed: Result<[u8; 4], String>) -> (r: Result<[u8; 4], Reply>)
    ensures
        match parsed {
            Ok(a) => r == Ok::<[u8; 4], Reply>(a),
            Err(e) => r is Err && r->Err_0@ == address_complaint(text@, e@),
        },
{
    match parsed {
        Ok(a) => Ok(a),
        Err(e) => Err(
            reply_with(BAD_REQUEST, cat4("invalid IPv4 address '", trim(text).as_str(), "': ", e.as_str())),
        ),
    }
}

// ── Ping ─────────────────────────────────────────────────────────────────────

/// Whether a line of a ping's output tells a time.
pub open spec fn tells_time(line: Seq<char>) -> bool {
    text::occurs_in(line, "time="@) || text::occurs_in(line, "time<"@)
}

/// The first line that tells a time.
pub open spec fn time_line(rows: Seq<Seq<char>>) -> Option<Seq<char>>
    decreases rows.len(),
{
    if rows.len() == 0 {
        None
    } else if tells_time(rows[0]) {
        Some(rows[0])
    } else {
        time_line(rows.skip(1))
    }
}

/// Where the time of a line starts: after `time=`, or else after `time`.
pub open spec fn time_start(line: Seq<char>) -> Option<int> {
    match text::first_place(line, "time="@, 0) {
        Some(i) => Some(i + 5),
        None => match text::first_place(line, "time"@, 0) {
            Some(i) => Some(i + 4),
            None => None,
        },
    }
}

/// Where the unit stands in a text: ` ms`, or else `ms`.
pub open spec fn unit_place(tail: Seq<char>) -> Option<int> {
    match text::first_place(tail, " ms"@, 0) {
        Some(i) => Some(i),
        None => text::first_place(tail, "ms"@, 0),
    }
}

/// The time that a line tells, in milliseconds, as it is written there.
pub open spec fn line_latency(line: Seq<char>) -> Option<Seq<char>> {
    match time_start(line) {
        None => None,
        Some(start) => {
            let tail = line.skip(start);
            match unit_place(tail) {
                None => None,
                Some(end) => {
                    let value = text::trimmed(tail.take(end));
                    if value.len() == 0 {
                        None
                    } else {
                        Some(value + " ms"@)
                    }
                },
            }
        },
    }
}

/// The time that the output of a ping tells.
pub open spec fn latency_of(output: Seq<char>) -> Option<Seq<char>> {
    match time_line(text::lines_of(output)) {
        Some(line) => line_latency(line),
        None => None,
    }
}

/// The first place of a text in another, whole texts.
fn place_of(s: &[char], p: &str) -> (r: Option<usize>)
    ensures
        match r {
            Some(i) => text::first_place(s@, p@, 0) == Some(i as int) && i + p@.len() <= s@.len(),
            None => text::first_place(s@, p@, 0) is None,
        },
{
    find_text(s, &to_chars(p), 0)
}

/// The time that a line tells.
fn read_line_latency(line: &str) -> (r: Option<String>)
    ensures
        text::view_opt(r) == line_latency(line@),
{
    let chars = to_chars(line);
    proof {
        reveal_strlit("time=");
        reveal_strlit("time");
    }
    let n: usize = chars.len();
    let start: usize = match place_of(&chars, "time=") {
        Some(i) => i + 5,
        None => match place_of(&chars, "time") {
            Some(i) => i + 4,
            None => {
                return None;
            },
        },
    };
    let tail = to_chars(from_range(&chars, start, n).as_str());
    proof {
        assert(tail@ =~= line@.skip(start as int));
    }
    let end: usize = match place_of(&tail, " ms") {
        Some(i) => i,
        None => match place_of(&tail, "ms") {
            Some(i) => i,
            None => {
                return None;
            },
        },
    };
    proof {
        assert(tail@.subrange(0, end as int) =~= tail@.take(end as int));
    }
    let value = trim(from_range(&tail, 0, end).as_str());
    if is_empty(value.as_str()) {
        return None;
    }
    Some(cat2(value.as_str(), " ms"))
}

/// The time that the output of a ping tells.
pub fn read_latency(output: &str) -> (r: Option<String>)
    ensures
        text::view_opt(r) == latency_of(output@),
{
    let rows = text::lines(output);
    let ghost rv = text::views(rows@);
    let mut i: usize = 0;
    proof {
        assert(rv.skip(0) =~= rv);
    }
    while i < rows.len()
        invariant
            rv == text::views(rows@),
            rv == text::lines_of(output@),
            i <= rows@.len(),
            time_line(rv) == time_line(rv.skip(i as int)),
        decreases rows@.len() - i,
    {
        proof {
            assert(rv.skip(i as int)[0] == rows@[i as int]@);
            assert(rv.skip(i as int).skip(1) =~= rv.skip(i + 1));
        }
        let line = rows[i].as_str();
        if text::contains(line, "time=") || text::contains(line, "time<") {
            return read_line_latency(line);
        }
        i += 1;
    }
    None
}

/// The time that the output of a ping tells.
pub fn parse_ping_latency(stdout: &[u8]) -> (r: Option<String>)
    ensures
        text::view_opt(r) == latency_of(text::utf8_lossy(stdout@)),
{
    read_latency(text::from_utf8_lossy(stdout).as_str())
}

/// The arguments of a ping.
pub open spec fn ping_words(address: Seq<u8>) -> Seq<Seq<char>> {
    seq!["-n"@, "-c"@, "1"@, "-W"@, "3"@, route::address_text(address)]
}

/// The arguments of a ping.
pub fn ping_arguments(address: &[u8; 4]) -> (r: Vec<String>)
    ensures
        text::views(r@) == ping_words(address@),
{
    let mut out: Vec<String> = Vec::new();
    out.push("-n".to_owned());
    out.push("-c".to_owned());
    out.push("1".to_owned());
    out.push("-W".to_owned());
    out.push("3".to_owned());
    out.push(write_address(address));
    proof {
        assert(text::views(out@) =~= ping_words(address@));
    }
    out
}

/// Judges a run of the ping program: whether the address answered, and the time that it
/// took where that is told. Where there is no such program to run, every address answers.
pub fn ping_outcome(address: &[u8; 4], run: Option<Result<(bool, Vec<u8>), String>>) -> (r: Result<VpnPingResponse, Reply>)
    ensures
        match run {
            None => r is Ok && r->Ok_0.ok && text::view_opt(r->Ok_0.latency) == Some("1.0 ms"@),
            Some(Err(e)) => r is Err && r->Err_0@ == (
                BAD_GATEWAY,
                "failed to execute ping "@ + route::address_text(address@) + ": "@ + e@,
            ),
            Some(Ok((success, stdout))) => {
                &&& r is Ok
                &&& r->Ok_0.ok == success
                &&& text::view_opt(r->Ok_0.latency) == if success {
                    latency_of(text::utf8_lossy(stdout@))
                } else {
                    None
                }
            },
        },
{
    match run {
        None => Ok(VpnPingResponse { ok: true, latency: Some("1.0 ms".to_owned()) }),
        Some(Err(e)) => Err(
            reply_with(
                BAD_GATEWAY,
                cat4("failed to execute ping ", write_address(address).as_str(), ": ", e.as_str()),
            ),
        ),
        Some(Ok((success, stdout))) => {
            if success {
                Ok(VpnPingResponse { ok: true, latency: parse_ping_latency(stdout.as_slice()) })
            } else {
                Ok(VpnPingResponse { ok: false, latency: None })
            }
        },
    }
}

// ── The payload of a speed test ──────────────────────────────────────────────

/// The size of a payload: what was asked for, between 1 KiB and 256 KiB; 32 KiB
/// where nothing was.
pub open spec fn payload_size(asked: Option<usize>) -> usize {
    match asked {
        None => 32768,
        Some(n) => if n < 1024 {
            1024
        } else if n > 262144 {
            262144
        } else {
            n
        },
    }
}

/// The size of a payload.
pub fn payload_len(asked: Option<usize>) -> (r: usize)
    ensures
        r == payload_size(asked),
{
    match asked {
        None => 32768,
        Some(n) => if n < 1024 {
            1024
        } else if n > 262144 {
            262144
        } else {
            n
        },
    }
}

/// The bytes of a payload: they run through the values below 251 in steps, so that no two
/// neighbours are the same.
pub open spec fn payload_bytes(len: nat) -> Seq<u8> {
    Seq::new(len, |i: int| ((i * 31) % 251) as u8)
}

/// The payload of a speed test.
pub fn get_speed_payload(query: &SpeedPayloadQuery) -> (body: Vec<u8>)
    ensures
        body@ == payload_bytes(payload_size(query.bytes) as nat),
{
    let len: usize = payload_len(query.bytes);
    let mut body: Vec<u8> = Vec::new();
    let mut i: usize = 0;
    while i < len
        invariant
            i <= len <= 262144,
            body@.len() == i,
            forall|k: int| 0 <= k < i ==> body@[k] == #[trigger] payload_bytes(len as nat)[k],
        decreases len - i,
    {
        body.push(((i * 31) % 251) as u8);
        i += 1;
    }
    proof {
        assert(body@ =~= payload_bytes(len as nat));
    }
    body
}

// ── Running a speed test ─────────────────────────────────────────────────────

/// The most that a speed test downloads, in bytes.
pub const MAX_DOWNLOAD: u64 = 8_388_608;

/// How long a speed test waits for a connection and for the whole answer, in seconds.
pub const SPEED_CONNECT_SECS: u64 = 90;

pub const SPEED_TOTAL_SECS: u64 = 180;

/// Where a speed test downloads from.
#[derive(Clone, Debug)]
pub struct SpeedPlan {
    pub peer_ip: String,
    pub url: String,
    /// For peers that do not serve the payload.
    pub fallback_url: String,
}

/// Whether a plan is the one for an address and a size.
pub open spec fn is_plan(p: SpeedPlan, address: Seq<u8>, bytes: Option<usize>) -> bool {
    let ip = route::address_text(address);
    &&& p.peer_ip@ == ip
    &&& p.url@ == "https://"@ + ip + "/api/speed-payload?bytes="@ + digits::decimal(payload_size(bytes) as nat)
    &&& p.fallback_url@ == "https://"@ + ip + "/"@
}

/// The addresses in the tunnel that are known.
pub open spec fn known_ips(tunnel_ips: Seq<Option<String>>) -> Set<Seq<char>> {
    Set::new(|ip: Seq<char>| exists|i: int| 0 <= i < tunnel_ips.len() && text::view_opt(#[trigger] tunnel_ips[i]) == Some(ip))
}

/// Plans a speed test with a peer of the tunnel, given what its address was read as.
pub fn plan_speed_test(
    request: &VpnSpeedTestRequest,
    parsed: Result<[u8; 4], String>,
    vpn_present: bool,
    tunnel_ips: &[Option<String>],
) -> (r: Result<SpeedPlan, Reply>)
    ensures
        match parsed {
            Err(e) => r is Err && r->Err_0@ == address_complaint(request.address@, e@),
            Ok(address) => if !vpn_present {
                r is Err && r->Err_0@ == (SERVICE_UNAVAILABLE, "vpn unavailable"@)
            } else if !known_ips(tunnel_ips@).contains(route::address_text(address@)) {
                r is Err && r->Err_0@ == (NOT_FOUND, "peer tunnel IP not found"@)
            } else {
                r is Ok && is_plan(r->Ok_0, address@, request.bytes)
            },
        },
{
    let address = match check_address(request.address.as_str(), parsed) {
        Ok(a) => a,
        Err(e) => {
            return Err(e);
        },
    };
    if !vpn_present {
        return Err(reply(SERVICE_UNAVAILABLE, "vpn unavailable"));
    }
    let peer_ip = write_address(&address);
    let mut known = false;
    let mut i: usize = 0;
    while i < tunnel_ips.len()
        invariant
            i <= tunnel_ips@.len(),
            known == (exists|k: int| 0 <= k < i && text::view_opt(#[trigger] tunnel_ips@[k]) == Some(peer_ip@)),
        decreases tunnel_ips@.len() - i,
    {
        let hit = match &tunnel_ips[i] {
            Some(ip) => text::same(ip.as_str(), peer_ip.as_str()),
            None => false,
        };
        proof {
            let now = exists|k: int| 0 <= k < i + 1 && text::view_opt(#[trigger] tunnel_ips@[k]) == Some(peer_ip@);
            if hit {
                assert(text::view_opt(tunnel_ips@[i as int]) == Some(peer_ip@));
            }
            if known {
                let k = choose|k: int| 0 <= k < i && text::view_opt(#[trigger] tunnel_ips@[k]) == Some(peer_ip@);
                assert(text::view_opt(tunnel_ips@[k]) == Some(peer_ip@));
            }
            assert(now == (known || hit));
        }
        known = known || hit;
        i += 1;
    }
    proof {
        assert(known == known_ips(tunnel_ips@).contains(peer_ip@));
    }
    if !known {
        return Err(reply(NOT_FOUND, "peer tunnel IP not found"));
    }
    let size = dec_usize(payload_len(request.bytes));
    let url = cat4("https://", peer_ip.as_str(), "/api/speed-payload?bytes=", size.as_str());
    let fallback_url = cat3("https://", peer_ip.as_str(), "/");
    Ok(SpeedPlan { peer_ip, url, fallback_url })
}

/// What a speed test is prepared with.
#[derive(Clone, Copy, Debug, PartialEq, Eq, Structural)]
pub enum SpeedSetup {
    ReadCertificate,
    ParseCertificate,
    BuildClient,
}

/// The answer when a speed test could not be prepared.
pub fn speed_setup_failed(stage: SpeedSetup, err: &str) -> (r: Reply)
    ensures
        r@ == (
            INTERNAL_SERVER_ERROR,
            (match stage {
                SpeedSetup::ReadCertificate => "failed to read local Root CA certificate: "@,
                SpeedSetup::ParseCertificate => "failed to parse local Root CA certificate: "@,
                SpeedSetup::BuildClient => "failed to build speed-test client: "@,
            }) + err@,
        ),
{
    let what = match stage {
        SpeedSetup::ReadCertificate => "failed to read local Root CA certificate: ",
        SpeedSetup::ParseCertificate => "failed to parse local Root CA certificate: ",
        SpeedSetup::BuildClient => "failed to build speed-test client: ",
    };
    reply_with(INTERNAL_SERVER_ERROR, cat2(what, err))
}

/// Why a request was not answered: the error and its causes, outermost first.
#[derive(Clone, Debug)]
pub struct SendFailure {
    pub timeout: bool,
    pub connect: bool,
    pub causes: Vec<String>,
}

/// The answer when a request of a speed test was not answered.
pub open spec fn send_complaint(f: SendFailure) -> (u16, Seq<char>) {
    let detail = text::joined(text::views(f.causes@), ": "@);
    let reason = if f.timeout {
        "timed out — the link is too slow or the peer is unreachable ("@ + detail + ")"@
    } else if f.connect {
        "could not connect to the peer ("@ + detail + ")"@
    } else {
        detail
    };
    (BAD_GATEWAY, "speed-test failed: "@ + reason)
}

/// The answer when a request of a speed test was not answered.
fn send_failed(f: &SendFailure) -> (r: Reply)
    ensures
        r@ == send_complaint(*f),
{
    let detail = join(&f.causes, ": ");
    let reason = if f.timeout {
        cat3("timed out — the link is too slow or the peer is unreachable (", detail.as_str(), ")")
    } else if f.connect {
        cat3("could not connect to the peer (", detail.as_str(), ")")
    } else {
        detail
    };
    reply_with(BAD_GATEWAY, cat2("speed-test failed: ", reason.as_str()))
}

/// An answer to a request: its status code and the status in words.
#[derive(Clone, Debug)]
pub struct HttpAnswer {
    pub status: u16,
    pub words: String,
}

/// What a speed test does next.
#[derive(Clone, Debug)]
pub enum SpeedStep {
    /// Ask for the fallback page.
    Fallback,
    /// Download the body.
    Download,
    /// Give up with this answer.
    Fail(Reply),
}

/// Whether a status code means success.
pub open spec fn is_success(status: u16) -> bool {
    200 <= status < 300
}

/// The answer to a status code that does not mean success.
pub open spec fn status_complaint(a: HttpAnswer) -> (u16, Seq<char>) {
    (BAD_GATEWAY, "speed-test returned "@ + a.words@)
}

/// Judges a status code.
fn judge_status(a: &HttpAnswer) -> (r: SpeedStep)
    ensures
        if is_success(a.status) {
            r is Download
        } else {
            r matches SpeedStep::Fail(e) && e@ == status_complaint(*a)
        },
{
    if a.status >= 200 && a.status < 300 {
        SpeedStep::Download
    } else {
        SpeedStep::Fail(reply_with(BAD_GATEWAY, cat2("speed-test returned ", a.words.as_str())))
    }
}

/// Goes on after the request for the payload. A peer that does not serve it is
/// asked for its index page instead.
pub fn after_payload(answer: &Result<HttpAnswer, SendFailure>) -> (r: SpeedStep)
    ensures
        match *answer {
            Err(f) => r matches SpeedStep::Fail(e) && e@ == send_complaint(f),
            Ok(a) => if a.status == 404 {
                r is Fallback
            } else if is_success(a.status) {
                r is Download
            } else {
                r matches SpeedStep::Fail(e) && e@ == status_complaint(a)
            },
        },
{
    match answer {
        Err(f) => SpeedStep::Fail(send_failed(f)),
        Ok(a) => if a.status == 404 {
            SpeedStep::Fallback
        } else {
            judge_status(a)
        },
    }
}

/// Goes on after the request for the index page.
pub fn after_fallback(answer: &Result<HttpAnswer, String>) -> (r: SpeedStep)
    ensures
        match *answer {
            Err(err) => r matches SpeedStep::Fail(e) && e@ == (BAD_GATEWAY, "speed-test fallback failed: "@ + err@),
            Ok(a) => if is_success(a.status) {
                r is Download
            } else {
                r matches SpeedStep::Fail(e) && e@ == status_complaint(a)
            },
        },
{
    match answer {
        Err(err) => SpeedStep::Fail(reply_with(BAD_GATEWAY, cat2("speed-test fallback failed: ", err.as_str()))),
        Ok(a) => judge_status(a),
    }
}

/// What came of reading on in a body.
#[derive(Clone, Debug)]
pub enum BodyEvent {
    /// This many bytes came.
    Chunk(usize),
    /// The body is over.
    End,
    /// Reading failed.
    Failed { timeout: bool, err: String },
}

/// How far a download is.
#[derive(Clone, Copy, Debug, PartialEq, Eq, Structural)]
pub struct Download {
    pub bytes_len: u64,
}

/// The answer when reading a body failed.
pub open spec fn body_complaint(timeout: bool, err: Seq<char>) -> (u16, Seq<char>) {
    if timeout {
        (BAD_GATEWAY, "speed-test timed out while downloading"@)
    } else {
        (BAD_GATEWAY, "failed to read speed-test body: "@ + err)
    }
}

impl Download {
    /// No more than the limit was downloaded.
    pub open spec fn wf(&self) -> bool {
        self.bytes_len <= MAX_DOWNLOAD
    }

    /// A download that has not begun.
    pub fn new() -> (d: Download)
        ensures
            d.wf(),
            d.bytes_len == 0,
    {
        Download { bytes_len: 0 }
    }

    /// Counts what came, and says whether to go on. What would exceed the limit is
    /// refused: a peer is paired, not trusted.
    pub fn read(&mut self, event: &BodyEvent) -> (r: Result<bool, Reply>)
        requires
            old(self).wf(),
        ensures
            match *event {
                BodyEvent::Chunk(n) => if old(self).bytes_len + n > MAX_DOWNLOAD {
                    r is Err && r->Err_0@ == (BAD_GATEWAY, "speed-test response exceeded the size limit"@)
                } else {
                    r == Ok::<bool, Reply>(true) && final(self).bytes_len == old(self).bytes_len + n
                },
                BodyEvent::End => r == Ok::<bool, Reply>(false) && *final(self) == *old(self),
                BodyEvent::Failed { timeout, err } => r is Err && r->Err_0@ == body_complaint(timeout, err@),
            },
            final(self).wf(),
    {
        match event {
            BodyEvent::Chunk(n) => {
                let n: u64 = *n as u64;
                if n > MAX_DOWNLOAD - self.bytes_len {
                    return Err(reply(BAD_GATEWAY, "speed-test response exceeded the size limit"));
                }
                self.bytes_len = self.bytes_len + n;
                Ok(true)
            },
            BodyEvent::End => Ok(false),
            BodyEvent::Failed { timeout, err } => {
                if *timeout {
                    Err(reply(BAD_GATEWAY, "speed-test timed out while downloading"))
                } else {
                    Err(reply_with(BAD_GATEWAY, cat2("failed to read speed-test body: ", err.as_str())))
                }
            },
        }
    }

    /// The result of a download that took the given time: bits per second, over at
    /// least one millisecond.
    pub fn finish(&self, elapsed_ms: u64) -> (r: VpnSpeedTestResponse)
        requires
            self.wf(),
        ensures
            r.ok,
            r.bytes == self.bytes_len,
            r.duration_ms == if elapsed_ms < 1 {
                1
            } else {
                elapsed_ms
            },
            r.bps == self.bytes_len * 8 * 1000 / (r.duration_ms as int),
    {
        let duration_ms: u64 = if elapsed_ms < 1 {
            1
        } else {
            elapsed_ms
        };
        VpnSpeedTestResponse {
            ok: true,
            bytes: self.bytes_len,
            duration_ms,
            bps: self.bytes_len * 8 * 1000 / duration_ms,
        }
    }
}

// ── What the measurements give ───────────────────────────────────────────────

/// The time of a ping is read from the first line of its output that holds `time=` or `time<`,
/// wherever that line stands, and there is none exactly where no line holds either or that line
/// tells no time after all.
pub proof fn law_latency_comes_from_the_first_timed_line(output: &str, r: Option<String>, i: int)
    requires
        call_ensures(read_latency, (output,), r),
    ensures
        ({
            let rows = text::lines_of(output@);
            &&& 0 <= i < rows.len()
            &&& text::occurs_in(rows[i], "time="@) || text::occurs_in(rows[i], "time<"@)
            &&& forall|j: int|
                0 <= j < i ==> !text::occurs_in(#[trigger] rows[j], "time="@) && !text::occurs_in(rows[j], "time<"@)
        }) ==> text::view_opt(r) == line_latency(text::lines_of(output@)[i]),
        (forall|j: int|
            0 <= j < text::lines_of(output@).len() ==> !text::occurs_in(#[trigger] text::lines_of(output@)[j], "time="@)
                && !text::occurs_in(text::lines_of(output@)[j], "time<"@)) ==> r is None,
{
    lemma_time_line(text::lines_of(output@), i);
}

/// The line that tells the time is the first that does, and there is none only where no line does.
pub proof fn lemma_time_line(rows: Seq<Seq<char>>, i: int)
    ensures
        0 <= i < rows.len() && tells_time(rows[i]) && (forall|j: int| 0 <= j < i ==> !tells_time(#[trigger] rows[j]))
            ==> time_line(rows) == Some(rows[i]),
        time_line(rows) is None <==> forall|j: int| 0 <= j < rows.len() ==> !tells_time(#[trigger] rows[j]),
    decreases rows.len(),
{
    if rows.len() > 0 && !tells_time(rows[0]) {
        let rest = rows.skip(1);
        lemma_time_line(rest, i - 1);
        assert forall|j: int| 0 <= j < rest.len() implies rest[j] == #[trigger] rows[j + 1] by {}
        if 0 < i < rows.len() && tells_time(rows[i]) && (forall|j: int| 0 <= j < i ==> !tells_time(#[trigger] rows[j])) {
            assert forall|j: int| 0 <= j < i - 1 implies !tells_time(#[trigger] rest[j]) by {
                assert(!tells_time(rows[j + 1]));
            }
        }
        if forall|j: int| 0 <= j < rest.len() ==> !tells_time(#[trigger] rest[j]) {
            assert forall|j: int| 0 <= j < rows.len() implies !tells_time(#[trigger] rows[j]) by {
                if j > 0 {
                    assert(!tells_time(rest[j - 1]));
                }
            }
        }
        if forall|j: int| 0 <= j < rows.len() ==> !tells_time(#[trigger] rows[j]) {
            assert forall|j: int| 0 <= j < rest.len() implies !tells_time(#[trigger] rest[j]) by {
                assert(!tells_time(rows[j + 1]));
            }
        }
    }
}

/// What a line writes between `time=` and ` ms` is its time, whatever stands before and after.
pub proof fn law_time_is_what_stands_before_the_unit(line: Seq<char>, head: Seq<char>, value: Seq<char>, rest: Seq<char>)
    requires
        line == head + "time="@ + value + " ms"@ + rest,
        forall|k: int| 0 <= k < head.len() ==> !#[trigger] text::occurs_at(line, "time="@, k),
        forall|k: int| 0 <= k < value.len() ==> !#[trigger] text::occurs_at(value + " ms"@ + rest, " ms"@, k),
        text::trimmed(value).len() > 0,
    ensures
        line_latency(line) == Some(text::trimmed(value) + " ms"@),
{
    reveal_strlit("time=");
    reveal_strlit(" ms");
    let tail = value + " ms"@ + rest;
    assert(line =~= head + "time="@ + tail);
    assert(line.subrange(head.len() as int, head.len() as int + 5) =~= "time="@);
    text::lemma_first_place(line, "time="@, 0);
    assert(text::occurs_at(line, "time="@, head.len() as int));
    assert(line.skip(head.len() as int + 5) =~= tail);
    assert(tail.subrange(value.len() as int, value.len() as int + 3) =~= " ms"@);
    text::lemma_first_place(tail, " ms"@, 0);
    assert(text::occurs_at(tail, " ms"@, value.len() as int));
    assert(tail.take(value.len() as int) =~= value);
}

/// A time that is only known to be below a bound is told with its sign: what a line writes between
/// `time` and ` ms` where no `time=` stands in it.
#[verifier::rlimit(40)]
pub proof fn law_time_below_a_bound_keeps_its_sign(line: Seq<char>, head: Seq<char>, value: Seq<char>, rest: Seq<char>)
    requires
        line == head + "time<"@ + value + " ms"@ + rest,
        !text::occurs_in(line, "time="@),
        forall|k: int| 0 <= k < head.len() ==> !#[trigger] text::occurs_at(line, "time"@, k),
        forall|k: int| 0 <= k <= value.len() ==> !#[trigger] text::occurs_at(seq!['<'] + value + " ms"@ + rest, " ms"@, k),
    ensures
        line_latency(line) == Some(text::trimmed(seq!['<'] + value) + " ms"@),
{
    reveal_strlit("time=");
    reveal_strlit("time<");
    reveal_strlit("time");
    reveal_strlit(" ms");
    let sign = seq!['<'];
    let shown = sign + value;
    let tail = shown + " ms"@ + rest;
    assert(line =~= head + "time"@ + tail);
    text::lemma_first_place(line, "time="@, 0);
    assert(line.subrange(head.len() as int, head.len() as int + 4) =~= "time"@);
    text::lemma_first_place(line, "time"@, 0);
    assert(text::occurs_at(line, "time"@, head.len() as int));
    assert(line.skip(head.len() as int + 4) =~= tail);
    assert(tail.subrange(shown.len() as int, shown.len() as int + 3) =~= " ms"@);
    assert(tail =~= sign + value + " ms"@ + rest);
    text::lemma_first_place(tail, " ms"@, 0);
    assert(text::occurs_at(tail, " ms"@, shown.len() as int));
    assert(tail.take(shown.len() as int) =~= shown);
    text::lemma_trimmed(shown);
    if text::trimmed(shown).len() == 0 {
        let (i, j) = choose|i: int, j: int|
            {
                &&& 0 <= i <= j <= shown.len()
                &&& text::trimmed(shown) == #[trigger] shown.subrange(i, j)
                &&& forall|k: int| 0 <= k < i || j <= k < shown.len() ==> text::is_white(#[trigger] shown[k])
            };
        assert(shown[0] == '<');
        assert(text::is_white(shown[0]));
    }
}

/// A ping answers for exactly the run that succeeded, tells a time only then, and is refused only
/// where the program could not be run. The time is that of the program's output.
pub proof fn law_ping_tells_what_the_program_did(
    address: &[u8; 4],
    success: bool,
    stdout: Vec<u8>,
    r: Result<VpnPingResponse, Reply>,
    latency: Option<String>,
    printed: &[u8],
)
    requires
        call_ensures(ping_outcome, (address, Some(Ok::<(bool, Vec<u8>), String>((success, stdout)))), r),
        printed@ == stdout@,
        call_ensures(parse_ping_latency, (printed,), latency),
    ensures
        r is Ok && r->Ok_0.ok == success,
        success ==> text::view_opt(r->Ok_0.latency) == text::view_opt(latency),
        !success ==> r->Ok_0.latency is None,
{
}

/// The output of the program is read as text, and its time as that of the text.
pub proof fn law_ping_output_is_text(stdout: &[u8], r: Option<String>, output: &str, read: Option<String>)
    requires
        output@ == text::utf8_lossy(stdout@),
        call_ensures(parse_ping_latency, (stdout,), r),
        call_ensures(read_latency, (output,), read),
    ensures
        text::view_opt(r) == text::view_opt(read),
{
}

/// One ping is sent, to the address itself and to nothing else.
pub proof fn law_ping_goes_to_its_address(address: &[u8; 4], words: Vec<String>, text: String)
    requires
        call_ensures(ping_arguments, (address,), words),
        call_ensures(write_address, (address,), text),
    ensures
        words@.len() == 6,
        words@[5]@ == text@,
        words@[0]@ == "-n"@ && words@[1]@ == "-c"@ && words@[2]@ == "1"@ && words@[3]@ == "-W"@ && words@[4]@ == "3"@,
{
    let wv = text::views(words@);
    assert(wv.len() == words@.len());
    assert(wv[0] == words@[0]@ && wv[1] == words@[1]@ && wv[2] == words@[2]@);
    assert(wv[3] == words@[3]@ && wv[4] == words@[4]@ && wv[5] == words@[5]@);
}

/// A payload is as large as was asked for where that is between 1 KiB and 256 KiB, else the nearer
/// of the two, and 32 KiB where nothing was asked.
pub proof fn law_payload_size_is_limited(asked: Option<usize>, r: usize)
    requires
        call_ensures(payload_len, (asked,), r),
    ensures
        1024 <= r <= 256 * 1024,
        asked is None ==> r == 32 * 1024,
        asked matches Some(n) ==> 1024 <= n <= 256 * 1024 ==> r == n,
        asked matches Some(n) ==> n < 1024 ==> r == 1024,
        asked matches Some(n) ==> n > 256 * 1024 ==> r == 256 * 1024,
{
}

/// A payload has the size that was settled on. It starts with zero, and each byte is 31 more than
/// the one before it, modulo 251, so that no two neighbours are alike.
pub proof fn law_payload_bytes_step_on(query: &SpeedPayloadQuery, body: Vec<u8>, size: usize, i: int)
    requires
        call_ensures(get_speed_payload, (query,), body),
        call_ensures(payload_len, (query.bytes,), size),
    ensures
        body@.len() == size,
        body@[0] == 0,
        0 <= i < body@.len() - 1 ==> body@[i + 1] == (body@[i] + 31) % 251 && body@[i + 1] != body@[i],
{
}

/// A speed test is run exactly with the peers of the tunnel, and asks the peer itself for a payload
/// of the size that the peer would settle on.
pub proof fn law_speed_test_asks_a_peer_of_the_tunnel(
    request: &VpnSpeedTestRequest,
    address: [u8; 4],
    vpn_present: bool,
    tunnel_ips: &[Option<String>],
    r: Result<SpeedPlan, Reply>,
    size: usize,
)
    requires
        call_ensures(plan_speed_test, (request, Ok::<[u8; 4], String>(address), vpn_present, tunnel_ips), r),
        call_ensures(payload_len, (request.bytes,), size),
    ensures
        r is Ok <==> vpn_present && exists|i: int|
            0 <= i < tunnel_ips@.len() && text::view_opt(#[trigger] tunnel_ips@[i]) == Some(route::address_text(address@)),
        r matches Ok(plan) ==> {
            &&& plan.peer_ip@ == route::address_text(address@)
            &&& plan.url@ == "https://"@ + plan.peer_ip@ + "/api/speed-payload?bytes="@ + digits::decimal(size as nat)
            &&& plan.fallback_url@ == "https://"@ + plan.peer_ip@ + "/"@
        },
        r matches Err(e) ==> e@.0 == if vpn_present {
            404u16
        } else {
            503u16
        },
{
    let ip = route::address_text(address@);
    assert(known_ips(tunnel_ips@).contains(ip) == exists|i: int|
        0 <= i < tunnel_ips@.len() && text::view_opt(#[trigger] tunnel_ips@[i]) == Some(ip));
}

/// What is downloaded adds up: every piece that is let through is counted in full, and no more than
/// 8 MiB are let through.
pub proof fn law_download_adds_up(d: &mut Download, n: usize, r: Result<bool, Reply>)
    requires
        old(d).wf(),
        call_ensures(Download::read, (d, &BodyEvent::Chunk(n)), r),
    ensures
        r is Ok <==> old(d).bytes_len + n <= 8 * 1024 * 1024,
        r is Ok ==> r->Ok_0 && final(d).bytes_len == old(d).bytes_len + n,
{
}

/// The end of the body ends the download with what was counted, and a failure ends it with an error.
pub proof fn law_download_ends(d: &mut Download, event: &BodyEvent, r: Result<bool, Reply>)
    requires
        old(d).wf(),
        !(*event is Chunk),
        call_ensures(Download::read, (d, event), r),
    ensures
        r is Ok <==> *event is End,
        r is Ok ==> !r->Ok_0 && final(d).bytes_len == old(d).bytes_len,
{
}

/// The rate of a download, over its time in seconds, makes up its bits: the rate is the largest
/// whole number of bits per second that does not exceed them. The time is at least a millisecond.
pub proof fn law_rate_times_time_is_size(d: &Download, elapsed_ms: u64, r: VpnSpeedTestResponse)
    requires
        d.wf(),
        call_ensures(Download::finish, (d, elapsed_ms), r),
    ensures
        r.ok,
        r.bytes == d.bytes_len,
        r.duration_ms >= 1,
        elapsed_ms >= 1 ==> r.duration_ms == elapsed_ms,
        elapsed_ms == 0 ==> r.duration_ms == 1,
        r.bps * r.duration_ms <= 8000 * d.bytes_len,
        8000 * d.bytes_len < (r.bps + 1) * r.duration_ms,
{
    let a = d.bytes_len * 8 * 1000;
    let b = r.duration_ms as int;
    vstd::arithmetic::div_mod::lemma_fundamental_div_mod(a, b);
    let q = a / b;
    assert(b * q == q * b && (q + 1) * b == q * b + b) by (nonlinear_arith);
}

/// A download begins exactly after an answer with a status of the two hundreds; only a payload that
/// is not found is looked for elsewhere.
pub proof fn law_only_success_is_downloaded(
    answer: &Result<HttpAnswer, SendFailure>,
    r: SpeedStep,
    again: &Result<HttpAnswer, String>,
    s: SpeedStep,
)
    requires
        call_ensures(after_payload, (answer,), r),
        call_ensures(after_fallback, (again,), s),
    ensures
        r is Download <==> *answer is Ok && 200 <= answer->Ok_0.status <= 299,
        r is Fallback <==> *answer is Ok && answer->Ok_0.status == 404,
        s is Download <==> *again is Ok && 200 <= again->Ok_0.status <= 299,
        !(s is Fallback),
        r matches SpeedStep::Fail(e) ==> e@.0 == 502,
        s matches SpeedStep::Fail(e) ==> e@.0 == 502,
{
}

/// An address that was read is taken, and one that was not is refused with what was said of it.
pub proof fn law_addresses_are_taken_as_read(text: &str, parsed: Result<[u8; 4], String>, r: Result<[u8; 4], Reply>)
    requires
        call_ensures(check_address, (text, parsed), r),
    ensures
        r is Ok <==> parsed is Ok,
        r is Ok ==> r->Ok_0 == parsed->Ok_0,
        r matches Err(e) ==> e@.0 == 400,
{
}

/// Where there is no program to run every ping is answered in a millisecond, and one that could not be run
/// is a fault.
pub proof fn law_ping_without_its_program(
    address: &[u8; 4],
    simulated: Result<VpnPingResponse, Reply>,
    err: String,
    failed: Result<VpnPingResponse, Reply>,
    name: String,
)
    requires
        call_ensures(ping_outcome, (address, None::<Result<(bool, Vec<u8>), String>>), simulated),
        call_ensures(ping_outcome, (address, Some(Err::<(bool, Vec<u8>), String>(err))), failed),
        call_ensures(write_address, (address,), name),
    ensures
        simulated is Ok && simulated->Ok_0.ok,
        simulated->Ok_0.latency is Some && simulated->Ok_0.latency->0@ == "1.0 ms"@,
        failed is Err && failed->Err_0@ == (502u16, "failed to execute ping "@ + name@ + ": "@ + err@),
{
}

/// A peer has a minute and a half to answer, and twice as long to be done.
pub proof fn law_speed_tests_have_an_end()
    ensures
        SPEED_CONNECT_SECS == 90,
        SPEED_TOTAL_SECS == 2 * SPEED_CONNECT_SECS,
{
}

} // verus!
