//! The surface that plugins on the device talk to.
//!
//! It answers on loopback only, and only to callers that hold a token from a file
//! that processes on the device can read. What a plugin learns about other nodes
//! is kept under a name that no plugin can address.

use vstd::prelude::*;

use crate::digits;
use crate::digits::{dec_usize, is_hex, parse_unsigned};
use crate::net::IpAddress;
use crate::order;
use crate::reply::{
    reply, reply_with, Reply, BAD_REQUEST, FORBIDDEN, INTERNAL_SERVER_ERROR, NOT_FOUND, OK, PAYLOAD_TOO_LARGE,
    SERVICE_UNAVAILABLE, UNAUTHORIZED,
};
use crate::text;
use crate::text::{cat2, cat3, from_range, starts_with, to_chars, trim, utf8_len};

verus! {

/// The version that is served.
pub const API_VERSION: u32 = 1;

/// The port that is listened on unless told otherwise.
pub const DEFAULT_PORT: u16 = 8781;

/// The number of characters of a token.
pub const TOKEN_LEN: usize = 48;

/// The largest value that is kept for a key, in bytes.
pub const MAX_VALUE_BYTES: usize = 65_536;

/// The name under which the services of other nodes are kept.
pub open spec fn peer_directory() -> Seq<char> {
    "@peers"@
}

/// The name under which the services of other nodes are kept.
pub fn peer_service_plugin() -> (r: String)
    ensures
        r@ == peer_directory(),
{
    "@peers".to_owned()
}

/// The port to listen on: the one asked for, where it is one.
pub fn listen_port(setting: Option<String>) -> (r: u16)
    ensures
        r == match setting {
            Some(s) => match digits::unsigned_value(s@, u16::MAX as nat) {
                Some(n) => n,
                None => 8781,
            },
            None => 8781,
        },
{
    match setting {
        Some(s) => match parse_unsigned(s.as_str(), u16::MAX as u64) {
            Some(n) => n as u16,
            None => DEFAULT_PORT,
        },
        None => DEFAULT_PORT,
    }
}

// ── The token ────────────────────────────────────────────────────────────────

/// The token as it was found when it was first asked for. It is read once: a token
/// that changed while plugins run would lock them out.
#[derive(Clone, Debug)]
pub struct TokenCache {
    pub token: Option<Option<String>>,
}

impl TokenCache {
    /// A token that nobody has asked for.
    pub fn new() -> (c: TokenCache)
        ensures
            c.token is None,
    {
        TokenCache { token: None }
    }
}

/// The token: the one that is kept, or else the one that was found now, which is
/// then kept. Without a token every request is refused.
pub fn ensure_token(cache: &mut TokenCache, found: Option<String>) -> (r: Option<String>)
    ensures
        r == match old(cache).token {
            Some(kept) => kept,
            None => found,
        },
        final(cache).token == Some(r),
{
    match &cache.token {
        Some(kept) => match kept {
            Some(t) => Some(t.clone()),
            None => None,
        },
        None => {
            let copy = match &found {
                Some(t) => Some(t.clone()),
                None => None,
            };
            cache.token = Some(found);
            copy
        },
    }
}

/// The token that a file holds: its text without blanks around it, unless it is too
/// short to be one.
pub open spec fn token_in(contents: Option<Seq<char>>) -> Option<Seq<char>> {
    match contents {
        Some(s) => if text::byte_len(text::trimmed(s)) >= TOKEN_LEN {
            Some(text::trimmed(s))
        } else {
            None
        },
        None => None,
    }
}

/// The token that a file holds.
pub fn existing_token(contents: Option<String>) -> (r: Option<String>)
    ensures
        text::view_opt(r) == token_in(text::view_opt(contents)),
{
    match contents {
        Some(s) => {
            let token = trim(s.as_str());
            if utf8_len(token.as_str()) >= TOKEN_LEN {
                Some(token)
            } else {
                None
            }
        },
        None => None,
    }
}

/// Whether a file with this mode can be read, written or run by others.
pub fn is_exposed(mode: u32) -> (r: bool)
    ensures
        r == (mode % 64 != 0),
{
    let low: u32 = (mode & 0o777) & 0o077;
    assert((mode & 0o777) & 0o077 == mode % 64) by (bit_vector);
    low != 0
}

/// The mode of the token's file: its owner alone reads and writes it.
pub const TOKEN_MODE: u32 = 0o600;

/// The mode of the token's file in the end, given the one that it was found with or that
/// it has when it is written. A file that is written ends with the token's mode; one that is
/// kept does where others could use it.
pub open spec fn settled_mode(mode: u32, written: bool) -> u32 {
    let permissions = (mode % 512) as u32;
    if permissions % 64 != 0 || written {
        TOKEN_MODE
    } else {
        permissions
    }
}

/// The mode to restore for the token's file, where it has another one than it is to end
/// with. What it has besides its permissions does not count.
pub fn mode_to_restore(mode: u32, written: bool) -> (r: Option<u32>)
    ensures
        r == if settled_mode(mode, written) == mode % 512 {
            None::<u32>
        } else {
            Some(settled_mode(mode, written))
        },
{
    if is_exposed(mode) || written && mode % 512 != TOKEN_MODE {
        return Some(TOKEN_MODE);
    }
    None
}

/// Nobody but its owner can use the token's file in the end, and a file that is written
/// ends with mode 0600.
pub proof fn law_token_file_is_private(mode: u32, written: bool)
    ensures
        settled_mode(mode, written) % 64 == 0,
        written ==> settled_mode(mode, written) == 0o600,
{
}

/// `Rng::gen_range` of the thread's generator: a number below `n`, whatever it is.
#[verifier::external_body]
fn random_below(n: usize) -> (r: usize)
    requires
        n > 0,
    ensures
        r < n,
{
    rand::Rng::gen_range(&mut rand::thread_rng(), 0..n)
}

/// The character with a number in the alphabet of tokens: the letters, then the digits.
pub open spec fn token_char(i: int) -> char {
    if i < 26 {
        (97 + i) as char
    } else {
        (48 + (i - 26)) as char
    }
}

/// The token that numbers below 36 make.
pub open spec fn token_of(numbers: Seq<usize>) -> Seq<char> {
    numbers.map_values(|n: usize| token_char(n as int))
}

/// The token that numbers below 36 make.
pub fn token_from(numbers: &[usize]) -> (r: String)
    requires
        forall|i: int| 0 <= i < numbers@.len() ==> #[trigger] numbers@[i] < 36,
    ensures
        r@ == token_of(numbers@),
{
    let mut out = String::new();
    let mut i: usize = 0;
    while i < numbers.len()
        invariant
            i <= numbers@.len(),
            forall|i: int| 0 <= i < numbers@.len() ==> #[trigger] numbers@[i] < 36,
            out@ == token_of(numbers@.take(i as int)),
        decreases numbers@.len() - i,
    {
        let n: u8 = numbers[i] as u8;
        let c: char = if n < 26 {
            (97 + n) as char
        } else {
            (48 + (n - 26)) as char
        };
        out.push(c);
        i += 1;
        proof {
            assert(out@ =~= token_of(numbers@.take(i as int)));
        }
    }
    proof {
        assert(numbers@.take(i as int) =~= numbers@);
    }
    out
}

/// Whether a text is a token as they are made here: 48 letters and digits.
pub open spec fn is_fresh_token(s: Seq<char>) -> bool {
    &&& s.len() == 48
    &&& forall|i: int| 0 <= i < s.len() ==> 'a' <= #[trigger] s[i] <= 'z' || '0' <= s[i] <= '9'
}

/// A new token.
pub fn generate_token() -> (r: String)
    ensures
        is_fresh_token(r@),
        text::byte_len(r@) == TOKEN_LEN,
{
    let mut numbers: Vec<usize> = Vec::new();
    let mut i: usize = 0;
    while i < TOKEN_LEN
        invariant
            i <= TOKEN_LEN,
            numbers@.len() == i,
            forall|k: int| 0 <= k < i ==> #[trigger] numbers@[k] < 36,
        decreases TOKEN_LEN - i,
    {
        numbers.push(random_below(36));
        i += 1;
    }
    let token = token_from(&numbers);
    proof {
        assert forall|k: int| 0 <= k < token@.len() implies ('a' <= #[trigger] token@[k] <= 'z' || '0' <= token@[k] <= '9')
            && (token@[k] as u32) < 128 by {
            assert(numbers@[k] < 36);
            assert(token@[k] == token_char(numbers@[k] as int));
        }
        text::lemma_ascii_byte_len(token@);
    }
    token
}

/// What to do about the token's file.
#[derive(Clone, Debug)]
pub enum TokenPlan {
    /// It holds a token.
    Keep(String),
    /// This new token has to be written to it.
    Create {
        token: String,
        /// Whether the file held a text that is too short.
        replaces: bool,
    },
}

/// Decides about the token, given what its file holds. A short text is a write that was
/// cut off, not a token. Either way `mode_to_restore` settles the file's mode.
pub fn load_or_create_token(contents: Option<String>) -> (r: TokenPlan)
    ensures
        match token_in(text::view_opt(contents)) {
            Some(kept) => r matches TokenPlan::Keep(token) && token@ == kept,
            None => r matches TokenPlan::Create { token, replaces } && is_fresh_token(token@) && replaces == (
            contents is Some && text::trimmed(contents->0@).len() > 0),
        },
{
    let replaces = match &contents {
        Some(s) => !text::is_empty(trim(s.as_str()).as_str()),
        None => false,
    };
    match existing_token(contents) {
        Some(token) => TokenPlan::Keep(token),
        None => TokenPlan::Create { token: generate_token(), replaces },
    }
}

/// The token after it was written; there is none where it could not be.
pub fn token_written(token: String, written: bool) -> (r: Option<String>)
    ensures
        r == if written {
            Some(token)
        } else {
            None
        },
{
    if written {
        Some(token)
    } else {
        None
    }
}

/// A token that was made here is found again when its file is read.
pub proof fn law_fresh_token_is_kept(s: Seq<char>)
    requires
        is_fresh_token(s),
    ensures
        token_in(Some(s)) == Some(s),
{
    assert forall|i: int| 0 <= i < s.len() implies (#[trigger] s[i] as u32) < 128 by {}
    text::lemma_ascii_byte_len(s);
    assert(!text::is_white(s[0]));
    assert(!text::is_white(s[47]));
    assert(text::trimmed(s) == s);
}

// ── Who may ask ──────────────────────────────────────────────────────────────

/// The token that a request offers: what follows `Bearer ` in its header.
pub open spec fn offered_token(header: Option<Seq<char>>) -> Seq<char> {
    match header {
        Some(h) => if text::begins_with(h, "Bearer "@) {
            text::trimmed(h.skip(7))
        } else {
            Seq::empty()
        },
        None => Seq::empty(),
    }
}

/// Why a request is refused, if so.
pub open spec fn authorize_refusal(peer: IpAddress, expected: Option<Seq<char>>, header: Option<Seq<char>>) -> Option<
    (u16, Seq<char>),
> {
    if !peer.spec_is_loopback() {
        Some((FORBIDDEN, "the plugin API answers on loopback only"@))
    } else if expected is None {
        Some((SERVICE_UNAVAILABLE, "plugin API token is unavailable"@))
    } else if offered_token(header) != expected->0 {
        Some((UNAUTHORIZED, "invalid plugin token"@))
    } else {
        None
    }
}

/// Whether the text that was offered is the one that is expected. It takes as many
/// steps as the expected text has bytes, whatever was offered: neither a difference nor
/// another length ends it early.
fn same_without_exit(offered: &str, expected: &str) -> (r: bool)
    ensures
        r == (offered@ == expected@),
{
    let ob = offered.as_bytes();
    let eb = expected.as_bytes();
    proof {
        vstd::utf8::encode_utf8_decode_utf8(offered@);
        vstd::utf8::encode_utf8_decode_utf8(expected@);
    }
    let n: usize = ob.len();
    let m: usize = eb.len();
    let mut acc: usize = n ^ m;
    assert((n ^ m) == 0 <==> n == m) by (bit_vector);
    let mut i: usize = 0;
    while i < m
        invariant
            n == ob@.len(),
            m == eb@.len(),
            i <= m,
            acc == 0 <==> n == m && forall|k: int| 0 <= k < i ==> #[trigger] ob@[k] == eb@[k],
        decreases m - i,
    {
        let x: usize = if i < n {
            ob[i] as usize
        } else {
            0
        };
        let y: usize = eb[i] as usize;
        let before: usize = acc;
        acc = before | (x ^ y);
        assert((before | (x ^ y)) == 0 <==> before == 0 && x == y) by (bit_vector);
        i += 1;
    }
    proof {
        if acc == 0 {
            assert(ob@ =~= eb@);
        }
    }
    acc == 0
}

/// Lets a request in that comes from loopback and offers the token. Both are
/// needed: loopback alone would admit what is forwarded onto the device, and the
/// token alone could be replayed from the mesh.
pub fn authorize(peer: &IpAddress, expected: Option<String>, header: Option<String>) -> (r: Result<(), Reply>)
    ensures
        match r {
            Ok(()) => authorize_refusal(*peer, text::view_opt(expected), text::view_opt(header)) is None,
            Err(e) => authorize_refusal(*peer, text::view_opt(expected), text::view_opt(header)) == Some(e@),
        },
{
    if !peer.is_loopback() {
        return Err(reply(FORBIDDEN, "the plugin API answers on loopback only"));
    }
    let expected = match expected {
        Some(t) => t,
        None => {
            return Err(reply(SERVICE_UNAVAILABLE, "plugin API token is unavailable"));
        },
    };
    let offered = match &header {
        Some(h) => {
            if starts_with(h.as_str(), "Bearer ") {
                let chars = to_chars(h.as_str());
                proof {
                    reveal_strlit("Bearer ");
                    assert(chars@.subrange(7, chars@.len() as int) =~= h@.skip(7));
                }
                trim(from_range(&chars, 7, chars.len()).as_str())
            } else {
                String::new()
            }
        },
        None => String::new(),
    };
    if !same_without_exit(offered.as_str(), expected.as_str()) {
        return Err(reply(UNAUTHORIZED, "invalid plugin token"));
    }
    Ok(())
}

/// Nobody off the device gets in, whatever token they offer.
pub proof fn law_only_loopback_gets_in(peer: IpAddress, expected: Option<Seq<char>>, header: Option<Seq<char>>)
    requires
        authorize_refusal(peer, expected, header) is None,
    ensures
        peer.spec_is_loopback(),
        expected is Some,
        offered_token(header) == expected->0,
{
}

/// The right token gets in from loopback.
pub proof fn law_right_token_gets_in(peer: IpAddress, token: Seq<char>)
    requires
        peer.spec_is_loopback(),
        is_fresh_token(token),
    ensures
        authorize_refusal(peer, Some(token), Some("Bearer "@ + token)) is None,
{
    reveal_strlit("Bearer ");
    let header = "Bearer "@ + token;
    assert(header.subrange(0, 7) =~= "Bearer "@);
    assert(header.skip(7) =~= token);
    assert(!text::is_white(token[0]));
    assert(!text::is_white(token[47]));
    assert(text::trimmed(token) == token);
}

// ── Names ────────────────────────────────────────────────────────────────────

/// Whether a character may stand in the name of a plugin or a key.
pub open spec fn is_name_char(c: char) -> bool {
    'a' <= c <= 'z' || 'A' <= c <= 'Z' || '0' <= c <= '9' || c == '-' || c == '_' || c == '.'
}

/// Whether a text may name a plugin, a key or a service: 1 to 64 characters.
pub open spec fn is_valid_name(s: Seq<char>) -> bool {
    &&& 0 < s.len() <= 64
    &&& forall|i: int| 0 <= i < s.len() ==> is_name_char(#[trigger] s[i])
}

/// Whether a text may name a plugin, a key or a service.
pub fn valid_name(name: &str) -> (r: bool)
    ensures
        r == is_valid_name(name@),
{
    let chars = to_chars(name);
    if chars.len() == 0 || chars.len() > 64 {
        return false;
    }
    let mut i: usize = 0;
    while i < chars.len()
        invariant
            chars@ == name@,
            0 < chars@.len() <= 64,
            i <= chars@.len(),
            forall|k: int| 0 <= k < i ==> is_name_char(#[trigger] name@[k]),
        decreases chars@.len() - i,
    {
        let c = chars[i];
        let good = ('a' <= c && c <= 'z') || ('A' <= c && c <= 'Z') || ('0' <= c && c <= '9') || c == '-' || c == '_'
            || c == '.';
        if !good {
            proof {
                assert(!is_name_char(name@[i as int]));
            }
            return false;
        }
        i += 1;
    }
    true
}

/// A name stays inside one segment of a path, and takes one byte a character.
pub proof fn law_names_stay_in_one_segment(s: Seq<char>)
    requires
        is_valid_name(s),
    ensures
        !s.contains('/'),
        !s.contains('@'),
        text::byte_len(s) == s.len(),
{
    assert forall|i: int| 0 <= i < s.len() implies (#[trigger] s[i] as u32) < 128 by {
        assert(is_name_char(s[i]));
    }
    text::lemma_ascii_byte_len(s);
    assert forall|i: int| 0 <= i < s.len() implies s[i] != '/' && s[i] != '@' by {
        assert(is_name_char(s[i]));
    }
}

/// No plugin can address the directory of other nodes' services.
pub proof fn law_peer_directory_is_unreachable()
    ensures
        !is_valid_name(peer_directory()),
{
    reveal_strlit("@peers");
    assert(!is_name_char(peer_directory()[0]));
}

// ── Identity and contacts ────────────────────────────────────────────────────

/// Who this node is.
#[derive(Clone, Debug)]
pub struct IdentityResponse {
    pub api_version: u32,
    pub codename: String,
    pub serial: String,
    pub gateway_version: String,
    pub identity_hash: String,
    pub destination_hash: String,
    pub vpn_hash: String,
    /// Whether contacts are known at all.
    pub remote_enabled: bool,
}

/// The node as it knows itself on the mesh.
#[derive(Clone, Debug)]
pub struct LocalNode {
    pub codename: String,
    pub identity_hash: String,
    pub destination_hash: String,
}

/// Who this node is: under the name that is kept, or else the one it has on the mesh.
pub fn get_identity(
    local: Option<LocalNode>,
    kept_codename: Option<String>,
    serial: String,
    gateway_version: String,
    vpn_hash: String,
) -> (r: IdentityResponse)
    ensures
        r.api_version == 1,
        r.serial == serial,
        r.gateway_version == gateway_version,
        r.vpn_hash == vpn_hash,
        r.remote_enabled == local is Some,
        r.codename@ == match (kept_codename, local) {
            (Some(name), _) => name@,
            (None, Some(l)) => l.codename@,
            (None, None) => Seq::<char>::empty(),
        },
        match local {
            Some(l) => r.identity_hash@ == l.identity_hash@ && r.destination_hash@ == l.destination_hash@,
            None => r.identity_hash@.len() == 0 && r.destination_hash@.len() == 0,
        },
{
    let remote_enabled = local.is_some();
    let local = match local {
        Some(l) => l,
        None => LocalNode { codename: String::new(), identity_hash: String::new(), destination_hash: String::new() },
    };
    IdentityResponse {
        api_version: API_VERSION,
        codename: match kept_codename {
            Some(name) => name,
            None => local.codename,
        },
        serial,
        gateway_version,
        identity_hash: local.identity_hash,
        destination_hash: local.destination_hash,
        vpn_hash,
        remote_enabled,
    }
}

/// A service and the address it is reached at.
#[derive(Clone, Debug)]
pub struct ServiceEntry {
    pub service: String,
    pub destination: String,
}

impl View for ServiceEntry {
    type V = (Seq<char>, Seq<char>);

    open spec fn view(&self) -> (Seq<char>, Seq<char>) {
        (self.service@, self.destination@)
    }
}

/// The services of a list.
pub open spec fn service_views(v: Seq<ServiceEntry>) -> Seq<(Seq<char>, Seq<char>)> {
    v.map_values(|s: ServiceEntry| s@)
}

/// What `serde_json::from_str` makes of a text that holds an object of strings: its
/// entries by name.
pub uninterp spec fn json_strings(text: Seq<char>) -> Option<Seq<(Seq<char>, Seq<char>)>>;

/// A list of services, over what it holds.
pub open spec fn view_services(r: Option<Vec<ServiceEntry>>) -> Option<Seq<(Seq<char>, Seq<char>)>> {
    match r {
        Some(v) => Some(service_views(v@)),
        None => None,
    }
}

/// `serde_json::from_str` into a map from strings to strings: nothing where the text
/// is no such object. The entries come out ordered by name, each name once, and
/// depend on the text alone.
#[verifier::external_body]
fn parse_json_strings(text: &str) -> (r: Option<Vec<ServiceEntry>>)
    ensures
        view_services(r) == json_strings(text@),
        r matches Some(v) ==> order::ascending(service_views(v@).map_values(|p: (Seq<char>, Seq<char>)| p.0)),
{
    let parsed: std::collections::BTreeMap<String, String> = serde_json::from_str(text).ok()?;
    Some(parsed.into_iter().map(|(service, destination)| ServiceEntry { service, destination }).collect())
}

/// The services that another node has told of, as they are kept; none where nothing
/// is kept or it cannot be read.
pub fn peer_services(raw: Option<String>) -> (r: Vec<ServiceEntry>)
    ensures
        service_views(r@) == match raw {
            Some(s) => match json_strings(s@) {
                Some(v) => v,
                None => Seq::empty(),
            },
            None => Seq::empty(),
        },
{
    match raw {
        Some(s) => kept_services(parse_json_strings(s.as_str())),
        None => kept_services(None),
    }
}

/// The services that were read, or none.
pub fn kept_services(read: Option<Vec<ServiceEntry>>) -> (r: Vec<ServiceEntry>)
    ensures
        service_views(r@) == match view_services(read) {
            Some(v) => v,
            None => Seq::empty(),
        },
{
    match read {
        Some(v) => v,
        None => {
            let none: Vec<ServiceEntry> = Vec::new();
            proof {
                assert(service_views(none@) =~= Seq::<(Seq<char>, Seq<char>)>::empty());
            }
            none
        },
    }
}

/// A node as the gateway knows it, with the services that are kept for it.
#[derive(Clone, Debug)]
pub struct KnownNode {
    pub identity_hash: String,
    pub destination_hash: String,
    pub codename: String,
    pub tag: String,
    pub paired: bool,
    pub online: bool,
    pub hops: Option<u8>,
    pub rssi: Option<i8>,
    pub last_seen_ts: u64,
    pub vpn_tunnel_ip: String,
    pub kept_services: Option<String>,
}

/// A node that the operator has paired with, as plugins see it.
#[derive(Clone, Debug)]
pub struct ContactDto {
    pub identity_hash: String,
    pub destination_hash: String,
    pub codename: String,
    pub tag: String,
    pub paired: bool,
    pub online: bool,
    pub hops: Option<u8>,
    pub rssi: Option<i8>,
    pub last_seen_ts: u64,
    pub vpn_tunnel_ip: String,
    pub services: Vec<ServiceEntry>,
}

#[derive(Clone, Debug)]
pub struct ContactsResponse {
    pub contacts: Vec<ContactDto>,
}

/// Whether a contact shows a node.
pub open spec fn shows_node(c: ContactDto, n: KnownNode) -> bool {
    &&& c.identity_hash@ == n.identity_hash@
    &&& c.destination_hash@ == n.destination_hash@
    &&& c.codename@ == n.codename@
    &&& c.tag@ == n.tag@
    &&& c.paired == n.paired
    &&& c.online == n.online
    &&& c.hops == n.hops
    &&& c.rssi == n.rssi
    &&& c.last_seen_ts == n.last_seen_ts
    &&& c.vpn_tunnel_ip@ == n.vpn_tunnel_ip@
    &&& service_views(c.services@) == match n.kept_services {
        Some(s) => match json_strings(s@) {
            Some(v) => v,
            None => Seq::empty(),
        },
        None => Seq::empty(),
    }
}

/// The nodes of a list that were paired, in order.
pub open spec fn paired_nodes(nodes: Seq<KnownNode>) -> Seq<KnownNode>
    decreases nodes.len(),
{
    if nodes.len() == 0 {
        Seq::empty()
    } else {
        let before = paired_nodes(nodes.drop_last());
        if nodes.last().paired {
            before.push(nodes.last())
        } else {
            before
        }
    }
}

/// The nodes that the operator has paired with. An announcement alone says nothing
/// about trust, so no other node is shown.
pub fn get_contacts(nodes: &[KnownNode]) -> (r: ContactsResponse)
    ensures
        r.contacts@.len() == paired_nodes(nodes@).len(),
        forall|i: int|
            0 <= i < r.contacts@.len() ==> shows_node(#[trigger] r.contacts@[i], paired_nodes(nodes@)[i]),
{
    let mut contacts: Vec<ContactDto> = Vec::new();
    let mut i: usize = 0;
    while i < nodes.len()
        invariant
            i <= nodes@.len(),
            contacts@.len() == paired_nodes(nodes@.take(i as int)).len(),
            forall|k: int|
                0 <= k < contacts@.len() ==> shows_node(
                    #[trigger] contacts@[k],
                    paired_nodes(nodes@.take(i as int))[k],
                ),
        decreases nodes@.len() - i,
    {
        let ghost before = contacts@;
        proof {
            assert(nodes@.take(i + 1).drop_last() =~= nodes@.take(i as int));
            assert(nodes@.take(i + 1).last() == nodes@[i as int]);
        }
        let n = &nodes[i];
        if n.paired {
            contacts.push(
                ContactDto {
                    identity_hash: n.identity_hash.clone(),
                    destination_hash: n.destination_hash.clone(),
                    codename: n.codename.clone(),
                    tag: n.tag.clone(),
                    paired: n.paired,
                    online: n.online,
                    hops: n.hops,
                    rssi: n.rssi,
                    last_seen_ts: n.last_seen_ts,
                    vpn_tunnel_ip: n.vpn_tunnel_ip.clone(),
                    services: peer_services(
                        match &n.kept_services {
                            Some(s) => Some(s.clone()),
                            None => None,
                        },
                    ),
                },
            );
            proof {
                let now = paired_nodes(nodes@.take(i + 1));
                assert forall|k: int| 0 <= k < contacts@.len() implies shows_node(#[trigger] contacts@[k], now[k]) by {
                    if k < before.len() {
                        assert(contacts@[k] == before[k]);
                    }
                }
            }
        }
        i += 1;
    }
    proof {
        assert(nodes@.take(i as int) =~= nodes@);
    }
    ContactsResponse { contacts }
}

/// Plugins see nobody but paired nodes.
pub proof fn law_contacts_are_paired(nodes: Seq<KnownNode>, i: int)
    requires
        0 <= i < paired_nodes(nodes).len(),
    ensures
        paired_nodes(nodes)[i].paired,
        nodes.contains(paired_nodes(nodes)[i]),
    decreases nodes.len(),
{
    if nodes.len() > 0 {
        let before = paired_nodes(nodes.drop_last());
        if i < before.len() {
            law_contacts_are_paired(nodes.drop_last(), i);
            let k = choose|k: int| 0 <= k < nodes.drop_last().len() && nodes.drop_last()[k] == before[i];
            assert(nodes[k] == before[i]);
        } else {
            assert(nodes[nodes.len() - 1] == paired_nodes(nodes)[i]);
        }
    }
}

// ── Services ─────────────────────────────────────────────────────────────────

/// Where a plugin can be reached.
#[derive(Clone, Debug)]
pub struct ServiceRequest {
    pub service: String,
    pub destination: String,
}

#[derive(Clone, Debug)]
pub struct ServicesResponse {
    pub services: Vec<ServiceEntry>,
}

/// Why a service is not taken on, if so, given its address in lower case.
pub open spec fn service_refusal(service: Seq<char>, destination: Seq<char>) -> Option<(u16, Seq<char>)> {
    if !is_valid_name(service) {
        Some((BAD_REQUEST, "invalid service name"@))
    } else if !(text::byte_len(destination) == 32 && digits::all_hex(destination)) {
        Some((BAD_REQUEST, "destination must be a 16-byte hex hash"@))
    } else {
        None
    }
}

/// Checks a service, given its address without blanks around it and in lower case.
pub fn check_service(service: &str, destination: &str) -> (r: Result<(), Reply>)
    ensures
        match r {
            Ok(()) => service_refusal(service@, destination@) is None,
            Err(e) => service_refusal(service@, destination@) == Some(e@),
        },
{
    if !valid_name(service) {
        return Err(reply(BAD_REQUEST, "invalid service name"));
    }
    if utf8_len(destination) != 32 || !is_hex(destination) {
        return Err(reply(BAD_REQUEST, "destination must be a 16-byte hex hash"));
    }
    Ok(())
}

/// The service that a plugin asks to be known for, with its address in lower case.
pub fn post_services(request: &ServiceRequest) -> (r: Result<ServiceEntry, Reply>)
    ensures
        ({
            let destination = text::lowercase_of(text::trimmed(request.destination@));
            match r {
                Ok(s) => service_refusal(request.service@, destination) is None && s@ == (request.service@, destination),
                Err(e) => service_refusal(request.service@, destination) == Some(e@),
            }
        }),
{
    let destination = text::to_lowercase(trim(request.destination.as_str()).as_str());
    match check_service(request.service.as_str(), destination.as_str()) {
        Ok(()) => Ok(ServiceEntry { service: request.service.clone(), destination }),
        Err(e) => Err(e),
    }
}

// ── Kept values ──────────────────────────────────────────────────────────────

#[derive(Clone, Debug)]
pub struct KeysResponse {
    pub keys: Vec<String>,
}

/// The answer when the store fails.
pub fn store_error(err: &str) -> (r: Reply)
    ensures
        r@ == (INTERNAL_SERVER_ERROR, "plugin store: "@ + err@),
{
    reply_with(INTERNAL_SERVER_ERROR, cat2("plugin store: ", err))
}

/// Checks the name of a plugin.
pub fn check_plugin(plugin: &str) -> (r: Result<(), Reply>)
    ensures
        match r {
            Ok(()) => is_valid_name(plugin@),
            Err(e) => !is_valid_name(plugin@) && e@ == (BAD_REQUEST, "invalid plugin name"@),
        },
{
    if valid_name(plugin) {
        Ok(())
    } else {
        Err(reply(BAD_REQUEST, "invalid plugin name"))
    }
}

/// Checks the names of a plugin and a key.
pub fn check_key(plugin: &str, key: &str) -> (r: Result<(), Reply>)
    ensures
        match r {
            Ok(()) => is_valid_name(plugin@) && is_valid_name(key@),
            Err(e) => !(is_valid_name(plugin@) && is_valid_name(key@)) && e@ == (BAD_REQUEST, "invalid plugin or key"@),
        },
{
    if valid_name(plugin) && valid_name(key) {
        Ok(())
    } else {
        Err(reply(BAD_REQUEST, "invalid plugin or key"))
    }
}

/// The keys of a plugin.
pub fn get_store_keys(plugin: &str, read: Result<Vec<String>, String>) -> (r: Result<KeysResponse, Reply>)
    ensures
        if !is_valid_name(plugin@) {
            r is Err && r->Err_0@ == (BAD_REQUEST, "invalid plugin name"@)
        } else {
            match read {
                Ok(keys) => r is Ok && r->Ok_0.keys == keys,
                Err(e) => r is Err && r->Err_0@ == (INTERNAL_SERVER_ERROR, "plugin store: "@ + e@),
            }
        },
{
    match check_plugin(plugin) {
        Ok(()) => {},
        Err(e) => {
            return Err(e);
        },
    }
    match read {
        Ok(keys) => Ok(KeysResponse { keys }),
        Err(e) => Err(store_error(e.as_str())),
    }
}

/// The value that is kept for a key, given its text.
pub fn get_store(plugin: &str, key: &str, read: Result<Option<String>, String>) -> (r: Result<
    serde_json::Value,
    Reply,
>)
    ensures
        if !(is_valid_name(plugin@) && is_valid_name(key@)) {
            r is Err && r->Err_0@ == (BAD_REQUEST, "invalid plugin or key"@)
        } else {
            match read {
                Err(e) => r is Err && r->Err_0@ == (INTERNAL_SERVER_ERROR, "plugin store: "@ + e@),
                Ok(None) => r is Err && r->Err_0@ == (NOT_FOUND, "no such key"@),
                Ok(Some(raw)) => r == Ok::<serde_json::Value, Reply>(value_of(raw@)),
            }
        },
{
    match check_key(plugin, key) {
        Ok(()) => {},
        Err(e) => {
            return Err(e);
        },
    }
    match read {
        Err(e) => Err(store_error(e.as_str())),
        Ok(None) => Err(reply(NOT_FOUND, "no such key")),
        Ok(Some(raw)) => Ok(stored_value(raw)),
    }
}

/// Checks a text before it is kept for a key.
pub fn check_value(plugin: &str, key: &str, raw: &str) -> (r: Result<(), Reply>)
    ensures
        match r {
            Ok(()) => is_valid_name(plugin@) && is_valid_name(key@) && text::byte_len(raw@) <= MAX_VALUE_BYTES,
            Err(e) => if !(is_valid_name(plugin@) && is_valid_name(key@)) {
                e@ == (BAD_REQUEST, "invalid plugin or key"@)
            } else {
                text::byte_len(raw@) > MAX_VALUE_BYTES && e@ == (
                    PAYLOAD_TOO_LARGE,
                    "values are limited to "@ + digits::decimal(MAX_VALUE_BYTES as nat) + " bytes"@,
                )
            },
        },
{
    match check_key(plugin, key) {
        Ok(()) => {},
        Err(e) => {
            return Err(e);
        },
    }
    if utf8_len(raw) > MAX_VALUE_BYTES {
        return Err(
            reply_with(
                PAYLOAD_TOO_LARGE,
                cat3("values are limited to ", dec_usize(MAX_VALUE_BYTES).as_str(), " bytes"),
            ),
        );
    }
    Ok(())
}

/// What keeping or forgetting a value is answered with.
pub fn store_changed(deleted: bool, done: Result<(), String>) -> (r: Reply)
    ensures
        r@ == match done {
            Ok(()) => (
                OK,
                if deleted {
                    "deleted"@
                } else {
                    "stored"@
                },
            ),
            Err(e) => (INTERNAL_SERVER_ERROR, "plugin store: "@ + e@),
        },
{
    match done {
        Ok(()) => reply(
            OK,
            if deleted {
                "deleted"
            } else {
                "stored"
            },
        ),
        Err(e) => store_error(e.as_str()),
    }
}

// ── Values as JSON ───────────────────────────────────────────────────────────

/// The outside type `serde_json::Value`: any JSON value.
#[verifier::external_type_specification]
#[verifier::external_body]
pub struct ExValue(serde_json::Value);

/// What `serde_json::from_str` makes of a text.
pub uninterp spec fn json_of(text: Seq<char>) -> Option<serde_json::Value>;

/// A JSON value without fractions.
pub enum Json {
    Null,
    Bool(bool),
    Integer(int),
    Text(Seq<char>),
    List(Seq<Json>),
    /// The entries by name, each name once and in the order of names.
    Object(Seq<(Seq<char>, Json)>),
}

impl Json {
    /// Whether `serde_json` reads the value back from the text that it writes of it: whole
    /// numbers fit 64 bits, lists and objects are not nested deeper than `depth`, and no
    /// object has the name that `serde_json` reserves for a text to be read as JSON again.
    pub open spec fn reads_back(self, depth: nat) -> bool
        decreases self,
    {
        match self {
            Json::Null => true,
            Json::Bool(_) => true,
            Json::Integer(n) => i64::MIN <= n <= u64::MAX,
            Json::Text(_) => true,
            Json::List(items) => {
                &&& depth > 0
                &&& forall|i: int| 0 <= i < items.len() ==> (#[trigger] items[i]).reads_back((depth - 1) as nat)
            },
            Json::Object(entries) => {
                &&& depth > 0
                &&& order::ascending(entries.map_values(|e: (Seq<char>, Json)| e.0))
                &&& forall|i: int|
                    #![trigger entries[i]]
                    0 <= i < entries.len() ==> {
                        &&& entries[i].0 != "$serde_json::private::RawValue"@
                        &&& entries[i].1.reads_back((depth - 1) as nat)
                    }
            },
        }
    }
}

/// How deep lists and objects may be nested for `serde_json::from_str` to read them.
pub const MAX_JSON_DEPTH: u64 = 127;

/// The `serde_json::Value` that its constructors make of a value: `Null`, `Bool`, `Number`
/// of a whole number, `String`, `Array` and `Object`.
pub uninterp spec fn json_value(tree: Json) -> serde_json::Value;

/// `serde_json::from_str` into any JSON value: nothing where the text is no JSON.
/// The value depends on the text alone.
#[verifier::external_body]
fn parse_json(text: &str) -> (r: Option<serde_json::Value>)
    ensures
        r == json_of(text@),
{
    serde_json::from_str(text).ok()
}

/// `serde_json::Value::String`: the JSON string with the characters of a text.
#[verifier::external_body]
fn make_json_string(text: String) -> (r: serde_json::Value)
    ensures
        r == json_value(Json::Text(text@)),
{
    serde_json::Value::String(text)
}

/// The value that a kept text stands for: the JSON that it holds, or else the text
/// itself as a JSON string.
pub open spec fn value_of(raw: Seq<char>) -> serde_json::Value {
    match json_of(raw) {
        Some(v) => v,
        None => json_value(Json::Text(raw)),
    }
}

/// The value that a kept text stands for.
pub fn stored_value(raw: String) -> (r: serde_json::Value)
    ensures
        r == value_of(raw@),
{
    match parse_json(raw.as_str()) {
        Some(v) => v,
        None => make_json_string(raw),
    }
}

/// What `serde_json::to_string` makes of a value: its text, or why it has none.
pub uninterp spec fn json_text(value: serde_json::Value) -> Result<Seq<char>, Seq<char>>;

/// The characters of a written value.
pub open spec fn view_text(r: Result<String, String>) -> Result<Seq<char>, Seq<char>> {
    match r {
        Ok(s) => Ok(s@),
        Err(e) => Err(e@),
    }
}

/// `serde_json::to_string` of any JSON value: its text, which depends on the value alone,
/// or why it has none. A value without fractions that is not nested too deeply always has a
/// text, and `serde_json::from_str` reads that value from it. What is read from the text of
/// another value is left open: a number with a fraction can come back with another last
/// bit, what is nested too deeply is not read at all, and an object that starts with the
/// reserved name is read as the JSON in its text.
#[verifier::external_body]
fn write_json(value: &serde_json::Value) -> (r: Result<String, String>)
    ensures
        view_text(r) == json_text(*value),
        forall|tree: Json|
            *value == #[trigger] json_value(tree) && tree.reads_back(MAX_JSON_DEPTH as nat) ==> r is Ok && json_of(
                r->Ok_0@,
            ) == Some(*value),
{
    serde_json::to_string(value).map_err(|err| err.to_string())
}

/// The text that is to be kept for a key, given a value. A value without fractions comes
/// back unchanged when the kept text is read.
pub fn put_store(plugin: &str, key: &str, value: &serde_json::Value) -> (r: Result<String, Reply>)
    ensures
        if !(is_valid_name(plugin@) && is_valid_name(key@)) {
            r is Err && r->Err_0@ == (BAD_REQUEST, "invalid plugin or key"@)
        } else {
            match json_text(*value) {
                Err(e) => r is Err && r->Err_0@ == (INTERNAL_SERVER_ERROR, "plugin store: "@ + e),
                Ok(t) => if text::byte_len(t) > MAX_VALUE_BYTES {
                    r is Err && r->Err_0@ == (
                        PAYLOAD_TOO_LARGE,
                        "values are limited to "@ + digits::decimal(MAX_VALUE_BYTES as nat) + " bytes"@,
                    )
                } else {
                    r is Ok && r->Ok_0@ == t
                },
            }
        },
        forall|tree: Json|
            *value == #[trigger] json_value(tree) && tree.reads_back(MAX_JSON_DEPTH as nat) && r is Ok ==> json_of(
                r->Ok_0@,
            ) == Some(*value) && value_of(r->Ok_0@) == *value,
{
    match check_key(plugin, key) {
        Ok(()) => {},
        Err(e) => {
            return Err(e);
        },
    }
    let raw = match write_json(value) {
        Ok(raw) => raw,
        Err(e) => {
            return Err(store_error(e.as_str()));
        },
    };
    match check_value(plugin, key, raw.as_str()) {
        Ok(()) => Ok(raw),
        Err(e) => Err(e),
    }
}

// ── What the surface promises ────────────────────────────────────────────────

/// The port is the one that was asked for, in decimal, and 8781 where nothing was or it is no port.
pub proof fn law_port_is_the_one_asked_for(setting: Option<String>, r: u16, n: u16)
    requires
        call_ensures(listen_port, (setting,), r),
    ensures
        setting is None ==> r == 8781,
        setting matches Some(s) ==> s@ == digits::decimal(n as nat) ==> r == n,
        setting matches Some(s) ==> s@.len() == 0 || !digits::all_digits(digits::unsigned_body(s@)) || digits::digits_value(
            digits::unsigned_body(s@),
        ) > 65535 ==> r == 8781,
{
    digits::lemma_decimal_reads_back(n as nat);
    if let Some(s) = setting {
        if s@ == digits::decimal(n as nat) {
            assert(digits::is_digit(s@[0]));
        }
    }
}

/// The token that was found first stays, whatever is found later.
pub proof fn law_token_is_read_once(cache: &mut TokenCache, found: Option<String>, first: Option<String>, later: &mut TokenCache, other: Option<String>, second: Option<String>)
    requires
        old(cache).token is None,
        call_ensures(ensure_token, (cache, found), first),
        *old(later) == *final(cache),
        call_ensures(ensure_token, (later, other), second),
    ensures
        first == found,
        second == first,
        *final(later) == *final(cache),
{
}

/// A file holds a token exactly where its text, without white space around it, has 48 bytes or more;
/// that text is the token. Otherwise a new one of 48 letters and digits is made.
pub proof fn law_kept_token_is_used(contents: Option<String>, r: TokenPlan)
    requires
        call_ensures(load_or_create_token, (contents,), r),
    ensures
        r is Keep <==> contents is Some && text::byte_len(text::trimmed(contents->0@)) >= 48,
        r matches TokenPlan::Keep(token) ==> token@ == text::trimmed(contents->0@),
        r matches TokenPlan::Create { token, replaces } ==> {
            &&& token@.len() == 48
            &&& forall|i: int| 0 <= i < 48 ==> 'a' <= #[trigger] token@[i] <= 'z' || '0' <= token@[i] <= '9'
            &&& replaces <==> contents is Some && text::trimmed(contents->0@).len() > 0
        },
{
}

/// Different numbers make different tokens: each number below 36 has its own letter or digit.
pub proof fn law_tokens_differ(a: &[usize], b: &[usize], token_a: String, token_b: String, i: int)
    requires
        forall|k: int| 0 <= k < a@.len() ==> #[trigger] a@[k] < 36,
        forall|k: int| 0 <= k < b@.len() ==> #[trigger] b@[k] < 36,
        call_ensures(token_from, (a,), token_a),
        call_ensures(token_from, (b,), token_b),
        token_a@ == token_b@,
        0 <= i < a@.len(),
    ensures
        a@.len() == b@.len(),
        a@[i] == b@[i],
        'a' <= token_a@[i] <= 'z' || '0' <= token_a@[i] <= '9',
{
    assert(token_of(a@).len() == a@.len() && token_of(b@).len() == b@.len());
    assert(token_of(a@)[i] == token_char(a@[i] as int));
    assert(token_of(b@)[i] == token_char(b@[i] as int));
    assert(a@[i] < 36 && b@[i] < 36);
}

/// Whatever mode the token's file was found with, in the end nobody but its owner can use it; a file that
/// was written ends with mode 0600, and one that was private already stays as it is.
pub proof fn law_token_file_ends_private(mode: u32, written: bool, r: Option<u32>)
    requires
        call_ensures(mode_to_restore, (mode, written), r),
    ensures
        ({
            let end = match r {
                Some(m) => m as int,
                None => mode as int % 512,
            };
            &&& end % 64 == 0
            &&& written ==> end == 384
            &&& !written && mode % 64 == 0 ==> end == mode % 512
            &&& !written && mode % 64 != 0 ==> end == 384
        }),
{
}

/// A caller gets in exactly where it calls from the device itself, there is a token, and it offers that
/// token after `Bearer `, with or without white space around it. Each refusal says which of these failed
/// first.
pub proof fn law_callers_need_loopback_and_token(peer: &IpAddress, expected: Option<String>, header: Option<String>, r: Result<(), Reply>, offered: Seq<char>)
    requires
        call_ensures(authorize, (peer, expected, header), r),
    ensures
        !peer.spec_is_loopback() ==> r is Err && r->Err_0@.0 == 403,
        peer.spec_is_loopback() && expected is None ==> r is Err && r->Err_0@.0 == 503,
        header is Some && header->0@ == "Bearer "@ + offered && peer.spec_is_loopback() && expected is Some ==> (r is Ok <==> text::trimmed(
            offered,
        ) == expected->0@),
        peer.spec_is_loopback() && expected is Some && expected->0@.len() > 0 && (header is None || !text::begins_with(
            header->0@,
            "Bearer "@,
        )) ==> r is Err && r->Err_0@.0 == 401,
        r is Ok ==> peer.spec_is_loopback() && expected is Some,
{
    reveal_strlit("Bearer ");
    if let Some(h) = header {
        if h@ == "Bearer "@ + offered {
            assert(h@.subrange(0, 7) =~= "Bearer "@);
            assert(h@.skip(7) =~= offered);
        }
    }
}

/// Names have 1 to 64 characters, each an ASCII letter or digit, a dash, an underscore or a dot.
pub proof fn law_names_are_plain(name: &str, r: bool)
    requires
        call_ensures(valid_name, (name,), r),
    ensures
        r <==> 1 <= name@.len() <= 64 && forall|i: int|
            0 <= i < name@.len() ==> {
                let c = #[trigger] name@[i];
                ('a' <= c <= 'z') || ('A' <= c <= 'Z') || ('0' <= c <= '9') || c == '-' || c == '_' || c == '.'
            },
{
    if 1 <= name@.len() <= 64 && forall|i: int|
        0 <= i < name@.len() ==> {
            let c = #[trigger] name@[i];
            ('a' <= c <= 'z') || ('A' <= c <= 'Z') || ('0' <= c <= '9') || c == '-' || c == '_' || c == '.'
        } {
        assert forall|i: int| 0 <= i < name@.len() implies is_name_char(#[trigger] name@[i]) by {}
    }
    if r {
        assert forall|i: int| 0 <= i < name@.len() implies ({
            let c = #[trigger] name@[i];
            ('a' <= c <= 'z') || ('A' <= c <= 'Z') || ('0' <= c <= '9') || c == '-' || c == '_' || c == '.'
        }) by {
            assert(is_name_char(name@[i]));
        }
    }
}

/// A node is known to plugins under the name that is kept, or else the one on the mesh, and with its own
/// hashes, each under its own heading.
pub proof fn law_identity_is_the_nodes_own(
    local: Option<LocalNode>,
    kept_codename: Option<String>,
    serial: String,
    version: String,
    vpn_hash: String,
    r: IdentityResponse,
)
    requires
        call_ensures(get_identity, (local, kept_codename, serial, version, vpn_hash), r),
    ensures
        r.serial == serial && r.gateway_version == version && r.vpn_hash == vpn_hash,
        kept_codename matches Some(name) ==> r.codename@ == name@,
        kept_codename is None && local is Some ==> r.codename@ == local->0.codename@,
        local matches Some(l) ==> r.identity_hash@ == l.identity_hash@ && r.destination_hash@ == l.destination_hash@
            && r.remote_enabled,
        local is None ==> r.identity_hash@.len() == 0 && r.destination_hash@.len() == 0 && !r.remote_enabled,
{
}

/// Plugins see exactly the paired nodes, in their order, each with what is known of it.
pub proof fn law_contacts_are_exactly_the_paired_nodes(nodes: &[KnownNode], r: ContactsResponse, i: int)
    requires
        call_ensures(get_contacts, (nodes,), r),
        0 <= i < r.contacts@.len(),
    ensures
        r.contacts@.len() == nodes@.filter(|n: KnownNode| n.paired).len(),
        ({
            let n = nodes@.filter(|n: KnownNode| n.paired)[i];
            let c = r.contacts@[i];
            &&& c.paired && n.paired
            &&& c.identity_hash@ == n.identity_hash@ && c.destination_hash@ == n.destination_hash@
            &&& c.codename@ == n.codename@ && c.tag@ == n.tag@
            &&& c.online == n.online && c.hops == n.hops && c.rssi == n.rssi
            &&& c.last_seen_ts == n.last_seen_ts && c.vpn_tunnel_ip@ == n.vpn_tunnel_ip@
            &&& n.kept_services is None ==> c.services@.len() == 0
        }),
{
    lemma_paired_nodes(nodes@);
    law_contacts_are_paired(nodes@, i);
    assert(shows_node(r.contacts@[i], paired_nodes(nodes@)[i]));
    assert(service_views(r.contacts@[i].services@).len() == r.contacts@[i].services@.len());
}

/// The paired nodes are those of the list that were paired.
proof fn lemma_paired_nodes(nodes: Seq<KnownNode>)
    ensures
        paired_nodes(nodes) == nodes.filter(|n: KnownNode| n.paired),
    decreases nodes.len(),
{
    reveal(Seq::filter);
    if nodes.len() > 0 {
        lemma_paired_nodes(nodes.drop_last());
    } else {
        assert(nodes.filter(|n: KnownNode| n.paired) =~= Seq::empty());
    }
}

/// A service is taken on exactly where its name is valid and its address has 32 hexadecimal digits; the
/// address is kept in lower case and without white space around it.
pub proof fn law_services_have_an_address(request: &ServiceRequest, r: Result<ServiceEntry, Reply>)
    requires
        call_ensures(post_services, (request,), r),
    ensures
        ({
            let address = text::trimmed(request.destination@);
            text::lowercase_of(address) == text::ascii_lowered(address)
        }) ==> {
            let address = text::trimmed(request.destination@);
            &&& is_valid_name(request.service@) && address.len() == 32 && digits::all_hex(address) ==> r is Ok
            &&& r matches Ok(s) ==> s.service@ == request.service@ && s.destination@ == text::ascii_lowered(address)
                && s.destination@.len() == 32 && digits::all_hex(s.destination@)
            &&& !is_valid_name(request.service@) ==> r is Err
            &&& address.len() != 32 ==> r is Err
            &&& r matches Err(e) ==> e@.0 == 400
        },
{
    let address = text::trimmed(request.destination@);
    let lower = text::ascii_lowered(address);
    if address.len() == 32 && digits::all_hex(address) {
        assert forall|i: int| 0 <= i < lower.len() implies digits::hex_value(#[trigger] lower[i]) is Some && (lower[i] as u32)
            < 128 by {
            assert(digits::hex_value(address[i]) is Some);
        }
        text::lemma_ascii_byte_len(lower);
    }
    if r is Ok && text::lowercase_of(address) == lower {
        assert forall|i: int| 0 <= i < lower.len() implies (#[trigger] lower[i] as u32) < 128 by {
            assert(digits::hex_value(lower[i]) is Some);
        }
        text::lemma_ascii_byte_len(lower);
    }
}

/// What a plugin keeps under a key is what it reads from it again.
pub proof fn law_kept_values_read_back(
    plugin: &str,
    key: &str,
    tree: Json,
    value: &serde_json::Value,
    put: Result<String, Reply>,
    read: Result<serde_json::Value, Reply>,
)
    requires
        *value == json_value(tree),
        tree.reads_back(127),
        call_ensures(put_store, (plugin, key, value), put),
        put is Ok,
        call_ensures(get_store, (plugin, key, Ok::<Option<String>, String>(Some(put->Ok_0))), read),
    ensures
        read == Ok::<serde_json::Value, Reply>(*value),
{
}

/// A store is open to valid names only, a key that is not there is not found, and no value is larger than
/// 64 KiB.
pub proof fn law_store_is_limited(
    plugin: &str,
    key: &str,
    stored: Result<Option<String>, String>,
    read: Result<serde_json::Value, Reply>,
    raw: &str,
    checked: Result<(), Reply>,
    value: &serde_json::Value,
    put: Result<String, Reply>,
)
    requires
        call_ensures(get_store, (plugin, key, stored), read),
        call_ensures(check_value, (plugin, key, raw), checked),
        call_ensures(put_store, (plugin, key, value), put),
    ensures
        !is_valid_name(plugin@) || !is_valid_name(key@) ==> read is Err && read->Err_0@.0 == 400 && checked is Err && put is Err
            && put->Err_0@.0 == 400,
        is_valid_name(plugin@) && is_valid_name(key@) ==> {
            &&& stored == Ok::<Option<String>, String>(None) ==> read is Err && read->Err_0@.0 == 404
            &&& stored is Err ==> read is Err && read->Err_0@.0 == 500
            &&& stored is Ok && stored->Ok_0 is Some ==> read is Ok
            &&& checked is Ok <==> text::byte_len(raw@) <= 64 * 1024
            &&& checked matches Err(e) ==> e@.0 == 413
        },
        put matches Ok(t) ==> text::byte_len(t@) <= 64 * 1024,
{
}

/// The keys of a plugin are listed as they were read, for valid names only, and every change of the store
/// is answered by what came of it.
pub proof fn law_store_answers(
    plugin: &str,
    key: &str,
    p: Result<(), Reply>,
    k: Result<(), Reply>,
    read: Result<Vec<String>, String>,
    keys: Result<KeysResponse, Reply>,
    deleted: bool,
    done: Result<(), String>,
    changed: Reply,
)
    requires
        call_ensures(check_plugin, (plugin,), p),
        call_ensures(check_key, (plugin, key), k),
        call_ensures(get_store_keys, (plugin, read), keys),
        call_ensures(store_changed, (deleted, done), changed),
    ensures
        p is Ok <==> is_valid_name(plugin@),
        k is Ok <==> is_valid_name(plugin@) && is_valid_name(key@),
        p matches Err(e) ==> e@.0 == 400,
        k matches Err(e) ==> e@.0 == 400,
        keys is Ok <==> p is Ok && read is Ok,
        keys is Ok ==> keys->Ok_0.keys == read->Ok_0,
        keys is Err ==> keys->Err_0@.0 == if is_valid_name(plugin@) {
            500u16
        } else {
            400u16
        },
        done is Ok ==> changed@.0 == 200,
        done is Ok && deleted ==> changed@.1 == "deleted"@,
        done is Ok && !deleted ==> changed@.1 == "stored"@,
        done matches Err(e) ==> changed@ == (500u16, "plugin store: "@ + e@),
{
}

/// A file is exposed where anyone but its owner may do anything with it; a token that could not be written
/// is none.
pub proof fn law_tokens_stay_private(mode: u32, exposed: bool, token: String, written: bool, r: Option<String>)
    requires
        call_ensures(is_exposed, (mode,), exposed),
        call_ensures(token_written, (token, written), r),
    ensures
        !exposed <==> mode & 0o077 == 0,
        written ==> r == Some(token),
        !written ==> r is None,
{
    assert(mode & 0o077 == mode % 64) by (bit_vector);
}

/// A token that is long enough is taken from its file without white space around it, and nothing else is.
pub proof fn law_token_in_a_file(contents: Option<String>, r: Option<String>)
    requires
        call_ensures(existing_token, (contents,), r),
    ensures
        contents is None ==> r is None,
        contents matches Some(s) ==> {
            &&& r is Some <==> text::byte_len(text::trimmed(s@)) >= 48
            &&& r is Some ==> r->0@ == text::trimmed(s@)
        },
{
}

/// Services that could be read are those of the peer, and a peer whose services could not be read offers
/// none.
pub proof fn law_unread_services_are_none(read: Option<Vec<ServiceEntry>>, r: Vec<ServiceEntry>)
    requires
        call_ensures(kept_services, (read,), r),
    ensures
        read is None ==> r@.len() == 0,
        read matches Some(list) ==> service_views(r@) == service_views(list@),
{
    assert(service_views(r@).len() == r@.len());
}

} // verus!
