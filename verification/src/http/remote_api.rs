//! What the operator asks of other nodes, through this one.

use vstd::prelude::*;

use crate::digits;
use crate::digits::dec;
use crate::gateway::media_bridge;
use crate::gateway::media_bridge::MediaBridge;
use crate::http::vpn;
use crate::mesh;
use crate::mesh::AddressHash;
use crate::reply::{
    reply, reply_with, Reply, BAD_GATEWAY, BAD_REQUEST, CONFLICT, FORBIDDEN, INTERNAL_SERVER_ERROR, NOT_FOUND, OK,
    SERVICE_UNAVAILABLE,
};
use crate::text;
use crate::text::{cat2, cat3, cat6, from_chars, is_empty, same, to_chars, trim};

verus! {

pub const NOT_IMPLEMENTED: u16 = 501;

/// What a request is answered with in words.
#[derive(Clone, Debug)]
pub struct DetailResponse {
    pub detail: String,
}

/// A response with the given words.
pub fn detail(words: &str) -> (r: DetailResponse)
    ensures
        r.detail@ == words@,
{
    DetailResponse { detail: words.to_owned() }
}

/// How another node, or the way to it, failed.
#[derive(Clone, Copy, Debug, PartialEq, Eq, Structural)]
pub enum RemoteFailure {
    Unauthorized,
    NotFound,
    BadRequest,
    Unsupported,
    Busy,
    Other,
}

impl RemoteFailure {
    /// The status code for a failure.
    pub open spec fn code(self) -> u16 {
        match self {
            RemoteFailure::Unauthorized => FORBIDDEN,
            RemoteFailure::NotFound => NOT_FOUND,
            RemoteFailure::BadRequest => BAD_REQUEST,
            RemoteFailure::Unsupported => NOT_IMPLEMENTED,
            RemoteFailure::Busy => CONFLICT,
            RemoteFailure::Other => BAD_GATEWAY,
        }
    }
}

/// The answer when another node failed.
pub fn remote_error(failure: RemoteFailure, words: String) -> (r: Reply)
    ensures
        r@ == (failure.code(), words@),
{
    let code: u16 = match failure {
        RemoteFailure::Unauthorized => FORBIDDEN,
        RemoteFailure::NotFound => NOT_FOUND,
        RemoteFailure::BadRequest => BAD_REQUEST,
        RemoteFailure::Unsupported => NOT_IMPLEMENTED,
        RemoteFailure::Busy => CONFLICT,
        RemoteFailure::Other => BAD_GATEWAY,
    };
    reply_with(code, words)
}

/// The refusal where remote control does not run.
pub open spec fn runtime_refusal() -> (u16, Seq<char>) {
    (SERVICE_UNAVAILABLE, "remote control is not running (webapp-only mode)"@)
}

/// Judges whether remote control runs at all.
pub fn check_runtime(running: bool) -> (r: Result<(), Reply>)
    ensures
        match r {
            Ok(()) => running,
            Err(e) => !running && e@ == runtime_refusal(),
        },
{
    if running {
        Ok(())
    } else {
        Err(reply(SERVICE_UNAVAILABLE, "remote control is not running (webapp-only mode)"))
    }
}

/// Refuses what widens the powers of other nodes to a caller on the mesh.
pub fn deny_mesh_client(from_mesh: bool) -> (r: Result<(), Reply>)
    ensures
        match r {
            Ok(()) => !from_mesh,
            Err(e) => from_mesh && e@ == vpn::mesh_refusal(),
        },
{
    vpn::deny_mesh(from_mesh)
}

/// Reads the address of a node, without blanks around it.
pub fn parse_hash(hash: &str) -> (r: Result<AddressHash, Reply>)
    requires
        mesh::hash_readable(text::trimmed(hash@)),
    ensures
        match r {
            Ok(h) => text::byte_len(text::trimmed(hash@)) >= 32 && h@ == mesh::hash_bytes(text::trimmed(hash@)),
            Err(e) => text::byte_len(text::trimmed(hash@)) < 32 && e@ == (BAD_REQUEST, "invalid node hash"@),
        },
{
    match AddressHash::new_from_hex_string(trim(hash).as_str()) {
        Ok(h) => Ok(h),
        Err(_) => Err(reply(BAD_REQUEST, "invalid node hash")),
    }
}

// ── Labels ───────────────────────────────────────────────────────────────────

#[derive(Clone, Debug)]
pub struct TagRequest {
    pub tag: String,
}

/// Whether a character is a control character.
pub open spec fn is_control(c: char) -> bool {
    (c as u32) < 0x20 || 0x7F <= (c as u32) <= 0x9F
}

/// A text without its control characters.
pub open spec fn without_controls(s: Seq<char>) -> Seq<char>
    decreases s.len(),
{
    if s.len() == 0 {
        s
    } else {
        let before = without_controls(s.drop_last());
        if is_control(s.last()) {
            before
        } else {
            before.push(s.last())
        }
    }
}

/// A label as it is kept: without blanks around it and without control characters,
/// at most 48 characters.
pub open spec fn kept_tag(tag: Seq<char>) -> Seq<char> {
    let clean = without_controls(text::trimmed(tag));
    if clean.len() > 48 {
        clean.take(48)
    } else {
        clean
    }
}

/// A label as it is kept.
pub fn clean_tag(tag: &str) -> (r: String)
    ensures
        r@ == kept_tag(tag@),
{
    let chars = to_chars(trim(tag).as_str());
    let mut out: Vec<char> = Vec::new();
    let mut i: usize = 0;
    proof {
        assert(out@ =~= without_controls(chars@.take(0)));
    }
    while i < chars.len()
        invariant
            i <= chars@.len(),
            out@ == without_controls(chars@.take(i as int)),
        decreases chars@.len() - i,
    {
        let c = chars[i];
        proof {
            assert(chars@.take(i + 1).drop_last() =~= chars@.take(i as int));
            assert(chars@.take(i + 1).last() == c);
        }
        let n: u32 = c as u32;
        if !(n < 0x20 || (0x7F <= n && n <= 0x9F)) {
            out.push(c);
        }
        i += 1;
    }
    proof {
        assert(chars@.take(i as int) =~= chars@);
    }
    if out.len() > 48 {
        out.truncate(48);
    }
    from_chars(&out)
}

/// What a label is answered with.
pub fn tag_saved(tag: &str) -> (r: DetailResponse)
    ensures
        r.detail@ == if tag@.len() == 0 {
            "Tag cleared"@
        } else {
            "Tagged as "@ + tag@
        },
{
    DetailResponse {
        detail: if is_empty(tag) {
            "Tag cleared".to_owned()
        } else {
            cat2("Tagged as ", tag)
        },
    }
}

/// The label of a node: the node's address and the label as it is kept.
pub fn put_node_tag(hash: &str, request: &TagRequest) -> (r: Result<(AddressHash, String), Reply>)
    requires
        mesh::hash_readable(text::trimmed(hash@)),
    ensures
        match r {
            Ok((node, tag)) => {
                &&& text::byte_len(text::trimmed(hash@)) >= 32
                &&& node@ == mesh::hash_bytes(text::trimmed(hash@))
                &&& tag@ == kept_tag(request.tag@)
            },
            Err(e) => text::byte_len(text::trimmed(hash@)) < 32 && e@ == (BAD_REQUEST, "invalid node hash"@),
        },
{
    match parse_hash(hash) {
        Ok(node) => Ok((node, clean_tag(request.tag.as_str()))),
        Err(e) => Err(e),
    }
}

proof fn lemma_without_controls(s: Seq<char>)
    ensures
        forall|i: int| 0 <= i < without_controls(s).len() ==> !is_control(#[trigger] without_controls(s)[i]),
    decreases s.len(),
{
    if s.len() > 0 {
        lemma_without_controls(s.drop_last());
        let before = without_controls(s.drop_last());
        assert forall|i: int| 0 <= i < without_controls(s).len() implies !is_control(
            #[trigger] without_controls(s)[i],
        ) by {
            if i < before.len() {
                assert(without_controls(s)[i] == before[i]);
            }
        }
    }
}

/// A label that is kept is short and can be shown on one line.
pub proof fn law_tags_are_plain(tag: Seq<char>)
    ensures
        kept_tag(tag).len() <= 48,
        forall|i: int| 0 <= i < kept_tag(tag).len() ==> !is_control(#[trigger] kept_tag(tag)[i]),
{
    lemma_without_controls(text::trimmed(tag));
}

// ── Pairing ──────────────────────────────────────────────────────────────────

/// A scanned code: a node's public keys, and what to call it.
#[derive(Clone, Debug)]
pub struct AddNodeRequest {
    pub identity_hex: String,
    pub codename: String,
    /// Ask for pairing straight away.
    pub pair: bool,
}

#[derive(Clone, Debug)]
pub struct AddNodeResponse {
    pub identity_hash: String,
    pub codename: String,
    pub pairing: String,
    pub detail: String,
}

/// The keys of a scanned code as they are read: without blanks around them and in
/// lower case.
pub fn identity_text(request: &AddNodeRequest) -> (r: String)
    ensures
        r@ == text::lowercase_of(text::trimmed(request.identity_hex@)),
{
    text::to_lowercase(trim(request.identity_hex.as_str()).as_str())
}

/// The keys to add a node by. Only the operator adds nodes, and only where remote control
/// runs; a caller on the mesh is refused before anything else is looked at.
pub fn post_add_node(from_mesh: bool, running: bool, request: &AddNodeRequest) -> (r: Result<String, Reply>)
    ensures
        match r {
            Ok(keys) => {
                &&& !from_mesh
                &&& running
                &&& keys@ == text::lowercase_of(text::trimmed(request.identity_hex@))
            },
            Err(e) => if from_mesh {
                e@ == vpn::mesh_refusal()
            } else {
                !running && e@ == runtime_refusal()
            },
        },
{
    match deny_mesh_client(from_mesh) {
        Ok(()) => {},
        Err(e) => {
            return Err(e);
        },
    }
    match check_runtime(running) {
        Ok(()) => Ok(identity_text(request)),
        Err(e) => Err(e),
    }
}

/// Judges whether the keys of a scanned code could be read.
pub fn check_identity(readable: bool) -> (r: Result<(), Reply>)
    ensures
        match r {
            Ok(()) => readable,
            Err(e) => !readable && e@ == (BAD_REQUEST, "that code is not a valid node key"@),
        },
{
    if readable {
        Ok(())
    } else {
        Err(reply(BAD_REQUEST, "that code is not a valid node key"))
    }
}

/// The name of a node: in its normal form where it has one, or as it was given.
pub fn node_codename(request: &AddNodeRequest, normalized: Option<String>) -> (r: String)
    ensures
        r@ == match normalized {
            Some(name) => name@,
            None => text::trimmed(request.codename@),
        },
{
    match normalized {
        Some(name) => name,
        None => trim(request.codename.as_str()),
    }
}

/// Whether a response reports a node that was added, and what came of the request
/// for pairing, if one was made: the state of the pairing, or why it did not go out.
pub open spec fn reports_added(
    r: AddNodeResponse,
    hash: Seq<char>,
    codename: Seq<char>,
    pairing: Option<Result<Seq<char>, Seq<char>>>,
) -> bool {
    &&& r.identity_hash@ == hash
    &&& r.codename@ == codename
    &&& match pairing {
        None => {
            &&& r.pairing@ == "none"@
            &&& r.detail@ == if codename.len() == 0 {
                hash
            } else {
                codename
            } + " added"@
        },
        Some(Ok(state)) => {
            &&& r.pairing@ == text::lowercase_of(state)
            &&& r.detail@ == "pairing requested; the other operator has to approve it"@
        },
        Some(Err(e)) => {
            &&& r.pairing@ == "none"@
            &&& r.detail@ == "added, but the request did not go out yet: "@ + e
        },
    }
}

/// What came of a request for pairing, over what it holds.
pub open spec fn view_pairing(p: Option<Result<String, String>>) -> Option<Result<Seq<char>, Seq<char>>> {
    match p {
        None => None,
        Some(Ok(s)) => Some(Ok(s@)),
        Some(Err(e)) => Some(Err(e@)),
    }
}

/// What adding a node is answered with.
pub fn node_added(node: &AddressHash, codename: String, pairing: Option<Result<String, String>>) -> (r: AddNodeResponse)
    ensures
        reports_added(r, digits::hex_of(node@), codename@, view_pairing(pairing)),
{
    let identity_hash = node.to_hex_string();
    match pairing {
        None => {
            let named = if is_empty(codename.as_str()) {
                identity_hash.clone()
            } else {
                codename.clone()
            };
            AddNodeResponse {
                identity_hash,
                codename,
                pairing: "none".to_owned(),
                detail: cat2(named.as_str(), " added"),
            }
        },
        Some(Ok(state)) => AddNodeResponse {
            identity_hash,
            codename,
            pairing: text::to_lowercase(state.as_str()),
            detail: "pairing requested; the other operator has to approve it".to_owned(),
        },
        Some(Err(e)) => AddNodeResponse {
            identity_hash,
            codename,
            pairing: "none".to_owned(),
            detail: cat2("added, but the request did not go out yet: ", e.as_str()),
        },
    }
}

// ── Plugins on other nodes ───────────────────────────────────────────────────

/// A decision about a pairing.
#[derive(Clone, Copy, Debug, PartialEq, Eq, Structural)]
pub enum PairingStep {
    Cancel,
    Approve,
    Reject,
    Unpair,
}

/// What a decision about a pairing is answered with, once the node was told.
pub fn pairing_done(step: PairingStep) -> (r: DetailResponse)
    ensures
        r.detail@ == match step {
            PairingStep::Cancel => "request cancelled"@,
            PairingStep::Approve => "pairing approved"@,
            PairingStep::Reject => "pairing rejected"@,
            PairingStep::Unpair => "unpaired"@,
        },
{
    detail(
        match step {
            PairingStep::Cancel => "request cancelled",
            PairingStep::Approve => "pairing approved",
            PairingStep::Reject => "pairing rejected",
            PairingStep::Unpair => "unpaired",
        },
    )
}

/// What can be done to a plugin.
#[derive(Clone, Copy, Debug, PartialEq, Eq, Structural)]
pub enum PluginAction {
    Start,
    Stop,
    Restart,
    Delete,
}

/// What a word asks to be done to a plugin.
pub open spec fn action_named(word: Seq<char>) -> Option<PluginAction> {
    if word == "start"@ {
        Some(PluginAction::Start)
    } else if word == "stop"@ {
        Some(PluginAction::Stop)
    } else if word == "restart"@ {
        Some(PluginAction::Restart)
    } else if word == "delete"@ {
        Some(PluginAction::Delete)
    } else {
        None
    }
}

/// Reads what is to be done to a plugin.
pub fn plugin_action(word: &str) -> (r: Result<PluginAction, Reply>)
    ensures
        match action_named(word@) {
            Some(a) => r == Ok::<PluginAction, Reply>(a),
            None => r is Err && r->Err_0@ == (BAD_REQUEST, "unknown action "@ + word@),
        },
{
    if same(word, "start") {
        Ok(PluginAction::Start)
    } else if same(word, "stop") {
        Ok(PluginAction::Stop)
    } else if same(word, "restart") {
        Ok(PluginAction::Restart)
    } else if same(word, "delete") {
        Ok(PluginAction::Delete)
    } else {
        Err(reply_with(BAD_REQUEST, cat2("unknown action ", word)))
    }
}

#[derive(Clone, Debug)]
pub struct UploadQuery {
    pub plugin_id: String,
}

/// Whether a character may stand in the name of a package.
pub open spec fn is_id_char(c: char) -> bool {
    'a' <= c <= 'z' || 'A' <= c <= 'Z' || '0' <= c <= '9' || c == '-' || c == '_' || c == '.'
}

/// Whether a text may name a package: it is left out, or does not start with a dot
/// and holds nothing but letters, digits, `-`, `_` and `.`.
pub open spec fn is_plugin_id(s: Seq<char>) -> bool {
    s.len() == 0 || (s[0] != '.' && forall|i: int| 0 <= i < s.len() ==> is_id_char(#[trigger] s[i]))
}

/// Checks a package that is to be sent: its contents and its name without blanks
/// around it.
pub fn check_upload(package_len: usize, query: &UploadQuery) -> (r: Result<String, Reply>)
    ensures
        match r {
            Ok(id) => package_len > 0 && id@ == text::trimmed(query.plugin_id@) && is_plugin_id(id@),
            Err(e) => if package_len == 0 {
                e@ == (BAD_REQUEST, "package is empty"@)
            } else {
                !is_plugin_id(text::trimmed(query.plugin_id@)) && e@ == (BAD_REQUEST, "invalid plugin id"@)
            },
        },
{
    if package_len == 0 {
        return Err(reply(BAD_REQUEST, "package is empty"));
    }
    let id = trim(query.plugin_id.as_str());
    let chars = to_chars(id.as_str());
    if chars.len() > 0 && chars[0] == '.' {
        return Err(reply(BAD_REQUEST, "invalid plugin id"));
    }
    let mut i: usize = 0;
    while i < chars.len()
        invariant
            chars@ == id@,
            id@ == text::trimmed(query.plugin_id@),
            package_len > 0,
            i <= chars@.len(),
            forall|k: int| 0 <= k < i ==> is_id_char(#[trigger] id@[k]),
        decreases chars@.len() - i,
    {
        let c = chars[i];
        let good = ('a' <= c && c <= 'z') || ('A' <= c && c <= 'Z') || ('0' <= c && c <= '9') || c == '-' || c == '_'
            || c == '.';
        if !good {
            proof {
                assert(!is_id_char(id@[i as int]));
            }
            return Err(reply(BAD_REQUEST, "invalid plugin id"));
        }
        i += 1;
    }
    Ok(id)
}

/// The answer when the parts of an upload cannot be read.
pub fn multipart_failed(err: &str) -> (r: Reply)
    ensures
        r@ == (BAD_REQUEST, "multipart: "@ + err@),
{
    reply_with(BAD_REQUEST, cat2("multipart: ", err))
}

#[derive(Clone, Debug)]
pub struct ServiceRestartRequest {
    pub unit: String,
}

// ── Link coding ──────────────────────────────────────────────────────────────

/// How frames are coded, and how decoding has gone so far.
#[derive(Clone, Debug)]
pub struct FecStatus {
    pub default_class: String,
    pub classes: Vec<String>,
    pub verified_fast: u64,
    pub decoded_full: u64,
    pub failed: u64,
    pub header_failed: u64,
}

/// How decoding has gone so far.
#[derive(Clone, Copy, Debug, PartialEq, Eq, Structural)]
pub struct FecStats {
    pub verified_fast: u64,
    pub decoded_full: u64,
    pub failed: u64,
    pub header_failed: u64,
}

/// The codes that can be chosen.
pub open spec fn class_names() -> Seq<Seq<char>> {
    seq![
        "robust"@,
        "auto"@,
        "fast"@,
        "fastest"@,
        "tm2048"@,
        "tm1536"@,
        "tm1280"@,
        "tc512"@,
        "none"@,
    ]
}

/// The codes that can be chosen.
pub fn class_list() -> (classes: Vec<String>)
    ensures
        text::views(classes@) == class_names(),
{
    let mut classes: Vec<String> = Vec::new();
    classes.push("robust".to_owned());
    classes.push("auto".to_owned());
    classes.push("fast".to_owned());
    classes.push("fastest".to_owned());
    classes.push("tm2048".to_owned());
    classes.push("tm1536".to_owned());
    classes.push("tm1280".to_owned());
    classes.push("tc512".to_owned());
    classes.push("none".to_owned());
    proof {
        assert(text::views(classes@) =~= class_names());
    }
    classes
}

/// How frames are coded; nothing is known without a radio.
pub fn fec_status(radio: Option<(String, FecStats)>) -> (r: Result<FecStatus, Reply>)
    ensures
        match radio {
            None => r is Err && r->Err_0@ == (SERVICE_UNAVAILABLE, "radio interface not running"@),
            Some((class, stats)) => {
                &&& r is Ok
                &&& r->Ok_0.default_class == class
                &&& text::views(r->Ok_0.classes@) == class_names()
                &&& r->Ok_0.verified_fast == stats.verified_fast
                &&& r->Ok_0.decoded_full == stats.decoded_full
                &&& r->Ok_0.failed == stats.failed
                &&& r->Ok_0.header_failed == stats.header_failed
            },
        },
{
    match radio {
        None => Err(reply(SERVICE_UNAVAILABLE, "radio interface not running")),
        Some((default_class, stats)) => Ok(
            FecStatus {
                default_class,
                classes: class_list(),
                verified_fast: stats.verified_fast,
                decoded_full: stats.decoded_full,
                failed: stats.failed,
                header_failed: stats.header_failed,
            },
        ),
    }
}

#[derive(Clone, Debug)]
pub struct ClassRequest {
    pub class: String,
}

/// How frames are coded after a code was chosen, or why it was not: it has to be known, and
/// there has to be a radio.
pub fn put_fec(known: bool, radio: Option<(String, FecStats)>) -> (r: Result<FecStatus, Reply>)
    ensures
        if !known {
            r is Err && r->Err_0@ == (BAD_REQUEST, "unknown class"@)
        } else {
            match radio {
                None => r is Err && r->Err_0@ == (SERVICE_UNAVAILABLE, "radio interface not running"@),
                Some((class, stats)) => {
                    &&& r is Ok
                    &&& r->Ok_0.default_class == class
                    &&& text::views(r->Ok_0.classes@) == class_names()
                    &&& r->Ok_0.verified_fast == stats.verified_fast
                    &&& r->Ok_0.decoded_full == stats.decoded_full
                    &&& r->Ok_0.failed == stats.failed
                    &&& r->Ok_0.header_failed == stats.header_failed
                },
            }
        },
{
    if !known {
        return Err(reply(BAD_REQUEST, "unknown class"));
    }
    fec_status(radio)
}

/// What a link is used for.
#[derive(Clone, Copy, Debug, PartialEq, Eq, Structural)]
pub enum LinkClass {
    Control,
    Bulk,
    Media,
}

/// What a word says a link is used for.
pub open spec fn link_class_named(word: Seq<char>) -> Option<LinkClass> {
    if word == "control"@ {
        Some(LinkClass::Control)
    } else if word == "bulk"@ {
        Some(LinkClass::Bulk)
    } else if word == "media"@ {
        Some(LinkClass::Media)
    } else {
        None
    }
}

/// Reads what a link is used for.
pub fn link_class(request: &ClassRequest) -> (r: Result<LinkClass, Reply>)
    ensures
        match link_class_named(request.class@) {
            Some(c) => r == Ok::<LinkClass, Reply>(c),
            None => r is Err && r->Err_0@ == (BAD_REQUEST, "unknown class "@ + request.class@),
        },
{
    let word = request.class.as_str();
    if same(word, "control") {
        Ok(LinkClass::Control)
    } else if same(word, "bulk") {
        Ok(LinkClass::Bulk)
    } else if same(word, "media") {
        Ok(LinkClass::Media)
    } else {
        Err(reply_with(BAD_REQUEST, cat2("unknown class ", word)))
    }
}

/// What a change of a link's use is answered with.
pub fn class_set(request: &ClassRequest) -> (r: DetailResponse)
    ensures
        r.detail@ == "link class set to "@ + request.class@,
{
    DetailResponse { detail: cat2("link class set to ", request.class.as_str()) }
}

// ── Shell and switches ───────────────────────────────────────────────────────

#[derive(Clone, Debug)]
pub struct ShellRequest {
    pub command: String,
    pub timeout_secs: u32,
}

/// How long a command may take where nothing is said, in seconds.
pub fn default_shell_timeout() -> (r: u32)
    ensures
        r == 20,
{
    20
}

/// The node to run a command on, and the command. Only the operator has a shell, and only
/// where remote control runs; a caller on the mesh is refused before anything else is looked
/// at.
pub fn post_shell(from_mesh: bool, running: bool, hash: &str, request: ShellRequest) -> (r: Result<
    (AddressHash, ShellRequest),
    Reply,
>)
    requires
        !from_mesh && running ==> mesh::hash_readable(text::trimmed(hash@)),
    ensures
        match r {
            Ok((node, asked)) => {
                &&& !from_mesh
                &&& running
                &&& text::byte_len(text::trimmed(hash@)) >= 32
                &&& node@ == mesh::hash_bytes(text::trimmed(hash@))
                &&& asked == request
            },
            Err(e) => if from_mesh {
                e@ == vpn::mesh_refusal()
            } else if !running {
                e@ == runtime_refusal()
            } else {
                text::byte_len(text::trimmed(hash@)) < 32 && e@ == (BAD_REQUEST, "invalid node hash"@)
            },
        },
{
    match deny_mesh_client(from_mesh) {
        Ok(()) => {},
        Err(e) => {
            return Err(e);
        },
    }
    match check_runtime(running) {
        Ok(()) => {},
        Err(e) => {
            return Err(e);
        },
    }
    match parse_hash(hash) {
        Ok(node) => Ok((node, request)),
        Err(e) => Err(e),
    }
}

/// The switches of the node's features.
#[derive(Clone, Copy, Debug, PartialEq, Eq, Structural)]
pub struct FeaturesResponse {
    pub vpn_enabled: bool,
    pub remote_enabled: bool,
    pub shell_enabled: bool,
    /// Whether what is kept differs from what runs.
    pub restart_required: bool,
}

/// The switches as they are kept.
#[derive(Clone, Copy, Debug, PartialEq, Eq, Structural)]
pub struct FeatureFlags {
    pub vpn_enabled: bool,
    pub remote_enabled: bool,
    pub shell_enabled: bool,
}

/// The switches to keep. Only the operator sets them: a caller on the mesh is refused.
pub fn put_features(from_mesh: bool, request: FeatureFlags) -> (r: Result<FeatureFlags, Reply>)
    ensures
        match r {
            Ok(flags) => !from_mesh && flags == request,
            Err(e) => from_mesh && e@ == vpn::mesh_refusal(),
        },
{
    match deny_mesh_client(from_mesh) {
        Ok(()) => Ok(request),
        Err(e) => Err(e),
    }
}

/// The switches as they are shown: the shell's takes effect at once, the others
/// after a restart.
pub fn features_response(saved: FeatureFlags, shell_now: Option<bool>, remote_running: bool, vpn_running: bool) -> (r:
    FeaturesResponse)
    ensures
        r.vpn_enabled == saved.vpn_enabled,
        r.remote_enabled == saved.remote_enabled,
        r.shell_enabled == match shell_now {
            Some(on) => on,
            None => saved.shell_enabled,
        },
        r.restart_required == (saved.remote_enabled != remote_running || saved.vpn_enabled != vpn_running),
{
    FeaturesResponse {
        vpn_enabled: saved.vpn_enabled,
        remote_enabled: saved.remote_enabled,
        shell_enabled: match shell_now {
            Some(on) => on,
            None => saved.shell_enabled,
        },
        restart_required: saved.remote_enabled != remote_running || saved.vpn_enabled != vpn_running,
    }
}

// ── Media ────────────────────────────────────────────────────────────────────

/// The refusal where the media bridge does not run.
pub open spec fn bridge_refusal() -> (u16, Seq<char>) {
    (SERVICE_UNAVAILABLE, "media bridge not running"@)
}

/// Judges whether the media bridge runs at all.
pub fn check_bridge(running: bool) -> (r: Result<(), Reply>)
    ensures
        match r {
            Ok(()) => running,
            Err(e) => !running && e@ == bridge_refusal(),
        },
{
    if running {
        Ok(())
    } else {
        Err(reply(SERVICE_UNAVAILABLE, "media bridge not running"))
    }
}

/// The node to open a channel to. Only the operator opens channels, and only where the
/// media bridge runs; a caller on the mesh is refused before anything else is looked at.
pub fn post_media(from_mesh: bool, hash: &str, running: bool) -> (r: Result<AddressHash, Reply>)
    requires
        !from_mesh ==> mesh::hash_readable(text::trimmed(hash@)),
    ensures
        match r {
            Ok(node) => {
                &&& !from_mesh
                &&& running
                &&& text::byte_len(text::trimmed(hash@)) >= 32
                &&& node@ == mesh::hash_bytes(text::trimmed(hash@))
            },
            Err(e) => if from_mesh {
                e@ == vpn::mesh_refusal()
            } else if text::byte_len(text::trimmed(hash@)) < 32 {
                e@ == (BAD_REQUEST, "invalid node hash"@)
            } else {
                !running && e@ == bridge_refusal()
            },
        },
{
    match deny_mesh_client(from_mesh) {
        Ok(()) => {},
        Err(e) => {
            return Err(e);
        },
    }
    match parse_hash(hash) {
        Ok(node) => match check_bridge(running) {
            Ok(()) => Ok(node),
            Err(e) => Err(e),
        },
        Err(e) => Err(e),
    }
}

/// What opening a channel is answered with, given its addresses in words.
pub fn media_opened(stream: u8, ingress: &str, egress: &str) -> (r: DetailResponse)
    ensures
        r.detail@ == "media channel "@ + digits::decimal(stream as nat) + " open: app → "@ + ingress@
            + " → radio, radio → "@ + egress@,
{
    DetailResponse {
        detail: cat6(
            "media channel ",
            dec(stream as u64).as_str(),
            " open: app → ",
            ingress,
            " → radio, radio → ",
            egress,
        ),
    }
}

/// Closes a channel of the bridge. Only the operator may: a caller on the mesh is refused
/// and leaves the bridge as it is.
pub fn delete_media(bridge: &mut MediaBridge, from_mesh: bool, node: &AddressHash, stream: u8) -> (r: Result<
    (),
    Reply,
>)
    requires
        old(bridge).wf(),
    ensures
        final(bridge).wf(),
        final(bridge).channels@ == if from_mesh {
            old(bridge).channels@
        } else {
            old(bridge).channels@.remove(media_bridge::channel_key(node@, stream))
        },
        match r {
            Ok(()) => !from_mesh && old(bridge).is_open(node@, stream),
            Err(e) => if from_mesh {
                e@ == vpn::mesh_refusal()
            } else {
                !old(bridge).is_open(node@, stream) && e@ == (NOT_FOUND, "channel not open"@)
            },
        },
{
    match deny_mesh_client(from_mesh) {
        Ok(()) => {},
        Err(e) => {
            return Err(e);
        },
    }
    match bridge.stop(node, stream) {
        Ok(_) => Ok(()),
        Err(e) => Err(reply_with(NOT_FOUND, e)),
    }
}

/// What closing a channel is answered with, given what came of closing the stream to the
/// node.
pub fn media_closed(stream: u8, closed: Result<(), String>) -> (r: Result<DetailResponse, Reply>)
    ensures
        match closed {
            Ok(()) => r is Ok && r->Ok_0.detail@ == "media channel "@ + digits::decimal(stream as nat) + " closed"@,
            Err(e) => r is Err && r->Err_0@ == (NOT_FOUND, e@),
        },
{
    match closed {
        Ok(()) => Ok(DetailResponse { detail: cat3("media channel ", dec(stream as u64).as_str(), " closed") }),
        Err(e) => Err(reply_with(NOT_FOUND, e)),
    }
}

// ── Settings ─────────────────────────────────────────────────────────────────

/// How this node takes part in remote control.
#[derive(Clone, Copy, Debug, PartialEq, Eq, Structural)]
pub struct RemoteSettings {
    pub announce_secs: u32,
    pub accept_pairing: bool,
    /// Keep links to paired nodes up.
    pub auto_link: bool,
    pub chunk_gap_ms: u32,
    pub bulk_parity: u32,
}

/// A switch that is on where nothing is said.
pub fn default_true() -> (r: bool)
    ensures
        r,
{
    true
}

/// What the running node says of its own settings.
#[derive(Clone, Copy, Debug, PartialEq, Eq, Structural)]
pub struct LiveSettings {
    pub auto_link: bool,
    pub chunk_gap_ms: u32,
    pub bulk_parity: u32,
}

/// The settings as they are shown: what runs where it runs, and otherwise what is kept. The
/// parity of bulk transfers is told by what runs alone; without it the default is shown.
pub fn get_settings(kept: RemoteSettings, live: Option<LiveSettings>, default_parity: u32) -> (r: RemoteSettings)
    ensures
        r.announce_secs == kept.announce_secs,
        r.accept_pairing == kept.accept_pairing,
        match live {
            Some(l) => r.auto_link == l.auto_link && r.chunk_gap_ms == l.chunk_gap_ms && r.bulk_parity == l.bulk_parity,
            None => r == (RemoteSettings { bulk_parity: default_parity, ..kept }),
        },
{
    match live {
        Some(l) => RemoteSettings {
            announce_secs: kept.announce_secs,
            accept_pairing: kept.accept_pairing,
            auto_link: l.auto_link,
            chunk_gap_ms: l.chunk_gap_ms,
            bulk_parity: l.bulk_parity,
        },
        None => RemoteSettings {
            announce_secs: kept.announce_secs,
            accept_pairing: kept.accept_pairing,
            auto_link: kept.auto_link,
            chunk_gap_ms: kept.chunk_gap_ms,
            bulk_parity: default_parity,
        },
    }
}

/// The settings that a request asks for, brought into their bounds.
pub open spec fn within_bounds(request: RemoteSettings) -> RemoteSettings {
    RemoteSettings {
        announce_secs: if request.announce_secs < 5 {
            5
        } else if request.announce_secs > 255 {
            255
        } else {
            request.announce_secs
        },
        chunk_gap_ms: if request.chunk_gap_ms > 500 {
            500
        } else {
            request.chunk_gap_ms
        },
        bulk_parity: if request.bulk_parity > 8 {
            8
        } else {
            request.bulk_parity
        },
        ..request
    }
}

/// The settings that a request asks for, brought into their bounds.
pub fn put_settings(request: RemoteSettings) -> (r: RemoteSettings)
    ensures
        r == within_bounds(request),
{
    let announce_secs: u32 = if request.announce_secs < 5 {
        5
    } else if request.announce_secs > 255 {
        255
    } else {
        request.announce_secs
    };
    let chunk_gap_ms: u32 = if request.chunk_gap_ms > 500 {
        500
    } else {
        request.chunk_gap_ms
    };
    let bulk_parity: u32 = if request.bulk_parity > 8 {
        8
    } else {
        request.bulk_parity
    };
    RemoteSettings {
        announce_secs,
        accept_pairing: request.accept_pairing,
        auto_link: request.auto_link,
        chunk_gap_ms,
        bulk_parity,
    }
}

/// Settings that are in their bounds stay as they are.
pub proof fn law_bounds_are_stable(request: RemoteSettings)
    ensures
        within_bounds(within_bounds(request)) == within_bounds(request),
        5 <= within_bounds(request).announce_secs <= 255,
        within_bounds(request).chunk_gap_ms <= 500,
        within_bounds(request).bulk_parity <= 8,
{
}

/// What a change of the settings is answered with.
pub fn settings_saved(written: Result<(), String>) -> (r: Reply)
    ensures
        r@ == match written {
            Ok(()) => (
                OK,
                "Saved. Chunk pacing and paired-node links apply now; announce settings apply after the gateway restarts."@,
            ),
            Err(e) => (INTERNAL_SERVER_ERROR, e@),
        },
{
    match written {
        Ok(()) => reply(
            OK,
            "Saved. Chunk pacing and paired-node links apply now; announce settings apply after the gateway restarts.",
        ),
        Err(e) => reply_with(INTERNAL_SERVER_ERROR, e),
    }
}

// ── What the requests come to ────────────────────────────────────────────────

/// Each failure of another node has its own status.
pub proof fn law_failures_have_their_status(failure: RemoteFailure, words: String, r: Reply)
    requires
        call_ensures(remote_error, (failure, words), r),
    ensures
        r@.1 == words@,
        r@.0 == 403 <==> failure == RemoteFailure::Unauthorized,
        r@.0 == 404 <==> failure == RemoteFailure::NotFound,
        r@.0 == 400 <==> failure == RemoteFailure::BadRequest,
        r@.0 == 501 <==> failure == RemoteFailure::Unsupported,
        r@.0 == 409 <==> failure == RemoteFailure::Busy,
        r@.0 == 502 <==> failure == RemoteFailure::Other,
{
}

/// The address of a node is the sixteen bytes that its 32 hexadecimal digits write, whatever white space
/// stands around them.
pub proof fn law_addresses_are_read(hash: &str, r: Result<AddressHash, Reply>, i: int)
    requires
        mesh::hash_readable(text::trimmed(hash@)),
        call_ensures(parse_hash, (hash,), r),
        0 <= i < 16,
    ensures
        ({
            let raw = text::trimmed(hash@);
            &&& raw.len() == 32 && digits::all_hex(raw) ==> r is Ok && r->Ok_0@[i] == 16 * digits::hex_value(raw[2 * i])->0
                + digits::hex_value(raw[2 * i + 1])->0
            &&& text::byte_len(raw) < 32 ==> r is Err && r->Err_0@.0 == 400
            &&& text::byte_len(raw) >= 32 ==> r is Ok
        }),
{
    let raw = text::trimmed(hash@);
    if raw.len() == 32 && digits::all_hex(raw) {
        mesh::law_hash_text_normalises(raw);
        assert(digits::hex_value(raw[2 * i]) is Some && digits::hex_value(raw[2 * i + 1]) is Some);
    }
}

/// A label is kept without white space around it and without control characters, in its order, and cut
/// after 48 characters.
pub proof fn law_labels_are_kept_in_order(tag: &str, r: String)
    requires
        call_ensures(clean_tag, (tag,), r),
    ensures
        ({
            let clean = text::trimmed(tag@).filter(
                |c: char| !((c as u32) < 0x20 || 0x7F <= (c as u32) <= 0x9F),
            );
            &&& clean.len() <= 48 ==> r@ == clean
            &&& clean.len() > 48 ==> r@ == clean.take(48)
        }),
{
    lemma_controls(text::trimmed(tag@));
}

proof fn lemma_controls(s: Seq<char>)
    ensures
        without_controls(s) == s.filter(|c: char| !((c as u32) < 0x20 || 0x7F <= (c as u32) <= 0x9F)),
    decreases s.len(),
{
    reveal(Seq::filter);
    if s.len() > 0 {
        lemma_controls(s.drop_last());
    } else {
        assert(s.filter(|c: char| !((c as u32) < 0x20 || 0x7F <= (c as u32) <= 0x9F)) =~= s);
    }
}

/// A label goes to the node that was named, and a blank label clears.
pub proof fn law_labels_go_to_their_node(hash: &str, request: &TagRequest, r: Result<(AddressHash, String), Reply>, node: Result<AddressHash, Reply>, given: &str, tag: String, said: DetailResponse)
    requires
        mesh::hash_readable(text::trimmed(hash@)),
        call_ensures(put_node_tag, (hash, request), r),
        call_ensures(parse_hash, (hash,), node),
        given@ == request.tag@,
        call_ensures(clean_tag, (given,), tag),
        call_ensures(tag_saved, (given,), said),
    ensures
        r is Ok <==> node is Ok,
        r matches Ok((n, t)) ==> n@ == node->Ok_0@ && t@ == tag@,
        given@.len() == 0 ==> said.detail@ == "Tag cleared"@,
        given@.len() > 0 ==> said.detail@ == "Tagged as "@ + given@,
{
}

/// A caller on the mesh is refused whatever widens the powers of other nodes, before anything else is
/// looked at; the same requests from the device are not refused for that.
pub proof fn law_the_mesh_widens_nothing(
    from_mesh: bool,
    add: &AddNodeRequest,
    r1: Result<String, Reply>,
    hash: &str,
    shell: ShellRequest,
    r2: Result<(AddressHash, ShellRequest), Reply>,
    flags: FeatureFlags,
    r3: Result<FeatureFlags, Reply>,
    r4: Result<AddressHash, Reply>,
    bridge: &mut MediaBridge,
    node: &AddressHash,
    stream: u8,
    r5: Result<(), Reply>,
)
    requires
        old(bridge).wf(),
        !from_mesh ==> mesh::hash_readable(text::trimmed(hash@)),
        call_ensures(post_add_node, (from_mesh, true, add), r1),
        call_ensures(post_shell, (from_mesh, true, hash, shell), r2),
        call_ensures(put_features, (from_mesh, flags), r3),
        call_ensures(post_media, (from_mesh, hash, true), r4),
        call_ensures(delete_media, (bridge, from_mesh, node, stream), r5),
    ensures
        from_mesh ==> {
            &&& r1 is Err && r1->Err_0@.0 == 403
            &&& r2 is Err && r2->Err_0@.0 == 403
            &&& r3 is Err && r3->Err_0@.0 == 403
            &&& r4 is Err && r4->Err_0@.0 == 403
            &&& r5 is Err && r5->Err_0@.0 == 403
            &&& final(bridge).channels@ == old(bridge).channels@
        },
        !from_mesh ==> {
            &&& r1 is Ok
            &&& text::byte_len(text::trimmed(hash@)) >= 32 ==> r2 is Ok && r2->Ok_0.1 == shell && r4 is Ok
            &&& r3 == Ok::<FeatureFlags, Reply>(flags)
            &&& r5 is Ok <==> old(bridge).is_open(node@, stream)
            &&& !final(bridge).is_open(node@, stream)
        },
{
}

/// Without remote control nothing is asked of other nodes, and without the bridge no channel is opened.
pub proof fn law_nothing_runs_without_its_service(add: &AddNodeRequest, r1: Result<String, Reply>, hash: &str, shell: ShellRequest, r2: Result<(AddressHash, ShellRequest), Reply>, r4: Result<AddressHash, Reply>)
    requires
        mesh::hash_readable(text::trimmed(hash@)),
        text::byte_len(text::trimmed(hash@)) >= 32,
        call_ensures(post_add_node, (false, false, add), r1),
        call_ensures(post_shell, (false, false, hash, shell), r2),
        call_ensures(post_media, (false, hash, false), r4),
    ensures
        r1 is Err && r1->Err_0@.0 == 503,
        r2 is Err && r2->Err_0@.0 == 503,
        r4 is Err && r4->Err_0@.0 == 503,
{
}

/// A node that was added is answered for under its own address and name, with what came of the request
/// for pairing: nothing where none was made or it did not go out, and else the state in lower case.
pub proof fn law_added_nodes_are_answered_for(node: &AddressHash, codename: String, pairing: Option<Result<String, String>>, r: AddNodeResponse)
    requires
        call_ensures(node_added, (node, codename, pairing), r),
    ensures
        r.identity_hash@ == digits::hex_of(node@),
        r.codename@ == codename@,
        pairing is None || pairing->0 is Err ==> r.pairing@ == "none"@,
        pairing is Some && pairing->0 is Ok ==> r.pairing@ == text::lowercase_of(pairing->0->Ok_0@),
        pairing is None && codename@.len() > 0 ==> r.detail@ == codename@ + " added"@,
        pairing is None && codename@.len() == 0 ==> r.detail@ == r.identity_hash@ + " added"@,
        pairing is Some && pairing->0 is Err ==> r.detail@ == "added, but the request did not go out yet: "@
            + pairing->0->Err_0@,
{
}

/// A node is called by its name in normal form where it has one, and else as it was given, without white
/// space around it.
pub proof fn law_nodes_are_called_by_name(request: &AddNodeRequest, normalized: Option<String>, r: String)
    requires
        call_ensures(node_codename, (request, normalized), r),
    ensures
        normalized matches Some(n) ==> r@ == n@,
        normalized is None ==> r@ == text::trimmed(request.codename@),
{
}

/// Each decision about a pairing is answered by its own words.
pub proof fn law_pairing_decisions(step: PairingStep, r: DetailResponse)
    requires
        call_ensures(pairing_done, (step,), r),
    ensures
        step == PairingStep::Approve ==> r.detail@ == "pairing approved"@,
        step == PairingStep::Reject ==> r.detail@ == "pairing rejected"@,
        step == PairingStep::Cancel ==> r.detail@ == "request cancelled"@,
        step == PairingStep::Unpair ==> r.detail@ == "unpaired"@,
{
}

/// Each action has its own word, and any other word is refused.
pub proof fn law_actions_have_their_word(word: &str, r: Result<PluginAction, Reply>)
    requires
        call_ensures(plugin_action, (word,), r),
    ensures
        r == Ok::<PluginAction, Reply>(PluginAction::Start) <==> word@ == "start"@,
        r == Ok::<PluginAction, Reply>(PluginAction::Stop) <==> word@ == "stop"@,
        r == Ok::<PluginAction, Reply>(PluginAction::Restart) <==> word@ == "restart"@,
        r == Ok::<PluginAction, Reply>(PluginAction::Delete) <==> word@ == "delete"@,
        r matches Err(e) ==> e@.0 == 400,
{
    reveal_strlit("start");
    reveal_strlit("stop");
    reveal_strlit("restart");
    reveal_strlit("delete");
    assert("start"@.len() == 5 && "stop"@.len() == 4 && "restart"@.len() == 7 && "delete"@.len() == 6);
}

/// A package is sent exactly where it has contents and its name, if it has one, is of letters, digits,
/// dashes, underscores and dots and does not start with a dot.
pub proof fn law_packages_have_contents_and_a_plain_name(len: usize, query: &UploadQuery, r: Result<String, Reply>)
    requires
        call_ensures(check_upload, (len, query), r),
    ensures
        ({
            let id = text::trimmed(query.plugin_id@);
            &&& r is Ok <==> {
                &&& len > 0
                &&& id.len() > 0 ==> id[0] != '.'
                &&& forall|i: int|
                    0 <= i < id.len() ==> {
                        let c = #[trigger] id[i];
                        ('a' <= c <= 'z') || ('A' <= c <= 'Z') || ('0' <= c <= '9') || c == '-' || c == '_' || c == '.'
                    }
            }
            &&& r matches Ok(name) ==> name@ == id && !id.contains('/')
            &&& r matches Err(e) ==> e@.0 == 400
        }),
{
    let id = text::trimmed(query.plugin_id@);
    if r is Ok {
        assert forall|i: int| 0 <= i < id.len() implies is_id_char(#[trigger] id[i]) by {}
        assert forall|i: int| 0 <= i < id.len() implies ({
            let c = #[trigger] id[i];
            ('a' <= c <= 'z') || ('A' <= c <= 'Z') || ('0' <= c <= '9') || c == '-' || c == '_' || c == '.'
        }) by {
            assert(is_id_char(id[i]));
        }
    }
    if forall|i: int|
        0 <= i < id.len() ==> {
            let c = #[trigger] id[i];
            ('a' <= c <= 'z') || ('A' <= c <= 'Z') || ('0' <= c <= '9') || c == '-' || c == '_' || c == '.'
        } {
        assert forall|i: int| 0 <= i < id.len() implies is_id_char(#[trigger] id[i]) by {}
    }
}

/// How decoding has gone is shown count by count, with the code in force; a code is chosen exactly where
/// it is known and there is a radio.
pub proof fn law_codes_are_shown_and_chosen(known: bool, radio: Option<(String, FecStats)>, r: Result<FecStatus, Reply>, chosen: Result<FecStatus, Reply>)
    requires
        call_ensures(fec_status, (radio,), r),
        call_ensures(put_fec, (known, radio), chosen),
    ensures
        r is Ok <==> radio is Some,
        r matches Err(e) ==> e@.0 == 503,
        radio matches Some((class, stats)) ==> {
            &&& r->Ok_0.default_class == class
            &&& r->Ok_0.verified_fast == stats.verified_fast
            &&& r->Ok_0.decoded_full == stats.decoded_full
            &&& r->Ok_0.failed == stats.failed
            &&& r->Ok_0.header_failed == stats.header_failed
            &&& known ==> chosen->Ok_0.default_class == class && chosen->Ok_0.failed == stats.failed
        },
        chosen is Ok <==> known && radio is Some,
        !known ==> chosen->Err_0@.0 == 400,
{
}

/// Each use of a link has its own word, and any other word is refused.
pub proof fn law_link_uses_have_their_word(request: &ClassRequest, r: Result<LinkClass, Reply>, said: DetailResponse)
    requires
        call_ensures(link_class, (request,), r),
        call_ensures(class_set, (request,), said),
    ensures
        r == Ok::<LinkClass, Reply>(LinkClass::Control) <==> request.class@ == "control"@,
        r == Ok::<LinkClass, Reply>(LinkClass::Bulk) <==> request.class@ == "bulk"@,
        r == Ok::<LinkClass, Reply>(LinkClass::Media) <==> request.class@ == "media"@,
        r matches Err(e) ==> e@.0 == 400,
        said.detail@ == "link class set to "@ + request.class@,
{
    reveal_strlit("control");
    reveal_strlit("bulk");
    reveal_strlit("media");
    assert("control"@.len() == 7 && "bulk"@.len() == 4 && "media"@.len() == 5);
}

/// The switches are shown as they are kept, the shell's as it is now; a restart is asked for exactly where
/// remote control or the tunnel runs otherwise than it is kept.
pub proof fn law_switches_are_shown(saved: FeatureFlags, shell_now: Option<bool>, remote: bool, vpn_runs: bool, r: FeaturesResponse)
    requires
        call_ensures(features_response, (saved, shell_now, remote, vpn_runs), r),
    ensures
        r.vpn_enabled == saved.vpn_enabled && r.remote_enabled == saved.remote_enabled,
        shell_now is Some ==> Some(r.shell_enabled) == shell_now,
        shell_now is None ==> r.shell_enabled == saved.shell_enabled,
        !r.restart_required <==> remote == saved.remote_enabled && vpn_runs == saved.vpn_enabled,
{
}

/// Settings are shown as they run, where they run; what is only announced is shown as it is kept.
pub proof fn law_settings_are_shown_as_they_run(kept: RemoteSettings, live: Option<LiveSettings>, parity: u32, r: RemoteSettings)
    requires
        call_ensures(get_settings, (kept, live, parity), r),
    ensures
        r.announce_secs == kept.announce_secs && r.accept_pairing == kept.accept_pairing,
        live matches Some(l) ==> r.auto_link == l.auto_link && r.chunk_gap_ms == l.chunk_gap_ms && r.bulk_parity == l.bulk_parity,
        live is None ==> r.auto_link == kept.auto_link && r.chunk_gap_ms == kept.chunk_gap_ms && r.bulk_parity == parity,
{
}

/// Settings are kept as they were asked for where they are in their bounds, and at the nearest bound where
/// they are not; switches are kept as they were asked for.
pub proof fn law_settings_are_kept_within_bounds(request: RemoteSettings, r: RemoteSettings)
    requires
        call_ensures(put_settings, (request,), r),
    ensures
        media_bridge::is_nearest(r.announce_secs as u64, request.announce_secs as u64, 5, 255),
        media_bridge::is_nearest(r.chunk_gap_ms as u64, request.chunk_gap_ms as u64, 0, 500),
        media_bridge::is_nearest(r.bulk_parity as u64, request.bulk_parity as u64, 0, 8),
        r.accept_pairing == request.accept_pairing && r.auto_link == request.auto_link,
{
}

/// Each check passes exactly where its condition holds and has its own status where it does not.
pub proof fn law_checks_have_their_status(
    flag: bool,
    runtime: Result<(), Reply>,
    mesh_client: Result<(), Reply>,
    identity: Result<(), Reply>,
    bridge: Result<(), Reply>,
)
    requires
        call_ensures(check_runtime, (flag,), runtime),
        call_ensures(deny_mesh_client, (flag,), mesh_client),
        call_ensures(check_identity, (flag,), identity),
        call_ensures(check_bridge, (flag,), bridge),
    ensures
        runtime is Ok <==> flag,
        mesh_client is Ok <==> !flag,
        identity is Ok <==> flag,
        bridge is Ok <==> flag,
        runtime matches Err(e) ==> e@.0 == 503,
        mesh_client matches Err(e) ==> e@.0 == 403,
        identity matches Err(e) ==> e@.0 == 400,
        bridge matches Err(e) ==> e@.0 == 503,
{
}

/// A channel is answered for by its number: where it was opened with both of its ends, in this order, and
/// where it was not there to be closed with what was said of that.
pub proof fn law_channels_are_answered_for(
    stream: u8,
    ingress: &str,
    egress: &str,
    opened: DetailResponse,
    closed: Result<(), String>,
    r: Result<DetailResponse, Reply>,
)
    requires
        call_ensures(media_opened, (stream, ingress, egress), opened),
        call_ensures(media_closed, (stream, closed), r),
    ensures
        opened.detail@ == "media channel "@ + digits::decimal(stream as nat) + " open: app → "@ + ingress@
            + " → radio, radio → "@ + egress@,
        r is Ok <==> closed is Ok,
        r is Ok ==> r->Ok_0.detail@ == "media channel "@ + digits::decimal(stream as nat) + " closed"@,
        closed matches Err(e) ==> r->Err_0@ == (404u16, e@),
{
}

/// The code of a node is read in lower case and without white space around it.
pub proof fn law_codes_are_in_lower_case(request: &AddNodeRequest, r: String)
    requires
        call_ensures(identity_text, (request,), r),
    ensures
        r@ == text::lowercase_of(text::trimmed(request.identity_hex@)),
{
}

} // verus!
