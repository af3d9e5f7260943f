//! The cards of the system page.

use vstd::prelude::*;

use crate::text;
use crate::text::{cat2, cat3, cat6, take_bytes, utf8_len};

verus! {

/// What is known of an installed component.
#[derive(Clone, Debug)]
pub struct VersionInfo {
    pub version: Option<String>,
    pub hash: Option<String>,
}

/// The installed components.
#[derive(Clone, Debug)]
pub struct Versions {
    pub commd: VersionInfo,
    pub gateway: VersionInfo,
}

/// What is known of a component that could not be asked.
pub fn unknown_version() -> (r: VersionInfo)
    ensures
        r == (VersionInfo { version: None, hash: None }),
{
    VersionInfo { version: None, hash: None }
}

/// The components as the updater described them; one whose description did not come
/// or could not be read is unknown.
pub fn collect_versions(commd: Option<VersionInfo>, gateway: Option<VersionInfo>) -> (r: Versions)
    ensures
        r.commd == match commd {
            Some(v) => v,
            None => VersionInfo { version: None, hash: None },
        },
        r.gateway == match gateway {
            Some(v) => v,
            None => VersionInfo { version: None, hash: None },
        },
{
    Versions {
        commd: match commd {
            Some(v) => v,
            None => unknown_version(),
        },
        gateway: match gateway {
            Some(v) => v,
            None => unknown_version(),
        },
    }
}

/// Where the updater tells the version of a component.
pub fn version_url(target: &str) -> (r: String)
    ensures
        r@ == "http://127.0.0.1:8682/api/update/"@ + target@ + "/version"@,
{
    cat3("http://127.0.0.1:8682/api/update/", target, "/version")
}

/// What the card of a component shows.
#[derive(Clone, Debug)]
pub struct UpdateCard {
    pub version_text: String,
    pub hash_text: String,
    /// The script that uploads an archive.
    pub onclick: String,
}

/// The version of a component, or that it is unknown.
pub open spec fn version_label(version: Option<Seq<char>>) -> Seq<char> {
    match version {
        Some(v) => v,
        None => "Unknown"@,
    }
}

/// The first sixteen bytes of a digest, or a dash.
pub open spec fn hash_label(hash: Option<Seq<char>>) -> Seq<char> {
    match hash {
        Some(h) => if text::byte_len(h) <= 16 {
            h + "…"@
        } else {
            text::byte_prefix(h, 16)->Some_0 + "…"@
        },
        None => "—"@,
    }
}

/// Whether a digest can be cut after sixteen bytes: no character straddles them.
pub open spec fn cuttable(hash: Seq<char>) -> bool {
    text::byte_len(hash) <= 16 || text::byte_prefix(hash, 16) is Some
}

/// The card of a component.
pub fn update_card(target: &str, file_id: &str, status_id: &str, info: &VersionInfo) -> (r: UpdateCard)
    requires
        info.hash is Some ==> cuttable(info.hash->Some_0@),
    ensures
        r.version_text@ == version_label(text::view_opt(info.version)),
        r.hash_text@ == hash_label(text::view_opt(info.hash)),
        r.onclick@ == "kaonic_upload('"@ + target@ + "', '"@ + file_id@ + "', '"@ + status_id@ + "')"@,
{
    let version_text = match &info.version {
        Some(v) => v.clone(),
        None => "Unknown".to_owned(),
    };
    let hash_text = match &info.hash {
        Some(h) => {
            let start = if utf8_len(h.as_str()) <= 16 {
                h.clone()
            } else {
                match take_bytes(h.as_str(), 16) {
                    Some(start) => start,
                    None => h.clone(),
                }
            };
            cat2(start.as_str(), "…")
        },
        None => "—".to_owned(),
    };
    let call = cat6("kaonic_upload('", target, "', '", file_id, "', '", status_id);
    UpdateCard { version_text, hash_text, onclick: cat2(call.as_str(), "')") }
}

/// A component is shown with the version that it told, and with the start of its digest: all of it up to
/// sixteen bytes, or the characters that take up the first sixteen. The script names the component, the
/// file and the place of the answer, in this order.
pub proof fn law_component_is_shown(target: &str, file: &str, place: &str, info: &VersionInfo, r: UpdateCard, k: int)
    requires
        info.hash is Some ==> cuttable(info.hash->Some_0@),
        call_ensures(update_card, (target, file, place, info), r),
    ensures
        info.version is Some ==> r.version_text@ == info.version->0@,
        info.version is None ==> r.version_text@ == "Unknown"@,
        info.hash is None ==> r.hash_text@ == "—"@,
        info.hash is Some && text::byte_len(info.hash->0@) <= 16 ==> r.hash_text@ == info.hash->0@ + "…"@,
        info.hash is Some && 0 <= k <= info.hash->0@.len() && text::byte_len(info.hash->0@) > 16 && text::byte_len(
            info.hash->0@.take(k),
        ) == 16 ==> r.hash_text@ == info.hash->0@.take(k) + "…"@,
        r.onclick@ == "kaonic_upload('"@ + target@ + "', '"@ + file@ + "', '"@ + place@ + "')"@,
{
    if info.hash is Some {
        text::lemma_byte_prefix(info.hash->0@, 16, k);
    }
}

/// What a component told is kept, each for itself, and one that told nothing is unknown.
pub proof fn law_versions_are_kept(commd: Option<VersionInfo>, gateway: Option<VersionInfo>, r: Versions)
    requires
        call_ensures(collect_versions, (commd, gateway), r),
    ensures
        commd is Some ==> r.commd == commd->0,
        gateway is Some ==> r.gateway == gateway->0,
        commd is None ==> r.commd.version is None && r.commd.hash is None,
        gateway is None ==> r.gateway.version is None && r.gateway.hash is None,
{
}

/// Components that are called differently are asked at different places.
pub proof fn law_components_are_asked_apart(a: &str, b: &str, x: String, y: String)
    requires
        call_ensures(version_url, (a,), x),
        call_ensures(version_url, (b,), y),
    ensures
        x@ == y@ ==> a@ == b@,
        x@.len() == 33 + a@.len() + 8,
        x@.subrange(33, 33 + a@.len() as int) == a@,
{
    reveal_strlit("http://127.0.0.1:8682/api/update/");
    reveal_strlit("/version");
    assert(x@.subrange(33, 33 + a@.len() as int) =~= a@);
    assert(y@.subrange(33, 33 + b@.len() as int) =~= b@);
}

} // verus!
