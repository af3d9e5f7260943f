//! Requests that are passed on to the installer on the same device.

use vstd::prelude::*;

use crate::reply::{reply_with, Reply, BAD_GATEWAY, BAD_REQUEST, INTERNAL_SERVER_ERROR};
use crate::text;
use crate::text::{cat2, cat3, cat4};

verus! {

/// Which of its surfaces the installer is asked through.
#[derive(Clone, Copy, Debug, PartialEq, Eq, Structural)]
pub enum Surface {
    Installer,
    Update,
}

/// What is asked of the installer.
#[derive(Clone, Debug)]
pub enum InstallerRequest {
    Version { surface: Surface, target: String },
    Upload { surface: Surface, target: String },
    ListPlugins,
    InstallPlugin,
    UploadPlugin { plugin_id: String },
    StartPlugin { plugin_id: String },
    StopPlugin { plugin_id: String },
    RestartPlugin { plugin_id: String },
    DeletePlugin { plugin_id: String },
}

/// How a request is made.
#[derive(Clone, Copy, Debug, PartialEq, Eq, Structural)]
pub enum HttpMethod {
    Get,
    Post,
    Delete,
}

/// Where the installer listens.
pub open spec fn base_url() -> Seq<char> {
    "http://127.0.0.1:8682"@
}

/// The start of a surface's paths.
pub open spec fn surface_path(surface: Surface) -> Seq<char> {
    match surface {
        Surface::Installer => "/api/installer/"@,
        Surface::Update => "/api/update/"@,
    }
}

/// The path of a request.
pub open spec fn path_of(request: InstallerRequest) -> Seq<char> {
    match request {
        InstallerRequest::Version { surface, target } => surface_path(surface) + target@ + "/version"@,
        InstallerRequest::Upload { surface, target } => surface_path(surface) + target@ + "/upload"@,
        InstallerRequest::ListPlugins => "/api/plugins"@,
        InstallerRequest::InstallPlugin => "/api/plugins/install"@,
        InstallerRequest::UploadPlugin { plugin_id } => "/api/plugins/"@ + plugin_id@ + "/upload"@,
        InstallerRequest::StartPlugin { plugin_id } => "/api/plugins/"@ + plugin_id@ + "/start"@,
        InstallerRequest::StopPlugin { plugin_id } => "/api/plugins/"@ + plugin_id@ + "/stop"@,
        InstallerRequest::RestartPlugin { plugin_id } => "/api/plugins/"@ + plugin_id@ + "/restart"@,
        InstallerRequest::DeletePlugin { plugin_id } => "/api/plugins/"@ + plugin_id@,
    }
}

/// The way a request is made.
pub open spec fn method_of(request: InstallerRequest) -> HttpMethod {
    match request {
        InstallerRequest::Version { .. } => HttpMethod::Get,
        InstallerRequest::ListPlugins => HttpMethod::Get,
        InstallerRequest::DeletePlugin { .. } => HttpMethod::Delete,
        _ => HttpMethod::Post,
    }
}

/// The start of a surface's paths.
fn surface_text(surface: Surface) -> (r: &'static str)
    ensures
        r@ == surface_path(surface),
{
    match surface {
        Surface::Installer => "/api/installer/",
        Surface::Update => "/api/update/",
    }
}

/// How a request is made and where to.
pub fn proxy_target(request: &InstallerRequest) -> (r: (HttpMethod, String))
    ensures
        r.0 == method_of(*request),
        r.1@ == base_url() + path_of(*request),
{
    let (method, path): (HttpMethod, String) = match request {
        InstallerRequest::Version { surface, target } => (
            HttpMethod::Get,
            cat3(surface_text(*surface), target.as_str(), "/version"),
        ),
        InstallerRequest::Upload { surface, target } => (
            HttpMethod::Post,
            cat3(surface_text(*surface), target.as_str(), "/upload"),
        ),
        InstallerRequest::ListPlugins => (HttpMethod::Get, "/api/plugins".to_owned()),
        InstallerRequest::InstallPlugin => (HttpMethod::Post, "/api/plugins/install".to_owned()),
        InstallerRequest::UploadPlugin { plugin_id } => (
            HttpMethod::Post,
            cat3("/api/plugins/", plugin_id.as_str(), "/upload"),
        ),
        InstallerRequest::StartPlugin { plugin_id } => (
            HttpMethod::Post,
            cat3("/api/plugins/", plugin_id.as_str(), "/start"),
        ),
        InstallerRequest::StopPlugin { plugin_id } => (
            HttpMethod::Post,
            cat3("/api/plugins/", plugin_id.as_str(), "/stop"),
        ),
        InstallerRequest::RestartPlugin { plugin_id } => (
            HttpMethod::Post,
            cat3("/api/plugins/", plugin_id.as_str(), "/restart"),
        ),
        InstallerRequest::DeletePlugin { plugin_id } => (
            HttpMethod::Delete,
            cat2("/api/plugins/", plugin_id.as_str()),
        ),
    };
    (method, cat2("http://127.0.0.1:8682", path.as_str()))
}

/// Requests go to the installer on the same device and nowhere else.
pub proof fn law_requests_stay_on_device(request: InstallerRequest)
    ensures
        text::begins_with(base_url() + path_of(request), "http://127.0.0.1:8682/"@),
{
    reveal_strlit("http://127.0.0.1:8682");
    reveal_strlit("http://127.0.0.1:8682/");
    reveal_strlit("/api/installer/");
    reveal_strlit("/api/update/");
    reveal_strlit("/api/plugins");
    reveal_strlit("/api/plugins/");
    reveal_strlit("/api/plugins/install");
    let url = base_url() + path_of(request);
    assert(path_of(request).len() > 0 && path_of(request)[0] == '/');
    assert(url.subrange(0, 22) =~= "http://127.0.0.1:8682/"@);
}

/// The kind that an upload is passed on with: what the caller says. Where it says nothing,
/// an update is raw bytes and the installer is told nothing.
pub fn upload_content_type(surface: Surface, offered: Option<String>) -> (r: Option<String>)
    ensures
        text::view_opt(r) == match offered {
            Some(t) => Some(t@),
            None => match surface {
                Surface::Installer => None,
                Surface::Update => Some("application/octet-stream"@),
            },
        },
{
    match offered {
        Some(t) => Some(t),
        None => match surface {
            Surface::Installer => None,
            Surface::Update => Some("application/octet-stream".to_owned()),
        },
    }
}

/// The answer when what is uploaded cannot be read.
pub fn body_failed(err: &str) -> (r: Reply)
    ensures
        r@ == (BAD_REQUEST, "failed to read body: "@ + err@),
{
    reply_with(BAD_REQUEST, cat2("failed to read body: ", err))
}

/// The installer's answer: its status code, where it is one, and its text.
pub open spec fn passed_on(status: u16, body: Seq<char>) -> (u16, Seq<char>) {
    (
        if 100 <= status < 1000 {
            status
        } else {
            INTERNAL_SERVER_ERROR
        },
        body,
    )
}

/// What a request is answered with: the installer's answer, or that it cannot be
/// reached.
pub fn proxy_answer(surface: Surface, answer: Result<(u16, String), String>) -> (r: Reply)
    ensures
        r@ == match answer {
            Ok((status, body)) => passed_on(status, body@),
            Err(e) => (
                BAD_GATEWAY,
                "{\"detail\":\""@ + (match surface {
                    Surface::Installer => "kaonic-installer unreachable: "@,
                    Surface::Update => "kaonic-update unreachable: "@,
                }) + e@ + "\"}"@,
            ),
        },
{
    match answer {
        Ok((status, body)) => {
            let code: u16 = if 100 <= status && status < 1000 {
                status
            } else {
                INTERNAL_SERVER_ERROR
            };
            reply_with(code, body)
        },
        Err(e) => {
            let who = match surface {
                Surface::Installer => "kaonic-installer unreachable: ",
                Surface::Update => "kaonic-update unreachable: ",
            };
            reply_with(BAD_GATEWAY, cat4("{\"detail\":\"", who, e.as_str(), "\"}"))
        },
    }
}

// ── What is passed on ────────────────────────────────────────────────────────

/// What is asked of a plugin names the plugin and says what is asked: starting, stopping, restarting and
/// uploading are posted to a path of the plugin's own, and deleting is asked of the plugin itself.
pub proof fn law_plugins_are_asked_by_name(id: String, request: &InstallerRequest, r: (HttpMethod, String))
    requires
        call_ensures(proxy_target, (request,), r),
    ensures
        ({
            let plugin = "http://127.0.0.1:8682"@ + ("/api/plugins/"@ + id@);
            &&& *request == (InstallerRequest::StartPlugin { plugin_id: id }) ==> r.0 == HttpMethod::Post && r.1@ == plugin
                + "/start"@
            &&& *request == (InstallerRequest::StopPlugin { plugin_id: id }) ==> r.0 == HttpMethod::Post && r.1@ == plugin
                + "/stop"@
            &&& *request == (InstallerRequest::RestartPlugin { plugin_id: id }) ==> r.0 == HttpMethod::Post && r.1@ == plugin
                + "/restart"@
            &&& *request == (InstallerRequest::UploadPlugin { plugin_id: id }) ==> r.0 == HttpMethod::Post && r.1@ == plugin
                + "/upload"@
            &&& *request == (InstallerRequest::DeletePlugin { plugin_id: id }) ==> r.0 == HttpMethod::Delete && r.1@ == plugin
            &&& *request == InstallerRequest::ListPlugins ==> r.0 == HttpMethod::Get && r.1@ == "http://127.0.0.1:8682"@
                + "/api/plugins"@
            &&& *request == InstallerRequest::InstallPlugin ==> r.0 == HttpMethod::Post && r.1@ == "http://127.0.0.1:8682"@
                + "/api/plugins/install"@
        }),
{
    let base = "http://127.0.0.1:8682"@;
    let head = "/api/plugins/"@ + id@;
    assert(base + (head + "/start"@) =~= (base + head) + "/start"@);
    assert(base + (head + "/stop"@) =~= (base + head) + "/stop"@);
    assert(base + (head + "/restart"@) =~= (base + head) + "/restart"@);
    assert(base + (head + "/upload"@) =~= (base + head) + "/upload"@);
}

/// A version is fetched and an upload posted, each for its own target through its own surface.
pub proof fn law_targets_are_asked_through_their_surface(surface: Surface, target: String, request: &InstallerRequest, r: (HttpMethod, String))
    requires
        call_ensures(proxy_target, (request,), r),
    ensures
        ({
            let head = "http://127.0.0.1:8682"@ + ((if surface == Surface::Update {
                "/api/update/"@
            } else {
                "/api/installer/"@
            }) + target@);
            &&& *request == (InstallerRequest::Version { surface, target }) ==> r.0 == HttpMethod::Get && r.1@ == head
                + "/version"@
            &&& *request == (InstallerRequest::Upload { surface, target }) ==> r.0 == HttpMethod::Post && r.1@ == head
                + "/upload"@
        }),
{
    let base = "http://127.0.0.1:8682"@;
    let head = (if surface == Surface::Update {
        "/api/update/"@
    } else {
        "/api/installer/"@
    }) + target@;
    assert(base + (head + "/version"@) =~= (base + head) + "/version"@);
    assert(base + (head + "/upload"@) =~= (base + head) + "/upload"@);
}

/// Only what reads is asked for with a get; what changes something never is.
pub proof fn law_gets_change_nothing(request: &InstallerRequest, r: (HttpMethod, String))
    requires
        call_ensures(proxy_target, (request,), r),
    ensures
        r.0 == HttpMethod::Get <==> *request is Version || *request is ListPlugins,
        r.0 == HttpMethod::Delete <==> *request is DeletePlugin,
{
}

/// The installer's answer comes through unchanged; where it has none, the caller learns that the
/// installer is out of reach.
pub proof fn law_answers_come_through(surface: Surface, answer: Result<(u16, String), String>, r: Reply)
    requires
        call_ensures(proxy_answer, (surface, answer), r),
    ensures
        answer matches Ok((status, body)) ==> 100 <= status <= 999 ==> r@ == (status, body@),
        answer matches Ok((status, body)) ==> !(100 <= status <= 999) ==> r@ == (500u16, body@),
        answer is Err ==> r@.0 == 502,
{
}

/// What the caller says of an upload is passed on; an update without a word is raw bytes.
pub proof fn law_kinds_of_uploads_are_passed_on(surface: Surface, offered: Option<String>, r: Option<String>)
    requires
        call_ensures(upload_content_type, (surface, offered), r),
    ensures
        offered matches Some(t) ==> r is Some && r->0@ == t@,
        offered is None && surface == Surface::Update ==> r is Some && r->0@ == "application/octet-stream"@,
        offered is None && surface == Surface::Installer ==> r is None,
{
}

/// A service that cannot be reached is named in the answer, with what was said of it.
pub proof fn law_unreachable_services_are_named(surface: Surface, err: String, r: Reply)
    requires
        call_ensures(proxy_answer, (surface, Err::<(u16, String), String>(err)), r),
    ensures
        r@.0 == 502,
        surface is Installer ==> r@.1 == "{\"detail\":\""@ + "kaonic-installer unreachable: "@ + err@ + "\"}"@,
        surface is Update ==> r@.1 == "{\"detail\":\""@ + "kaonic-update unreachable: "@ + err@ + "\"}"@,
{
}

} // verus!
