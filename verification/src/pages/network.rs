//! The network page.

use vstd::prelude::*;

use crate::text;
use crate::text::same;

verus! {

/// The state of the wireless interface.
#[derive(Clone, Debug)]
pub struct WifiStatus {
    /// `sta` for a station; anything else is an access point.
    pub mode: String,
    pub connected_ssid: Option<String>,
    pub wlan0_ip: Option<String>,
    pub antenna_supported: bool,
    pub antenna: String,
    pub wpa_supplicant_status: String,
    pub hostapd_status: String,
}

/// What the banner of the page shows.
#[derive(Clone, Debug)]
pub struct NetworkBanner {
    pub status_text: String,
    pub dot_class: String,
    pub banner_class: String,
    pub mode_text: String,
    pub address_text: String,
    pub antenna_text: String,
    pub service_status: String,
    pub antenna_hidden: bool,
}

/// Whether the interface is a station.
pub open spec fn is_station(wifi: WifiStatus) -> bool {
    wifi.mode@ == "sta"@
}

/// Whether the interface is a station without a network.
pub open spec fn is_idle(wifi: WifiStatus) -> bool {
    is_station(wifi) && wifi.connected_ssid is None
}

/// A text, or what stands in for it.
pub open spec fn or_else(value: Option<Seq<char>>, fallback: Seq<char>) -> Seq<char> {
    match value {
        Some(v) => v,
        None => fallback,
    }
}

/// A text, or what stands in for it.
pub fn text_or(value: &Option<String>, fallback: &str) -> (r: String)
    ensures
        r@ == or_else(text::view_opt(*value), fallback@),
{
    match value {
        Some(v) => v.clone(),
        None => fallback.to_owned(),
    }
}

/// The banner of the page.
pub fn network_banner(wifi: &WifiStatus) -> (r: NetworkBanner)
    ensures
        r.status_text@ == if is_station(*wifi) {
            or_else(text::view_opt(wifi.connected_ssid), "Not connected"@)
        } else {
            "Access Point"@
        },
        r.dot_class@ == if is_idle(*wifi) {
            "status-dot status-dot--warn"@
        } else {
            "status-dot status-dot--ok"@
        },
        r.banner_class@ == if is_idle(*wifi) {
            "vpn-banner remote-banner vpn-banner--idle"@
        } else {
            "vpn-banner remote-banner vpn-banner--ok"@
        },
        r.mode_text@ == if is_station(*wifi) {
            "Station"@
        } else {
            "Access Point"@
        },
        r.address_text@ == or_else(text::view_opt(wifi.wlan0_ip), "—"@),
        r.antenna_text@ == if wifi.antenna_supported {
            wifi.antenna@
        } else {
            "fixed"@
        },
        r.service_status@ == if is_station(*wifi) {
            wifi.wpa_supplicant_status@
        } else {
            wifi.hostapd_status@
        },
        r.antenna_hidden == !wifi.antenna_supported,
{
    let station = same(wifi.mode.as_str(), "sta");
    let idle = station && wifi.connected_ssid.is_none();
    NetworkBanner {
        status_text: if station {
            text_or(&wifi.connected_ssid, "Not connected")
        } else {
            "Access Point".to_owned()
        },
        dot_class: if idle {
            "status-dot status-dot--warn".to_owned()
        } else {
            "status-dot status-dot--ok".to_owned()
        },
        banner_class: if idle {
            "vpn-banner remote-banner vpn-banner--idle".to_owned()
        } else {
            "vpn-banner remote-banner vpn-banner--ok".to_owned()
        },
        mode_text: if station {
            "Station".to_owned()
        } else {
            "Access Point".to_owned()
        },
        address_text: text_or(&wifi.wlan0_ip, "—"),
        antenna_text: if wifi.antenna_supported {
            wifi.antenna.clone()
        } else {
            "fixed".to_owned()
        },
        service_status: if station {
            wifi.wpa_supplicant_status.clone()
        } else {
            wifi.hostapd_status.clone()
        },
        antenna_hidden: !wifi.antenna_supported,
    }
}

/// A station shows the network that it is on and the state of its supplicant, an access point that it is
/// one and the state of its daemon; only a station without a network is shown idle. A text that is there
/// is shown as it is.
pub proof fn law_banner_shows_the_interface(wifi: &WifiStatus, r: NetworkBanner)
    requires
        call_ensures(network_banner, (wifi,), r),
    ensures
        wifi.mode@ == "sta"@ ==> r.mode_text@ == "Station"@ && r.service_status@ == wifi.wpa_supplicant_status@,
        wifi.mode@ != "sta"@ ==> r.mode_text@ == "Access Point"@ && r.service_status@ == wifi.hostapd_status@
            && r.status_text@ == "Access Point"@,
        wifi.mode@ == "sta"@ && wifi.connected_ssid is Some ==> r.status_text@ == wifi.connected_ssid->0@,
        wifi.mode@ == "sta"@ && wifi.connected_ssid is None ==> r.status_text@ == "Not connected"@ && r.dot_class@
            == "status-dot status-dot--warn"@ && r.banner_class@ == "vpn-banner remote-banner vpn-banner--idle"@,
        wifi.mode@ != "sta"@ || wifi.connected_ssid is Some ==> r.dot_class@ == "status-dot status-dot--ok"@
            && r.banner_class@ == "vpn-banner remote-banner vpn-banner--ok"@,
        wifi.wlan0_ip is Some ==> r.address_text@ == wifi.wlan0_ip->0@,
        wifi.wlan0_ip is None ==> r.address_text@ == "—"@,
        r.antenna_hidden <==> !wifi.antenna_supported,
        wifi.antenna_supported ==> r.antenna_text@ == wifi.antenna@,
        !wifi.antenna_supported ==> r.antenna_text@ == "fixed"@,
{
}

/// A text that is there is kept, and one that is not is replaced.
pub proof fn law_text_or(value: &Option<String>, fallback: &str, r: String)
    requires
        call_ensures(text_or, (value, fallback), r),
    ensures
        *value is Some ==> r@ == value->0@,
        *value is None ==> r@ == fallback@,
{
}

} // verus!
