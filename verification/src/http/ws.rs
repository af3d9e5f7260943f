//! The events that are pushed to open pages.

use vstd::prelude::*;

verus! {

/// How long changes of remote nodes are gathered before they are pushed, in
/// milliseconds.
pub const REMOTE_DEBOUNCE_MS: u64 = 250;

/// How often the load of the system is pushed, in seconds.
pub const SYSTEM_TICK_SECS: u64 = 2;

/// How often everything else is pushed, in seconds.
pub const STATUS_TICK_SECS: u64 = 10;

/// What an event is about.
#[derive(Clone, Copy, Debug, PartialEq, Eq, Structural)]
pub enum EventKind {
    Interfaces,
    System,
    Services,
    NetworkPorts,
    Vpn,
    Reticulum,
    RadioFrames(usize),
    Remote,
}

/// The events that a page gets when it opens.
pub open spec fn opening_events(remote: bool) -> Seq<EventKind> {
    let always = seq![
        EventKind::Interfaces,
        EventKind::System,
        EventKind::Services,
        EventKind::NetworkPorts,
        EventKind::Vpn,
        EventKind::Reticulum,
        EventKind::RadioFrames(0),
        EventKind::RadioFrames(1),
    ];
    if remote {
        always.push(EventKind::Remote)
    } else {
        always
    }
}

/// The events that are pushed from time to time.
pub open spec fn recurring_events(remote: bool) -> Seq<EventKind> {
    let always = seq![
        EventKind::Interfaces,
        EventKind::Services,
        EventKind::NetworkPorts,
        EventKind::Vpn,
        EventKind::Reticulum,
    ];
    if remote {
        always.push(EventKind::Remote)
    } else {
        always
    }
}

/// The events that a page gets when it opens, in order.
pub fn initial_events(remote: bool) -> (r: Vec<EventKind>)
    ensures
        r@ == opening_events(remote),
{
    let mut out: Vec<EventKind> = Vec::new();
    out.push(EventKind::Interfaces);
    out.push(EventKind::System);
    out.push(EventKind::Services);
    out.push(EventKind::NetworkPorts);
    out.push(EventKind::Vpn);
    out.push(EventKind::Reticulum);
    out.push(EventKind::RadioFrames(0));
    out.push(EventKind::RadioFrames(1));
    if remote {
        out.push(EventKind::Remote);
    }
    proof {
        assert(out@ =~= opening_events(remote));
    }
    out
}

/// The events that are pushed from time to time, in order. Nothing is gathered
/// while nobody watches.
pub fn publish_periodic_events(watchers: usize, remote: bool) -> (r: Vec<EventKind>)
    ensures
        r@ == if watchers == 0 {
            Seq::empty()
        } else {
            recurring_events(remote)
        },
{
    let mut out: Vec<EventKind> = Vec::new();
    if watchers == 0 {
        return out;
    }
    out.push(EventKind::Interfaces);
    out.push(EventKind::Services);
    out.push(EventKind::NetworkPorts);
    out.push(EventKind::Vpn);
    out.push(EventKind::Reticulum);
    if remote {
        out.push(EventKind::Remote);
    }
    proof {
        assert(out@ =~= recurring_events(remote));
    }
    out
}

/// A page that opens gets everything that is pushed later.
pub proof fn law_opening_covers_recurring(remote: bool, kind: EventKind)
    requires
        recurring_events(remote).contains(kind),
    ensures
        opening_events(remote).contains(kind),
{
    let o = opening_events(remote);
    assert(o[0] == EventKind::Interfaces && o[2] == EventKind::Services && o[3] == EventKind::NetworkPorts && o[4]
        == EventKind::Vpn && o[5] == EventKind::Reticulum);
    if remote {
        assert(o[8] == EventKind::Remote);
    }
}

/// A page that opens is told of everything once: both radio modules, and remote nodes where there are
/// any; interfaces, system, services, ports, tunnel and mesh always.
pub proof fn law_opening_tells_everything_once(remote: bool, r: Vec<EventKind>, kind: EventKind)
    requires
        call_ensures(initial_events, (remote,), r),
    ensures
        r@.no_duplicates(),
        r@.contains(kind) <==> match kind {
            EventKind::RadioFrames(m) => m < 2,
            EventKind::Remote => remote,
            _ => true,
        },
{
    let o = r@;
    assert(o[0] == EventKind::Interfaces && o[1] == EventKind::System && o[2] == EventKind::Services);
    assert(o[3] == EventKind::NetworkPorts && o[4] == EventKind::Vpn && o[5] == EventKind::Reticulum);
    assert(o[6] == EventKind::RadioFrames(0) && o[7] == EventKind::RadioFrames(1));
    if remote {
        assert(o[8] == EventKind::Remote);
    }
}

/// From time to time everything but the load of the system and the frames is told again, once; to
/// nobody where nobody watches.
pub proof fn law_nobody_watching_is_told_nothing(watchers: usize, remote: bool, r: Vec<EventKind>, kind: EventKind)
    requires
        call_ensures(publish_periodic_events, (watchers, remote), r),
    ensures
        watchers == 0 ==> r@.len() == 0,
        r@.no_duplicates(),
        watchers > 0 ==> (r@.contains(kind) <==> match kind {
            EventKind::RadioFrames(_) => false,
            EventKind::System => false,
            EventKind::Remote => remote,
            _ => true,
        }),
{
    let o = r@;
    if watchers > 0 {
        assert(o[0] == EventKind::Interfaces && o[1] == EventKind::Services && o[2] == EventKind::NetworkPorts);
        assert(o[3] == EventKind::Vpn && o[4] == EventKind::Reticulum);
        if remote {
            assert(o[5] == EventKind::Remote);
        }
    }
}

/// Changes of remote nodes are gathered for a quarter of a second.
pub proof fn law_remote_changes_are_gathered()
    ensures
        4 * REMOTE_DEBOUNCE_MS == 1000,
{
}

} // verus!
