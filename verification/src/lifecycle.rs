//! Proxy lifecycle controller and process-liveness watcher.
//!
//! `ProxyState` owns the listening flag, bound port and active-connection
//! count; `WatcherState` owns the single watched-process-name slot. The
//! watcher's polling loop itself (sleeping, snapshotting the process list)
//! is the caller's; `watcher_poll` is the decision it runs every tick.

use vstd::prelude::*;
use crate::bytes::bytes_eq;
use crate::ca::{
    ca_state_eq, root_eq, spec_ca_wf, spec_ensure_ca, spec_ensure_ca_root, spec_root_wf, CaManager,
    LeafCache, RootAuthority,
};

verus! {

/// Seconds between two liveness polls of the watched process.
pub const POLL_INTERVAL_SECS: u64 = 5;

/// Why the proxy could not be started.
#[derive(PartialEq, Eq, Structural, Debug)]
pub enum ConfigError {
    /// Ports are 1-65535; zero is not a bindable port.
    InvalidPort,
}

/// Process-wide proxy state: init on connect, teardown on disconnect.
#[derive(Clone, Copy, PartialEq, Eq, Structural)]
pub struct ProxyState {
    /// Whether the listener is accepting connections.
    pub listening: bool,
    /// Port the listener is (or was last) bound to.
    pub port: u16,
    /// Number of sessions currently relaying.
    pub active: u64,
}

impl ProxyState {
    /// Inactive proxy, nothing bound, no sessions.
    pub fn new() -> (r: ProxyState)
        ensures
            !r.listening,
            r.active == 0,
    {
        ProxyState { listening: false, port: 0, active: 0 }
    }

    /// Bind the listener on `port`. A zero port is a configuration error
    /// that leaves the state untouched; connecting while already listening
    /// is a safe no-op.
    pub fn connect(&mut self, port: u16) -> (r: Result<(), ConfigError>)
        ensures
            r is Ok <==> port != 0,
            r matches Err(e) ==> e == ConfigError::InvalidPort && *final(self) == *old(self),
            port != 0 && old(self).listening ==> *final(self) == *old(self),
            port != 0 && !old(self).listening ==> *final(self) == (ProxyState {
                listening: true,
                port: port,
                active: old(self).active,
            }),
    {
        if port == 0 {
            return Err(ConfigError::InvalidPort);
        }
        if !self.listening {
            self.listening = true;
            self.port = port;
        }
        Ok(())
    }

    /// Stop accepting new connections. In-flight sessions drain on their
    /// own, so the active count is untouched; disconnecting while already
    /// inactive is a safe no-op.
    pub fn disconnect(&mut self)
        ensures
            !final(self).listening,
            final(self).port == old(self).port,
            final(self).active == old(self).active,
    {
        self.listening = false;
    }

    /// A connection was accepted; returns whether a session may start.
    pub fn on_accept(&mut self) -> (r: bool)
        ensures
            r == (old(self).listening && old(self).active < u64::MAX),
            r ==> *final(self) == (ProxyState {
                active: (old(self).active + 1) as u64,
                ..*old(self)
            }),
            !r ==> *final(self) == *old(self),
    {
        if self.listening && self.active < u64::MAX {
            self.active = self.active + 1;
            true
        } else {
            false
        }
    }

    /// A session ended, by closing or by failing. Only the active count
    /// changes: the listener keeps accepting.
    pub fn on_session_end(&mut self)
        ensures
            *final(self) == spec_session_end(*old(self)),
    {
        if self.active > 0 {
            self.active = self.active - 1;
        }
    }
}

/// Connect the proxy: first make sure a root authority exists (an
/// existing root is kept; the freshly generated `candidate` is installed
/// only when none is on record yet), then bind the listener on `port`.
/// The root on record is returned for the caller to persist and to route
/// OS traffic under; an invalid port leaves the listener untouched.
pub fn connect_proxy(
    ca: &mut CaManager,
    p: &mut ProxyState,
    candidate: RootAuthority,
    port: u16,
) -> (r: Result<RootAuthority, ConfigError>)
    requires
        spec_root_wf(candidate),
        spec_ca_wf(*old(ca)),
    ensures
        final(ca).root is Some,
        spec_ca_wf(*final(ca)),
        ca_state_eq(*final(ca), spec_ensure_ca(*old(ca), candidate)),
        r is Ok <==> port != 0,
        r matches Ok(root) ==> root_eq(root, spec_ensure_ca_root(*old(ca), candidate)),
        r matches Err(e) ==> e == ConfigError::InvalidPort,
        port != 0 && !old(p).listening ==> *final(p) == (ProxyState {
            listening: true,
            port: port,
            active: old(p).active,
        }),
        port != 0 && old(p).listening ==> *final(p) == *old(p),
        port == 0 ==> *final(p) == *old(p),
{
    let issued = ca.ensure_ca(candidate);
    match p.connect(port) {
        Ok(()) => Ok(issued),
        Err(e) => Err(e),
    }
}

/// Disconnect the proxy and drop every cached leaf: the cache lives only
/// while the proxy runs. In-flight sessions drain on their own.
pub fn disconnect_proxy(p: &mut ProxyState, cache: &mut LeafCache)
    ensures
        !final(p).listening,
        final(p).port == old(p).port,
        final(p).active == old(p).active,
        final(cache).entries@.len() == 0,
{
    p.disconnect();
    cache.clear();
}

/// Whether the listener may start one more session.
pub open spec fn spec_can_accept(p: ProxyState) -> bool {
    p.listening && p.active < u64::MAX
}

/// The proxy state after one session ends: only the active count drops.
pub open spec fn spec_session_end(p: ProxyState) -> ProxyState {
    ProxyState {
        active: if p.active > 0 {
            (p.active - 1) as u64
        } else {
            0u64
        },
        ..p
    }
}

/// The single watched-process-name slot; empty means "not watching".
pub struct WatcherState {
    pub watched: Vec<u8>,
}

/// Whether a process is being watched.
pub open spec fn spec_watching(w: WatcherState) -> bool {
    w.watched@.len() > 0
}

/// The views of a list of process names.
pub open spec fn views_of(s: Seq<Vec<u8>>) -> Seq<Seq<u8>> {
    s.map_values(|v: Vec<u8>| v@)
}

/// Whether `name` occurs in `list`.
pub open spec fn name_in(list: Seq<Seq<u8>>, name: Seq<u8>) -> bool {
    exists|i: int| 0 <= i < list.len() && list[i] == name
}

impl WatcherState {
    /// Not watching anything.
    pub fn new() -> (r: WatcherState)
        ensures
            !spec_watching(r),
    {
        WatcherState { watched: Vec::new() }
    }

    /// Set (or, with an empty name, clear) the watched process name; the
    /// latest write wins.
    pub fn enable_process_watcher(&mut self, process: Vec<u8>)
        ensures
            final(self).watched@ == process@,
    {
        self.watched = process;
    }

    /// Whether a non-empty process name is currently being watched (not a
    /// live re-check of the process list).
    pub fn is_game_running(&self) -> (r: bool)
        ensures
            r == spec_watching(*self),
    {
        self.watched.len() > 0
    }
}

/// Whether `name` occurs in the snapshot `list`.
pub fn contains_name(list: &Vec<Vec<u8>>, name: &Vec<u8>) -> (r: bool)
    ensures
        r == name_in(views_of(list@), name@),
{
    let mut i: usize = 0;
    while i < list.len()
        invariant
            i <= list@.len(),
            forall|j: int| 0 <= j < i ==> views_of(list@)[j] != name@,
        decreases list@.len() - i,
    {
        proof {
            assert(views_of(list@)[i as int] == list@[i as int]@);
        }
        if bytes_eq(&list[i], name) {
            return true;
        }
        i = i + 1;
    }
    false
}

/// One tick of the liveness watcher: `live` is a snapshot of the names of
/// the processes currently running. If a process is being watched and it no
/// longer appears in the snapshot, the watched name is cleared and the
/// proxy is disconnected; otherwise nothing changes. The watcher only ever
/// disconnects — connecting is always client-initiated.
pub fn watcher_poll(w: &mut WatcherState, proxy: &mut ProxyState, live: &Vec<Vec<u8>>) -> (fired:
    bool)
    ensures
        fired == (spec_watching(*old(w)) && !name_in(views_of(live@), old(w).watched@)),
        fired ==> !spec_watching(*final(w)) && !final(proxy).listening && final(proxy).port == old(
            proxy,
        ).port && final(proxy).active == old(proxy).active,
        !fired ==> final(w).watched@ == old(w).watched@ && *final(proxy) == *old(proxy),
{
    if w.is_game_running() {
        if !contains_name(live, &w.watched) {
            w.watched = Vec::new();
            proxy.disconnect();
            return true;
        }
    }
    false
}

} // verus!
