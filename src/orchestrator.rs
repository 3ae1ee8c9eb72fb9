//! One listener per port over a shared route table, and the bookkeeping that
//! tells when every listener has stopped.

use vstd::prelude::*;

use crate::config::{
    collect_entries, entries_of_all, lemma_ports_distinct, paths_from, port_of, ports_from,
    resolve_paths, resolve_ports, views,
};
use crate::listener::{next_state, transition, ListenerEvent, ListenerState};
use crate::routes::RouteTable;
use crate::shutdown::{ShutdownCoordinator, Subscription};

verus! {

/// Why no listener can be started.
#[derive(Clone, Copy, Debug, PartialEq, Eq, Structural)]
pub enum ConfigError {
    /// The configuration names no port.
    NoPorts,
    /// The configuration names no path.
    NoPaths,
}

/// The error that a port set and a path set give at startup, if any: an
/// empty port set first, then an empty path set.
pub open spec fn startup_error(ports: Seq<u16>, paths: Seq<Seq<char>>) -> Option<ConfigError> {
    if ports.len() == 0 {
        Some(ConfigError::NoPorts)
    } else if paths.len() == 0 {
        Some(ConfigError::NoPaths)
    } else {
        None
    }
}

/// The listeners of a process: one per port, each with its lifecycle state,
/// all serving one route table, with one shutdown event between them.
pub struct Orchestrator {
    ports: Vec<u16>,
    states: Vec<ListenerState>,
    routes: RouteTable,
    shutdown: ShutdownCoordinator,
}

impl Orchestrator {
    /// The port of each listener.
    pub closed spec fn ports_view(&self) -> Seq<u16> {
        self.ports@
    }

    /// The state of each listener.
    pub closed spec fn states_view(&self) -> Seq<ListenerState> {
        self.states@
    }

    /// The paths that every listener serves.
    pub closed spec fn routes_view(&self) -> Seq<Seq<char>> {
        self.routes@
    }

    /// Whether the shutdown event has fired.
    pub closed spec fn shutdown_fired(&self) -> bool {
        self.shutdown.fired()
    }

    /// One state for each listener.
    pub closed spec fn wf(&self) -> bool {
        self.states@.len() == self.ports@.len()
    }

    /// The listeners for `ports`, all starting, each serving `paths`; an
    /// error, and no listener, when either set is empty.
    pub fn start(ports: Vec<u16>, paths: Vec<String>) -> (r: Result<Orchestrator, ConfigError>)
        ensures
            r is Err <==> startup_error(ports@, views(paths@)) is Some,
            r is Err ==> startup_error(ports@, views(paths@)) == Some(r->Err_0),
            r is Ok ==> ({
                let o = r->Ok_0;
                &&& o.wf()
                &&& o.ports_view() == ports@
                &&& o.routes_view() == views(paths@)
                &&& forall|i: int|
                    0 <= i < ports@.len() ==> o.states_view()[i] == ListenerState::Starting
                &&& !o.shutdown_fired()
            }),
    {
        if ports.len() == 0 {
            return Err(ConfigError::NoPorts);
        }
        if paths.len() == 0 {
            return Err(ConfigError::NoPaths);
        }
        let mut states: Vec<ListenerState> = Vec::new();
        let mut i: usize = 0;
        while i < ports.len()
            invariant
                i <= ports@.len(),
                states@.len() == i,
                forall|k: int| 0 <= k < i ==> states@[k] == ListenerState::Starting,
            decreases ports@.len() - i,
        {
            states.push(ListenerState::Starting);
            i = i + 1;
        }
        Ok(Orchestrator { ports, states, routes: RouteTable::new(paths), shutdown: ShutdownCoordinator::new() })
    }

    /// Resolves the configured port values and path values (each a
    /// comma-separated list) and starts one listener per distinct port.
    pub fn resolve(port_values: &Vec<String>, path_values: &Vec<String>) -> (r: Result<Orchestrator, ConfigError>)
        ensures
            ({
                let ports = ports_from(entries_of_all(views(port_values@)));
                let paths = paths_from(entries_of_all(views(path_values@)));
                &&& r is Err <==> startup_error(ports, paths) is Some
                &&& r is Err ==> startup_error(ports, paths) == Some(r->Err_0)
                &&& r is Ok ==> ({
                    let o = r->Ok_0;
                    &&& o.wf()
                    &&& o.ports_view() == ports
                    &&& o.routes_view() == paths
                    &&& forall|i: int|
                        0 <= i < ports.len() ==> o.states_view()[i] == ListenerState::Starting
                    &&& !o.shutdown_fired()
                })
            }),
    {
        let ports = resolve_ports(&collect_entries(port_values));
        let paths = resolve_paths(&collect_entries(path_values));
        Orchestrator::start(ports, paths)
    }

    /// The number of listeners.
    pub fn listener_count(&self) -> (r: usize)
        ensures
            r == self.ports_view().len(),
    {
        self.ports.len()
    }

    /// The port of listener `i`.
    pub fn port(&self, i: usize) -> (r: u16)
        requires
            i < self.ports_view().len(),
        ensures
            r == self.ports_view()[i as int],
    {
        self.ports[i]
    }

    /// The state of listener `i`.
    pub fn state(&self, i: usize) -> (r: ListenerState)
        requires
            self.wf(),
            i < self.ports_view().len(),
        ensures
            r == self.states_view()[i as int],
    {
        self.states[i]
    }

    /// The route table that every listener serves.
    pub fn routes(&self) -> (r: &RouteTable)
        ensures
            r@ == self.routes_view(),
    {
        &self.routes
    }

    /// A fresh subscription to the shutdown event.
    pub fn subscribe(&self) -> (s: Subscription)
        ensures
            !s.observed(),
    {
        self.shutdown.subscribe()
    }

    /// The shutdown event.
    pub fn shutdown(&self) -> (r: &ShutdownCoordinator)
        ensures
            r.fired() == self.shutdown_fired(),
    {
        &self.shutdown
    }

    /// Fires the shutdown event; returns whether this call fired it.
    pub fn trigger_shutdown(&mut self) -> (first: bool)
        ensures
            first == !old(self).shutdown_fired(),
            final(self).shutdown_fired(),
            final(self).wf() == old(self).wf(),
            final(self).ports_view() == old(self).ports_view(),
            final(self).states_view() == old(self).states_view(),
            final(self).routes_view() == old(self).routes_view(),
    {
        self.shutdown.trigger()
    }

    /// Records that `e` happened to listener `i`, and returns its new state.
    pub fn record(&mut self, i: usize, e: ListenerEvent) -> (r: ListenerState)
        requires
            old(self).wf(),
            i < old(self).ports_view().len(),
        ensures
            r == transition(old(self).states_view()[i as int], e),
            final(self).wf(),
            final(self).states_view() == old(self).states_view().update(i as int, r),
            final(self).ports_view() == old(self).ports_view(),
            final(self).routes_view() == old(self).routes_view(),
            final(self).shutdown_fired() == old(self).shutdown_fired(),
    {
        let s = next_state(self.states[i], e);
        self.states.set(i, s);
        s
    }

    /// Whether every listener has stopped: the point after which the process
    /// may confirm that all servers are down.
    pub fn all_stopped(&self) -> (r: bool)
        requires
            self.wf(),
        ensures
            r == forall|i: int|
                0 <= i < self.states_view().len() ==> self.states_view()[i]
                    == ListenerState::Stopped,
    {
        let mut i: usize = 0;
        while i < self.states.len()
            invariant
                i <= self.states@.len(),
                forall|k: int| 0 <= k < i ==> self.states@[k] == ListenerState::Stopped,
            decreases self.states@.len() - i,
        {
            if self.states[i] != ListenerState::Stopped {
                return false;
            }
            i = i + 1;
        }
        true
    }
}

/// The listeners resolved from the configured port values stand one for each
/// distinct port that those values name: no two share a port, and a port has
/// a listener exactly when some entry names it.
pub proof fn lemma_one_listener_per_port(port_values: Seq<Seq<char>>, o: Orchestrator)
    requires
        o.wf(),
        o.ports_view() == ports_from(entries_of_all(port_values)),
    ensures
        o.states_view().len() == o.ports_view().len(),
        o.ports_view().no_duplicates(),
        forall|p: u16|
            o.ports_view().contains(p) <==> exists|i: int|
                0 <= i < entries_of_all(port_values).len() && port_of(
                    #[trigger] entries_of_all(port_values)[i],
                ) == Some(p),
{
    lemma_ports_distinct(entries_of_all(port_values));
}

} // verus!
