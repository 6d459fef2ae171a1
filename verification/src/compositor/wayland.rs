//! The Wayland server's socket name and whether it is running.
//!
//! Which socket to use comes from the host's environment; the host reads
//! it and hands it to `init`.

use vstd::prelude::*;
use vstd::string::*;

verus! {

pub struct WaylandManager {
    socket_name: String,
    running: bool,
}

impl WaylandManager {
    pub closed spec fn socket_view(&self) -> Seq<char> {
        self.socket_name@
    }

    pub closed spec fn running_view(&self) -> bool {
        self.running
    }

    /// A running manager without socket name.
    pub fn new() -> (m: Self)
        ensures
            m.socket_view() == Seq::<char>::empty(),
            m.running_view(),
    {
        WaylandManager { socket_name: String::new(), running: true }
    }

    /// A running manager serving on `socket_name`.
    pub fn init(socket_name: String) -> (m: Self)
        ensures
            m.socket_view() == socket_name@,
            m.running_view(),
    {
        WaylandManager { socket_name, running: true }
    }

    pub fn socket_name(&self) -> (s: &str)
        ensures
            s@ == self.socket_view(),
    {
        self.socket_name.as_str()
    }

    pub fn is_running(&self) -> (b: bool)
        ensures
            b == self.running_view(),
    {
        self.running
    }

    /// Stop; the socket name stays.
    pub fn stop(&mut self)
        ensures
            !final(self).running_view(),
            final(self).socket_view() == old(self).socket_view(),
    {
        self.running = false;
    }
}

impl Default for WaylandManager {
    fn default() -> (m: Self)
        ensures
            m.socket_view() == Seq::<char>::empty(),
            m.running_view(),
    {
        Self::new()
    }
}

} // verus!
