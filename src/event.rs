use vstd::prelude::*;

verus! {

/// What happened to a service.
#[derive(Clone, Copy, Debug, PartialEq, Eq, Structural)]
pub enum EventType {
    /// The service's process is running.
    Running,
    /// The supervisor stopped the service on purpose.
    Stopped,
    /// The service's process exited by itself.
    Exited,
    /// A health probe failed.
    Unhealthy,
    /// A health probe passed.
    Healthy,
}

/// One notification on the event queue.
#[derive(Debug)]
pub struct ProcessEvent {
    pub service_name: String,
    pub pid: Option<u32>,
    pub event_type: EventType,
    pub data: Option<String>,
}

/// `e` is the event `t` of service `name` with `pid` and no data.
pub open spec fn is_event(e: ProcessEvent, name: Seq<char>, t: EventType, pid: Option<u32>) -> bool {
    &&& e.service_name@ == name
    &&& e.event_type == t
    &&& e.pid == pid
}

} // verus!
