//! The topology walk: an event-driven engine that discovers every hub and
//! device reachable from the host's root controllers.
//!
//! The engine owns all decisions of the walk — which slot or port to ask
//! about next, how a reply changes the picture, when a hub is finished —
//! while the control requests themselves are I/O and happen outside the
//! crate: [`TopologyBuilder::step`] consumes one reply and names the next
//! request, and an outside driver loop performs each request against the
//! platform and hands the decoded outcome back.
//!
//! Discovered sub-hubs are not walked by recursion: they are queued as
//! pending tasks and walked after their parent hub is finished, so the flat
//! hub list comes out in depth-first discovery order — each parent before
//! its sub-hubs — while root controllers are taken in ascending slot order.
//! A sub-hub whose name is already in use is skipped, which keeps the hub
//! list free of duplicate names and the walk free of cycles. Ports are
//! visited in ascending order, `1` through the hub's port count.

use vstd::prelude::*;
use vstd::pervasive::unreached;

use crate::descriptor::devices_sorted;
use crate::descriptor::hub_wf;
use crate::descriptor::topology_wf;
use crate::descriptor::Device;
use crate::descriptor::Hub;
use crate::descriptor::UsbDeviceDescriptor;
use crate::identity::first_match;
use crate::strings::resolver_action;
use crate::strings::resolver_result;
use crate::strings::resolver_start;
use crate::strings::resolver_step_spec;
use crate::strings::resolver_wf;
use crate::strings::StringAction;
use crate::strings::StringEvent;
use crate::strings::StringResolver;
use crate::wire::ConnectionInfo;

verus! {

/// How many root-controller slots are probed: slots `0` up to and excluding
/// this bound.
pub const ROOT_SLOT_COUNT: u16 = 255;

/// A hub waiting to be walked: its addressable name and, for a sub-hub,
/// the back-reference to its parent and the descriptor decoded at the
/// parent's port. A root hub carries neither.
pub struct HubTask {
    pub hub_id: String,
    pub parent_hub: Option<String>,
    pub descriptor: Option<UsbDeviceDescriptor>,
}

/// Where the walk of one port stands.
pub enum PortPhase {
    /// The port-connection query is outstanding.
    AwaitConnection { port: u8 },
    /// A device was found; one of its string slots is being resolved.
    ResolvingStrings {
        port: u8,
        descriptor: UsbDeviceDescriptor,
        slot: u8,
        is_hub: bool,
        resolver: StringResolver,
    },
    /// The device is a hub; its addressable-name query is outstanding.
    AwaitSubHubName { port: u8, descriptor: UsbDeviceDescriptor },
    /// A leaf device; its driver-key query is outstanding.
    AwaitDriverKey { port: u8, descriptor: UsbDeviceDescriptor },
    /// The registry scan for identity correlation is outstanding.
    AwaitRegistry { port: u8, descriptor: UsbDeviceDescriptor, driver_key: String },
}

/// The walk of one hub: the task being worked, the hub's port count, the
/// devices and sub-hub tasks collected so far, and the current port's
/// phase.
pub struct HubWalk {
    pub task: HubTask,
    pub port_count: u8,
    pub devices: Vec<Device>,
    pub children: Vec<HubTask>,
    pub phase: PortPhase,
}

/// Where the whole discovery stands.
pub enum BuilderPhase {
    /// A root-controller slot is being opened and asked for its root hub's
    /// name.
    AwaitRootName { slot: u8 },
    /// A hub handle is being opened.
    AwaitHubOpen { task: HubTask },
    /// The freshly opened hub is being asked for its port count.
    AwaitPortCount { task: HubTask },
    /// The hub's ports are being walked.
    Walking { walk: HubWalk },
    /// Every slot is exhausted; the topology is finished.
    Done,
}

/// The whole discovery: the language preference, the policy for devices
/// whose identity found no match, the next root slot to probe, the queue of
/// discovered hubs still to walk, the finished hubs, and the current phase.
pub struct TopologyBuilder {
    pub lang_id: u16,
    pub include_unidentified: bool,
    pub next_slot: u16,
    pub pending: Vec<HubTask>,
    pub hubs: Vec<Hub>,
    pub phase: BuilderPhase,
}

/// What the engine asks the driver loop to do next.
pub enum Request {
    /// Open root-controller slot `slot` and query its root hub's name.
    OpenRootController { slot: u8 },
    /// Open a control handle to the named hub, closing the previous one.
    OpenHub { hub_id: String },
    /// Query the open hub's port count.
    QueryPortCount,
    /// Query the connection state of one port of the open hub.
    QueryPort { port: u8 },
    /// Request the string descriptor for `string_index` at `lang_id`.
    QueryString { port: u8, string_index: u8, lang_id: u16 },
    /// Request the supported-languages list for `string_index`.
    QueryLanguages { port: u8, string_index: u8 },
    /// Query the addressable name of the sub-hub on `port`.
    QuerySubHubName { port: u8 },
    /// Query the driver key of the device on `port`.
    QueryDriverKey { port: u8 },
    /// Scan the device registry for the identity table.
    QueryRegistry,
    /// The walk is over; the topology can be taken.
    Complete,
}

/// The decoded outcome of one performed request.
pub enum Reply {
    /// The root hub's name, or `None` when the slot does not exist or the
    /// name query failed.
    RootName(Option<String>),
    /// Whether the hub handle could be opened.
    HubOpened(bool),
    /// The hub's port count, or `None` when the query failed.
    PortCount(Option<u8>),
    /// The decoded port-connection reply.
    PortStatus(ConnectionInfo),
    /// The decoded text of a string-descriptor request, or `None` on
    /// failure.
    StringText(Option<String>),
    /// The first supported language code, or `None` on failure.
    Languages(Option<u16>),
    /// The decoded sub-hub name, or `None` on failure.
    SubHubName(Option<String>),
    /// The decoded driver key, or `None` on failure.
    DriverKey(Option<String>),
    /// The identity table from the registry scan, or `None` when the scan
    /// failed.
    Registry(Option<Vec<(String, String)>>),
}

// ---------------------------------------------------------------------------
// Well-formedness
// ---------------------------------------------------------------------------

/// Some finished hub carries this name.
pub open spec fn id_in_hubs(hubs: Seq<Hub>, id: Seq<char>) -> bool {
    exists|i: int| 0 <= i < hubs.len() && (#[trigger] hubs[i]).hub_id@ == id
}

/// Some queued task carries this name.
pub open spec fn id_in_tasks(tasks: Seq<HubTask>, id: Seq<char>) -> bool {
    exists|i: int| 0 <= i < tasks.len() && (#[trigger] tasks[i]).hub_id@ == id
}

/// A task's back-reference and descriptor come together: both for a
/// sub-hub, neither for a root hub.
pub open spec fn task_wf(t: HubTask) -> bool {
    t.parent_hub is Some <==> t.descriptor is Some
}

/// The back-reference, if any, names a finished hub.
pub open spec fn parent_in(hubs: Seq<Hub>, p: Option<String>) -> bool {
    match p {
        Some(pid) => id_in_hubs(hubs, pid@),
        None => true,
    }
}

/// A task that may be walked next: well formed, its parent already
/// finished, and its name not in use by a finished hub or a queued task.
pub open spec fn task_ok(hubs: Seq<Hub>, pending: Seq<HubTask>, t: HubTask) -> bool {
    &&& task_wf(t)
    &&& parent_in(hubs, t.parent_hub)
    &&& !id_in_hubs(hubs, t.hub_id@)
    &&& !id_in_tasks(pending, t.hub_id@)
}

/// The queue of pending tasks: each well formed with its parent finished
/// and its name unused, and no name twice.
pub open spec fn tasks_wf(hubs: Seq<Hub>, tasks: Seq<HubTask>) -> bool {
    &&& forall|i: int|
        0 <= i < tasks.len() ==> task_wf(#[trigger] tasks[i]) && parent_in(
            hubs,
            tasks[i].parent_hub,
        ) && !id_in_hubs(hubs, tasks[i].hub_id@)
    &&& forall|i: int, j: int|
        0 <= i < j < tasks.len() ==> tasks[i].hub_id@ != tasks[j].hub_id@
}

/// The sub-hub tasks collected during one hub's walk: each points back at
/// that hub, carries the port's descriptor, and has a name unused anywhere,
/// with no name twice.
pub open spec fn children_wf(
    hubs: Seq<Hub>,
    pending: Seq<HubTask>,
    parent_id: Seq<char>,
    children: Seq<HubTask>,
) -> bool {
    &&& forall|i: int|
        0 <= i < children.len() ==> ((#[trigger] children[i]).parent_hub matches Some(p) && p@
            == parent_id) && children[i].descriptor is Some && !id_in_hubs(
            hubs,
            children[i].hub_id@,
        ) && !id_in_tasks(pending, children[i].hub_id@) && children[i].hub_id@ != parent_id
    &&& forall|i: int, j: int|
        0 <= i < j < children.len() ==> children[i].hub_id@ != children[j].hub_id@
}

/// The devices collected so far all sit on ports below `port`, in
/// ascending order.
pub open spec fn devices_below(devs: Seq<Device>, port: int) -> bool {
    &&& devices_sorted(devs)
    &&& forall|i: int| 0 <= i < devs.len() ==> (#[trigger] devs[i]).port_number < port
}

/// The scalar frame every state shares: the slot cursor in range, the
/// finished hubs well formed, the queue well formed.
pub open spec fn core_wf(next_slot: u16, hubs: Seq<Hub>, pending: Seq<HubTask>) -> bool {
    &&& next_slot <= ROOT_SLOT_COUNT
    &&& topology_wf(hubs)
    &&& tasks_wf(hubs, pending)
}

/// The walked task and its collected children are in order.
pub open spec fn walk_parts_wf(
    hubs: Seq<Hub>,
    pending: Seq<HubTask>,
    task: HubTask,
    children: Seq<HubTask>,
) -> bool {
    &&& task_ok(hubs, pending, task)
    &&& children_wf(hubs, pending, task.hub_id@, children)
}

/// The port the walk currently stands on.
pub open spec fn walk_port(w: HubWalk) -> int {
    match w.phase {
        PortPhase::AwaitConnection { port } => port as int,
        PortPhase::ResolvingStrings { port, .. } => port as int,
        PortPhase::AwaitSubHubName { port, .. } => port as int,
        PortPhase::AwaitDriverKey { port, .. } => port as int,
        PortPhase::AwaitRegistry { port, .. } => port as int,
    }
}

/// Well-formedness of a walk in progress.
pub open spec fn walk_wf(hubs: Seq<Hub>, pending: Seq<HubTask>, w: HubWalk) -> bool {
    &&& walk_parts_wf(hubs, pending, w.task, w.children@)
    &&& 1 <= walk_port(w) <= w.port_count
    &&& devices_below(w.devices@, walk_port(w))
    &&& match w.phase {
        PortPhase::ResolvingStrings { slot, resolver, .. } => slot <= 2 && resolver_wf(resolver),
        _ => true,
    }
}

/// The engine's invariant: it holds from `start` on and `step` preserves
/// it, so every topology the engine hands out is well formed.
pub open spec fn builder_wf(b: TopologyBuilder) -> bool {
    &&& core_wf(b.next_slot, b.hubs@, b.pending@)
    &&& match b.phase {
        BuilderPhase::AwaitRootName { .. } => true,
        BuilderPhase::AwaitHubOpen { task } => task_ok(b.hubs@, b.pending@, task),
        BuilderPhase::AwaitPortCount { task } => task_ok(b.hubs@, b.pending@, task),
        BuilderPhase::Walking { walk } => walk_wf(b.hubs@, b.pending@, walk),
        BuilderPhase::Done => true,
    }
}

// ---------------------------------------------------------------------------
// The transition relation
// ---------------------------------------------------------------------------

/// The reply answers the outstanding request.
pub open spec fn builder_accepts(b: TopologyBuilder, reply: Reply) -> bool {
    match (b.phase, reply) {
        (BuilderPhase::AwaitRootName { .. }, Reply::RootName(_)) => true,
        (BuilderPhase::AwaitHubOpen { .. }, Reply::HubOpened(_)) => true,
        (BuilderPhase::AwaitPortCount { .. }, Reply::PortCount(_)) => true,
        (BuilderPhase::Walking { walk }, Reply::PortStatus(_)) => walk.phase is AwaitConnection,
        (BuilderPhase::Walking { walk }, Reply::StringText(_)) => walk.phase matches
            PortPhase::ResolvingStrings { resolver, .. } && resolver_action(
            resolver,
        ) is RequestText,
        (BuilderPhase::Walking { walk }, Reply::Languages(_)) => walk.phase matches
            PortPhase::ResolvingStrings { resolver, .. } && resolver_action(
            resolver,
        ) is RequestLanguages,
        (BuilderPhase::Walking { walk }, Reply::SubHubName(_)) => walk.phase is AwaitSubHubName,
        (BuilderPhase::Walking { walk }, Reply::DriverKey(_)) => walk.phase is AwaitDriverKey,
        (BuilderPhase::Walking { walk }, Reply::Registry(_)) => walk.phase is AwaitRegistry,
        _ => false,
    }
}

/// The scalar fields, finished hubs and queue are untouched.
pub open spec fn core_unchanged(b: TopologyBuilder, r0: TopologyBuilder) -> bool {
    &&& r0.lang_id == b.lang_id
    &&& r0.include_unidentified == b.include_unidentified
    &&& r0.next_slot == b.next_slot
    &&& r0.hubs@ == b.hubs@
    &&& r0.pending@ == b.pending@
}

/// Moving on from finished or abandoned work: the next pending sub-hub is
/// walked first; with the queue empty the next root slot is probed; with
/// both exhausted the walk is done.
pub open spec fn advance_core(
    lang_id: u16,
    incl: bool,
    next_slot: u16,
    hubs: Seq<Hub>,
    pending: Seq<HubTask>,
    r0: TopologyBuilder,
    r1: Request,
) -> bool {
    &&& r0.lang_id == lang_id
    &&& r0.include_unidentified == incl
    &&& r0.hubs@ == hubs
    &&& if pending.len() > 0 {
        &&& r0.pending@ == pending.drop_last()
        &&& r0.next_slot == next_slot
        &&& r0.phase == BuilderPhase::AwaitHubOpen { task: pending.last() }
        &&& r1 matches Request::OpenHub { hub_id } && hub_id@ == pending.last().hub_id@
    } else if next_slot < ROOT_SLOT_COUNT {
        &&& r0.pending@ == pending
        &&& r0.next_slot == next_slot + 1
        &&& r0.phase == BuilderPhase::AwaitRootName { slot: next_slot as u8 }
        &&& r1 == Request::OpenRootController { slot: next_slot as u8 }
    } else {
        &&& r0.pending@ == pending
        &&& r0.next_slot == next_slot
        &&& r0.phase is Done
        &&& r1 is Complete
    }
}

/// `advance_core` from an unchanged builder.
pub open spec fn advance_rel(b: TopologyBuilder, r0: TopologyBuilder, r1: Request) -> bool {
    advance_core(b.lang_id, b.include_unidentified, b.next_slot, b.hubs@, b.pending@, r0, r1)
}

/// The new state stays inside the same hub's walk, with the port phase
/// `pphase` and everything else as given.
pub open spec fn walking_state(
    lang_id: u16,
    incl: bool,
    next_slot: u16,
    hubs: Seq<Hub>,
    pending: Seq<HubTask>,
    task: HubTask,
    port_count: u8,
    devices: Seq<Device>,
    children: Seq<HubTask>,
    pphase: PortPhase,
    r0: TopologyBuilder,
) -> bool {
    &&& r0.lang_id == lang_id
    &&& r0.include_unidentified == incl
    &&& r0.next_slot == next_slot
    &&& r0.hubs@ == hubs
    &&& r0.pending@ == pending
    &&& r0.phase matches BuilderPhase::Walking { walk } && walk.task == task && walk.port_count
        == port_count && walk.devices@ == devices && walk.children@ == children && walk.phase
        == pphase
}

/// Finishing a hub: a hub assembled from the task and the collected
/// devices is appended to the finished list, the collected sub-hub tasks
/// are queued — reversed, so the lowest port's sub-hub is walked first —
/// and the walk moves on.
pub open spec fn complete_rel(
    lang_id: u16,
    incl: bool,
    next_slot: u16,
    hubs: Seq<Hub>,
    pending: Seq<HubTask>,
    task: HubTask,
    port_count: u8,
    devices: Seq<Device>,
    children: Seq<HubTask>,
    r0: TopologyBuilder,
    r1: Request,
) -> bool {
    exists|h: Hub|
        #![auto]
        {
            &&& h.hub_id == task.hub_id
            &&& h.number_of_ports == port_count
            &&& h.devices@ == devices
            &&& h.parent_hub == task.parent_hub
            &&& h.descriptor == task.descriptor
            &&& advance_core(
                lang_id,
                incl,
                next_slot,
                hubs.push(h),
                pending + children.reverse(),
                r0,
                r1,
            )
        }
}

/// Moving past a port: the next port is queried, or, past the last port,
/// the hub is finished.
pub open spec fn advance_port_rel(
    lang_id: u16,
    incl: bool,
    next_slot: u16,
    hubs: Seq<Hub>,
    pending: Seq<HubTask>,
    task: HubTask,
    port_count: u8,
    devices: Seq<Device>,
    children: Seq<HubTask>,
    port: u8,
    r0: TopologyBuilder,
    r1: Request,
) -> bool {
    if port < port_count {
        &&& walking_state(
            lang_id,
            incl,
            next_slot,
            hubs,
            pending,
            task,
            port_count,
            devices,
            children,
            PortPhase::AwaitConnection { port: (port + 1) as u8 },
            r0,
        )
        &&& r1 == Request::QueryPort { port: (port + 1) as u8 }
    } else {
        complete_rel(
            lang_id,
            incl,
            next_slot,
            hubs,
            pending,
            task,
            port_count,
            devices,
            children,
            r0,
            r1,
        )
    }
}

/// The request that performs a resolver's outstanding round on `port`.
pub open spec fn resolver_request(port: u8, resolver: StringResolver) -> Request {
    match resolver_action(resolver) {
        StringAction::RequestText(l) => Request::QueryString {
            port,
            string_index: resolver.string_index,
            lang_id: l,
        },
        StringAction::RequestLanguages => Request::QueryLanguages {
            port,
            string_index: resolver.string_index,
        },
        StringAction::Finished => Request::Complete,
    }
}

/// The string index of one of the descriptor's three string slots:
/// manufacturer, product, serial number, in resolution order.
pub open spec fn slot_index_spec(d: UsbDeviceDescriptor, slot: u8) -> u8 {
    if slot == 0 {
        d.iManufacturer.0
    } else if slot == 1 {
        d.iProduct.0
    } else {
        d.iSerialNumber.0
    }
}

/// The descriptor with one string slot's resolved text filled in.
pub open spec fn store_slot_spec(
    d: UsbDeviceDescriptor,
    slot: u8,
    t: Option<String>,
) -> UsbDeviceDescriptor {
    if slot == 0 {
        UsbDeviceDescriptor { iManufacturer: (d.iManufacturer.0, t), ..d }
    } else if slot == 1 {
        UsbDeviceDescriptor { iProduct: (d.iProduct.0, t), ..d }
    } else {
        UsbDeviceDescriptor { iSerialNumber: (d.iSerialNumber.0, t), ..d }
    }
}

/// Settling the string slots of a found device: while the current slot's
/// resolver waits on a request, that request is issued; a finished
/// resolver's text is stored and the next slot's resolver starts, through
/// all three slots; then the port goes on to the sub-hub or driver-key
/// query.
pub open spec fn settle_rel(
    lang_id: u16,
    incl: bool,
    next_slot: u16,
    hubs: Seq<Hub>,
    pending: Seq<HubTask>,
    task: HubTask,
    port_count: u8,
    devices: Seq<Device>,
    children: Seq<HubTask>,
    port: u8,
    d: UsbDeviceDescriptor,
    slot: u8,
    is_hub: bool,
    resolver: StringResolver,
    r0: TopologyBuilder,
    r1: Request,
) -> bool
    decreases 3 - slot,
{
    if !(resolver.phase is Done) {
        &&& walking_state(
            lang_id,
            incl,
            next_slot,
            hubs,
            pending,
            task,
            port_count,
            devices,
            children,
            PortPhase::ResolvingStrings { port, descriptor: d, slot, is_hub, resolver },
            r0,
        )
        &&& r1 == resolver_request(port, resolver)
    } else if slot < 2 {
        settle_rel(
            lang_id,
            incl,
            next_slot,
            hubs,
            pending,
            task,
            port_count,
            devices,
            children,
            port,
            store_slot_spec(d, slot, resolver_result(resolver)),
            (slot + 1) as u8,
            is_hub,
            resolver_start(
                slot_index_spec(store_slot_spec(d, slot, resolver_result(resolver)), (slot + 1) as u8),
                lang_id,
            ),
            r0,
            r1,
        )
    } else {
        if is_hub {
            &&& walking_state(
                lang_id,
                incl,
                next_slot,
                hubs,
                pending,
                task,
                port_count,
                devices,
                children,
                PortPhase::AwaitSubHubName {
                    port,
                    descriptor: store_slot_spec(d, slot, resolver_result(resolver)),
                },
                r0,
            )
            &&& r1 == Request::QuerySubHubName { port }
        } else {
            &&& walking_state(
                lang_id,
                incl,
                next_slot,
                hubs,
                pending,
                task,
                port_count,
                devices,
                children,
                PortPhase::AwaitDriverKey {
                    port,
                    descriptor: store_slot_spec(d, slot, resolver_result(resolver)),
                },
                r0,
            )
            &&& r1 == Request::QueryDriverKey { port }
        }
    }
}

/// A sub-hub name that is already in use anywhere in the walk.
pub open spec fn sub_name_taken(
    hubs: Seq<Hub>,
    pending: Seq<HubTask>,
    task: HubTask,
    children: Seq<HubTask>,
    id: Seq<char>,
) -> bool {
    ||| id_in_hubs(hubs, id)
    ||| id_in_tasks(pending, id)
    ||| task.hub_id@ == id
    ||| id_in_tasks(children, id)
}

/// The engine's whole transition relation: what one reply does to the
/// state, and which request follows.
pub open spec fn builder_step_rel(
    b: TopologyBuilder,
    reply: Reply,
    r0: TopologyBuilder,
    r1: Request,
) -> bool {
    match (b.phase, reply) {
        (BuilderPhase::AwaitRootName { slot }, Reply::RootName(name_opt)) => match name_opt {
            None => advance_rel(b, r0, r1),
            Some(name) => if id_in_hubs(b.hubs@, name@) || id_in_tasks(b.pending@, name@) {
                advance_rel(b, r0, r1)
            } else {
                &&& core_unchanged(b, r0)
                &&& r0.phase == BuilderPhase::AwaitHubOpen {
                    task: HubTask { hub_id: name, parent_hub: None, descriptor: None },
                }
                &&& r1 matches Request::OpenHub { hub_id } && hub_id@ == name@
            },
        },
        (BuilderPhase::AwaitHubOpen { task }, Reply::HubOpened(opened)) => if opened {
            &&& core_unchanged(b, r0)
            &&& r0.phase == BuilderPhase::AwaitPortCount { task }
            &&& r1 == Request::QueryPortCount
        } else {
            advance_rel(b, r0, r1)
        },
        (BuilderPhase::AwaitPortCount { task }, Reply::PortCount(count_opt)) => match count_opt {
            None => advance_rel(b, r0, r1),
            Some(n) => if n == 0 {
                complete_rel(
                    b.lang_id,
                    b.include_unidentified,
                    b.next_slot,
                    b.hubs@,
                    b.pending@,
                    task,
                    n,
                    Seq::<Device>::empty(),
                    Seq::<HubTask>::empty(),
                    r0,
                    r1,
                )
            } else {
                &&& walking_state(
                    b.lang_id,
                    b.include_unidentified,
                    b.next_slot,
                    b.hubs@,
                    b.pending@,
                    task,
                    n,
                    Seq::<Device>::empty(),
                    Seq::<HubTask>::empty(),
                    PortPhase::AwaitConnection { port: 1 },
                    r0,
                )
                &&& r1 == Request::QueryPort { port: 1 }
            },
        },
        (BuilderPhase::Walking { walk }, Reply::PortStatus(info)) => walk.phase matches
            PortPhase::AwaitConnection { port } && match info {
            ConnectionInfo::Connected { descriptor, is_hub } => settle_rel(
                b.lang_id,
                b.include_unidentified,
                b.next_slot,
                b.hubs@,
                b.pending@,
                walk.task,
                walk.port_count,
                walk.devices@,
                walk.children@,
                port,
                descriptor,
                0,
                is_hub,
                resolver_start(descriptor.iManufacturer.0, b.lang_id),
                r0,
                r1,
            ),
            _ => advance_port_rel(
                b.lang_id,
                b.include_unidentified,
                b.next_slot,
                b.hubs@,
                b.pending@,
                walk.task,
                walk.port_count,
                walk.devices@,
                walk.children@,
                port,
                r0,
                r1,
            ),
        },
        (BuilderPhase::Walking { walk }, Reply::StringText(t)) => walk.phase matches
            PortPhase::ResolvingStrings { port, descriptor, slot, is_hub, resolver } && settle_rel(
            b.lang_id,
            b.include_unidentified,
            b.next_slot,
            b.hubs@,
            b.pending@,
            walk.task,
            walk.port_count,
            walk.devices@,
            walk.children@,
            port,
            descriptor,
            slot,
            is_hub,
            resolver_step_spec(resolver, StringEvent::Text(t)),
            r0,
            r1,
        ),
        (BuilderPhase::Walking { walk }, Reply::Languages(l)) => walk.phase matches
            PortPhase::ResolvingStrings { port, descriptor, slot, is_hub, resolver } && settle_rel(
            b.lang_id,
            b.include_unidentified,
            b.next_slot,
            b.hubs@,
            b.pending@,
            walk.task,
            walk.port_count,
            walk.devices@,
            walk.children@,
            port,
            descriptor,
            slot,
            is_hub,
            resolver_step_spec(resolver, StringEvent::Languages(l)),
            r0,
            r1,
        ),
        (BuilderPhase::Walking { walk }, Reply::SubHubName(name_opt)) => walk.phase matches
            PortPhase::AwaitSubHubName { port, descriptor } && match name_opt {
            None => advance_port_rel(
                b.lang_id,
                b.include_unidentified,
                b.next_slot,
                b.hubs@,
                b.pending@,
                walk.task,
                walk.port_count,
                walk.devices@,
                walk.children@,
                port,
                r0,
                r1,
            ),
            Some(name) => if sub_name_taken(b.hubs@, b.pending@, walk.task, walk.children@, name@) {
                advance_port_rel(
                    b.lang_id,
                    b.include_unidentified,
                    b.next_slot,
                    b.hubs@,
                    b.pending@,
                    walk.task,
                    walk.port_count,
                    walk.devices@,
                    walk.children@,
                    port,
                    r0,
                    r1,
                )
            } else {
                advance_port_rel(
                    b.lang_id,
                    b.include_unidentified,
                    b.next_slot,
                    b.hubs@,
                    b.pending@,
                    walk.task,
                    walk.port_count,
                    walk.devices@,
                    walk.children@.push(
                        HubTask {
                            hub_id: name,
                            parent_hub: Some(walk.task.hub_id),
                            descriptor: Some(descriptor),
                        },
                    ),
                    port,
                    r0,
                    r1,
                )
            },
        },
        (BuilderPhase::Walking { walk }, Reply::DriverKey(key_opt)) => walk.phase matches
            PortPhase::AwaitDriverKey { port, descriptor } && match key_opt {
            None => advance_rel(b, r0, r1),
            Some(key) => {
                &&& walking_state(
                    b.lang_id,
                    b.include_unidentified,
                    b.next_slot,
                    b.hubs@,
                    b.pending@,
                    walk.task,
                    walk.port_count,
                    walk.devices@,
                    walk.children@,
                    PortPhase::AwaitRegistry { port, descriptor, driver_key: key },
                    r0,
                )
                &&& r1 == Request::QueryRegistry
            },
        },
        (BuilderPhase::Walking { walk }, Reply::Registry(table_opt)) => walk.phase matches
            PortPhase::AwaitRegistry { port, descriptor, driver_key } && match table_opt {
            None => advance_rel(b, r0, r1),
            Some(table) => match first_match(table@, driver_key@) {
                Some(cid) => advance_port_rel(
                    b.lang_id,
                    b.include_unidentified,
                    b.next_slot,
                    b.hubs@,
                    b.pending@,
                    walk.task,
                    walk.port_count,
                    walk.devices@.push(
                        Device {
                            container_id: cid,
                            driver_key_name: driver_key,
                            port_number: port,
                            descriptor,
                        },
                    ),
                    walk.children@,
                    port,
                    r0,
                    r1,
                ),
                None => if b.include_unidentified {
                    exists|blank: String|
                        #![auto]
                        blank@ == Seq::<char>::empty() && advance_port_rel(
                            b.lang_id,
                            b.include_unidentified,
                            b.next_slot,
                            b.hubs@,
                            b.pending@,
                            walk.task,
                            walk.port_count,
                            walk.devices@.push(
                                Device {
                                    container_id: blank,
                                    driver_key_name: driver_key,
                                    port_number: port,
                                    descriptor,
                                },
                            ),
                            walk.children@,
                            port,
                            r0,
                            r1,
                        )
                } else {
                    advance_port_rel(
                        b.lang_id,
                        b.include_unidentified,
                        b.next_slot,
                        b.hubs@,
                        b.pending@,
                        walk.task,
                        walk.port_count,
                        walk.devices@,
                        walk.children@,
                        port,
                        r0,
                        r1,
                    )
                },
            },
        },
        _ => false,
    }
}

// ---------------------------------------------------------------------------
// The engine
// ---------------------------------------------------------------------------

/// Assembles the hub record one hub's walk produces: its name, its port
/// count and the devices collected from its ports, with no back-reference
/// and no descriptor — those are filled in where the hub is nested under a
/// parent.
pub fn get_hub_devices(hub_id: String, number_of_ports: u8, devices: Vec<Device>) -> (h: Hub)
    ensures
        h.hub_id == hub_id,
        h.number_of_ports == number_of_ports,
        h.devices == devices,
        h.parent_hub is None,
        h.descriptor is None,
{
    Hub { hub_id, number_of_ports, devices, parent_hub: None, descriptor: None }
}

/// Whether a finished hub already carries this name.
fn hubs_contain_id(hubs: &Vec<Hub>, id: &String) -> (r: bool)
    ensures
        r == id_in_hubs(hubs@, id@),
{
    let mut i: usize = 0;
    while i < hubs.len()
        invariant
            i <= hubs@.len(),
            forall|j: int| 0 <= j < i ==> (#[trigger] hubs@[j]).hub_id@ != id@,
        decreases hubs@.len() - i,
    {
        if hubs[i].hub_id == *id {
            return true;
        }
        i += 1;
    }
    false
}

/// Whether a queued task already carries this name.
fn tasks_contain_id(tasks: &Vec<HubTask>, id: &String) -> (r: bool)
    ensures
        r == id_in_tasks(tasks@, id@),
{
    let mut i: usize = 0;
    while i < tasks.len()
        invariant
            i <= tasks@.len(),
            forall|j: int| 0 <= j < i ==> (#[trigger] tasks@[j]).hub_id@ != id@,
        decreases tasks@.len() - i,
    {
        if tasks[i].hub_id == *id {
            return true;
        }
        i += 1;
    }
    false
}

/// Appending a finished hub and queueing its sub-hub tasks keeps the whole
/// state well formed.
proof fn lemma_complete_wf(
    hubs: Seq<Hub>,
    pending: Seq<HubTask>,
    task: HubTask,
    h: Hub,
    children: Seq<HubTask>,
)
    requires
        topology_wf(hubs),
        tasks_wf(hubs, pending),
        task_ok(hubs, pending, task),
        children_wf(hubs, pending, task.hub_id@, children),
        h.hub_id == task.hub_id,
        h.parent_hub == task.parent_hub,
        h.descriptor == task.descriptor,
        hub_wf(h),
    ensures
        topology_wf(hubs.push(h)),
        tasks_wf(hubs.push(h), pending + children.reverse()),
{
    let hubs2 = hubs.push(h);
    let pending2 = pending + children.reverse();
    let n = hubs.len() as int;
    let pl = pending.len() as int;
    let cl = children.len() as int;
    assert(forall|i: int| 0 <= i < n ==> hubs2[i] == hubs[i]);
    assert(hubs2[n] == h);
    assert(forall|i: int| 0 <= i < pl ==> pending2[i] == pending[i]);
    assert forall|i: int| pl <= i < pl + cl implies pending2[i] == children[cl - 1 - (i - pl)] by {
        assert(pending2[i] == children.reverse()[i - pl]);
    }
    assert forall|i: int| 0 <= i < hubs2.len() implies hub_wf(#[trigger] hubs2[i]) by {
        if i < n {
            assert(hubs2[i] == hubs[i]);
        }
    }
    assert forall|i: int, j: int| 0 <= i < j < hubs2.len() implies hubs2[i].hub_id@
        != hubs2[j].hub_id@ by {
        if j == n {
            if hubs[i].hub_id@ == h.hub_id@ {
                assert(id_in_hubs(hubs, task.hub_id@));
            }
        }
    }
    assert forall|i: int|
        0 <= i < hubs2.len() && #[trigger] hubs2[i].parent_hub is Some implies exists|j: int|
            0 <= j < i && #[trigger] hubs2[j].hub_id@ == hubs2[i].parent_hub->0@ by {
        if i < n {
            assert(hubs[i].parent_hub is Some);
            let j = choose|j: int|
                0 <= j < i && #[trigger] hubs[j].hub_id@ == hubs[i].parent_hub->0@;
            assert(hubs2[j].hub_id@ == hubs2[i].parent_hub->0@);
        } else {
            let pid = h.parent_hub->0;
            assert(id_in_hubs(hubs, pid@));
            let j = choose|j: int| 0 <= j < hubs.len() && (#[trigger] hubs[j]).hub_id@ == pid@;
            assert(0 <= j < i && hubs2[j].hub_id@ == hubs2[i].parent_hub->0@);
        }
    }
    assert forall|i: int|
        0 <= i < pending2.len() implies task_wf(#[trigger] pending2[i]) && parent_in(
        hubs2,
        pending2[i].parent_hub,
    ) && !id_in_hubs(hubs2, pending2[i].hub_id@) by {
        if i < pl {
            let t = pending[i];
            assert(pending2[i] == t);
            if t.parent_hub is Some {
                let pid = t.parent_hub->0;
                assert(id_in_hubs(hubs, pid@));
                let j = choose|j: int| 0 <= j < hubs.len() && (#[trigger] hubs[j]).hub_id@ == pid@;
                assert(hubs2[j].hub_id@ == pid@);
                assert(id_in_hubs(hubs2, pid@));
            }
            assert(!id_in_hubs(hubs2, t.hub_id@)) by {
                if id_in_hubs(hubs2, t.hub_id@) {
                    let k = choose|k: int|
                        0 <= k < hubs2.len() && (#[trigger] hubs2[k]).hub_id@ == t.hub_id@;
                    if k < n {
                        assert(id_in_hubs(hubs, t.hub_id@));
                    } else {
                        assert(id_in_tasks(pending, task.hub_id@));
                    }
                }
            }
        } else {
            let c = children[cl - 1 - (i - pl)];
            assert(pending2[i] == c);
            assert(c.parent_hub matches Some(p) && p@ == task.hub_id@);
            assert(c.descriptor is Some);
            assert(task_wf(c));
            let pid = c.parent_hub->0;
            assert(hubs2[n].hub_id@ == pid@);
            assert(id_in_hubs(hubs2, pid@));
            assert(!id_in_hubs(hubs2, c.hub_id@)) by {
                if id_in_hubs(hubs2, c.hub_id@) {
                    let k = choose|k: int|
                        0 <= k < hubs2.len() && (#[trigger] hubs2[k]).hub_id@ == c.hub_id@;
                    if k < n {
                        assert(id_in_hubs(hubs, c.hub_id@));
                    } else {
                        assert(c.hub_id@ == task.hub_id@);
                    }
                }
            }
        }
    }
    assert forall|i: int, j: int| 0 <= i < j < pending2.len() implies pending2[i].hub_id@
        != pending2[j].hub_id@ by {
        if j < pl {
        } else if i < pl {
            let c = children[cl - 1 - (j - pl)];
            if pending[i].hub_id@ == c.hub_id@ {
                assert(id_in_tasks(pending, c.hub_id@));
            }
        } else {
            let a = cl - 1 - (i - pl);
            let bb = cl - 1 - (j - pl);
            assert(0 <= bb < a < cl);
            assert(children[bb].hub_id@ != children[a].hub_id@);
        }
    }
}

/// Moves on to the next pending sub-hub, the next root slot, or the end.
fn advance(
    lang_id: u16,
    include_unidentified: bool,
    next_slot: u16,
    hubs: Vec<Hub>,
    pending: Vec<HubTask>,
) -> (r: (TopologyBuilder, Request))
    requires
        core_wf(next_slot, hubs@, pending@),
    ensures
        builder_wf(r.0),
        advance_core(lang_id, include_unidentified, next_slot, hubs@, pending@, r.0, r.1),
{
    let ghost pending0 = pending@;
    let mut pending = pending;
    match pending.pop() {
        Some(task) => {
            let request_id = task.hub_id.clone();
            proof {
                assert(task == pending0.last());
                assert(pending@ == pending0.drop_last());
                assert(forall|i: int| 0 <= i < pending@.len() ==> pending@[i] == pending0[i]);
                assert(!id_in_tasks(pending@, task.hub_id@)) by {
                    if id_in_tasks(pending@, task.hub_id@) {
                        let k = choose|k: int|
                            0 <= k < pending@.len() && (#[trigger] pending@[k]).hub_id@
                                == task.hub_id@;
                        assert(pending0[k].hub_id@ != pending0[pending0.len() - 1].hub_id@);
                    }
                }
            }
            (
                TopologyBuilder {
                    lang_id,
                    include_unidentified,
                    next_slot,
                    pending,
                    hubs,
                    phase: BuilderPhase::AwaitHubOpen { task },
                },
                Request::OpenHub { hub_id: request_id },
            )
        },
        None => {
            if next_slot < ROOT_SLOT_COUNT {
                let slot = next_slot as u8;
                (
                    TopologyBuilder {
                        lang_id,
                        include_unidentified,
                        next_slot: next_slot + 1,
                        pending,
                        hubs,
                        phase: BuilderPhase::AwaitRootName { slot },
                    },
                    Request::OpenRootController { slot },
                )
            } else {
                (
                    TopologyBuilder {
                        lang_id,
                        include_unidentified,
                        next_slot,
                        pending,
                        hubs,
                        phase: BuilderPhase::Done,
                    },
                    Request::Complete,
                )
            }
        },
    }
}

/// Finishes the current hub: appends its record, queues its sub-hubs in
/// reverse so the lowest port's sub-hub is walked first, and moves on.
fn complete_hub(
    lang_id: u16,
    include_unidentified: bool,
    next_slot: u16,
    hubs: Vec<Hub>,
    pending: Vec<HubTask>,
    task: HubTask,
    port_count: u8,
    devices: Vec<Device>,
    children: Vec<HubTask>,
) -> (r: (TopologyBuilder, Request))
    requires
        core_wf(next_slot, hubs@, pending@),
        walk_parts_wf(hubs@, pending@, task, children@),
        devices_sorted(devices@),
    ensures
        builder_wf(r.0),
        complete_rel(
            lang_id,
            include_unidentified,
            next_slot,
            hubs@,
            pending@,
            task,
            port_count,
            devices@,
            children@,
            r.0,
            r.1,
        ),
{
    let ghost hubs0 = hubs@;
    let ghost pending0 = pending@;
    let ghost children0 = children@;
    let ghost task0 = task;
    let HubTask { hub_id, parent_hub, descriptor } = task;
    let mut hub = get_hub_devices(hub_id, port_count, devices);
    hub.parent_hub = parent_hub;
    hub.descriptor = descriptor;
    let ghost h = hub;
    let mut hubs = hubs;
    hubs.push(hub);
    let mut pending = pending;
    let mut children = children;
    while children.len() > 0
        invariant
            children@.len() <= children0.len(),
            forall|k: int| 0 <= k < children@.len() ==> #[trigger] children@[k] == children0[k],
            pending@.len() == pending0.len() + children0.len() - children@.len(),
            forall|m: int| 0 <= m < pending0.len() ==> #[trigger] pending@[m] == pending0[m],
            forall|t: int|
                0 <= t < children0.len() - children@.len() ==> #[trigger] pending@[pending0.len()
                    + t] == children0[children0.len() - 1 - t],
        decreases children@.len(),
    {
        let ghost before = children@;
        let c = children.pop().unwrap();
        proof {
            assert(c == before.last());
            assert(before.last() == before[before.len() - 1]);
            assert(c == children0[children@.len() as int]);
        }
        pending.push(c);
        proof {
            let t_new = children0.len() - children@.len() - 1;
            assert(pending@[pending0.len() + t_new] == c);
            assert(children0.len() - 1 - t_new == children@.len());
        }
    }
    proof {
        assert(children@.len() == 0);
        assert forall|m: int|
            0 <= m < pending@.len() implies pending@[m] == (pending0
            + children0.reverse())[m] by {
            if m >= pending0.len() {
                let t = m - pending0.len();
                assert(pending@[pending0.len() + t] == children0[children0.len() - 1 - t]);
                assert(children0.reverse()[t] == children0[children0.len() - 1 - t]);
            }
        }
        assert(pending@ =~= pending0 + children0.reverse());
        assert(h.hub_id == task0.hub_id);
        assert(h.parent_hub == task0.parent_hub);
        assert(h.descriptor == task0.descriptor);
        assert(hub_wf(h));
        lemma_complete_wf(hubs0, pending0, task0, h, children0);
        assert(hubs@ == hubs0.push(h));
    }
    let r = advance(lang_id, include_unidentified, next_slot, hubs, pending);
    proof {
        assert(advance_core(
            lang_id,
            include_unidentified,
            next_slot,
            hubs0.push(h),
            pending0 + children0.reverse(),
            r.0,
            r.1,
        ));
    }
    r
}

/// Queries the next port, or finishes the hub past the last port.
fn advance_port(
    lang_id: u16,
    include_unidentified: bool,
    next_slot: u16,
    hubs: Vec<Hub>,
    pending: Vec<HubTask>,
    task: HubTask,
    port_count: u8,
    devices: Vec<Device>,
    children: Vec<HubTask>,
    port: u8,
) -> (r: (TopologyBuilder, Request))
    requires
        core_wf(next_slot, hubs@, pending@),
        walk_parts_wf(hubs@, pending@, task, children@),
        1 <= port <= port_count,
        devices_below(devices@, port + 1),
    ensures
        builder_wf(r.0),
        advance_port_rel(
            lang_id,
            include_unidentified,
            next_slot,
            hubs@,
            pending@,
            task,
            port_count,
            devices@,
            children@,
            port,
            r.0,
            r.1,
        ),
{
    if port < port_count {
        (
            TopologyBuilder {
                lang_id,
                include_unidentified,
                next_slot,
                pending,
                hubs,
                phase: BuilderPhase::Walking {
                    walk: HubWalk {
                        task,
                        port_count,
                        devices,
                        children,
                        phase: PortPhase::AwaitConnection { port: port + 1 },
                    },
                },
            },
            Request::QueryPort { port: port + 1 },
        )
    } else {
        complete_hub(
            lang_id,
            include_unidentified,
            next_slot,
            hubs,
            pending,
            task,
            port_count,
            devices,
            children,
        )
    }
}

/// The string index of one of the three string slots.
fn slot_index(d: &UsbDeviceDescriptor, slot: u8) -> (r: u8)
    ensures
        r == slot_index_spec(*d, slot),
{
    if slot == 0 {
        d.iManufacturer.0
    } else if slot == 1 {
        d.iProduct.0
    } else {
        d.iSerialNumber.0
    }
}

/// Fills one string slot's resolved text in.
fn store_slot(d: UsbDeviceDescriptor, slot: u8, t: Option<String>) -> (r: UsbDeviceDescriptor)
    ensures
        r == store_slot_spec(d, slot, t),
{
    if slot == 0 {
        UsbDeviceDescriptor { iManufacturer: (d.iManufacturer.0, t), ..d }
    } else if slot == 1 {
        UsbDeviceDescriptor { iProduct: (d.iProduct.0, t), ..d }
    } else {
        UsbDeviceDescriptor { iSerialNumber: (d.iSerialNumber.0, t), ..d }
    }
}

/// Works through the string slots from `slot` on: issues the current
/// resolver's outstanding request, or stores its result and starts the
/// next slot, then hands the port on to the sub-hub or driver-key query.
fn settle_strings(
    lang_id: u16,
    include_unidentified: bool,
    next_slot: u16,
    hubs: Vec<Hub>,
    pending: Vec<HubTask>,
    task: HubTask,
    port_count: u8,
    devices: Vec<Device>,
    children: Vec<HubTask>,
    port: u8,
    d: UsbDeviceDescriptor,
    slot: u8,
    is_hub: bool,
    resolver: StringResolver,
) -> (r: (TopologyBuilder, Request))
    requires
        core_wf(next_slot, hubs@, pending@),
        walk_parts_wf(hubs@, pending@, task, children@),
        1 <= port <= port_count,
        devices_below(devices@, port as int),
        slot <= 2,
        resolver_wf(resolver),
    ensures
        builder_wf(r.0),
        settle_rel(
            lang_id,
            include_unidentified,
            next_slot,
            hubs@,
            pending@,
            task,
            port_count,
            devices@,
            children@,
            port,
            d,
            slot,
            is_hub,
            resolver,
            r.0,
            r.1,
        ),
    decreases 3 - slot,
{
    if !resolver.is_done() {
        let request = match resolver.next_action() {
            StringAction::RequestText(l) => Request::QueryString {
                port,
                string_index: resolver.string_index,
                lang_id: l,
            },
            StringAction::RequestLanguages => Request::QueryLanguages {
                port,
                string_index: resolver.string_index,
            },
            StringAction::Finished => {
                proof {
                    assert(false);
                }
                unreached()
            },
        };
        (
            TopologyBuilder {
                lang_id,
                include_unidentified,
                next_slot,
                pending,
                hubs,
                phase: BuilderPhase::Walking {
                    walk: HubWalk {
                        task,
                        port_count,
                        devices,
                        children,
                        phase: PortPhase::ResolvingStrings {
                            port,
                            descriptor: d,
                            slot,
                            is_hub,
                            resolver,
                        },
                    },
                },
            },
            request,
        )
    } else {
        let t = resolver.take_result();
        let d2 = store_slot(d, slot, t);
        if slot < 2 {
            let idx = slot_index(&d2, slot + 1);
            let next_resolver = StringResolver::start(idx, lang_id);
            settle_strings(
                lang_id,
                include_unidentified,
                next_slot,
                hubs,
                pending,
                task,
                port_count,
                devices,
                children,
                port,
                d2,
                slot + 1,
                is_hub,
                next_resolver,
            )
        } else if is_hub {
            (
                TopologyBuilder {
                    lang_id,
                    include_unidentified,
                    next_slot,
                    pending,
                    hubs,
                    phase: BuilderPhase::Walking {
                        walk: HubWalk {
                            task,
                            port_count,
                            devices,
                            children,
                            phase: PortPhase::AwaitSubHubName { port, descriptor: d2 },
                        },
                    },
                },
                Request::QuerySubHubName { port },
            )
        } else {
            (
                TopologyBuilder {
                    lang_id,
                    include_unidentified,
                    next_slot,
                    pending,
                    hubs,
                    phase: BuilderPhase::Walking {
                        walk: HubWalk {
                            task,
                            port_count,
                            devices,
                            children,
                            phase: PortPhase::AwaitDriverKey { port, descriptor: d2 },
                        },
                    },
                },
                Request::QueryDriverKey { port },
            )
        }
    }
}

impl TopologyBuilder {
    /// Starts a discovery: the first request probes root-controller slot
    /// zero. `include_unidentified` chooses the policy for a device whose
    /// driver key matches no registry entry: kept with an empty container
    /// id, or left out of the hub's device list.
    pub fn start(lang_id: u16, include_unidentified: bool) -> (r: (TopologyBuilder, Request))
        ensures
            builder_wf(r.0),
            r.0.lang_id == lang_id,
            r.0.include_unidentified == include_unidentified,
            r.0.hubs@ == Seq::<Hub>::empty(),
            r.0.pending@ == Seq::<HubTask>::empty(),
            r.0.next_slot == 1,
            r.0.phase == (BuilderPhase::AwaitRootName { slot: 0u8 }),
            r.1 == (Request::OpenRootController { slot: 0u8 }),
    {
        (
            TopologyBuilder {
                lang_id,
                include_unidentified,
                next_slot: 1,
                pending: Vec::new(),
                hubs: Vec::new(),
                phase: BuilderPhase::AwaitRootName { slot: 0 },
            },
            Request::OpenRootController { slot: 0 },
        )
    }

    /// Whether every slot is exhausted and the topology is finished.
    pub fn is_complete(&self) -> (r: bool)
        ensures
            r == (self.phase is Done),
    {
        match self.phase {
            BuilderPhase::Done => true,
            _ => false,
        }
    }

    /// Hands the flat hub list out. It is well formed at every point of
    /// the walk, so a partial result is well formed too.
    pub fn finish(self) -> (r: Vec<Hub>)
        requires
            builder_wf(self),
        ensures
            r == self.hubs,
            topology_wf(r@),
    {
        self.hubs
    }

    /// Consumes the decoded outcome of the outstanding request and names
    /// the next request. The state changes exactly as `builder_step_rel`
    /// says, and stays well formed.
    pub fn step(self, reply: Reply) -> (r: (TopologyBuilder, Request))
        requires
            builder_wf(self),
            builder_accepts(self, reply),
        ensures
            builder_wf(r.0),
            builder_step_rel(self, reply, r.0, r.1),
    {
        let TopologyBuilder { lang_id, include_unidentified, next_slot, pending, hubs, phase } =
            self;
        match (phase, reply) {
            (BuilderPhase::AwaitRootName { slot: _ }, Reply::RootName(name_opt)) => match name_opt {
                None => advance(lang_id, include_unidentified, next_slot, hubs, pending),
                Some(name) => {
                    let taken = hubs_contain_id(&hubs, &name) || tasks_contain_id(&pending, &name);
                    if taken {
                        advance(lang_id, include_unidentified, next_slot, hubs, pending)
                    } else {
                        let request_id = name.clone();
                        (
                            TopologyBuilder {
                                lang_id,
                                include_unidentified,
                                next_slot,
                                pending,
                                hubs,
                                phase: BuilderPhase::AwaitHubOpen {
                                    task: HubTask {
                                        hub_id: name,
                                        parent_hub: None,
                                        descriptor: None,
                                    },
                                },
                            },
                            Request::OpenHub { hub_id: request_id },
                        )
                    }
                },
            },
            (BuilderPhase::AwaitHubOpen { task }, Reply::HubOpened(opened)) => {
                if opened {
                    (
                        TopologyBuilder {
                            lang_id,
                            include_unidentified,
                            next_slot,
                            pending,
                            hubs,
                            phase: BuilderPhase::AwaitPortCount { task },
                        },
                        Request::QueryPortCount,
                    )
                } else {
                    advance(lang_id, include_unidentified, next_slot, hubs, pending)
                }
            },
            (BuilderPhase::AwaitPortCount { task }, Reply::PortCount(count_opt)) => match count_opt {
                None => advance(lang_id, include_unidentified, next_slot, hubs, pending),
                Some(n) => {
                    if n == 0 {
                        let devices: Vec<Device> = Vec::new();
                        let children: Vec<HubTask> = Vec::new();
                        proof {
                            assert(devices@ =~= Seq::<Device>::empty());
                            assert(children@ =~= Seq::<HubTask>::empty());
                        }
                        complete_hub(
                            lang_id,
                            include_unidentified,
                            next_slot,
                            hubs,
                            pending,
                            task,
                            n,
                            devices,
                            children,
                        )
                    } else {
                        let devices: Vec<Device> = Vec::new();
                        let children: Vec<HubTask> = Vec::new();
                        proof {
                            assert(devices@ =~= Seq::<Device>::empty());
                            assert(children@ =~= Seq::<HubTask>::empty());
                        }
                        (
                            TopologyBuilder {
                                lang_id,
                                include_unidentified,
                                next_slot,
                                pending,
                                hubs,
                                phase: BuilderPhase::Walking {
                                    walk: HubWalk {
                                        task,
                                        port_count: n,
                                        devices,
                                        children,
                                        phase: PortPhase::AwaitConnection { port: 1 },
                                    },
                                },
                            },
                            Request::QueryPort { port: 1 },
                        )
                    }
                },
            },
            (BuilderPhase::Walking { walk }, reply2) => {
                let HubWalk { task, port_count, devices, children, phase: pphase } = walk;
                match (pphase, reply2) {
                    (PortPhase::AwaitConnection { port }, Reply::PortStatus(info)) => match info {
                        ConnectionInfo::Connected { descriptor, is_hub } => {
                            let idx = descriptor.iManufacturer.0;
                            let resolver = StringResolver::start(idx, lang_id);
                            settle_strings(
                                lang_id,
                                include_unidentified,
                                next_slot,
                                hubs,
                                pending,
                                task,
                                port_count,
                                devices,
                                children,
                                port,
                                descriptor,
                                0,
                                is_hub,
                                resolver,
                            )
                        },
                        _ => advance_port(
                            lang_id,
                            include_unidentified,
                            next_slot,
                            hubs,
                            pending,
                            task,
                            port_count,
                            devices,
                            children,
                            port,
                        ),
                    },
                    (
                        PortPhase::ResolvingStrings { port, descriptor, slot, is_hub, resolver },
                        Reply::StringText(t),
                    ) => {
                        let resolver2 = resolver.step(StringEvent::Text(t));
                        settle_strings(
                            lang_id,
                            include_unidentified,
                            next_slot,
                            hubs,
                            pending,
                            task,
                            port_count,
                            devices,
                            children,
                            port,
                            descriptor,
                            slot,
                            is_hub,
                            resolver2,
                        )
                    },
                    (
                        PortPhase::ResolvingStrings { port, descriptor, slot, is_hub, resolver },
                        Reply::Languages(l),
                    ) => {
                        let resolver2 = resolver.step(StringEvent::Languages(l));
                        settle_strings(
                            lang_id,
                            include_unidentified,
                            next_slot,
                            hubs,
                            pending,
                            task,
                            port_count,
                            devices,
                            children,
                            port,
                            descriptor,
                            slot,
                            is_hub,
                            resolver2,
                        )
                    },
                    (
                        PortPhase::AwaitSubHubName { port, descriptor },
                        Reply::SubHubName(name_opt),
                    ) => match name_opt {
                        None => advance_port(
                            lang_id,
                            include_unidentified,
                            next_slot,
                            hubs,
                            pending,
                            task,
                            port_count,
                            devices,
                            children,
                            port,
                        ),
                        Some(name) => {
                            let taken = hubs_contain_id(&hubs, &name) || tasks_contain_id(
                                &pending,
                                &name,
                            ) || task.hub_id == name || tasks_contain_id(&children, &name);
                            if taken {
                                advance_port(
                                    lang_id,
                                    include_unidentified,
                                    next_slot,
                                    hubs,
                                    pending,
                                    task,
                                    port_count,
                                    devices,
                                    children,
                                    port,
                                )
                            } else {
                                let parent_ref = task.hub_id.clone();
                                let child = HubTask {
                                    hub_id: name,
                                    parent_hub: Some(parent_ref),
                                    descriptor: Some(descriptor),
                                };
                                let ghost child_g = child;
                                let ghost children0 = children@;
                                let mut children = children;
                                children.push(child);
                                proof {
                                    assert forall|i: int|
                                        0 <= i < children@.len() implies ((
                                        #[trigger] children@[i]).parent_hub matches Some(p) && p@
                                        == task.hub_id@) && children@[i].descriptor is Some
                                        && !id_in_hubs(hubs@, children@[i].hub_id@) && !id_in_tasks(
                                        pending@,
                                        children@[i].hub_id@,
                                    ) && children@[i].hub_id@ != task.hub_id@ by {
                                        if i < children@.len() - 1 {
                                            assert(children@[i] == children0[i]);
                                        } else {
                                            assert(children@[i] == child_g);
                                        }
                                    }
                                    assert forall|i: int, j: int|
                                        0 <= i < j < children@.len() implies children@[i].hub_id@
                                        != children@[j].hub_id@ by {
                                        if j < children@.len() - 1 {
                                            assert(children@[i] == children0[i]);
                                            assert(children@[j] == children0[j]);
                                        } else {
                                            assert(children@[i] == children0[i]);
                                            assert(children@[j] == child_g);
                                            if children0[i].hub_id@ == child_g.hub_id@ {
                                                assert(id_in_tasks(children0, child_g.hub_id@));
                                            }
                                        }
                                    }
                                }
                                advance_port(
                                    lang_id,
                                    include_unidentified,
                                    next_slot,
                                    hubs,
                                    pending,
                                    task,
                                    port_count,
                                    devices,
                                    children,
                                    port,
                                )
                            }
                        },
                    },
                    (PortPhase::AwaitDriverKey { port, descriptor }, Reply::DriverKey(key_opt)) => match key_opt {
                        None => advance(lang_id, include_unidentified, next_slot, hubs, pending),
                        Some(key) => (
                            TopologyBuilder {
                                lang_id,
                                include_unidentified,
                                next_slot,
                                pending,
                                hubs,
                                phase: BuilderPhase::Walking {
                                    walk: HubWalk {
                                        task,
                                        port_count,
                                        devices,
                                        children,
                                        phase: PortPhase::AwaitRegistry {
                                            port,
                                            descriptor,
                                            driver_key: key,
                                        },
                                    },
                                },
                            },
                            Request::QueryRegistry,
                        ),
                    },
                    (
                        PortPhase::AwaitRegistry { port, descriptor, driver_key },
                        Reply::Registry(table_opt),
                    ) => match table_opt {
                        None => advance(lang_id, include_unidentified, next_slot, hubs, pending),
                        Some(table) => {
                            let matched = crate::identity::correlate(&driver_key, &table);
                            match matched {
                                Some(cid) => {
                                    let device = Device {
                                        container_id: cid,
                                        driver_key_name: driver_key,
                                        port_number: port,
                                        descriptor,
                                    };
                                    let ghost device_g = device;
                                    let ghost devices0 = devices@;
                                    let mut devices = devices;
                                    devices.push(device);
                                    proof {
                                        lemma_device_push(devices0, device_g, port as int);
                                    }
                                    advance_port(
                                        lang_id,
                                        include_unidentified,
                                        next_slot,
                                        hubs,
                                        pending,
                                        task,
                                        port_count,
                                        devices,
                                        children,
                                        port,
                                    )
                                },
                                None => {
                                    if include_unidentified {
                                        let blank = String::new();
                                        let ghost blank_g = blank;
                                        let device = Device {
                                            container_id: blank,
                                            driver_key_name: driver_key,
                                            port_number: port,
                                            descriptor,
                                        };
                                        let ghost device_g = device;
                                        let ghost devices0 = devices@;
                                        let mut devices = devices;
                                        devices.push(device);
                                        proof {
                                            lemma_device_push(devices0, device_g, port as int);
                                        }
                                        let r = advance_port(
                                            lang_id,
                                            include_unidentified,
                                            next_slot,
                                            hubs,
                                            pending,
                                            task,
                                            port_count,
                                            devices,
                                            children,
                                            port,
                                        );
                                        proof {
                                            assert(blank_g@ =~= Seq::<char>::empty());
                                        }
                                        r
                                    } else {
                                        advance_port(
                                            lang_id,
                                            include_unidentified,
                                            next_slot,
                                            hubs,
                                            pending,
                                            task,
                                            port_count,
                                            devices,
                                            children,
                                            port,
                                        )
                                    }
                                },
                            }
                        },
                    },
                    _ => {
                        proof {
                            assert(false);
                        }
                        unreached()
                    },
                }
            },
            _ => {
                proof {
                    assert(false);
                }
                unreached()
            },
        }
    }
}

/// Appending a device for the port just finished keeps the device list
/// ascending and below the next port.
proof fn lemma_device_push(devices: Seq<Device>, d: Device, port: int)
    requires
        devices_below(devices, port),
        d.port_number == port,
    ensures
        devices_below(devices.push(d), port + 1),
{
    let devs2 = devices.push(d);
    assert forall|i: int, j: int| 0 <= i < j < devs2.len() implies devs2[i].port_number
        < devs2[j].port_number by {
        if j < devs2.len() - 1 {
            assert(devs2[i] == devices[i]);
            assert(devs2[j] == devices[j]);
        } else {
            assert(devs2[i] == devices[i]);
            assert(devs2[j] == d);
        }
    }
    assert forall|i: int| 0 <= i < devs2.len() implies (#[trigger] devs2[i]).port_number < port
        + 1 by {
        if i < devs2.len() - 1 {
            assert(devs2[i] == devices[i]);
        } else {
            assert(devs2[i] == d);
        }
    }
}


} // verus!
