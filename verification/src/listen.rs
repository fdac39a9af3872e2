//! How the proxy gets a socket to listen on.
//!
//! Each procedure here is a table: it takes the step that is pending and what came of it, and
//! gives the next step. An event that does not belong to the pending step changes nothing.
use crate::error::{ErrorKind, ProxyError};
use crate::path::parent;
use crate::socket::{candidate_socket_name, resolve_socket_spec, ResolvedSocket};
use vstd::prelude::*;
use vstd::slice::slice_to_vec;

verus! {

/// The causes of failed calls that the proxy tells apart.
#[derive(Debug, Clone, Copy, PartialEq, Eq, Structural)]
pub enum IoErrorKind {
    NotFound,
    ConnectionRefused,
    WouldBlock,
    Interrupted,
    Other,
}

/// What the path of a proxy socket holds.
#[derive(Debug, Clone, Copy, PartialEq, Eq, Structural)]
pub enum SocketState {
    /// Nothing.
    Available,
    /// A socket that a process serves.
    Active,
    /// A socket that no process serves any more.
    Stale,
}

/// The steps of finding out what a path holds.
#[derive(Debug, Clone, Copy, PartialEq, Eq, Structural)]
pub enum ProbeStep {
    /// Look at what the path names.
    Inspect,
    /// Connect to the socket at the path.
    Connect,
    /// The end: the state of the path.
    Found(SocketState),
    /// The end: the path holds something other than a socket.
    NotASocket,
    /// The end: the last call failed.
    Failed,
}

/// What came of a `ProbeStep`.
#[derive(Debug, Clone, Copy, PartialEq, Eq, Structural)]
pub enum ProbeEvent {
    /// The path names something; whether that is a socket.
    Inspected(bool),
    InspectFailed(IoErrorKind),
    Connected,
    ConnectFailed(IoErrorKind),
}

/// The step after a step of the probe.
pub open spec fn probe_next(step: ProbeStep, event: ProbeEvent) -> ProbeStep {
    match (step, event) {
        (ProbeStep::Inspect, ProbeEvent::Inspected(is_socket)) => if is_socket {
            ProbeStep::Connect
        } else {
            ProbeStep::NotASocket
        },
        (ProbeStep::Inspect, ProbeEvent::InspectFailed(kind)) => match kind {
            IoErrorKind::NotFound => ProbeStep::Found(SocketState::Available),
            _ => ProbeStep::Failed,
        },
        (ProbeStep::Connect, ProbeEvent::Connected) => ProbeStep::Found(SocketState::Active),
        (ProbeStep::Connect, ProbeEvent::ConnectFailed(kind)) => match kind {
            IoErrorKind::ConnectionRefused => ProbeStep::Found(SocketState::Stale),
            IoErrorKind::NotFound => ProbeStep::Found(SocketState::Available),
            _ => ProbeStep::Failed,
        },
        _ => step,
    }
}

/// The step after a step of the probe.
pub fn socket_state(step: ProbeStep, event: ProbeEvent) -> (next: ProbeStep)
    ensures
        next == probe_next(step, event),
{
    match step {
        ProbeStep::Inspect => match event {
            ProbeEvent::Inspected(true) => ProbeStep::Connect,
            ProbeEvent::Inspected(false) => ProbeStep::NotASocket,
            ProbeEvent::InspectFailed(IoErrorKind::NotFound) => ProbeStep::Found(
                SocketState::Available,
            ),
            ProbeEvent::InspectFailed(_) => ProbeStep::Failed,
            _ => step,
        },
        ProbeStep::Connect => match event {
            ProbeEvent::Connected => ProbeStep::Found(SocketState::Active),
            ProbeEvent::ConnectFailed(IoErrorKind::ConnectionRefused) => ProbeStep::Found(
                SocketState::Stale,
            ),
            ProbeEvent::ConnectFailed(IoErrorKind::NotFound) => ProbeStep::Found(
                SocketState::Available,
            ),
            ProbeEvent::ConnectFailed(_) => ProbeStep::Failed,
            _ => step,
        },
        _ => step,
    }
}

/// The error that a probe of a path ends with, where the proxy itself finds it: the path holds
/// something other than a socket.
pub fn probe_error(step: ProbeStep, path: &[u8]) -> (error: Option<ProxyError>)
    ensures
        crate::error::answer(error) == (if step is NotASocket {
            Some(
                (
                    ErrorKind::AlreadyExists,
                    "path exists and is not a socket: "@ + crate::text::shown(path@),
                ),
            )
        } else {
            None
        }),
        error is Some <==> step is NotASocket,
        error is Some ==> error->0 is NotASocket && error->0->NotASocket_0@ == path@,
{
    match step {
        ProbeStep::NotASocket => Some(ProxyError::NotASocket(slice_to_vec(path))),
        _ => None,
    }
}

/// The step that a probe is at after some events.
pub open spec fn probe_after(events: Seq<ProbeEvent>) -> ProbeStep
    decreases events.len(),
{
    if events.len() == 0 {
        ProbeStep::Inspect
    } else {
        probe_next(probe_after(events.drop_last()), events.last())
    }
}

/// Whether an event is an answer to a step.
pub open spec fn probe_answers(step: ProbeStep, event: ProbeEvent) -> bool {
    match step {
        ProbeStep::Inspect => event is Inspected || event is InspectFailed,
        ProbeStep::Connect => event is Connected || event is ConnectFailed,
        _ => false,
    }
}

/// The events that were answers to the step that was pending.
pub open spec fn probe_history(events: Seq<ProbeEvent>) -> Seq<ProbeEvent>
    decreases events.len(),
{
    if events.len() == 0 {
        Seq::empty()
    } else if probe_answers(probe_after(events.drop_last()), events.last()) {
        probe_history(events.drop_last()).push(events.last())
    } else {
        probe_history(events.drop_last())
    }
}

/// Whether a step is the one that the answers so far lead to.
pub open spec fn probe_explained(step: ProbeStep, history: Seq<ProbeEvent>) -> bool {
    let socket = ProbeEvent::Inspected(true);
    match step {
        ProbeStep::Inspect => history.len() == 0,
        ProbeStep::Connect => history =~= seq![socket],
        ProbeStep::NotASocket => history =~= seq![ProbeEvent::Inspected(false)],
        ProbeStep::Found(SocketState::Active) => history =~= seq![socket, ProbeEvent::Connected],
        ProbeStep::Found(SocketState::Stale) => history =~= seq![
            socket,
            ProbeEvent::ConnectFailed(IoErrorKind::ConnectionRefused),
        ],
        ProbeStep::Found(SocketState::Available) => {
            ||| history =~= seq![ProbeEvent::InspectFailed(IoErrorKind::NotFound)]
            ||| history =~= seq![socket, ProbeEvent::ConnectFailed(IoErrorKind::NotFound)]
        },
        ProbeStep::Failed => {
            ||| history.len() == 1 && history[0] is InspectFailed && history[0]
                != ProbeEvent::InspectFailed(IoErrorKind::NotFound)
            ||| history.len() == 2 && history[0] == socket && history[1] is ConnectFailed
                && history[1] != ProbeEvent::ConnectFailed(IoErrorKind::NotFound) && history[1]
                != ProbeEvent::ConnectFailed(IoErrorKind::ConnectionRefused)
        },
    }
}

/// Whatever happens, what a probe finds is confirmed: a socket counts as stale only where it was
/// found at the path and refused a connection, as active only where it was found and took one,
/// and a path counts as available only where nothing was found at it.
pub proof fn probe_results_are_confirmed(events: Seq<ProbeEvent>)
    ensures
        probe_explained(probe_after(events), probe_history(events)),
    decreases events.len(),
{
    if events.len() > 0 {
        probe_results_are_confirmed(events.drop_last());
    }
}

/// The steps of allocating a socket under the first free name. Candidates are counted from
/// zero.
#[derive(Debug, Clone, Copy, PartialEq, Eq, Structural)]
pub enum AllocationStep {
    /// Find out what the path of a candidate holds.
    Probe(u32),
    /// Remove the stale socket at the path of a candidate.
    Reclaim(u32),
    /// The end: the candidate that is allocated.
    Allocated(u32),
    /// The end: every candidate is active.
    Exhausted,
    /// The end: the last call failed.
    Failed,
}

/// What came of an `AllocationStep`.
#[derive(Debug, Clone, Copy, PartialEq, Eq, Structural)]
pub enum AllocationEvent {
    Probed(SocketState),
    ProbeFailed,
    Removed,
    RemoveFailed,
}

/// Whether an event is an answer to a step.
pub open spec fn allocation_answers(step: AllocationStep, event: AllocationEvent) -> bool {
    match step {
        AllocationStep::Probe(_) => event is Probed || event is ProbeFailed,
        AllocationStep::Reclaim(_) => event is Removed || event is RemoveFailed,
        _ => false,
    }
}

/// The step after a step of the allocation: an active candidate is passed over, a stale one is
/// reclaimed, and an available one is taken.
pub open spec fn allocation_next(step: AllocationStep, event: AllocationEvent) -> AllocationStep {
    match (step, event) {
        (AllocationStep::Probe(index), AllocationEvent::Probed(state)) => match state {
            SocketState::Available => AllocationStep::Allocated(index),
            SocketState::Stale => AllocationStep::Reclaim(index),
            SocketState::Active => if index + 1 < u32::MAX {
                AllocationStep::Probe((index + 1) as u32)
            } else {
                AllocationStep::Exhausted
            },
        },
        (AllocationStep::Probe(_), AllocationEvent::ProbeFailed) => AllocationStep::Failed,
        (AllocationStep::Reclaim(index), AllocationEvent::Removed) => AllocationStep::Allocated(
            index,
        ),
        (AllocationStep::Reclaim(_), AllocationEvent::RemoveFailed) => AllocationStep::Failed,
        _ => step,
    }
}

/// The step after a step of the allocation. The first step is to probe candidate zero.
pub fn allocate_incrementing_socket(step: AllocationStep, event: AllocationEvent) -> (next:
    AllocationStep)
    ensures
        next == allocation_next(step, event),
{
    match step {
        AllocationStep::Probe(index) => match event {
            AllocationEvent::Probed(SocketState::Available) => AllocationStep::Allocated(index),
            AllocationEvent::Probed(SocketState::Stale) => AllocationStep::Reclaim(index),
            AllocationEvent::Probed(SocketState::Active) => if index < u32::MAX - 1 {
                AllocationStep::Probe(index + 1)
            } else {
                AllocationStep::Exhausted
            },
            AllocationEvent::ProbeFailed => AllocationStep::Failed,
            _ => step,
        },
        AllocationStep::Reclaim(index) => match event {
            AllocationEvent::Removed => AllocationStep::Allocated(index),
            AllocationEvent::RemoveFailed => AllocationStep::Failed,
            _ => step,
        },
        _ => step,
    }
}

/// The error that an allocation in a directory ends with, where the proxy itself finds it: every
/// candidate is active.
pub fn allocation_error(step: AllocationStep, directory: &[u8]) -> (error: Option<ProxyError>)
    ensures
        crate::error::answer(error) == (if step is Exhausted {
            Some(
                (
                    ErrorKind::AddrInUse,
                    "could not allocate a free proxy socket under "@ + crate::text::shown(
                        directory@,
                    ),
                ),
            )
        } else {
            None
        }),
        error is Some <==> step is Exhausted,
        error is Some ==> error->0 is NoFreeSocket && error->0->NoFreeSocket_0@ == directory@,
{
    match step {
        AllocationStep::Exhausted => Some(ProxyError::NoFreeSocket(slice_to_vec(directory))),
        _ => None,
    }
}

/// The socket of a candidate.
pub fn candidate_socket(proxy_runtime_dir: &[u8], base_name: &str, index: u32) -> (socket:
    ResolvedSocket)
    ensures
        socket@ == crate::socket::socket_named(
            proxy_runtime_dir@,
            crate::socket::candidate_name(base_name@, index as nat),
        ),
        socket.display_value@ == crate::socket::candidate_name(base_name@, index as nat),
{
    resolve_socket_spec(proxy_runtime_dir, candidate_socket_name(base_name, index).as_str())
}

/// The step that an allocation is at after some events.
pub open spec fn allocation_after(events: Seq<AllocationEvent>) -> AllocationStep
    decreases events.len(),
{
    if events.len() == 0 {
        AllocationStep::Probe(0)
    } else {
        allocation_next(allocation_after(events.drop_last()), events.last())
    }
}

/// The events that were answers to the step that was pending.
pub open spec fn allocation_history(events: Seq<AllocationEvent>) -> Seq<AllocationEvent>
    decreases events.len(),
{
    if events.len() == 0 {
        Seq::empty()
    } else if allocation_answers(allocation_after(events.drop_last()), events.last()) {
        allocation_history(events.drop_last()).push(events.last())
    } else {
        allocation_history(events.drop_last())
    }
}

/// Whether the first `count` answers all say that a candidate is active.
pub open spec fn active_until(history: Seq<AllocationEvent>, count: int) -> bool {
    &&& count <= history.len()
    &&& forall|i: int|
        0 <= i < count ==> #[trigger] history[i] == AllocationEvent::Probed(SocketState::Active)
}

/// Whether a step is the one that the answers so far lead to.
pub open spec fn allocation_explained(
    step: AllocationStep,
    history: Seq<AllocationEvent>,
) -> bool {
    let available = AllocationEvent::Probed(SocketState::Available);
    let stale = AllocationEvent::Probed(SocketState::Stale);
    match step {
        AllocationStep::Probe(index) => active_until(history, index as int) && history.len()
            == index && index < u32::MAX,
        AllocationStep::Reclaim(index) => active_until(history, index as int) && history.len()
            == index + 1 && history[index as int] == stale,
        AllocationStep::Allocated(index) => active_until(history, index as int) && {
            ||| history.len() == index + 1 && history[index as int] == available
            ||| history.len() == index + 2 && history[index as int] == stale && history[index + 1]
                == AllocationEvent::Removed
        },
        AllocationStep::Exhausted => active_until(history, u32::MAX as int) && history.len()
            == u32::MAX,
        AllocationStep::Failed => {
            let n = history.len() as int;
            ||| n >= 1 && active_until(history, n - 1) && history[n - 1] is ProbeFailed
            ||| n >= 2 && active_until(history, n - 2) && history[n - 2] == stale && history[n - 1]
                is RemoveFailed
        },
    }
}

/// Whatever happens, the candidate that is allocated is the first one that was not found active:
/// every one before it was found active, and it was itself found available, or found stale and
/// removed. No active socket is ever removed or taken. The search gives up only when all
/// candidates were found active, and fails only at the first candidate that was not: where that
/// one could not be probed, or was found stale and could not be removed.
pub proof fn first_free_candidate_is_allocated(events: Seq<AllocationEvent>)
    ensures
        allocation_explained(allocation_after(events), allocation_history(events)),
    decreases events.len(),
{
    if events.len() > 0 {
        first_free_candidate_is_allocated(events.drop_last());
    }
}

/// Where some candidate is not active, and none before it, the allocation gets to it: an
/// available one is allocated, and a stale one is reclaimed first.
pub proof fn free_candidate_is_found(states: Seq<SocketState>)
    requires
        0 < states.len() <= u32::MAX,
        !(states.last() is Active),
        forall|i: int| 0 <= i < states.len() - 1 ==> #[trigger] states[i] is Active,
    ensures
        ({
            let events = states.map_values(|state: SocketState| AllocationEvent::Probed(state));
            let index = (states.len() - 1) as u32;
            &&& states.last() is Available ==> allocation_after(events)
                == AllocationStep::Allocated(index)
            &&& states.last() is Stale ==> {
                &&& allocation_after(events) == AllocationStep::Reclaim(index)
                &&& allocation_after(events.push(AllocationEvent::Removed))
                    == AllocationStep::Allocated(index)
            }
        }),
{
    let events = states.map_values(|state: SocketState| AllocationEvent::Probed(state));
    let before = events.drop_last();
    lemma_active_candidates_are_passed(before);
    assert(events.push(AllocationEvent::Removed).drop_last() =~= events);
}

/// Where every candidate is active, the allocation gives up.
pub proof fn active_candidates_exhaust_the_allocation(events: Seq<AllocationEvent>)
    requires
        events.len() == u32::MAX,
        active_until(events, u32::MAX as int),
    ensures
        allocation_after(events) is Exhausted,
{
    let before = events.drop_last();
    assert forall|i: int| 0 <= i < before.len() implies #[trigger] before[i]
        == AllocationEvent::Probed(SocketState::Active) by {
        assert(before[i] == events[i]);
    }
    lemma_active_candidates_are_passed(before);
    assert(events.last() == events[events.len() - 1]);
}

proof fn lemma_active_candidates_are_passed(events: Seq<AllocationEvent>)
    requires
        events.len() < u32::MAX,
        active_until(events, events.len() as int),
    ensures
        allocation_after(events) == AllocationStep::Probe(events.len() as u32),
    decreases events.len(),
{
    if events.len() > 0 {
        let before = events.drop_last();
        assert(active_until(before, before.len() as int)) by {
            assert forall|i: int| 0 <= i < before.len() implies #[trigger] before[i]
                == AllocationEvent::Probed(SocketState::Active) by {
                assert(before[i] == events[i]);
            }
        }
        lemma_active_candidates_are_passed(before);
        assert(events.last() == events[events.len() - 1]);
    }
}

/// The steps of preparing a listener at a path.
#[derive(Debug, Clone, Copy, PartialEq, Eq, Structural)]
pub enum ListenerStep {
    /// Create the directory that holds the path, and those above it.
    CreateDirectory,
    /// Find out what the path holds.
    Probe,
    /// Remove the stale socket at the path.
    Reclaim,
    /// Bind a listener to the path.
    Bind,
    /// The end: the listener is bound.
    Ready,
    /// The end: another process serves the socket at the path.
    SocketActive,
    /// The end: the last call failed.
    Failed,
}

/// What came of a `ListenerStep`.
#[derive(Debug, Clone, Copy, PartialEq, Eq, Structural)]
pub enum ListenerEvent {
    DirectoryCreated,
    DirectoryFailed,
    Probed(SocketState),
    ProbeFailed,
    Removed,
    RemoveFailed,
    Bound,
    BindFailed,
}

/// The directory to create before a listener is bound to a path, where there is one to create.
pub open spec fn needed_directory(path: Seq<u8>) -> Option<Seq<u8>> {
    match crate::path::containing_directory(path) {
        Some(directory) => if directory.len() > 0 {
            Some(directory)
        } else {
            None
        },
        None => None,
    }
}

/// The directory to create before a listener is bound to a path, where there is one to create.
pub fn directory_to_create(path: &[u8]) -> (directory: Option<Vec<u8>>)
    ensures
        match directory {
            Some(directory) => needed_directory(path@) == Some(directory@),
            None => needed_directory(path@) is None,
        },
        directory matches Some(directory) ==> directory@.len() > 0
            && crate::path::containing_directory(path@) == Some(directory@),
        directory is None ==> crate::path::containing_directory(path@) is None
            || crate::path::containing_directory(path@)->0.len() == 0,
{
    match parent(path) {
        Some(directory) => if directory.len() > 0 {
            Some(directory)
        } else {
            None
        },
        None => None,
    }
}

/// The first step of preparing a listener at a path.
pub open spec fn listener_first(path: Seq<u8>) -> ListenerStep {
    if needed_directory(path) is Some {
        ListenerStep::CreateDirectory
    } else {
        ListenerStep::Probe
    }
}

/// The first step of preparing a listener at a path.
pub fn first_listener_step(path: &[u8]) -> (step: ListenerStep)
    ensures
        step == listener_first(path@),
        step is CreateDirectory <==> crate::path::containing_directory(path@) is Some
            && crate::path::containing_directory(path@)->0.len() > 0,
        step is CreateDirectory || step is Probe,
{
    match directory_to_create(path) {
        Some(_) => ListenerStep::CreateDirectory,
        None => ListenerStep::Probe,
    }
}

/// Whether an event is an answer to a step.
pub open spec fn listener_answers(step: ListenerStep, event: ListenerEvent) -> bool {
    match step {
        ListenerStep::CreateDirectory => event is DirectoryCreated || event is DirectoryFailed,
        ListenerStep::Probe => event is Probed || event is ProbeFailed,
        ListenerStep::Reclaim => event is Removed || event is RemoveFailed,
        ListenerStep::Bind => event is Bound || event is BindFailed,
        _ => false,
    }
}

/// The step after a step of preparing a listener.
pub open spec fn listener_next(step: ListenerStep, event: ListenerEvent) -> ListenerStep {
    if !listener_answers(step, event) {
        step
    } else {
        match event {
            ListenerEvent::DirectoryCreated => ListenerStep::Probe,
            ListenerEvent::Probed(SocketState::Available) => ListenerStep::Bind,
            ListenerEvent::Probed(SocketState::Active) => ListenerStep::SocketActive,
            ListenerEvent::Probed(SocketState::Stale) => ListenerStep::Reclaim,
            ListenerEvent::Removed => ListenerStep::Bind,
            ListenerEvent::Bound => ListenerStep::Ready,
            _ => ListenerStep::Failed,
        }
    }
}

/// The step after a step of preparing a listener.
pub fn prepare_listener(step: ListenerStep, event: ListenerEvent) -> (next: ListenerStep)
    ensures
        next == listener_next(step, event),
{
    match step {
        ListenerStep::CreateDirectory => match event {
            ListenerEvent::DirectoryCreated => ListenerStep::Probe,
            ListenerEvent::DirectoryFailed => ListenerStep::Failed,
            _ => step,
        },
        ListenerStep::Probe => match event {
            ListenerEvent::Probed(SocketState::Available) => ListenerStep::Bind,
            ListenerEvent::Probed(SocketState::Active) => ListenerStep::SocketActive,
            ListenerEvent::Probed(SocketState::Stale) => ListenerStep::Reclaim,
            ListenerEvent::ProbeFailed => ListenerStep::Failed,
            _ => step,
        },
        ListenerStep::Reclaim => match event {
            ListenerEvent::Removed => ListenerStep::Bind,
            ListenerEvent::RemoveFailed => ListenerStep::Failed,
            _ => step,
        },
        ListenerStep::Bind => match event {
            ListenerEvent::Bound => ListenerStep::Ready,
            ListenerEvent::BindFailed => ListenerStep::Failed,
            _ => step,
        },
        _ => step,
    }
}

/// What a step of preparing a listener at a path is answered with, where the proxy itself finds
/// the error: another process serves the socket at the path.
pub open spec fn listener_answer(step: ListenerStep, path: Seq<u8>) -> Option<
    (ErrorKind, Seq<char>),
> {
    if step is SocketActive {
        Some(
            (
                ErrorKind::AddrInUse,
                "socket already exists and is active: "@ + crate::text::shown(path),
            ),
        )
    } else {
        None
    }
}

/// The error that preparing a listener at a path ends with, where the proxy itself finds it.
pub fn listener_error(step: ListenerStep, path: &[u8]) -> (error: Option<ProxyError>)
    ensures
        crate::error::answer(error) == listener_answer(step, path@),
        error is Some <==> step is SocketActive,
        error is Some ==> error->0 is SocketActive && error->0->SocketActive_0@ == path@,
{
    match step {
        ListenerStep::SocketActive => Some(ProxyError::SocketActive(slice_to_vec(path))),
        _ => None,
    }
}

/// The step that the preparation of a listener is at after some events.
pub open spec fn listener_after(first: ListenerStep, events: Seq<ListenerEvent>) -> ListenerStep
    decreases events.len(),
{
    if events.len() == 0 {
        first
    } else {
        listener_next(listener_after(first, events.drop_last()), events.last())
    }
}

/// The events that were answers to the step that was pending.
pub open spec fn listener_history(first: ListenerStep, events: Seq<ListenerEvent>) -> Seq<
    ListenerEvent,
>
    decreases events.len(),
{
    if events.len() == 0 {
        Seq::empty()
    } else if listener_answers(listener_after(first, events.drop_last()), events.last()) {
        listener_history(first, events.drop_last()).push(events.last())
    } else {
        listener_history(first, events.drop_last())
    }
}

/// The answers that come before the probe.
pub open spec fn answers_before_probe(first: ListenerStep) -> Seq<ListenerEvent> {
    if first is CreateDirectory {
        seq![ListenerEvent::DirectoryCreated]
    } else {
        Seq::empty()
    }
}

/// Whether the answers so far leave the path free to bind to: it was found available, or found
/// stale and removed.
pub open spec fn path_is_free(first: ListenerStep, history: Seq<ListenerEvent>) -> bool {
    let before = answers_before_probe(first);
    ||| history =~= before.push(ListenerEvent::Probed(SocketState::Available))
    ||| history =~= before.push(ListenerEvent::Probed(SocketState::Stale)).push(
        ListenerEvent::Removed,
    )
}

/// Whether a step is the one that the answers so far lead to.
pub open spec fn listener_explained(
    first: ListenerStep,
    step: ListenerStep,
    history: Seq<ListenerEvent>,
) -> bool {
    let before = answers_before_probe(first);
    let stale = ListenerEvent::Probed(SocketState::Stale);
    let active = ListenerEvent::Probed(SocketState::Active);
    match step {
        ListenerStep::CreateDirectory => first is CreateDirectory && history.len() == 0,
        ListenerStep::Probe => history =~= before,
        ListenerStep::Reclaim => history =~= before.push(stale),
        ListenerStep::Bind => path_is_free(first, history),
        ListenerStep::Ready => history.len() > 0 && history.last() is Bound && path_is_free(
            first,
            history.drop_last(),
        ),
        ListenerStep::SocketActive => history =~= before.push(active),
        ListenerStep::Failed => {
            ||| first is CreateDirectory && history =~= seq![ListenerEvent::DirectoryFailed]
            ||| history =~= before.push(ListenerEvent::ProbeFailed)
            ||| history =~= before.push(stale).push(ListenerEvent::RemoveFailed)
            ||| history.len() > 0 && history.last() is BindFailed && path_is_free(
                first,
                history.drop_last(),
            )
        },
    }
}

/// Whatever happens, a listener is bound only to a path that was found available, or that held a
/// stale socket which was removed. Only a stale socket is removed, an active one ends the
/// preparation, and so does the first call that fails.
pub proof fn only_free_paths_are_bound(path: Seq<u8>, events: Seq<ListenerEvent>)
    ensures
        ({
            let first = listener_first(path);
            listener_explained(
                first,
                listener_after(first, events),
                listener_history(first, events),
            )
        }),
    decreases events.len(),
{
    if events.len() > 0 {
        let first = listener_first(path);
        let history = listener_history(first, events.drop_last());
        only_free_paths_are_bound(path, events.drop_last());
        assert(history.push(events.last()).drop_last() =~= history);
    }
}

/// Where no call fails, the listener gets ready at a path that is available, and at one that
/// holds a stale socket, which is reclaimed.
pub proof fn free_paths_get_bound(path: Seq<u8>)
    ensures
        ({
            let first = listener_first(path);
            let created = if first is CreateDirectory {
                seq![ListenerEvent::DirectoryCreated]
            } else {
                Seq::empty()
            };
            let available = created.push(ListenerEvent::Probed(SocketState::Available));
            let stale = created.push(ListenerEvent::Probed(SocketState::Stale));
            &&& listener_after(first, available.push(ListenerEvent::Bound)) is Ready
            &&& listener_after(
                first,
                stale.push(ListenerEvent::Removed).push(ListenerEvent::Bound),
            ) is Ready
        }),
{
    let first = listener_first(path);
    let created = if first is CreateDirectory {
        seq![ListenerEvent::DirectoryCreated]
    } else {
        Seq::empty()
    };
    let available = created.push(ListenerEvent::Probed(SocketState::Available));
    let stale = created.push(ListenerEvent::Probed(SocketState::Stale));
    let removed = stale.push(ListenerEvent::Removed);
    let bound = ListenerEvent::Bound;
    lemma_listener_after_push(first, Seq::empty(), ListenerEvent::DirectoryCreated);
    assert(seq![ListenerEvent::DirectoryCreated] =~= Seq::empty().push(
        ListenerEvent::DirectoryCreated,
    ));
    assert(listener_after(first, created) is Probe);
    lemma_listener_after_push(first, created, ListenerEvent::Probed(SocketState::Available));
    lemma_listener_after_push(first, created, ListenerEvent::Probed(SocketState::Stale));
    lemma_listener_after_push(first, stale, ListenerEvent::Removed);
    lemma_listener_after_push(first, available, bound);
    lemma_listener_after_push(first, removed, bound);
}

proof fn lemma_listener_after_push(
    first: ListenerStep,
    events: Seq<ListenerEvent>,
    event: ListenerEvent,
)
    ensures
        listener_after(first, events.push(event)) == listener_next(
            listener_after(first, events),
            event,
        ),
{
    assert(events.push(event).drop_last() =~= events);
}

/// What there is at a path.
pub enum Place {
    /// Nothing.
    Free,
    /// A socket with a listener behind it.
    Live,
    /// A socket whose listener is gone.
    Abandoned,
    /// Something other than a socket.
    OtherFile,
}

/// What looking at a path gives.
pub open spec fn inspection(place: Place) -> ProbeEvent {
    match place {
        Place::Free => ProbeEvent::InspectFailed(IoErrorKind::NotFound),
        Place::OtherFile => ProbeEvent::Inspected(false),
        Place::Live | Place::Abandoned => ProbeEvent::Inspected(true),
    }
}

/// What connecting to a path gives.
pub open spec fn connection(place: Place) -> ProbeEvent {
    match place {
        Place::Free => ProbeEvent::ConnectFailed(IoErrorKind::NotFound),
        Place::Live => ProbeEvent::Connected,
        Place::Abandoned | Place::OtherFile => ProbeEvent::ConnectFailed(
            IoErrorKind::ConnectionRefused,
        ),
    }
}

/// What a probe of a path ends with.
pub open spec fn probed(place: Place) -> ProbeStep {
    probe_after(seq![inspection(place), connection(place)])
}

/// What comes of a step of preparing a listener, and what there is at the path afterwards: a
/// directory can be created, a file can be removed, and a listener can be bound where there is
/// nothing.
pub open spec fn performed(step: ListenerStep, place: Place) -> (ListenerEvent, Place) {
    match step {
        ListenerStep::CreateDirectory => (ListenerEvent::DirectoryCreated, place),
        ListenerStep::Reclaim => match place {
            Place::Free => (ListenerEvent::RemoveFailed, place),
            _ => (ListenerEvent::Removed, Place::Free),
        },
        ListenerStep::Bind => match place {
            Place::Free => (ListenerEvent::Bound, Place::Live),
            _ => (ListenerEvent::BindFailed, place),
        },
        _ => match probed(place) {
            ProbeStep::Found(state) => (ListenerEvent::Probed(state), place),
            _ => (ListenerEvent::ProbeFailed, place),
        },
    }
}

/// The step that the preparation of a listener is at, and what there is at the path, after a
/// number of steps that nothing else interferes with.
pub open spec fn prepared_after(step: ListenerStep, place: Place, steps: nat) -> (
    ListenerStep,
    Place,
)
    decreases steps,
{
    if steps == 0 {
        (step, place)
    } else {
        let (event, next) = performed(step, place);
        prepared_after(listener_next(step, event), next, (steps - 1) as nat)
    }
}

/// What preparing a listener at a path comes to, and what there is at the path afterwards. No
/// preparation takes more steps than there are calls to make: create, probe, remove, bind.
pub open spec fn prepared(path: Seq<u8>, place: Place) -> (ListenerStep, Place) {
    prepared_after(listener_first(path), place, 4)
}

/// What is left at a path once the listener behind it is dropped.
pub open spec fn without_listener(place: Place) -> Place {
    match place {
        Place::Live => Place::Abandoned,
        _ => place,
    }
}

/// What is left at a path once the guard of its socket is dropped, which removes the file.
pub open spec fn without_guard(place: Place) -> Place {
    Place::Free
}

/// What a probe finds is what there is at the path.
pub proof fn probe_finds_what_is_there(place: Place)
    ensures
        probed(place) == (match place {
            Place::Free => ProbeStep::Found(SocketState::Available),
            Place::Live => ProbeStep::Found(SocketState::Active),
            Place::Abandoned => ProbeStep::Found(SocketState::Stale),
            Place::OtherFile => ProbeStep::NotASocket,
        }),
{
    let events = seq![inspection(place), connection(place)];
    assert(events.drop_last() =~= seq![inspection(place)]);
    assert(events.drop_last().drop_last() =~= Seq::<ProbeEvent>::empty());
    reveal_with_fuel(probe_after, 3);
}

/// A listener gets ready at a path that is free or holds an abandoned socket. A path with a live
/// listener is refused as being in use, and one with another file fails; both keep what they hold.
pub proof fn preparation_depends_on_what_is_there(path: Seq<u8>, place: Place)
    ensures
        ({
            let (end, after) = prepared(path, place);
            match place {
                Place::Free | Place::Abandoned => end is Ready && after is Live,
                Place::Live => end is SocketActive && after is Live && listener_answer(end, path)
                    == Some(
                    (
                        ErrorKind::AddrInUse,
                        "socket already exists and is active: "@ + crate::text::shown(path),
                    ),
                ),
                Place::OtherFile => end is Failed && after is OtherFile,
            }
        }),
{
    lemma_prepared_from(listener_first(path), place);
}

proof fn lemma_prepared_from(first: ListenerStep, place: Place)
    requires
        first is CreateDirectory || first is Probe,
    ensures
        ({
            let (end, after) = prepared_after(first, place, 4);
            match place {
                Place::Free | Place::Abandoned => end is Ready && after is Live,
                Place::Live => end is SocketActive && after is Live,
                Place::OtherFile => end is Failed && after is OtherFile,
            }
        }),
{
    probe_finds_what_is_there(place);
    let (event1, place1) = performed(first, place);
    let step1 = listener_next(first, event1);
    probe_finds_what_is_there(place1);
    let (event2, place2) = performed(step1, place1);
    let step2 = listener_next(step1, event2);
    let (event3, place3) = performed(step2, place2);
    let step3 = listener_next(step2, event3);
    let (event4, place4) = performed(step3, place3);
    let step4 = listener_next(step3, event4);
    assert(prepared_after(step4, place4, 0) == (step4, place4));
    assert(prepared_after(step3, place3, 1) == (step4, place4));
    assert(prepared_after(step2, place2, 2) == (step4, place4));
    assert(prepared_after(step1, place1, 3) == (step4, place4));
    assert(prepared_after(first, place, 4) == (step4, place4));
}

/// Once a listener is ready at a path and nothing else touches the path, preparing another one
/// there is refused and leaves the first one reachable; once the listener and its guard are
/// dropped the path is free and can be prepared again; and where only the listener is dropped its
/// socket is found stale, and the path can be prepared again too.
pub proof fn paths_can_be_prepared_again(path: Seq<u8>, place: Place)
    requires
        prepared(path, place).0 is Ready,
    ensures
        ({
            let held = prepared(path, place).1;
            let released = without_guard(without_listener(held));
            let leaked = without_listener(held);
            &&& prepared(path, held) == (ListenerStep::SocketActive, held)
            &&& listener_answer(prepared(path, held).0, path) matches Some((kind, _)) && kind
                is AddrInUse
            &&& probed(held) == ProbeStep::Found(SocketState::Active)
            &&& released is Free
            &&& prepared(path, released) == (ListenerStep::Ready, Place::Live)
            &&& probed(leaked) == ProbeStep::Found(SocketState::Stale)
            &&& prepared(path, leaked) == (ListenerStep::Ready, Place::Live)
        }),
{
    preparation_depends_on_what_is_there(path, place);
    preparation_depends_on_what_is_there(path, Place::Live);
    preparation_depends_on_what_is_there(path, Place::Free);
    preparation_depends_on_what_is_there(path, Place::Abandoned);
    probe_finds_what_is_there(Place::Live);
    probe_finds_what_is_there(Place::Abandoned);
}

/// The course of a probe: each step is entered exactly where the step before it came out as it has
/// to. Where a path names nothing, when looked at or when connected to, it is available; every
/// failure that has no such meaning fails the probe.
pub proof fn probe_takes_its_course(step: ProbeStep, event: ProbeEvent)
    ensures
        ({
            let next = probe_next(step, event);
            let moved = next != step;
            &&& next is Inspect ==> !moved
            &&& moved && next is Connect <==> step is Inspect && event == ProbeEvent::Inspected(true)
            &&& moved && next is NotASocket <==> step is Inspect && event == ProbeEvent::Inspected(
                false,
            )
            &&& moved && next == ProbeStep::Found(SocketState::Active) <==> step is Connect && event
                is Connected
            &&& moved && next == ProbeStep::Found(SocketState::Stale) <==> step is Connect && event
                == ProbeEvent::ConnectFailed(IoErrorKind::ConnectionRefused)
            &&& moved && next == ProbeStep::Found(SocketState::Available) <==> {
                ||| step is Inspect && event == ProbeEvent::InspectFailed(IoErrorKind::NotFound)
                ||| step is Connect && event == ProbeEvent::ConnectFailed(IoErrorKind::NotFound)
            }
            &&& moved && next is Failed <==> {
                ||| step is Inspect && event is InspectFailed && event != ProbeEvent::InspectFailed(
                    IoErrorKind::NotFound,
                )
                ||| step is Connect && event is ConnectFailed && event != ProbeEvent::ConnectFailed(
                    IoErrorKind::NotFound,
                ) && event != ProbeEvent::ConnectFailed(IoErrorKind::ConnectionRefused)
            }
        }),
{
}

/// The course of an allocation: a candidate is probed exactly where the one before it was found
/// active, reclaimed exactly where it was found stale, and allocated exactly where it was found
/// available or was reclaimed. The search gives up exactly after the last candidate.
pub proof fn allocation_takes_its_course(step: AllocationStep, event: AllocationEvent, index: u32)
    ensures
        ({
            let next = allocation_next(step, event);
            let moved = next != step;
            let active = event == AllocationEvent::Probed(SocketState::Active);
            let stale = event == AllocationEvent::Probed(SocketState::Stale);
            let available = event == AllocationEvent::Probed(SocketState::Available);
            &&& moved && next == AllocationStep::Probe(index) <==> 0 < index < u32::MAX && step
                == AllocationStep::Probe((index - 1) as u32) && active
            &&& moved && next == AllocationStep::Reclaim(index) <==> step == AllocationStep::Probe(
                index,
            ) && stale
            &&& moved && next == AllocationStep::Allocated(index) <==> {
                ||| step == AllocationStep::Probe(index) && available
                ||| step == AllocationStep::Reclaim(index) && event is Removed
            }
            &&& moved && next is Exhausted <==> active && step is Probe && step->Probe_0
                >= u32::MAX - 1
            &&& moved && next is Failed <==> {
                ||| step is Probe && event is ProbeFailed
                ||| step is Reclaim && event is RemoveFailed
            }
        }),
{
}

/// The course of preparing a listener: the path is probed once its directory is there, reclaimed
/// exactly where it was found stale, and bound to exactly where it was found available or was
/// reclaimed; an active socket ends the preparation, and so does each call that fails.
pub proof fn preparation_takes_its_course(step: ListenerStep, event: ListenerEvent)
    ensures
        ({
            let next = listener_next(step, event);
            let moved = next != step;
            &&& next is CreateDirectory ==> !moved
            &&& moved && next is Probe <==> step is CreateDirectory && event is DirectoryCreated
            &&& moved && next is Reclaim <==> step is Probe && event == ListenerEvent::Probed(
                SocketState::Stale,
            )
            &&& moved && next is Bind <==> {
                ||| step is Probe && event == ListenerEvent::Probed(SocketState::Available)
                ||| step is Reclaim && event is Removed
            }
            &&& moved && next is Ready <==> step is Bind && event is Bound
            &&& moved && next is SocketActive <==> step is Probe && event == ListenerEvent::Probed(
                SocketState::Active,
            )
            &&& moved && next is Failed <==> {
                ||| step is CreateDirectory && event is DirectoryFailed
                ||| step is Probe && event is ProbeFailed
                ||| step is Reclaim && event is RemoveFailed
                ||| step is Bind && event is BindFailed
            }
        }),
{
}

/// The directory that is created is what stands before the last piece of the path, and it is
/// created exactly where the path holds a slash before that piece.
pub proof fn directories_are_created_for_paths(base: Seq<u8>, piece: Seq<u8>)
    requires
        !piece.contains(0x2f),
    ensures
        needed_directory(piece) is None,
        listener_first(piece) is Probe,
        ({
            let path = base.push(0x2f) + piece;
            if piece.len() == 0 || piece == seq![0x2eu8] {
                needed_directory(path) == needed_directory(base) && listener_first(path)
                    == listener_first(base)
            } else if base.len() > 0 {
                needed_directory(path) == Some(crate::path::trimmed(base)) && listener_first(path)
                    is CreateDirectory
            } else {
                needed_directory(path) == Some(seq![0x2fu8]) && listener_first(path)
                    is CreateDirectory
            }
        }),
{
    crate::path::containing_directory_is_what_comes_before(base, piece);
    crate::path::trimmed_paths_are_not_empty(base);
}

} // verus!
