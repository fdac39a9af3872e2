use wl_mitmproxy::error::ErrorKind;
use wl_mitmproxy::listen::{
    allocate_incrementing_socket, allocation_error, directory_to_create, first_listener_step,
    listener_error, prepare_listener, probe_error, socket_state, AllocationEvent, AllocationStep, IoErrorKind, ListenerEvent, ListenerStep,
    ProbeEvent, ProbeStep, SocketState,
};

#[test]
fn missing_path_is_available() {
    let step = socket_state(ProbeStep::Inspect, ProbeEvent::InspectFailed(IoErrorKind::NotFound));
    assert_eq!(step, ProbeStep::Found(SocketState::Available));
}

#[test]
fn path_that_cannot_be_inspected_fails() {
    let step = socket_state(ProbeStep::Inspect, ProbeEvent::InspectFailed(IoErrorKind::Other));
    assert_eq!(step, ProbeStep::Failed);
    let refused = ProbeEvent::InspectFailed(IoErrorKind::ConnectionRefused);
    assert_eq!(socket_state(ProbeStep::Inspect, refused), ProbeStep::Failed);
}

#[test]
fn other_file_is_no_socket() {
    let step = socket_state(ProbeStep::Inspect, ProbeEvent::Inspected(false));
    assert_eq!(step, ProbeStep::NotASocket);
}

#[test]
fn sockets_are_told_apart_by_connecting() {
    let step = socket_state(ProbeStep::Inspect, ProbeEvent::Inspected(true));
    assert_eq!(step, ProbeStep::Connect);
    assert_eq!(
        socket_state(step, ProbeEvent::Connected),
        ProbeStep::Found(SocketState::Active)
    );
    assert_eq!(
        socket_state(step, ProbeEvent::ConnectFailed(IoErrorKind::ConnectionRefused)),
        ProbeStep::Found(SocketState::Stale)
    );
    assert_eq!(
        socket_state(step, ProbeEvent::ConnectFailed(IoErrorKind::NotFound)),
        ProbeStep::Found(SocketState::Available)
    );
    assert_eq!(
        socket_state(step, ProbeEvent::ConnectFailed(IoErrorKind::WouldBlock)),
        ProbeStep::Failed
    );
}

#[test]
fn events_of_other_steps_change_nothing() {
    assert_eq!(socket_state(ProbeStep::Inspect, ProbeEvent::Connected), ProbeStep::Inspect);
    assert_eq!(
        allocate_incrementing_socket(AllocationStep::Probe(4), AllocationEvent::Removed),
        AllocationStep::Probe(4)
    );
    assert_eq!(
        prepare_listener(ListenerStep::Probe, ListenerEvent::Bound),
        ListenerStep::Probe
    );
}

fn allocate(states: &[SocketState]) -> AllocationStep {
    let mut step = AllocationStep::Probe(0);
    for state in states {
        step = allocate_incrementing_socket(step, AllocationEvent::Probed(*state));
    }
    step
}

#[test]
fn first_free_candidate_is_taken() {
    assert_eq!(allocate(&[SocketState::Available]), AllocationStep::Allocated(0));
    let third = [SocketState::Active, SocketState::Active, SocketState::Available];
    assert_eq!(allocate(&third), AllocationStep::Allocated(2));
    let reclaim = allocate(&[SocketState::Active, SocketState::Stale]);
    assert_eq!(reclaim, AllocationStep::Reclaim(1));
    assert_eq!(
        allocate_incrementing_socket(reclaim, AllocationEvent::Removed),
        AllocationStep::Allocated(1)
    );
    assert_eq!(
        allocate_incrementing_socket(reclaim, AllocationEvent::RemoveFailed),
        AllocationStep::Failed
    );
}

#[test]
fn failed_probe_ends_the_allocation() {
    let step = allocate_incrementing_socket(AllocationStep::Probe(0), AllocationEvent::ProbeFailed);
    assert_eq!(step, AllocationStep::Failed);
}

#[test]
fn allocation_gives_up_after_the_last_candidate() {
    let active = AllocationEvent::Probed(SocketState::Active);
    assert_eq!(
        allocate_incrementing_socket(AllocationStep::Probe(u32::MAX - 2), active),
        AllocationStep::Probe(u32::MAX - 1)
    );
    assert_eq!(
        allocate_incrementing_socket(AllocationStep::Probe(u32::MAX - 1), active),
        AllocationStep::Exhausted
    );
}

#[test]
fn directory_of_the_socket_is_created_first() {
    assert_eq!(directory_to_create(b"/run/user/1000/s"), Some(b"/run/user/1000".to_vec()));
    assert_eq!(first_listener_step(b"/run/user/1000/s"), ListenerStep::CreateDirectory);
    assert_eq!(directory_to_create(b"/s"), Some(b"/".to_vec()));
}

#[test]
fn no_directory_is_created_for_a_bare_name() {
    assert_eq!(directory_to_create(b"s"), None);
    assert_eq!(directory_to_create(b"/"), None);
    assert_eq!(directory_to_create(b""), None);
    assert_eq!(first_listener_step(b"s"), ListenerStep::Probe);
}

#[test]
fn listener_is_bound_to_a_free_path() {
    let step = prepare_listener(ListenerStep::CreateDirectory, ListenerEvent::DirectoryCreated);
    assert_eq!(step, ListenerStep::Probe);
    let step = prepare_listener(step, ListenerEvent::Probed(SocketState::Available));
    assert_eq!(step, ListenerStep::Bind);
    assert_eq!(prepare_listener(step, ListenerEvent::Bound), ListenerStep::Ready);
    assert_eq!(prepare_listener(step, ListenerEvent::BindFailed), ListenerStep::Failed);
}

#[test]
fn stale_socket_is_reclaimed() {
    let step = prepare_listener(ListenerStep::Probe, ListenerEvent::Probed(SocketState::Stale));
    assert_eq!(step, ListenerStep::Reclaim);
    assert_eq!(prepare_listener(step, ListenerEvent::Removed), ListenerStep::Bind);
    assert_eq!(prepare_listener(step, ListenerEvent::RemoveFailed), ListenerStep::Failed);
}

#[test]
fn active_socket_is_left_alone() {
    let step = prepare_listener(ListenerStep::Probe, ListenerEvent::Probed(SocketState::Active));
    assert_eq!(step, ListenerStep::SocketActive);
    for event in [ListenerEvent::Removed, ListenerEvent::Bound, ListenerEvent::DirectoryCreated] {
        assert_eq!(prepare_listener(step, event), ListenerStep::SocketActive);
    }
}

#[test]
fn failed_calls_end_the_preparation() {
    assert_eq!(
        prepare_listener(ListenerStep::CreateDirectory, ListenerEvent::DirectoryFailed),
        ListenerStep::Failed
    );
    assert_eq!(
        prepare_listener(ListenerStep::Probe, ListenerEvent::ProbeFailed),
        ListenerStep::Failed
    );
}

#[test]
fn ends_have_their_errors() {
    let error = probe_error(ProbeStep::NotASocket, b"/run/s").unwrap();
    assert_eq!(error.kind(), ErrorKind::AlreadyExists);
    assert_eq!(error.message(), "path exists and is not a socket: /run/s");
    let error = allocation_error(AllocationStep::Exhausted, b"/run").unwrap();
    assert_eq!(error.kind(), ErrorKind::AddrInUse);
    assert_eq!(error.message(), "could not allocate a free proxy socket under /run");
    let error = listener_error(ListenerStep::SocketActive, b"/run/s").unwrap();
    assert_eq!(error.kind(), ErrorKind::AddrInUse);
    assert_eq!(error.message(), "socket already exists and is active: /run/s");
}

#[test]
fn failed_calls_keep_the_error_of_the_system() {
    assert!(probe_error(ProbeStep::Failed, b"/run/s").is_none());
    assert!(allocation_error(AllocationStep::Failed, b"/run").is_none());
    assert!(listener_error(ListenerStep::Failed, b"/run/s").is_none());
    assert!(listener_error(ListenerStep::Ready, b"/run/s").is_none());
}

#[derive(Clone, Copy, Debug, PartialEq)]
enum Place {
    Free,
    Live,
    Abandoned,
}

fn probe(place: Place) -> SocketState {
    let inspected = match place {
        Place::Free => ProbeEvent::InspectFailed(IoErrorKind::NotFound),
        _ => ProbeEvent::Inspected(true),
    };
    let connected = match place {
        Place::Free => ProbeEvent::ConnectFailed(IoErrorKind::NotFound),
        Place::Live => ProbeEvent::Connected,
        Place::Abandoned => ProbeEvent::ConnectFailed(IoErrorKind::ConnectionRefused),
    };
    match socket_state(socket_state(ProbeStep::Inspect, inspected), connected) {
        ProbeStep::Found(state) => state,
        step => panic!("{step:?}"),
    }
}

fn prepare(path: &[u8], place: &mut Place) -> ListenerStep {
    let mut step = first_listener_step(path);
    loop {
        let event = match step {
            ListenerStep::CreateDirectory => ListenerEvent::DirectoryCreated,
            ListenerStep::Probe => ListenerEvent::Probed(probe(*place)),
            ListenerStep::Reclaim => {
                *place = Place::Free;
                ListenerEvent::Removed
            }
            ListenerStep::Bind => {
                assert_eq!(*place, Place::Free);
                *place = Place::Live;
                ListenerEvent::Bound
            }
            end => return end,
        };
        step = prepare_listener(step, event);
    }
}

#[test]
fn path_can_be_prepared_again() {
    for path in [&b"/run/s"[..], b"s"] {
        let mut place = Place::Free;
        assert_eq!(prepare(path, &mut place), ListenerStep::Ready);
        assert_eq!(place, Place::Live);
        assert_eq!(prepare(path, &mut place), ListenerStep::SocketActive);
        assert_eq!(place, Place::Live);
        place = Place::Free;
        assert_eq!(prepare(path, &mut place), ListenerStep::Ready);
        place = Place::Abandoned;
        assert_eq!(probe(place), SocketState::Stale);
        assert_eq!(prepare(path, &mut place), ListenerStep::Ready);
        assert_eq!(place, Place::Live);
    }
}
