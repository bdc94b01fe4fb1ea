use sidecar_session::registry::{DeviceRef, DeviceRegistry, RegistryError};
use sidecar_session::response::listing_body;
use sidecar_session::session::SessionCoordinator;

/// A stand-in for the device-management service: devices are numbered
/// handles with names, and connect requests are recorded.
struct MockService {
    names: Vec<String>,
    connects: Vec<u32>,
}

impl MockService {
    fn new(names: &[&str]) -> Self {
        MockService { names: names.iter().map(|s| s.to_string()).collect(), connects: Vec::new() }
    }

    fn current_devices(&self) -> Vec<u32> {
        (0..self.names.len() as u32).collect()
    }

    fn display_name(&self, handle: u32) -> String {
        self.names[handle as usize].clone()
    }

    fn connect(&mut self, handle: u32) {
        self.connects.push(handle);
    }
}

fn names_of(session: &SessionCoordinator<(), u32>, service: &MockService) -> Vec<String> {
    session.list_devices().iter().map(|(_, h)| service.display_name(*h)).collect()
}

#[test]
fn empty_service_lists_nothing_and_rejects_connect() {
    let service = MockService::new(&[]);
    let session = SessionCoordinator::new((), service.current_devices());
    assert!(session.list_devices().is_empty());
    assert_eq!(listing_body(&names_of(&session, &service)), "{}");
    assert_eq!(session.connect_device(0), Err(RegistryError::IndexOutOfRange));
}

#[test]
fn two_devices_listed_and_one_connect() {
    let mut service = MockService::new(&["Studio Display", "iPad"]);
    let session = SessionCoordinator::new((), service.current_devices());
    assert_eq!(session.list_devices(), vec![(0, 0), (1, 1)]);
    let names = names_of(&session, &service);
    assert_eq!(names, vec!["Studio Display".to_string(), "iPad".to_string()]);
    assert_eq!(listing_body(&names), "{\n    0: \"Studio Display\",\n    1: \"iPad\",\n}");
    let handle = session.connect_device(1).unwrap();
    service.connect(handle);
    assert_eq!(service.connects, vec![1]);
}

#[test]
fn refresh_picks_up_added_device_without_cached_names() {
    let mut service = MockService::new(&["Studio Display", "iPad"]);
    let mut session = SessionCoordinator::new((), service.current_devices());
    let first = names_of(&session, &service);
    assert_eq!(first.len(), 2);
    service.names.push("MacBook".to_string());
    service.names[0] = "Studio Display 2".to_string();
    session.refresh_devices(service.current_devices());
    let second = names_of(&session, &service);
    assert_eq!(second.len(), 3);
    assert_eq!(second, vec!["Studio Display 2".to_string(), "iPad".to_string(), "MacBook".to_string()]);
}

#[test]
fn names_are_queried_at_list_time() {
    let mut service = MockService::new(&["iPad"]);
    let session = SessionCoordinator::new((), service.current_devices());
    service.names[0] = "iPad Pro".to_string();
    assert_eq!(names_of(&session, &service), vec!["iPad Pro".to_string()]);
}

#[test]
fn refresh_twice_gives_equal_listings() {
    let service = MockService::new(&["Studio Display", "iPad"]);
    let mut session = SessionCoordinator::new((), service.current_devices());
    session.refresh_devices(service.current_devices());
    let once = session.list_devices();
    let names_once = names_of(&session, &service);
    session.refresh_devices(service.current_devices());
    assert_eq!(session.list_devices(), once);
    assert_eq!(names_of(&session, &service), names_once);
}

#[test]
fn refs_from_before_refresh_are_stale() {
    let mut session = SessionCoordinator::new((), vec![10u32, 20, 30]);
    let r = session.device_ref(2).unwrap();
    assert_eq!(r, DeviceRef { index: 2, generation: 1 });
    assert_eq!(session.resolve(r), Ok(30));
    session.refresh_devices(vec![10u32]);
    assert_eq!(session.resolve(r), Err(RegistryError::StaleReference));
    session.refresh_devices(vec![10u32, 20, 30, 40]);
    assert_eq!(session.resolve(r), Err(RegistryError::StaleReference));
    let fresh = session.device_ref(2).unwrap();
    assert_eq!(fresh.generation, 3);
    assert_eq!(session.resolve(fresh), Ok(30));
    assert_eq!(session.device_ref(4), Err(RegistryError::IndexOutOfRange));
}

#[test]
fn connect_boundary() {
    let session = SessionCoordinator::new((), vec![7u32, 8, 9]);
    assert_eq!(session.connect_device(0), Ok(7));
    assert_eq!(session.connect_device(2), Ok(9));
    assert_eq!(session.connect_device(3), Err(RegistryError::IndexOutOfRange));
    assert_eq!(session.connect_device(usize::MAX), Err(RegistryError::IndexOutOfRange));
    assert_eq!(session.device_count(), 3);
}

#[test]
fn out_of_range_connect_leaves_session_usable() {
    let session = SessionCoordinator::new((), vec![7u32]);
    assert!(session.connect_device(5).is_err());
    assert_eq!(session.list_devices(), vec![(0, 7)]);
    assert_eq!(session.connect_device(0), Ok(7));
}

#[test]
fn sessions_do_not_share_snapshots() {
    let mut a = SessionCoordinator::new((), vec![1u32, 2]);
    let b = SessionCoordinator::new((), vec![1u32, 2]);
    let seen_by_b = b.list_devices();
    a.refresh_devices(vec![5u32, 6, 7]);
    assert_eq!(a.list_devices(), vec![(0, 5), (1, 6), (2, 7)]);
    assert_eq!(b.list_devices(), seen_by_b);
    assert_eq!(b.connect_device(1), Ok(2));
    assert_eq!(b.connect_device(2), Err(RegistryError::IndexOutOfRange));
}

#[test]
fn session_keeps_its_manager() {
    let session = SessionCoordinator::new("manager", vec![1u32]);
    assert_eq!(*session.manager(), "manager");
}

#[test]
fn registry_generations() {
    let mut reg: DeviceRegistry<u32> = DeviceRegistry::new();
    assert_eq!(reg.generation(), 0);
    assert_eq!(reg.len(), 0);
    assert_eq!(reg.get(0), Err(RegistryError::IndexOutOfRange));
    reg.refresh(vec![4, 5]);
    assert_eq!(reg.generation(), 1);
    assert_eq!(reg.len(), 2);
    assert_eq!(reg.get(1), Ok(5));
    assert_eq!(reg.list(), vec![(0, 4), (1, 5)]);
    let r = reg.device_ref(0).unwrap();
    reg.refresh(vec![4, 5]);
    assert_eq!(reg.generation(), 2);
    assert_eq!(reg.resolve(r), Err(RegistryError::StaleReference));
}
