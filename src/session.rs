use vstd::prelude::*;
use crate::registry::{DeviceRef, DeviceRegistry, RegistryError, RegistryState};

verus! {

/// The state of one client connection: the device-management service's
/// manager object and this connection's own snapshot of its devices.
///
/// `M` is the manager and `H` a device handle; both stay opaque here. Every
/// call into the service is made by the caller, which hands the results in
/// (`new`, `refresh_devices`) or acts on what comes back (`connect_device`).
pub struct SessionCoordinator<M, H> {
    manager: M,
    registry: DeviceRegistry<H>,
}

impl<M, H: Copy> SessionCoordinator<M, H> {
    /// The registry state of this session.
    pub closed spec fn state(&self) -> RegistryState<H> {
        self.registry@
    }

    /// The manager object this session was built with.
    pub closed spec fn manager_spec(&self) -> M {
        self.manager
    }

    /// Starts a session on `manager`, seeded with the refresh of `devices`,
    /// the service's current device set.
    pub fn new(manager: M, devices: Vec<H>) -> (s: Self)
        ensures
            s.manager_spec() == manager,
            s.state().devices == devices@,
            s.state().generation == 1,
    {
        let mut registry = DeviceRegistry::new();
        registry.refresh(devices);
        SessionCoordinator { manager, registry }
    }

    /// The manager object, for the calls the caller makes into the service.
    pub fn manager(&self) -> (m: &M)
        ensures
            *m == self.manager_spec(),
    {
        &self.manager
    }

    /// Replaces the snapshot with `devices`, the service's current device set.
    /// Every reference issued before becomes stale.
    pub fn refresh_devices(&mut self, devices: Vec<H>)
        ensures
            final(self).manager_spec() == old(self).manager_spec(),
            final(self).state() == old(self).state().after_refresh(devices@),
    {
        self.registry.refresh(devices);
    }

    /// The current snapshot, each handle with its index; the caller asks the
    /// service for each handle's display name at the time of the call.
    pub fn list_devices(&self) -> (r: Vec<(usize, H)>)
        ensures
            r@ == self.state().listing(),
    {
        self.registry.list()
    }

    /// Resolves `index` against the current snapshot. On `Ok` the caller makes
    /// exactly one connect request to the service for the handle returned and
    /// acknowledges; the state of the session is left as it was either way.
    pub fn connect_device(&self, index: usize) -> (r: Result<H, RegistryError>)
        ensures
            r == self.state().lookup(index as int),
            index < self.state().devices.len() <==> r is Ok,
            index >= self.state().devices.len() <==> r == Err::<H, RegistryError>(
                RegistryError::IndexOutOfRange,
            ),
    {
        self.registry.get(index)
    }

    /// A reference to position `index` that stays checkable across refreshes.
    pub fn device_ref(&self, index: usize) -> (r: Result<DeviceRef, RegistryError>)
        ensures
            index < self.state().devices.len() ==> r == Ok::<DeviceRef, RegistryError>(
                DeviceRef { index, generation: self.state().generation },
            ),
            index >= self.state().devices.len() ==> r == Err::<DeviceRef, RegistryError>(
                RegistryError::IndexOutOfRange,
            ),
    {
        self.registry.device_ref(index)
    }

    /// Resolves a reference issued earlier, rejecting one from a replaced
    /// snapshot.
    pub fn resolve(&self, r: DeviceRef) -> (h: Result<H, RegistryError>)
        ensures
            h == self.state().resolve(r),
    {
        self.registry.resolve(r)
    }

    /// The number of devices in the current snapshot.
    pub fn device_count(&self) -> (n: usize)
        ensures
            n == self.state().devices.len(),
    {
        self.registry.len()
    }
}

/// Refreshing twice in a row with the same device set gives the same listing
/// both times: equal length and the same handle at each index.
pub proof fn lemma_refresh_idempotent<H>(s: RegistryState<H>, devices: Seq<H>)
    ensures
        s.after_refresh(devices).after_refresh(devices).listing() == s.after_refresh(
            devices,
        ).listing(),
        s.after_refresh(devices).after_refresh(devices).devices.len() == devices.len(),
{
}

/// After a refresh, no reference issued from the previous snapshot resolves:
/// each is rejected as stale, whatever its index and whatever the new devices.
/// A reference that does resolve names an index below the new length.
pub proof fn lemma_refresh_invalidates_refs<H>(s: RegistryState<H>, devices: Seq<H>, r: DeviceRef)
    ensures
        r.generation == s.generation ==> s.after_refresh(devices).resolve(r) == Err::<
            H,
            RegistryError,
        >(RegistryError::StaleReference),
        s.after_refresh(devices).resolve(r) is Ok ==> r.index < devices.len(),
{
}

/// Connecting by index fails with `IndexOutOfRange` exactly when the index is
/// at or past the end of the snapshot, and otherwise yields the handle at
/// that index.
pub proof fn lemma_connect_boundary<H>(s: RegistryState<H>, index: usize)
    ensures
        index >= s.devices.len() <==> s.lookup(index as int) == Err::<H, RegistryError>(
            RegistryError::IndexOutOfRange,
        ),
        index < s.devices.len() ==> s.lookup(index as int) == Ok::<H, RegistryError>(
            s.devices[index as int],
        ),
{
}

} // verus!
