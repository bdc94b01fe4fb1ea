use vstd::prelude::*;

verus! {

/// Why a handle could not be resolved from the current snapshot.
#[derive(Debug, Clone, Copy, PartialEq, Eq, Structural)]
pub enum RegistryError {
    /// The index is not below the length of the current snapshot.
    IndexOutOfRange,
    /// The reference was issued from a snapshot that a refresh has replaced.
    StaleReference,
}

/// An index into one particular snapshot, tagged with that snapshot's generation.
#[derive(Debug, Clone, Copy, PartialEq, Eq, Structural)]
pub struct DeviceRef {
    pub index: usize,
    pub generation: u64,
}

/// The abstract state of a registry: the snapshot and its generation.
pub ghost struct RegistryState<H> {
    pub generation: u64,
    pub devices: Seq<H>,
}

/// The generation that follows `g`; it differs from `g` for every `g`.
pub open spec fn next_generation(g: u64) -> u64 {
    if g == u64::MAX {
        0
    } else {
        (g + 1) as u64
    }
}

impl<H> RegistryState<H> {
    /// The state after the snapshot is replaced wholesale by `devices`.
    pub open spec fn after_refresh(self, devices: Seq<H>) -> RegistryState<H> {
        RegistryState { generation: next_generation(self.generation), devices }
    }

    /// The handle at `index`, if `index` lies in the current snapshot.
    pub open spec fn lookup(self, index: int) -> Result<H, RegistryError> {
        if 0 <= index < self.devices.len() {
            Ok(self.devices[index])
        } else {
            Err(RegistryError::IndexOutOfRange)
        }
    }

    /// The handle that `r` names, if `r` belongs to the current generation.
    pub open spec fn resolve(self, r: DeviceRef) -> Result<H, RegistryError> {
        if r.generation != self.generation {
            Err(RegistryError::StaleReference)
        } else {
            self.lookup(r.index as int)
        }
    }

    /// Each handle of the snapshot paired with its ordinal position.
    pub open spec fn listing(self) -> Seq<(usize, H)> {
        Seq::new(self.devices.len(), |i: int| (i as usize, self.devices[i]))
    }
}

/// An ordered snapshot of device handles, replaced wholesale on each refresh.
pub struct DeviceRegistry<H> {
    devices: Vec<H>,
    generation: u64,
}

impl<H> View for DeviceRegistry<H> {
    type V = RegistryState<H>;

    closed spec fn view(&self) -> RegistryState<H> {
        RegistryState { generation: self.generation, devices: self.devices@ }
    }
}

impl<H: Copy> DeviceRegistry<H> {
    /// A registry with an empty snapshot at generation 0.
    pub fn new() -> (r: Self)
        ensures
            r@.generation == 0,
            r@.devices == Seq::<H>::empty(),
    {
        DeviceRegistry { devices: Vec::new(), generation: 0 }
    }

    /// Replaces the snapshot with `devices` and moves to the next generation.
    pub fn refresh(&mut self, devices: Vec<H>)
        ensures
            final(self)@ == old(self)@.after_refresh(devices@),
    {
        self.devices = devices;
        self.generation = if self.generation == u64::MAX {
            0
        } else {
            self.generation + 1
        };
    }

    /// The number of handles in the current snapshot.
    pub fn len(&self) -> (n: usize)
        ensures
            n == self@.devices.len(),
    {
        self.devices.len()
    }

    /// The generation of the current snapshot.
    pub fn generation(&self) -> (g: u64)
        ensures
            g == self@.generation,
    {
        self.generation
    }

    /// The handle at `index` of the current snapshot.
    pub fn get(&self, index: usize) -> (r: Result<H, RegistryError>)
        ensures
            r == self@.lookup(index as int),
    {
        if index < self.devices.len() {
            Ok(self.devices[index])
        } else {
            Err(RegistryError::IndexOutOfRange)
        }
    }

    /// A reference to position `index` of the current snapshot, tagged with
    /// its generation.
    pub fn device_ref(&self, index: usize) -> (r: Result<DeviceRef, RegistryError>)
        ensures
            index < self@.devices.len() ==> r == Ok::<DeviceRef, RegistryError>(
                DeviceRef { index, generation: self@.generation },
            ),
            index >= self@.devices.len() ==> r == Err::<DeviceRef, RegistryError>(
                RegistryError::IndexOutOfRange,
            ),
    {
        if index < self.devices.len() {
            Ok(DeviceRef { index, generation: self.generation })
        } else {
            Err(RegistryError::IndexOutOfRange)
        }
    }

    /// The handle that `r` names, re-validated against the current snapshot.
    pub fn resolve(&self, r: DeviceRef) -> (h: Result<H, RegistryError>)
        ensures
            h == self@.resolve(r),
    {
        if r.generation != self.generation {
            Err(RegistryError::StaleReference)
        } else {
            self.get(r.index)
        }
    }

    /// Each handle of the current snapshot with its ordinal position.
    pub fn list(&self) -> (r: Vec<(usize, H)>)
        ensures
            r@ == self@.listing(),
    {
        let mut out: Vec<(usize, H)> = Vec::new();
        let mut i: usize = 0;
        while i < self.devices.len()
            invariant
                i <= self.devices@.len(),
                out@ == self@.listing().take(i as int),
            decreases self.devices@.len() - i,
        {
            out.push((i, self.devices[i]));
            i = i + 1;
            assert(out@ =~= self@.listing().take(i as int));
        }
        assert(out@ =~= self@.listing());
        out
    }
}

} // verus!
