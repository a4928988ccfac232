//! The registry of granted devices. A device keeps the index under which it was
//! first stored, so that the id built from that index names the same device in
//! every later request, enumeration and open.

use vstd::prelude::*;

use crate::device_info::{DeviceEvent, DeviceId};
use crate::error::HidError;

verus! {

/// The devices granted to this process, in the order in which they were first seen.
pub struct DeviceStore<T> {
    devices: Vec<T>,
}

impl<T> View for DeviceStore<T> {
    type V = Seq<T>;

    closed spec fn view(&self) -> Seq<T> {
        self.devices@
    }
}

/// The device stored under `index`, if any.
pub open spec fn stored_device<T>(devices: Seq<T>, index: u32) -> Option<T> {
    if index < devices.len() {
        Some(devices[index as int])
    } else {
        None
    }
}

/// `found` is what a search for `device` with `same` over `devices` gives: the
/// first index at which `same` answered true, every earlier answer having been
/// false, or `None` where every answer was false.
pub open spec fn search_outcome<T, F: Fn(&T, &T) -> bool>(devices: Seq<T>, device: T, same: F, found: Option<u32>) -> bool {
    match found {
        Some(i) => {
            &&& i < devices.len()
            &&& call_ensures(same, (&devices[i as int], &device), true)
            &&& forall|j: int| 0 <= j < i ==> call_ensures(same, (&#[trigger] devices[j], &device), false)
        },
        None => forall|j: int| 0 <= j < devices.len() ==> call_ensures(same, (&#[trigger] devices[j], &device), false),
    }
}

/// `after` and `index` are what storing `device` into `before` gives: where the
/// search found it under `found`, nothing changes and its index comes back;
/// otherwise it is appended and its new index comes back.
pub open spec fn store_outcome<T>(before: Seq<T>, device: T, found: Option<u32>, after: Seq<T>, index: u32) -> bool {
    match found {
        Some(i) => after == before && index == i,
        None => after == before.push(device) && index == before.len(),
    }
}

/// `index` names `device` in `devices`: the device itself is stored there, or one
/// that `same` recognised as it.
pub open spec fn names_device<T, F: Fn(&T, &T) -> bool>(devices: Seq<T>, device: T, same: F, index: u32) -> bool {
    &&& index < devices.len()
    &&& (devices[index as int] == device || call_ensures(same, (&devices[index as int], &device), true))
}

/// An equality test on devices that can be asked of any two.
pub open spec fn total_test<T, F: Fn(&T, &T) -> bool>(same: F) -> bool {
    forall|a: &T, b: &T| #[trigger] same.requires((a, b))
}

impl<T> DeviceStore<T> {
    /// An empty registry.
    pub fn new() -> (store: Self)
        ensures
            store@ == Seq::<T>::empty(),
    {
        DeviceStore { devices: Vec::new() }
    }

    /// The number of devices stored.
    pub fn len(&self) -> (n: usize)
        ensures
            n == self@.len(),
    {
        self.devices.len()
    }

    /// The device stored under `index`, or `NotConnected` where none is.
    pub fn get(&self, index: u32) -> (res: Result<&T, HidError>)
        ensures
            stored_device(self@, index) matches Some(d) ==> (res matches Ok(r) && *r == d),
            stored_device(self@, index) is None ==> (res matches Err(HidError::NotConnected)),
            index < self@.len() ==> (res matches Ok(r) && *r == self@[index as int]),
            index >= self@.len() ==> (res matches Err(HidError::NotConnected)),
    {
        if (index as usize) < self.devices.len() {
            Ok(&self.devices[index as usize])
        } else {
            Err(HidError::NotConnected)
        }
    }

    /// The first index whose device `same` takes for `device`, or `None`.
    pub fn find<F: Fn(&T, &T) -> bool>(&self, device: &T, same: &F) -> (found: Option<u32>)
        requires
            self@.len() <= u32::MAX,
            total_test(*same),
        ensures
            search_outcome(self@, *device, *same, found),
    {
        let mut i: usize = 0;
        while i < self.devices.len()
            invariant
                i <= self.devices@.len(),
                self.devices@.len() <= u32::MAX,
                total_test(*same),
                forall|j: int| 0 <= j < i ==> call_ensures(*same, (&#[trigger] self.devices@[j], device), false),
            decreases self.devices@.len() - i,
        {
            let hit = same(&self.devices[i], device);
            if hit {
                return Some(i as u32);
            }
            i = i + 1;
        }
        None
    }

    /// Stores a device unless `same` recognises it among those stored, and
    /// returns its index: the one it already had, or the next free one.
    pub fn store<F: Fn(&T, &T) -> bool>(&mut self, device: T, same: &F) -> (index: u32)
        requires
            old(self)@.len() < u32::MAX,
            total_test(*same),
        ensures
            exists|found: Option<u32>| search_outcome(old(self)@, device, *same, found)
                && #[trigger] store_outcome(old(self)@, device, found, final(self)@, index),
            names_device(final(self)@, device, *same, index),
            old(self)@.is_prefix_of(final(self)@),
            final(self)@.len() <= old(self)@.len() + 1,
    {
        let found = self.find(&device, same);
        match found {
            Some(i) => {
                assert(store_outcome(old(self)@, device, found, self@, i));
                i
            },
            None => {
                let index = self.devices.len() as u32;
                self.devices.push(device);
                assert(store_outcome(old(self)@, device, found, self@, index));
                index
            },
        }
    }

    /// The event for a device that was connected: it is stored (or found again)
    /// and reported under its registry id.
    pub fn on_connect<F: Fn(&T, &T) -> bool>(&mut self, device: T, same: &F) -> (event: DeviceEvent)
        requires
            old(self)@.len() < u32::MAX,
            total_test(*same),
        ensures
            exists|found: Option<u32>, index: u32| search_outcome(old(self)@, device, *same, found)
                && #[trigger] store_outcome(old(self)@, device, found, final(self)@, index)
                && event == DeviceEvent::Connected(DeviceId::WebHid(index)),
    {
        let index = self.store(device, same);
        DeviceEvent::Connected(DeviceId::WebHid(index))
    }

    /// The event for a device that was disconnected: reported under its registry
    /// id where the registry knows it, and not at all otherwise. The registry
    /// keeps the device, so that its id keeps naming it.
    pub fn on_disconnect<F: Fn(&T, &T) -> bool>(&self, device: &T, same: &F) -> (event: Option<DeviceEvent>)
        requires
            self@.len() <= u32::MAX,
            total_test(*same),
        ensures
            exists|found: Option<u32>| #[trigger] search_outcome(self@, *device, *same, found)
                && event == match found {
                    Some(i) => Some(DeviceEvent::Disconnected(DeviceId::WebHid(i))),
                    None => None,
                },
    {
        let found = self.find(device, same);
        match found {
            Some(i) => Some(DeviceEvent::Disconnected(DeviceId::WebHid(i))),
            None => None,
        }
    }
}

/// A search stops at the first device that the test takes for the one sought:
/// the test answered true there and false at every earlier device; a search
/// that finds nothing had every answer false.
pub proof fn lemma_search_finds_first<T, F: Fn(&T, &T) -> bool>(devices: Seq<T>, device: T, same: F, found: Option<u32>)
    requires
        search_outcome(devices, device, same, found),
    ensures
        found matches Some(i) ==> {
            &&& i < devices.len()
            &&& call_ensures(same, (&devices[i as int], &device), true)
            &&& forall|j: int| 0 <= j < i ==> call_ensures(same, (&#[trigger] devices[j], &device), false)
        },
        found is None ==> forall|j: int| 0 <= j < devices.len() ==> call_ensures(same, (&#[trigger] devices[j], &device), false),
{
}

/// A device that is not recognised is appended, under the next index; one that
/// is recognised leaves the registry as it was. Either way the index names the
/// device, and no device already stored moves.
pub proof fn lemma_store_appends_or_keeps<T>(before: Seq<T>, device: T, found: Option<u32>, after: Seq<T>, index: u32)
    requires
        store_outcome(before, device, found, after, index),
    ensures
        found is None ==> after.len() == before.len() + 1 && index == before.len() && after[index as int] == device,
        found matches Some(i) ==> after == before && index == i,
        forall|j: int| 0 <= j < before.len() ==> #[trigger] after[j] == before[j],
{
}

/// After a device is stored under `index`, looking that index up gives the device
/// that the registry holds there: the one stored, or the one it was recognised as.
pub proof fn lemma_store_then_get<T>(before: Seq<T>, device: T, found: Option<u32>, after: Seq<T>, index: u32)
    requires
        store_outcome(before, device, found, after, index),
        found matches Some(i) ==> i < before.len(),
    ensures
        stored_device(after, index) is Some,
        found is None ==> stored_device(after, index) == Some(device),
        found matches Some(i) ==> stored_device(after, index) == stored_device(before, i),
{
}

/// Storing never moves a device: every index that named a device before names
/// the same device after.
pub proof fn lemma_store_keeps_ids<T>(before: Seq<T>, device: T, found: Option<u32>, after: Seq<T>, index: u32, other: u32)
    requires
        store_outcome(before, device, found, after, index),
        other < before.len(),
    ensures
        stored_device(after, other) == stored_device(before, other),
{
}

/// Storing a device that the registry recognises leaves the registry as it was
/// and gives back the index it already had.
pub proof fn lemma_store_recognised_is_unchanged<T>(before: Seq<T>, device: T, i: u32, after: Seq<T>, index: u32)
    requires
        store_outcome(before, device, Some(i), after, index),
    ensures
        after == before,
        index == i,
{
}

} // verus!
