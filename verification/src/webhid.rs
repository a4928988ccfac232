//! The granted-device listing of the WebHID backend: every granted device is
//! registered, and described under the id that the registry gives it.

use vstd::prelude::*;

use crate::descriptor::{device_fits, device_infos, device_infos_from_hid_device, HidDeviceData};
use crate::device_info::DeviceInfo;
use crate::store::{names_device, search_outcome, store_outcome, total_test, DeviceStore};

verus! {

/// The descriptions of devices, each under the id at the same place in `ids`,
/// one device after the other.
pub open spec fn described(datas: Seq<HidDeviceData>, ids: Seq<u32>) -> Seq<DeviceInfo>
    decreases datas.len(),
{
    if datas.len() == 0 || ids.len() == 0 {
        Seq::empty()
    } else {
        described(datas.drop_last(), ids.drop_last()) + device_infos(datas.last(), ids.last())
    }
}

/// Describing no devices gives no descriptions, and describing one more device
/// appends its own descriptions, under its id, after those of the others.
pub proof fn lemma_described_in_order(datas: Seq<HidDeviceData>, ids: Seq<u32>, data: HidDeviceData, id: u32)
    ensures
        described(Seq::<HidDeviceData>::empty(), Seq::<u32>::empty()) == Seq::<DeviceInfo>::empty(),
        described(datas.push(data), ids.push(id)) == described(datas, ids) + device_infos(data, id),
{
    assert(datas.push(data).drop_last() =~= datas);
    assert(ids.push(id).drop_last() =~= ids);
}

/// Step `k` of a registration: device `k` was searched for in the registry as it
/// stood before the step, and stored (or found) under `ids[k]`.
pub open spec fn stored_at<T, F: Fn(&T, &T) -> bool>(states: Seq<Seq<T>>, devices: Seq<T>, same: F, ids: Seq<u32>, k: int) -> bool {
    exists|found: Option<u32>| search_outcome(states[k], devices[k], same, found)
        && #[trigger] store_outcome(states[k], devices[k], found, states[k + 1], ids[k])
}

/// `states` are the registry before each step and after the last one, when the
/// devices were stored one after the other, each under the id at its place in `ids`.
pub open spec fn registered_in_turn<T, F: Fn(&T, &T) -> bool>(states: Seq<Seq<T>>, devices: Seq<T>, same: F, ids: Seq<u32>) -> bool {
    &&& states.len() == devices.len() + 1
    &&& ids.len() == devices.len()
    &&& forall|k: int| 0 <= k < devices.len() ==> #[trigger] stored_at(states, devices, same, ids, k)
}

pub open spec fn granted_devices<T>(granted: Seq<(T, HidDeviceData)>) -> Seq<T> {
    granted.map_values(|g: (T, HidDeviceData)| g.0)
}

pub open spec fn granted_data<T>(granted: Seq<(T, HidDeviceData)>) -> Seq<HidDeviceData> {
    granted.map_values(|g: (T, HidDeviceData)| g.1)
}

proof fn lemma_prefix_keeps_names<T, F: Fn(&T, &T) -> bool>(before: Seq<T>, after: Seq<T>, device: T, same: F, index: u32)
    requires
        before.is_prefix_of(after),
        names_device(before, device, same, index),
    ensures
        names_device(after, device, same, index),
{
    assert(after.subrange(0, before.len() as int)[index as int] == after[index as int]);
}

/// Registers the devices that the browser granted, each with the data it reports
/// of itself, and describes them: the descriptions of the first device, then of
/// the second, and so on, each under the registry index that names the device.
/// The registry only grows, so that earlier ids keep naming their devices.
pub fn describe_granted_devices<T, F: Fn(&T, &T) -> bool>(
    store: &mut DeviceStore<T>,
    granted: Vec<(T, HidDeviceData)>,
    same: &F,
) -> (infos: Vec<DeviceInfo>)
    requires
        old(store)@.len() + granted@.len() < u32::MAX,
        total_test(*same),
        forall|k: int| 0 <= k < granted@.len() ==> device_fits(#[trigger] granted@[k].1),
    ensures
        old(store)@.is_prefix_of(final(store)@),
        exists|ids: Seq<u32>, states: Seq<Seq<T>>| {
            &&& #[trigger] registered_in_turn(states, granted_devices(granted@), *same, ids)
            &&& states[0] == old(store)@
            &&& states.last() == final(store)@
            &&& infos@ == described(granted_data(granted@), ids)
            &&& forall|k: int| 0 <= k < ids.len() ==> names_device(final(store)@, granted@[k].0, *same, #[trigger] ids[k])
        },
{
    let ghost all = granted@;
    let ghost start = store@;
    let mut rest = granted;
    let mut infos: Vec<DeviceInfo> = Vec::new();
    let ghost mut ids: Seq<u32> = Seq::empty();
    let ghost mut states: Seq<Seq<T>> = seq![store@];
    let mut k: usize = 0;
    while rest.len() > 0
        invariant
            k <= all.len(),
            rest@ == all.skip(k as int),
            ids.len() == k,
            start.is_prefix_of(store@),
            store@.len() <= start.len() + k,
            start.len() + all.len() < u32::MAX,
            total_test(*same),
            forall|j: int| 0 <= j < all.len() ==> device_fits(#[trigger] all[j].1),
            infos@ == described(granted_data(all.take(k as int)), ids),
            forall|j: int| 0 <= j < ids.len() ==> names_device(store@, all[j].0, *same, #[trigger] ids[j]),
            states.len() == k + 1,
            states[0] == start,
            states.last() == store@,
            forall|j: int| 0 <= j < k ==> #[trigger] stored_at(states, granted_devices(all), *same, ids, j),
        decreases rest@.len(),
    {
        assert(rest@[0] == all[k as int]);
        let (device, data) = rest.remove(0);
        assert(device_fits(all[k as int].1));
        let ghost before = store@;
        let ghost dev = device;
        let index = store.store(device, same);
        proof {
            assert forall|j: int| 0 <= j < ids.len() implies names_device(store@, all[j].0, *same, #[trigger] ids[j]) by {
                lemma_prefix_keeps_names(before, store@, all[j].0, *same, ids[j]);
            }
            assert(start.is_prefix_of(store@)) by {
                assert(store@.subrange(0, before.len() as int) == before);
                assert(before.subrange(0, start.len() as int) == start);
                assert(store@.subrange(0, start.len() as int) =~= before.subrange(0, start.len() as int));
            }
        }
        let mut more = device_infos_from_hid_device(&data, index);
        infos.append(&mut more);
        proof {
            let old_ids = ids;
            let old_states = states;
            ids = ids.push(index);
            states = states.push(store@);
            let devs = granted_devices(all);
            assert(devs[k as int] == dev);
            assert forall|j: int| 0 <= j < k + 1 implies #[trigger] stored_at(states, devs, *same, ids, j) by {
                if j < k {
                    assert(stored_at(old_states, devs, *same, old_ids, j));
                    assert(states[j] == old_states[j]);
                    assert(states[j + 1] == old_states[j + 1]);
                    assert(ids[j] == old_ids[j]);
                } else {
                    assert(states[j] == before);
                    assert(states[j + 1] == store@);
                    assert(ids[j] == index);
                }
            }
            let datas = granted_data(all.take(k + 1));
            assert(datas.drop_last() =~= granted_data(all.take(k as int)));
            assert(ids.drop_last() =~= old_ids);
            assert(datas.last() == data);
            assert(ids[k as int] == index);
            assert(dev == all[k as int].0);
        }
        k = k + 1;
        assert(rest@ =~= all.skip(k as int));
    }
    assert(all.take(all.len() as int) =~= all);
    assert(registered_in_turn(states, granted_devices(all), *same, ids));
    infos
}

} // verus!
