use crate::event::InputDeviceInfo;
use crate::event_handler::matching::spec_device_matches;
use vstd::prelude::*;

verus! {

/// `KEY_SPACE`, `KEY_A`, `KEY_Z` and `BTN_LEFT` of the Linux input codes.
pub const KEY_SPACE: u16 = 57;
pub const KEY_A: u16 = 30;
pub const KEY_Z: u16 = 44;
pub const BTN_LEFT: u16 = 272;

/// A device is a keyboard when it has space, A and Z, and no left mouse
/// button.
pub open spec fn spec_is_keyboard(supported_keys: Seq<u16>) -> bool {
    supported_keys.contains(KEY_SPACE) && supported_keys.contains(KEY_A) && supported_keys.contains(KEY_Z)
        && !supported_keys.contains(BTN_LEFT)
}

/// Whether a device with these keys is a keyboard.
pub fn is_keyboard(supported_keys: &Vec<u16>) -> (r: bool)
    ensures
        r == spec_is_keyboard(supported_keys@),
{
    crate::util::vec_contains(supported_keys, KEY_SPACE) && crate::util::vec_contains(supported_keys, KEY_A)
        && crate::util::vec_contains(supported_keys, KEY_Z) && !crate::util::vec_contains(supported_keys, BTN_LEFT)
}

/// A device is selected: with no device filters, when it is a keyboard;
/// otherwise when some filter names it.
pub open spec fn spec_is_selected(device: InputDeviceInfo, supported_keys: Seq<u16>, filters: Seq<String>) -> bool {
    if filters.len() == 0 {
        spec_is_keyboard(supported_keys)
    } else {
        exists|i: int| 0 <= i < filters.len() && spec_device_matches(device.name@, device.path@, #[trigger] filters[i]@)
    }
}

/// Whether the device is selected for remapping.
pub fn is_selected(device: &InputDeviceInfo, supported_keys: &Vec<u16>, filters: &Vec<String>) -> (r: bool)
    ensures
        r == spec_is_selected(*device, supported_keys@, filters@),
{
    if filters.len() == 0 {
        return is_keyboard(supported_keys);
    }
    let mut i: usize = 0;
    while i < filters.len()
        invariant
            i <= filters.len(),
            forall|j: int| 0 <= j < i ==> !spec_device_matches(device.name@, device.path@, #[trigger] filters@[j]@),
        decreases filters.len() - i,
    {
        if device.matches(&filters[i]) {
            return true;
        }
        i = i + 1;
    }
    false
}

} // verus!

verus! {

/// Byte strings as plain values.
pub open spec fn byte_strings(v: Seq<Vec<u8>>) -> Seq<Seq<u8>> {
    v.map_values(|b: Vec<u8>| b@)
}

/// The device paths of `changed`, in order, to try to grab: those not
/// grabbed already and not named earlier in `changed`.
pub open spec fn paths_to_try(grabbed: Seq<Seq<u8>>, changed: Seq<Seq<u8>>) -> Seq<Seq<u8>>
    decreases changed.len(),
{
    if changed.len() == 0 {
        Seq::empty()
    } else {
        let before = paths_to_try(grabbed, changed.drop_last());
        let p = changed.last();
        if grabbed.contains(p) || changed.drop_last().contains(p) {
            before
        } else {
            before.push(p)
        }
    }
}

/// Whether two byte strings are equal.
fn bytes_equal(a: &Vec<u8>, b: &Vec<u8>) -> (r: bool)
    ensures
        r == (a@ == b@),
{
    if a.len() != b.len() {
        return false;
    }
    let mut i: usize = 0;
    while i < a.len()
        invariant
            i <= a.len(),
            a.len() == b.len(),
            forall|j: int| 0 <= j < i ==> a@[j] == b@[j],
        decreases a.len() - i,
    {
        if a[i] != b[i] {
            return false;
        }
        i = i + 1;
    }
    assert(a@ =~= b@);
    true
}

/// Whether `list` holds `item`.
fn holds_bytes(list: &Vec<Vec<u8>>, end: usize, item: &Vec<u8>) -> (r: bool)
    requires
        end <= list.len(),
    ensures
        r == byte_strings(list@).take(end as int).contains(item@),
{
    let ghost v = byte_strings(list@).take(end as int);
    let mut i: usize = 0;
    while i < end
        invariant
            i <= end <= list.len(),
            v == byte_strings(list@).take(end as int),
            forall|j: int| 0 <= j < i ==> v[j] != item@,
        decreases end - i,
    {
        if bytes_equal(&list[i], item) {
            assert(v[i as int] == item@);
            return true;
        }
        i = i + 1;
    }
    false
}

/// The paths of `changed` (devices that appeared), in order, that the
/// remapper tries to grab: not those it holds already, and each path once.
pub fn device_paths_to_try(grabbed: &Vec<Vec<u8>>, changed: &Vec<Vec<u8>>) -> (r: Vec<Vec<u8>>)
    ensures
        byte_strings(r@) == paths_to_try(byte_strings(grabbed@), byte_strings(changed@)),
{
    let mut r: Vec<Vec<u8>> = Vec::new();
    let mut i: usize = 0;
    proof {
        assert(byte_strings(grabbed@).take(grabbed@.len() as int) =~= byte_strings(grabbed@));
    }
    while i < changed.len()
        invariant
            i <= changed.len(),
            byte_strings(grabbed@).take(grabbed@.len() as int) == byte_strings(grabbed@),
            byte_strings(r@) == paths_to_try(byte_strings(grabbed@), byte_strings(changed@).take(i as int)),
        decreases changed.len() - i,
    {
        let p = &changed[i];
        let ghost c = byte_strings(changed@).take(i + 1);
        proof {
            assert(c.drop_last() =~= byte_strings(changed@).take(i as int));
            assert(c.last() == p@);
        }
        if !holds_bytes(grabbed, grabbed.len(), p) && !holds_bytes(changed, i, p) {
            let ghost before = r@;
            r.push(p.clone());
            proof {
                assert(byte_strings(r@) =~= byte_strings(before).push(p@));
            }
        }
        i = i + 1;
    }
    proof {
        assert(byte_strings(changed@).take(changed@.len() as int) =~= byte_strings(changed@));
    }
    r
}

} // verus!
