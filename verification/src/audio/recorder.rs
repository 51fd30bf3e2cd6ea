//! Input devices and the choice among them.
use crate::text::{chars_of, contains_str, has_sub};
use crate::voice::commands::DeviceTarget;
use vstd::prelude::*;

verus! {

#[derive(Debug, Clone, PartialEq, Eq)]
pub struct AudioDeviceInfo {
    pub index: usize,
    pub name: String,
}

/// `str::to_lowercase`: the full Unicode lower-case mapping of the text.
pub uninterp spec fn lowercased(s: Seq<char>) -> Seq<char>;

/// `str::to_lowercase`.
#[verifier::external_body]
fn to_lowercase(s: &str) -> (res: String)
    ensures
        res@ == lowercased(s@),
{
    s.to_lowercase()
}

/// The name of the device with the given index, when there is one.
pub open spec fn name_of(devices: Seq<AudioDeviceInfo>, index: Option<usize>, i: int) -> Option<
    Seq<char>,
>
    decreases devices.len() - i,
{
    if i < 0 || i >= devices.len() {
        None
    } else if Some(devices[i].index) == index {
        Some(devices[i].name@)
    } else {
        name_of(devices, index, i + 1)
    }
}

/// The name of the first device whose index is `index`.
pub fn device_name(devices: &Vec<AudioDeviceInfo>, index: Option<usize>) -> (res: Option<String>)
    ensures
        match res {
            Some(n) => name_of(devices@, index, 0) == Some(n@),
            None => name_of(devices@, index, 0) is None,
        },
{
    let mut i: usize = 0;
    while i < devices.len()
        invariant
            i <= devices.len(),
            name_of(devices@, index, 0) == name_of(devices@, index, i as int),
        decreases devices.len() - i,
    {
        if Some(devices[i].index) == index {
            return Some(devices[i].name.clone());
        }
        i = i + 1;
    }
    None
}

/// The word looked for in device names.
pub open spec fn device_keyword(target: DeviceTarget) -> Seq<char> {
    match target {
        DeviceTarget::Internal => "麦克风"@,
        DeviceTarget::Headset => "耳机"@,
    }
}

/// Whether a device name, lower-cased, sounds like a headset.
pub open spec fn headset_like(name: Seq<char>) -> bool {
    let n = lowercased(name);
    has_sub(n, "buds"@) || has_sub(n, "headset"@) || has_sub(n, "bluetooth"@)
}

pub open spec fn first_with_keyword(devices: Seq<AudioDeviceInfo>, k: Seq<char>, i: int) -> Option<int>
    decreases devices.len() - i,
{
    if i < 0 || i >= devices.len() {
        None
    } else if has_sub(devices[i].name@, k) {
        Some(i)
    } else {
        first_with_keyword(devices, k, i + 1)
    }
}

pub open spec fn first_headset_like(devices: Seq<AudioDeviceInfo>, i: int) -> Option<int>
    decreases devices.len() - i,
{
    if i < 0 || i >= devices.len() {
        None
    } else if headset_like(devices[i].name@) {
        Some(i)
    } else {
        first_headset_like(devices, i + 1)
    }
}

/// The device to switch to: the first whose name holds the target's word,
/// else the first that sounds like a headset.
pub open spec fn chosen_device(devices: Seq<AudioDeviceInfo>, target: DeviceTarget) -> Option<int> {
    match first_with_keyword(devices, device_keyword(target), 0) {
        Some(i) => Some(i),
        None => first_headset_like(devices, 0),
    }
}

pub fn choose_device(devices: &Vec<AudioDeviceInfo>, target: DeviceTarget) -> (res: Option<usize>)
    ensures
        match res {
            Some(i) => chosen_device(devices@, target) == Some(i as int),
            None => chosen_device(devices@, target) is None,
        },
{
    let keyword = match target {
        DeviceTarget::Internal => "麦克风",
        DeviceTarget::Headset => "耳机",
    };
    let kv = chars_of(keyword);
    let mut i: usize = 0;
    while i < devices.len()
        invariant
            i <= devices.len(),
            kv@ == device_keyword(target),
            first_with_keyword(devices@, device_keyword(target), 0) == first_with_keyword(
                devices@,
                device_keyword(target),
                i as int,
            ),
        decreases devices.len() - i,
    {
        let nv = chars_of(devices[i].name.as_str());
        if crate::text::contains(&nv, &kv) {
            return Some(i);
        }
        i = i + 1;
    }
    let mut j: usize = 0;
    while j < devices.len()
        invariant
            j <= devices.len(),
            first_with_keyword(devices@, device_keyword(target), 0) is None,
            first_headset_like(devices@, 0) == first_headset_like(devices@, j as int),
        decreases devices.len() - j,
    {
        let n = to_lowercase(devices[j].name.as_str());
        let nv = chars_of(n.as_str());
        if contains_str(&nv, "buds") || contains_str(&nv, "headset") || contains_str(
            &nv,
            "bluetooth",
        ) {
            return Some(j);
        }
        j = j + 1;
    }
    None
}

} // verus!
