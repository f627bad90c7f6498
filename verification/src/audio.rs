//! Audio output devices offered by the device selector.

use vstd::prelude::*;

verus! {

/// An audio output device.
#[derive(Debug, Clone)]
pub struct AudioDeviceInfo {
    pub name: String,
    pub is_default: bool,
}

/// The devices named `names` (in the system's order), the one named like
/// the system's default output being marked as default.
pub fn device_infos(names: Vec<String>, default_name: Option<String>) -> (v: Vec<AudioDeviceInfo>)
    ensures
        v@.len() == names@.len(),
        forall|i: int|
            0 <= i < v@.len() ==> (#[trigger] v@[i]).name@ == names@[i]@ && v@[i].is_default == (
            default_name matches Some(d) && d@ == names@[i]@),
{
    let mut v: Vec<AudioDeviceInfo> = Vec::new();
    let mut i: usize = 0;
    while i < names.len()
        invariant
            i <= names@.len(),
            v@.len() == i,
            forall|j: int|
                0 <= j < i ==> (#[trigger] v@[j]).name@ == names@[j]@ && v@[j].is_default == (
                default_name matches Some(d) && d@ == names@[j]@),
        decreases names@.len() - i,
    {
        let is_default = match &default_name {
            Some(d) => *d == names[i],
            None => false,
        };
        v.push(AudioDeviceInfo { name: names[i].clone(), is_default });
        i = i + 1;
    }
    v
}

} // verus!
