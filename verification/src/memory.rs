//! The sensors of the main memory.
use vstd::prelude::*;

use crate::reading::{GIGABYTE, Reading};
use crate::text::{contains, occurs};

verus! {

/// The share of the main memory that is in use, in percent.
pub fn find_ram_usage(used: u64, total: u64) -> (r: Reading)
    ensures
        r == (if total > 0 {
            Reading::Percent { part: used, whole: total }
        } else {
            Reading::Absent
        }),
{
    if total > 0 {
        Reading::Percent { part: used, whole: total }
    } else {
        Reading::Absent
    }
}

/// The main memory that is in use, in gigabytes.
pub fn find_ram_usage_gb(used: u64) -> (r: Reading)
    ensures
        r == (Reading::Scaled { value: used, divisor: GIGABYTE }),
{
    Reading::Scaled { value: used, divisor: GIGABYTE }
}

/// The main memory in all, in gigabytes.
pub fn find_ram_total_gb(total: u64) -> (r: Reading)
    ensures
        r == (Reading::Scaled { value: total, divisor: GIGABYTE }),
{
    Reading::Scaled { value: total, divisor: GIGABYTE }
}

/// A part of the machine with a temperature sensor.
#[derive(Debug)]
pub struct Component {
    pub label: String,
    /// The temperature in degrees, as the bit pattern of a single-precision number.
    pub temperature: Option<u32>,
}

/// A [`Component`], its label taken as a sequence of characters.
pub struct ComponentView {
    pub label: Seq<char>,
    pub temperature: Option<u32>,
}

impl View for Component {
    type V = ComponentView;

    open spec fn view(&self) -> ComponentView {
        ComponentView { label: self.label@, temperature: self.temperature }
    }
}

impl DeepView for Component {
    type V = ComponentView;

    open spec fn deep_view(&self) -> ComponentView {
        self@
    }
}

/// The component is a memory module that shows its temperature.
pub open spec fn shows_ram(component: ComponentView) -> bool {
    &&& occurs(component.label, "spd5118"@) || occurs(component.label, "SPD5118"@)
    &&& component.temperature is Some
}

/// The temperature of the first of the memory modules that shows one, in degrees.
pub fn find_ram_temperature(components: &Vec<Component>) -> (r: Reading)
    ensures
        forall|k: int|
            #![trigger components.deep_view()[k]]
            0 <= k < components.len() && shows_ram(components.deep_view()[k]) && (forall|j: int|
                0 <= j < k ==> !shows_ram(#[trigger] components.deep_view()[j])) ==> r == (
            Reading::Float { bits: components.deep_view()[k].temperature->0, divisor: 1 }),
        (forall|k: int|
            0 <= k < components.len() ==> !shows_ram(#[trigger] components.deep_view()[k])) ==> r
            == Reading::Absent,
{
    let ghost all = components.deep_view();
    let mut i: usize = 0;
    while i < components.len()
        invariant
            i <= components.len(),
            all == components.deep_view(),
            forall|j: int| 0 <= j < i ==> !shows_ram(#[trigger] all[j]),
        decreases components.len() - i,
    {
        let label = components[i].label.as_str();
        assert(all[i as int] == components[i as int]@);
        if contains(label, "spd5118") || contains(label, "SPD5118") {
            match components[i].temperature {
                Some(bits) => {
                    assert(shows_ram(all[i as int]));
                    return Reading::Float { bits, divisor: 1 };
                },
                None => {},
            }
        }
        i = i + 1;
    }
    Reading::Absent
}

/// The memory in use is shown in percent of the memory in all, whatever the two are, unless there is
/// none in all; in gigabytes each is shown by itself, a gigabyte being the thirtieth power of two.
pub proof fn memory_is_shown_as_it_is(used: u64, total: u64, r: Reading)
    ensures
        call_ensures(find_ram_usage, (used, total), r) && total != 0 ==> r == (Reading::Percent {
            part: used,
            whole: total,
        }),
        call_ensures(find_ram_usage, (used, total), r) && total == 0 ==> r == Reading::Absent,
        call_ensures(find_ram_usage_gb, (used,), r) ==> r == (Reading::Scaled {
            value: used,
            divisor: 1_073_741_824,
        }),
        call_ensures(find_ram_total_gb, (total,), r) ==> r == (Reading::Scaled {
            value: total,
            divisor: 1_073_741_824,
        }),
{
}

/// The temperature of the memory is that of the first component that has one and whose label has
/// `spd5118` in it, in small letters or in capitals; and nothing where there is no such component.
pub proof fn memory_temperature_is_that_of_a_module(components: &Vec<Component>, r: Reading)
    requires
        call_ensures(find_ram_temperature, (components,), r),
    ensures
        forall|k: int|
            #![trigger components[k]]
            0 <= k < components.len() && (occurs(components[k].label@, "spd5118"@) || occurs(
                components[k].label@,
                "SPD5118"@,
            )) && components[k].temperature is Some && (forall|j: int|
                #![trigger components[j]]
                0 <= j < k ==> components[j].temperature is None || !(occurs(
                    components[j].label@,
                    "spd5118"@,
                ) || occurs(components[j].label@, "SPD5118"@))) ==> r == (Reading::Float {
                bits: components[k].temperature->0,
                divisor: 1,
            }),
        (forall|k: int|
            #![trigger components[k]]
            0 <= k < components.len() ==> components[k].temperature is None || !(occurs(
                components[k].label@,
                "spd5118"@,
            ) || occurs(components[k].label@, "SPD5118"@))) ==> r == Reading::Absent,
{
    let all = components.deep_view();
    assert forall|k: int| 0 <= k < components.len() implies #[trigger] all[k]
        == components[k]@ by {}
    assert forall|k: int|
        #![trigger components[k]]
        0 <= k < components.len() && (occurs(components[k].label@, "spd5118"@) || occurs(
            components[k].label@,
            "SPD5118"@,
        )) && components[k].temperature is Some && (forall|j: int|
            #![trigger components[j]]
            0 <= j < k ==> components[j].temperature is None || !(occurs(
                components[j].label@,
                "spd5118"@,
            ) || occurs(components[j].label@, "SPD5118"@))) implies r == (Reading::Float {
        bits: components[k].temperature->0,
        divisor: 1,
    }) by {
        assert(all[k] == components[k]@);
        assert(shows_ram(all[k]));
        assert forall|j: int| 0 <= j < k implies !shows_ram(#[trigger] all[j]) by {
            assert(all[j] == components[j]@);
        }
    }
    if forall|k: int|
        #![trigger components[k]]
        0 <= k < components.len() ==> components[k].temperature is None || !(occurs(
            components[k].label@,
            "spd5118"@,
        ) || occurs(components[k].label@, "SPD5118"@)) {
        assert forall|k: int| 0 <= k < components.len() implies !shows_ram(#[trigger] all[k]) by {
            assert(all[k] == components[k]@);
        }
    }
}

} // verus!
