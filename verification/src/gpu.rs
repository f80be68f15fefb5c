//! The sensors of the graphics cards: those that the NVIDIA driver manages, and those that the
//! kernel shows under `/sys/class/drm`.
use vstd::prelude::*;

use crate::file::{NumberProbe, number_in, path, path_of, paths, paths_of, read_number, read_number_finds, read_number_plan};
use crate::host::{Answer, Plan, Probe, Query, Reply, Request, Step, answering_keeps_the_result, asks, begins, bind, plan_of, requests, run, run_bind};
use crate::number::{number_of, parse};
use crate::reading::{GIGABYTE, MICRO, MILLI, Reading, is_positive, positive};
use crate::text::{after_prefix, same, starts_with, strip_prefix, trim, trimmed};

verus! {

/// A graphics card: the name it is asked for by, and the name it is shown by.
#[derive(Debug)]
pub struct GpuInfo {
    pub card: String,
    pub name: String,
}

impl Clone for GpuInfo {
    fn clone(&self) -> (r: GpuInfo)
        ensures
            r@ == self@,
    {
        GpuInfo { card: self.card.clone(), name: self.name.clone() }
    }
}

/// A [`GpuInfo`], its text taken as sequences of characters.
pub struct GpuEntry {
    pub card: Seq<char>,
    pub name: Seq<char>,
}

impl View for GpuInfo {
    type V = GpuEntry;

    open spec fn view(&self) -> GpuEntry {
        GpuEntry { card: self.card@, name: self.name@ }
    }
}

impl DeepView for GpuInfo {
    type V = GpuEntry;

    open spec fn deep_view(&self) -> GpuEntry {
        self@
    }
}

/// Who made a card.
#[derive(Clone, Copy, Debug, PartialEq, Eq, Structural)]
pub enum GpuVendor {
    Nvidia,
    Amd,
    Intel,
    Unknown,
}

impl View for GpuVendor {
    type V = GpuVendor;

    open spec fn view(&self) -> GpuVendor {
        *self
    }
}

/// The path `rest` of the card with this name.
pub open spec fn card_path_of(card: Seq<char>, rest: Seq<char>) -> Seq<char> {
    "/sys/class/drm/"@ + card + rest
}

/// The path `rest` of the card with this name.
pub fn card_path(card: &str, rest: &str) -> (r: String)
    ensures
        r@ == card_path_of(card@, rest@),
{
    "/sys/class/drm/".to_owned().concat(card).concat(rest)
}

/// The vendor with this PCI vendor number.
pub open spec fn vendor_of(id: Seq<char>) -> GpuVendor {
    if id == "0x8086"@ {
        GpuVendor::Intel
    } else if id == "0x10de"@ {
        GpuVendor::Nvidia
    } else if id == "0x1002"@ {
        GpuVendor::Amd
    } else {
        GpuVendor::Unknown
    }
}

/// The vendor with this PCI vendor number.
pub fn vendor(id: &str) -> (r: GpuVendor)
    ensures
        r == vendor_of(id@),
{
    if same(id, "0x8086") {
        GpuVendor::Intel
    } else if same(id, "0x10de") {
        GpuVendor::Nvidia
    } else if same(id, "0x1002") {
        GpuVendor::Amd
    } else {
        GpuVendor::Unknown
    }
}

/// Finds out who made the card: AMD if it shows how busy it is, Intel if it shows its frequency,
/// else the one with its vendor number.
pub open spec fn vendor_plan(card: Seq<char>) -> Plan<GpuVendor> {
    Plan::Ask(
        Request::Exists(card_path_of(card, "/device/gpu_busy_percent"@)),
        |answer: Answer|
            if answer.flag() {
                Plan::Done(GpuVendor::Amd)
            } else {
                frequency_plan(card)
            },
    )
}

/// Finds out who made a card that does not show how busy it is.
pub open spec fn frequency_plan(card: Seq<char>) -> Plan<GpuVendor> {
    Plan::Ask(
        Request::Exists(card_path_of(card, "/gt_cur_freq_mhz"@)),
        |answer: Answer|
            if answer.flag() {
                Plan::Done(GpuVendor::Intel)
            } else {
                vendor_number_plan(card)
            },
    )
}

/// Finds out who made a card by its vendor number.
pub open spec fn vendor_number_plan(card: Seq<char>) -> Plan<GpuVendor> {
    Plan::Ask(
        Request::Read(card_path_of(card, "/device/vendor"@)),
        |answer: Answer|
            match answer.text() {
                Some(t) => Plan::Done(vendor_of(trimmed(t))),
                None => Plan::Done(GpuVendor::Unknown),
            },
    )
}

enum VendorStage {
    Busy,
    Frequency,
    Number,
}

/// The search for who made a card.
pub struct VendorProbe {
    card: String,
    stage: VendorStage,
}

impl Probe for VendorProbe {
    type Found = GpuVendor;

    closed spec fn plan(&self) -> Plan<GpuVendor> {
        match self.stage {
            VendorStage::Busy => vendor_plan(self.card@),
            VendorStage::Frequency => frequency_plan(self.card@),
            VendorStage::Number => vendor_number_plan(self.card@),
        }
    }

    proof fn waits(&self) {
    }

    fn resume(self, reply: Reply) -> (r: Step<Self, GpuVendor>) {
        let card = self.card;
        match self.stage {
            VendorStage::Busy => if reply.flag() {
                Step::Done(GpuVendor::Amd)
            } else {
                Step::Ask(
                    Query::Exists(card_path(card.as_str(), "/gt_cur_freq_mhz")),
                    VendorProbe { card, stage: VendorStage::Frequency },
                )
            },
            VendorStage::Frequency => if reply.flag() {
                Step::Done(GpuVendor::Intel)
            } else {
                Step::Ask(
                    Query::Read(card_path(card.as_str(), "/device/vendor")),
                    VendorProbe { card, stage: VendorStage::Number },
                )
            },
            VendorStage::Number => match reply.text() {
                Some(t) => Step::Done(vendor(trim(t.as_str()))),
                None => Step::Done(GpuVendor::Unknown),
            },
        }
    }
}

/// Begins to look for who made the card with this name.
pub fn detect_gpu_vendor_for_card(card: String) -> (r: (Query, VendorProbe))
    ensures
        asks(r.0, r.1, vendor_plan(card@)),
{
    (
        Query::Exists(card_path(card.as_str(), "/device/gpu_busy_percent")),
        VendorProbe { card, stage: VendorStage::Busy },
    )
}

/// Where the sensors of a card are found.
#[derive(Clone, Copy, Debug, PartialEq, Eq, Structural)]
pub enum GpuTarget {
    /// At the device with this index of the NVIDIA driver.
    Device(u32),
    /// Under the name of the card in the kernel's list.
    Card,
}

/// Where the sensors of the card with this name are found: after `nvidia:` stands the index of a
/// device, which is the first where it cannot be read.
pub open spec fn target_of(card: Seq<char>) -> GpuTarget {
    match after_prefix(card, "nvidia:"@) {
        Some(index) => match number_of(index, u32::MAX as int) {
            Some(i) => GpuTarget::Device(i as u32),
            None => GpuTarget::Device(0),
        },
        None => GpuTarget::Card,
    }
}

/// Where the sensors of the card with this name are found.
pub fn target(card: &str) -> (r: GpuTarget)
    ensures
        r == target_of(card@),
{
    match strip_prefix(card, "nvidia:") {
        Some(index) => match parse(index, u32::MAX as u64) {
            Some(i) => GpuTarget::Device(i as u32),
            None => GpuTarget::Device(0),
        },
        None => GpuTarget::Card,
    }
}

/// A sensor of a card.
#[derive(Clone, Copy, Debug, PartialEq, Eq, Structural)]
pub enum GpuSensor {
    /// In percent.
    Load,
    /// In degrees.
    Temperature,
    /// Memory in use, in percent.
    Vram,
    /// Memory in use, in gigabytes.
    VramGb,
    /// Memory in all, in gigabytes.
    VramTotalGb,
    /// In watts.
    Power,
}

impl GpuSensor {
    /// The request for the sensor of an NVIDIA device.
    pub open spec fn device_request(self, index: u32) -> Request {
        match self {
            GpuSensor::Load => Request::DeviceLoad(index),
            GpuSensor::Temperature => Request::DeviceTemperature(index),
            GpuSensor::Vram => Request::DeviceMemory(index),
            GpuSensor::VramGb => Request::DeviceMemory(index),
            GpuSensor::VramTotalGb => Request::DeviceMemory(index),
            GpuSensor::Power => Request::DevicePower(index),
        }
    }

    fn device_query(self, index: u32) -> (r: Query)
        ensures
            r@ == self.device_request(index),
    {
        match self {
            GpuSensor::Load => Query::DeviceLoad(index),
            GpuSensor::Temperature => Query::DeviceTemperature(index),
            GpuSensor::Vram => Query::DeviceMemory(index),
            GpuSensor::VramGb => Query::DeviceMemory(index),
            GpuSensor::VramTotalGb => Query::DeviceMemory(index),
            GpuSensor::Power => Query::DevicePower(index),
        }
    }

    /// The value of the sensor where the NVIDIA driver gives this answer.
    pub open spec fn device_reading(self, answer: Answer) -> Reading {
        match self {
            GpuSensor::Load => scaled(answer.number(), 1),
            GpuSensor::Temperature => scaled(answer.number(), 1),
            GpuSensor::Vram => match answer.memory() {
                Some((used, total)) => Reading::WidePercent { part: used, whole: total },
                None => Reading::Absent,
            },
            GpuSensor::VramGb => match answer.memory() {
                Some((used, _)) => Reading::Scaled { value: used, divisor: GIGABYTE },
                None => Reading::Absent,
            },
            GpuSensor::VramTotalGb => match answer.memory() {
                Some((_, total)) => Reading::Scaled { value: total, divisor: GIGABYTE },
                None => Reading::Absent,
            },
            GpuSensor::Power => scaled(answer.number(), MILLI),
        }
    }

    fn device(self, reply: Reply) -> (r: Reading)
        ensures
            r == self.device_reading(reply@),
    {
        match self {
            GpuSensor::Load => scale(reply.number(), 1),
            GpuSensor::Temperature => scale(reply.number(), 1),
            GpuSensor::Vram => match reply.memory() {
                Some((used, total)) => Reading::WidePercent { part: used, whole: total },
                None => Reading::Absent,
            },
            GpuSensor::VramGb => match reply.memory() {
                Some((used, _)) => Reading::Scaled { value: used, divisor: GIGABYTE },
                None => Reading::Absent,
            },
            GpuSensor::VramTotalGb => match reply.memory() {
                Some((_, total)) => Reading::Scaled { value: total, divisor: GIGABYTE },
                None => Reading::Absent,
            },
            GpuSensor::Power => scale(reply.number(), MILLI),
        }
    }
}

/// A number over `divisor`, if there is one.
pub open spec fn scaled(number: Option<u32>, divisor: u64) -> Reading {
    match number {
        Some(n) => Reading::Scaled { value: n as u64, divisor },
        None => Reading::Absent,
    }
}

fn scale(number: Option<u32>, divisor: u64) -> (r: Reading)
    ensures
        r == scaled(number, divisor),
{
    match number {
        Some(n) => Reading::Scaled { value: n as u64, divisor },
        None => Reading::Absent,
    }
}

/// A floating-point number over `divisor`, if there is one.
pub open spec fn float_over(number: Option<u32>, divisor: u64) -> Reading {
    match number {
        Some(bits) => Reading::Float { bits, divisor },
        None => Reading::Absent,
    }
}

fn float(number: Option<u32>, divisor: u64) -> (r: Reading)
    ensures
        r == float_over(number, divisor),
{
    match number {
        Some(bits) => Reading::Float { bits, divisor },
        None => Reading::Absent,
    }
}

/// `used` in percent of `total`, if both are there and `total` is greater than zero.
pub open spec fn share_of(used: Option<u32>, total: Option<u32>) -> Reading {
    match (used, total) {
        (Some(u), Some(t)) => if is_positive(t) {
            Reading::FloatPercent { part_bits: u, whole_bits: t }
        } else {
            Reading::Absent
        },
        _ => Reading::Absent,
    }
}

fn share(used: Option<u32>, total: Option<u32>) -> (r: Reading)
    ensures
        r == share_of(used, total),
{
    match (used, total) {
        (Some(u), Some(t)) => if positive(t) {
            Reading::FloatPercent { part_bits: u, whole_bits: t }
        } else {
            Reading::Absent
        },
        _ => Reading::Absent,
    }
}

/// Asks the NVIDIA driver for the sensor of the device with this index.
pub open spec fn device_plan(sensor: GpuSensor, index: u32) -> Plan<Reading> {
    Plan::Ask(
        sensor.device_request(index),
        |answer: Answer| Plan::Done(sensor.device_reading(answer)),
    )
}

/// Ends with the number that `value` finds, over `divisor`.
pub open spec fn value_plan(value: Plan<Option<u32>>, divisor: u64) -> Plan<Reading> {
    bind(value, |value: Option<u32>| Plan::Done(float_over(value, divisor)))
}

/// Finds the memory in use and the memory in all of a card, and ends with the share.
pub open spec fn used_plan(card: Seq<char>, used: Plan<Option<u32>>) -> Plan<Reading> {
    bind(
        used,
        |used: Option<u32>|
            total_plan(
                used,
                read_number_plan(card_path_of(card, "/device/mem_info_vram_total"@)),
            ),
    )
}

/// Finds the memory in all, and ends with the share of `used`.
pub open spec fn total_plan(used: Option<u32>, total: Plan<Option<u32>>) -> Plan<Reading> {
    bind(total, |total: Option<u32>| Plan::Done(share_of(used, total)))
}

/// Looks for the temperature in these directories in turn.
pub open spec fn temperatures_plan(dirs: Seq<Seq<char>>) -> Plan<Reading>
    decreases dirs.len(), 0int,
{
    if dirs.len() == 0 {
        Plan::Done(Reading::Absent)
    } else {
        temperature_plan(
            dirs.drop_first(),
            read_number_plan(path_of(dirs.first(), "temp1_input"@)),
        )
    }
}

/// Ends with the temperature that `value` finds, else looks in the directories in `rest`.
pub open spec fn temperature_plan(
    rest: Seq<Seq<char>>,
    value: Plan<Option<u32>>,
) -> Plan<Reading>
    decreases rest.len(), 1int,
{
    bind(
        value,
        |value: Option<u32>|
            match value {
                Some(bits) => Plan::Done(Reading::Float { bits, divisor: MILLI }),
                None => temperatures_plan(rest),
            },
    )
}

/// The directory of the monitoring chips of a card.
pub open spec fn monitors_of(card: Seq<char>) -> Seq<char> {
    card_path_of(card, "/device/hwmon"@)
}

/// Looks for the temperature in every directory of the monitoring chips of a card.
pub open spec fn card_temperature_plan(card: Seq<char>) -> Plan<Reading> {
    Plan::Ask(
        Request::List(monitors_of(card)),
        |answer: Answer|
            match answer.names() {
                Some(names) => temperatures_plan(paths_of(monitors_of(card), names)),
                None => Plan::Done(Reading::Absent),
            },
    )
}

/// The path in the directory `base` of the first of the names that begins with `hwmon`.
pub open spec fn first_hwmon_dir_of(base: Seq<char>, names: Seq<Seq<char>>) -> Option<Seq<char>>
    decreases names.len(),
{
    if names.len() == 0 {
        None
    } else if "hwmon"@.is_prefix_of(names.first()) {
        Some(path_of(base, names.first()))
    } else {
        first_hwmon_dir_of(base, names.drop_first())
    }
}

/// The path in the directory `base` of the first of the names that begins with `hwmon`.
pub fn first_hwmon_dir(base: &str, names: &Vec<String>) -> (r: Option<String>)
    ensures
        r.deep_view() == first_hwmon_dir_of(base@, names.deep_view()),
{
    let ghost all = names.deep_view();
    let mut i: usize = 0;
    assert(all.skip(0) =~= all);
    while i < names.len()
        invariant
            i <= names.len(),
            all == names.deep_view(),
            first_hwmon_dir_of(base@, all) == first_hwmon_dir_of(base@, all.skip(i as int)),
        decreases names.len() - i,
    {
        assert(all.skip(i as int).first() == all[i as int]);
        if starts_with(names[i].as_str(), "hwmon") {
            return Some(path(base, names[i].as_str()));
        }
        assert(all.skip(i as int).drop_first() =~= all.skip(i + 1));
        i = i + 1;
    }
    None
}

/// Looks for the power draw in the first directory of the monitoring chips of a card.
pub open spec fn card_power_plan(card: Seq<char>) -> Plan<Reading> {
    Plan::Ask(
        Request::List(monitors_of(card)),
        |answer: Answer|
            match answer.names() {
                Some(names) => match first_hwmon_dir_of(monitors_of(card), names) {
                    Some(dir) => value_plan(
                        read_number_plan(path_of(dir, "power1_average"@)),
                        MICRO,
                    ),
                    None => Plan::Done(Reading::Absent),
                },
                None => Plan::Done(Reading::Absent),
            },
    )
}

/// Looks for the sensor of an AMD card.
pub open spec fn amd_plan(sensor: GpuSensor, card: Seq<char>) -> Plan<Reading> {
    let used = read_number_plan(card_path_of(card, "/device/mem_info_vram_used"@));
    let total = read_number_plan(card_path_of(card, "/device/mem_info_vram_total"@));
    match sensor {
        GpuSensor::Load => value_plan(
            read_number_plan(card_path_of(card, "/device/gpu_busy_percent"@)),
            1,
        ),
        GpuSensor::Temperature => card_temperature_plan(card),
        GpuSensor::Vram => used_plan(card, used),
        GpuSensor::VramGb => value_plan(used, GIGABYTE),
        GpuSensor::VramTotalGb => value_plan(total, GIGABYTE),
        GpuSensor::Power => card_power_plan(card),
    }
}

/// Looks for the sensor of a card of this vendor.
pub open spec fn card_plan(sensor: GpuSensor, card: Seq<char>, vendor: GpuVendor) -> Plan<Reading> {
    match vendor {
        GpuVendor::Nvidia => device_plan(sensor, 0),
        GpuVendor::Amd => amd_plan(sensor, card),
        GpuVendor::Intel => if sensor == GpuSensor::Temperature {
            card_temperature_plan(card)
        } else {
            Plan::Done(Reading::Absent)
        },
        GpuVendor::Unknown => Plan::Done(Reading::Absent),
    }
}

/// Looks for the sensor of a card once `vendor` has found who made it.
pub open spec fn made_plan(
    sensor: GpuSensor,
    card: Seq<char>,
    vendor: Plan<GpuVendor>,
) -> Plan<Reading> {
    bind(vendor, |vendor: GpuVendor| card_plan(sensor, card, vendor))
}

/// Looks for the sensor of the card with this name.
pub open spec fn gpu_plan(sensor: GpuSensor, card: Seq<char>) -> Plan<Reading> {
    match target_of(card) {
        GpuTarget::Device(index) => device_plan(sensor, index),
        GpuTarget::Card => made_plan(sensor, card, vendor_plan(card)),
    }
}

enum GpuStage {
    Device(u32),
    Vendor(VendorProbe),
    Value(NumberProbe, u64),
    Used(NumberProbe),
    Total(Option<u32>, NumberProbe),
    Monitors,
    Temperature(NumberProbe),
    Power,
}

/// The search for a sensor of a card.
pub struct GpuProbe {
    sensor: GpuSensor,
    card: String,
    /// The directories to look in after the present one.
    rest: Vec<String>,
    stage: GpuStage,
}

impl GpuProbe {
    spec fn whole(&self) -> Plan<Reading> {
        let card = self.card@;
        match self.stage {
            GpuStage::Device(index) => device_plan(self.sensor, index),
            GpuStage::Vendor(vendor) => made_plan(self.sensor, card, vendor.plan()),
            GpuStage::Value(number, divisor) => value_plan(number.plan(), divisor),
            GpuStage::Used(number) => used_plan(card, number.plan()),
            GpuStage::Total(used, number) => total_plan(used, number.plan()),
            GpuStage::Monitors => card_temperature_plan(card),
            GpuStage::Temperature(number) => temperature_plan(
                self.rest.deep_view(),
                number.plan(),
            ),
            GpuStage::Power => card_power_plan(card),
        }
    }

    spec fn stands(step: Step<GpuProbe, Reading>, plan: Plan<Reading>) -> bool {
        match step {
            Step::Ask(q, p) => p.whole() == plan && (plan matches Plan::Ask(request, _) && request
                == q@),
            Step::Done(found) => plan == Plan::Done(found),
        }
    }

    fn at(sensor: GpuSensor, card: String, stage: GpuStage) -> (r: GpuProbe)
        ensures
            r.sensor == sensor,
            r.card == card,
            r.stage == stage,
    {
        GpuProbe { sensor, card, rest: Vec::new(), stage }
    }

    fn ask_device(sensor: GpuSensor, card: String, index: u32) -> (r: Step<GpuProbe, Reading>)
        ensures
            Self::stands(r, device_plan(sensor, index)),
    {
        Step::Ask(sensor.device_query(index), Self::at(sensor, card, GpuStage::Device(index)))
    }

    fn ask_value(sensor: GpuSensor, card: String, path: String, divisor: u64) -> (r: Step<
        GpuProbe,
        Reading,
    >)
        ensures
            Self::stands(r, value_plan(read_number_plan(path@), divisor)),
    {
        let (query, number) = read_number(path);
        Step::Ask(query, Self::at(sensor, card, GpuStage::Value(number, divisor)))
    }

    fn ask_monitors(sensor: GpuSensor, card: String) -> (r: Step<GpuProbe, Reading>)
        ensures
            Self::stands(r, card_temperature_plan(card@)),
    {
        Step::Ask(
            Query::List(card_path(card.as_str(), "/device/hwmon")),
            Self::at(sensor, card, GpuStage::Monitors),
        )
    }

    fn ask_temperature(sensor: GpuSensor, card: String, dirs: Vec<String>) -> (r: Step<
        GpuProbe,
        Reading,
    >)
        ensures
            Self::stands(r, temperatures_plan(dirs.deep_view())),
    {
        let mut rest = dirs;
        if rest.len() == 0 {
            return Step::Done(Reading::Absent);
        }
        let dir = rest.remove(0);
        assert(rest.deep_view() =~= dirs.deep_view().drop_first());
        let (query, number) = read_number(path(dir.as_str(), "temp1_input"));
        Step::Ask(query, GpuProbe { sensor, card, rest, stage: GpuStage::Temperature(number) })
    }

    fn ask_amd(sensor: GpuSensor, card: String) -> (r: Step<GpuProbe, Reading>)
        ensures
            Self::stands(r, amd_plan(sensor, card@)),
    {
        match sensor {
            GpuSensor::Load => {
                let file = card_path(card.as_str(), "/device/gpu_busy_percent");
                Self::ask_value(sensor, card, file, 1)
            },
            GpuSensor::Temperature => Self::ask_monitors(sensor, card),
            GpuSensor::Vram => {
                let (query, number) = read_number(
                    card_path(card.as_str(), "/device/mem_info_vram_used"),
                );
                Step::Ask(query, Self::at(sensor, card, GpuStage::Used(number)))
            },
            GpuSensor::VramGb => {
                let file = card_path(card.as_str(), "/device/mem_info_vram_used");
                Self::ask_value(sensor, card, file, GIGABYTE)
            },
            GpuSensor::VramTotalGb => {
                let file = card_path(card.as_str(), "/device/mem_info_vram_total");
                Self::ask_value(sensor, card, file, GIGABYTE)
            },
            GpuSensor::Power => Step::Ask(
                Query::List(card_path(card.as_str(), "/device/hwmon")),
                Self::at(sensor, card, GpuStage::Power),
            ),
        }
    }

    fn ask_card(sensor: GpuSensor, card: String, vendor: GpuVendor) -> (r: Step<GpuProbe, Reading>)
        ensures
            Self::stands(r, card_plan(sensor, card@, vendor)),
    {
        match vendor {
            GpuVendor::Nvidia => Self::ask_device(sensor, card, 0),
            GpuVendor::Amd => Self::ask_amd(sensor, card),
            GpuVendor::Intel => if sensor == GpuSensor::Temperature {
                Self::ask_monitors(sensor, card)
            } else {
                Step::Done(Reading::Absent)
            },
            GpuVendor::Unknown => Step::Done(Reading::Absent),
        }
    }
}

proof fn lemma_made_after(
    sensor: GpuSensor,
    card: Seq<char>,
    vendor: Plan<GpuVendor>,
    answer: Answer,
)
    requires
        vendor is Ask,
    ensures
        made_plan(sensor, card, vendor) is Ask,
        made_plan(sensor, card, vendor)->Ask_0 == vendor->Ask_0,
        made_plan(sensor, card, vendor).after(answer) == made_plan(
            sensor,
            card,
            vendor.after(answer),
        ),
{
}

proof fn lemma_value_after(value: Plan<Option<u32>>, divisor: u64, answer: Answer)
    requires
        value is Ask,
    ensures
        value_plan(value, divisor) is Ask,
        value_plan(value, divisor)->Ask_0 == value->Ask_0,
        value_plan(value, divisor).after(answer) == value_plan(value.after(answer), divisor),
{
}

proof fn lemma_used_after(card: Seq<char>, used: Plan<Option<u32>>, answer: Answer)
    requires
        used is Ask,
    ensures
        used_plan(card, used) is Ask,
        used_plan(card, used)->Ask_0 == used->Ask_0,
        used_plan(card, used).after(answer) == used_plan(card, used.after(answer)),
{
}

proof fn lemma_total_after(used: Option<u32>, total: Plan<Option<u32>>, answer: Answer)
    requires
        total is Ask,
    ensures
        total_plan(used, total) is Ask,
        total_plan(used, total)->Ask_0 == total->Ask_0,
        total_plan(used, total).after(answer) == total_plan(used, total.after(answer)),
{
}

proof fn lemma_temperature_after(
    rest: Seq<Seq<char>>,
    value: Plan<Option<u32>>,
    answer: Answer,
)
    requires
        value is Ask,
    ensures
        temperature_plan(rest, value) is Ask,
        temperature_plan(rest, value)->Ask_0 == value->Ask_0,
        temperature_plan(rest, value).after(answer) == temperature_plan(rest, value.after(answer)),
{
}

impl Probe for GpuProbe {
    type Found = Reading;

    closed spec fn plan(&self) -> Plan<Reading> {
        self.whole()
    }

    proof fn waits(&self) {
        match self.stage {
            GpuStage::Vendor(vendor) => vendor.waits(),
            GpuStage::Value(number, _) => number.waits(),
            GpuStage::Used(number) => number.waits(),
            GpuStage::Total(_, number) => number.waits(),
            GpuStage::Temperature(number) => number.waits(),
            _ => {},
        }
    }

    fn resume(self, reply: Reply) -> (r: Step<Self, Reading>) {
        let sensor = self.sensor;
        let card = self.card;
        let rest = self.rest;
        match self.stage {
            GpuStage::Device(_) => Step::Done(sensor.device(reply)),
            GpuStage::Vendor(vendor) => {
                proof {
                    vendor.waits();
                    lemma_made_after(sensor, card@, vendor.plan(), reply@);
                }
                match vendor.resume(reply) {
                    Step::Ask(query, vendor) => Step::Ask(
                        query,
                        Self::at(sensor, card, GpuStage::Vendor(vendor)),
                    ),
                    Step::Done(vendor) => Self::ask_card(sensor, card, vendor),
                }
            },
            GpuStage::Value(number, divisor) => {
                proof {
                    number.waits();
                    lemma_value_after(number.plan(), divisor, reply@);
                }
                match number.resume(reply) {
                    Step::Ask(query, number) => Step::Ask(
                        query,
                        Self::at(sensor, card, GpuStage::Value(number, divisor)),
                    ),
                    Step::Done(value) => Step::Done(float(value, divisor)),
                }
            },
            GpuStage::Used(number) => {
                proof {
                    number.waits();
                    lemma_used_after(card@, number.plan(), reply@);
                }
                match number.resume(reply) {
                    Step::Ask(query, number) => Step::Ask(
                        query,
                        Self::at(sensor, card, GpuStage::Used(number)),
                    ),
                    Step::Done(used) => {
                        let (query, number) = read_number(
                            card_path(card.as_str(), "/device/mem_info_vram_total"),
                        );
                        Step::Ask(query, Self::at(sensor, card, GpuStage::Total(used, number)))
                    },
                }
            },
            GpuStage::Total(used, number) => {
                proof {
                    number.waits();
                    lemma_total_after(used, number.plan(), reply@);
                }
                match number.resume(reply) {
                    Step::Ask(query, number) => Step::Ask(
                        query,
                        Self::at(sensor, card, GpuStage::Total(used, number)),
                    ),
                    Step::Done(total) => Step::Done(share(used, total)),
                }
            },
            GpuStage::Monitors => match reply.names() {
                Some(names) => {
                    let dir = card_path(card.as_str(), "/device/hwmon");
                    Self::ask_temperature(sensor, card, paths(dir.as_str(), &names))
                },
                None => Step::Done(Reading::Absent),
            },
            GpuStage::Temperature(number) => {
                proof {
                    number.waits();
                    lemma_temperature_after(rest.deep_view(), number.plan(), reply@);
                }
                match number.resume(reply) {
                    Step::Ask(query, number) => Step::Ask(
                        query,
                        GpuProbe { sensor, card, rest, stage: GpuStage::Temperature(number) },
                    ),
                    Step::Done(Some(bits)) => Step::Done(Reading::Float { bits, divisor: MILLI }),
                    Step::Done(None) => Self::ask_temperature(sensor, card, rest),
                }
            },
            GpuStage::Power => match reply.names() {
                Some(names) => {
                    let base = card_path(card.as_str(), "/device/hwmon");
                    match first_hwmon_dir(base.as_str(), &names) {
                        Some(dir) => {
                            let file = path(dir.as_str(), "power1_average");
                            Self::ask_value(sensor, card, file, MICRO)
                        },
                        None => Step::Done(Reading::Absent),
                    }
                },
                None => Step::Done(Reading::Absent),
            },
        }
    }
}

fn search(sensor: GpuSensor, card: &str) -> (r: Step<GpuProbe, Reading>)
    ensures
        begins(r, gpu_plan(sensor, card@)),
{
    let card = card.to_owned();
    match target(card.as_str()) {
        GpuTarget::Device(index) => GpuProbe::ask_device(sensor, card, index),
        GpuTarget::Card => {
            let (query, vendor) = detect_gpu_vendor_for_card(card.clone());
            Step::Ask(query, GpuProbe::at(sensor, card, GpuStage::Vendor(vendor)))
        },
    }
}

/// Begins to look for the load of the card with this name (as `card0` or `nvidia:0`), in percent.
pub fn find_gpu_load(card: &str) -> (r: Step<GpuProbe, Reading>)
    ensures
        begins(r, gpu_plan(GpuSensor::Load, card@)),
{
    search(GpuSensor::Load, card)
}

/// Begins to look for the temperature of the card with this name, in degrees.
pub fn find_gpu_temperature(card: &str) -> (r: Step<GpuProbe, Reading>)
    ensures
        begins(r, gpu_plan(GpuSensor::Temperature, card@)),
{
    search(GpuSensor::Temperature, card)
}

/// Begins to look for the memory in use of the card with this name, in percent.
pub fn find_gpu_vram(card: &str) -> (r: Step<GpuProbe, Reading>)
    ensures
        begins(r, gpu_plan(GpuSensor::Vram, card@)),
{
    search(GpuSensor::Vram, card)
}

/// Begins to look for the memory in use of the card with this name, in gigabytes.
pub fn find_gpu_vram_gb(card: &str) -> (r: Step<GpuProbe, Reading>)
    ensures
        begins(r, gpu_plan(GpuSensor::VramGb, card@)),
{
    search(GpuSensor::VramGb, card)
}

/// Begins to look for the memory in all of the card with this name, in gigabytes.
pub fn find_gpu_vram_total_gb(card: &str) -> (r: Step<GpuProbe, Reading>)
    ensures
        begins(r, gpu_plan(GpuSensor::VramTotalGb, card@)),
{
    search(GpuSensor::VramTotalGb, card)
}

/// Begins to look for the power draw of the card with this name, in watts.
pub fn find_gpu_power(card: &str) -> (r: Step<GpuProbe, Reading>)
    ensures
        begins(r, gpu_plan(GpuSensor::Power, card@)),
{
    search(GpuSensor::Power, card)
}

/// Who made the card with this name, on a machine that answers as `world` does.
pub open spec fn vendor_in(world: spec_fn(Request) -> Answer, card: Seq<char>) -> GpuVendor {
    if world(Request::Exists(card_path_of(card, "/device/gpu_busy_percent"@))).flag() {
        GpuVendor::Amd
    } else if world(Request::Exists(card_path_of(card, "/gt_cur_freq_mhz"@))).flag() {
        GpuVendor::Intel
    } else {
        match world(Request::Read(card_path_of(card, "/device/vendor"@))).text() {
            Some(t) => vendor_of(trimmed(t)),
            None => GpuVendor::Unknown,
        }
    }
}

/// The sensor of the NVIDIA device with this index.
pub open spec fn device_in(
    world: spec_fn(Request) -> Answer,
    sensor: GpuSensor,
    index: u32,
) -> Reading {
    sensor.device_reading(world(sensor.device_request(index)))
}

/// The first temperature in these directories.
pub open spec fn temperature_in(
    world: spec_fn(Request) -> Answer,
    dirs: Seq<Seq<char>>,
) -> Option<u32>
    decreases dirs.len(),
{
    if dirs.len() == 0 {
        None
    } else {
        match number_in(world, path_of(dirs.first(), "temp1_input"@)) {
            Some(bits) => Some(bits),
            None => temperature_in(world, dirs.drop_first()),
        }
    }
}

/// The temperature of the monitoring chips of a card.
pub open spec fn card_temperature_in(world: spec_fn(Request) -> Answer, card: Seq<char>) -> Reading {
    match world(Request::List(monitors_of(card))).names() {
        Some(names) => float_over(
            temperature_in(world, paths_of(monitors_of(card), names)),
            MILLI,
        ),
        None => Reading::Absent,
    }
}

/// The power draw of the first monitoring chip of a card.
pub open spec fn card_power_in(world: spec_fn(Request) -> Answer, card: Seq<char>) -> Reading {
    match world(Request::List(monitors_of(card))).names() {
        Some(names) => match first_hwmon_dir_of(monitors_of(card), names) {
            Some(dir) => float_over(number_in(world, path_of(dir, "power1_average"@)), MICRO),
            None => Reading::Absent,
        },
        None => Reading::Absent,
    }
}

/// The sensor of an AMD card.
pub open spec fn amd_in(
    world: spec_fn(Request) -> Answer,
    sensor: GpuSensor,
    card: Seq<char>,
) -> Reading {
    let used = number_in(world, card_path_of(card, "/device/mem_info_vram_used"@));
    let total = number_in(world, card_path_of(card, "/device/mem_info_vram_total"@));
    match sensor {
        GpuSensor::Load => float_over(
            number_in(world, card_path_of(card, "/device/gpu_busy_percent"@)),
            1,
        ),
        GpuSensor::Temperature => card_temperature_in(world, card),
        GpuSensor::Vram => share_of(used, total),
        GpuSensor::VramGb => float_over(used, GIGABYTE),
        GpuSensor::VramTotalGb => float_over(total, GIGABYTE),
        GpuSensor::Power => card_power_in(world, card),
    }
}

/// The sensor of the card with this name, on a machine that answers as `world` does.
pub open spec fn gpu_in(
    world: spec_fn(Request) -> Answer,
    sensor: GpuSensor,
    card: Seq<char>,
) -> Reading {
    match target_of(card) {
        GpuTarget::Device(index) => device_in(world, sensor, index),
        GpuTarget::Card => match vendor_in(world, card) {
            GpuVendor::Nvidia => device_in(world, sensor, 0),
            GpuVendor::Amd => amd_in(world, sensor, card),
            GpuVendor::Intel => if sensor == GpuSensor::Temperature {
                card_temperature_in(world, card)
            } else {
                Reading::Absent
            },
            GpuVendor::Unknown => Reading::Absent,
        },
    }
}

/// On a machine that does not change, the search for who made a card finds it.
pub proof fn vendor_is_found(world: spec_fn(Request) -> Answer, card: Seq<char>)
    ensures
        run(vendor_plan(card), world) == vendor_in(world, card),
{
    answering_keeps_the_result(vendor_plan(card), world);
    answering_keeps_the_result(frequency_plan(card), world);
    answering_keeps_the_result(vendor_number_plan(card), world);
}

proof fn lemma_run_made(
    world: spec_fn(Request) -> Answer,
    sensor: GpuSensor,
    card: Seq<char>,
    vendor: Plan<GpuVendor>,
)
    ensures
        run(made_plan(sensor, card, vendor), world) == run(
            card_plan(sensor, card, run(vendor, world)),
            world,
        ),
{
    run_bind(vendor, |vendor: GpuVendor| card_plan(sensor, card, vendor), world);
}

proof fn lemma_run_value(
    world: spec_fn(Request) -> Answer,
    value: Plan<Option<u32>>,
    divisor: u64,
)
    ensures
        run(value_plan(value, divisor), world) == float_over(run(value, world), divisor),
{
    run_bind(value, |value: Option<u32>| Plan::Done(float_over(value, divisor)), world);
}

proof fn lemma_run_file(world: spec_fn(Request) -> Answer, path: Seq<char>, divisor: u64)
    ensures
        run(value_plan(read_number_plan(path), divisor), world) == float_over(
            number_in(world, path),
            divisor,
        ),
{
    read_number_finds(world, path);
    lemma_run_value(world, read_number_plan(path), divisor);
}

proof fn lemma_run_total(
    world: spec_fn(Request) -> Answer,
    used: Option<u32>,
    total: Plan<Option<u32>>,
)
    ensures
        run(total_plan(used, total), world) == share_of(used, run(total, world)),
{
    run_bind(total, |total: Option<u32>| Plan::Done(share_of(used, total)), world);
}

proof fn lemma_run_used(
    world: spec_fn(Request) -> Answer,
    card: Seq<char>,
    used: Plan<Option<u32>>,
)
    ensures
        run(used_plan(card, used), world) == share_of(
            run(used, world),
            number_in(world, card_path_of(card, "/device/mem_info_vram_total"@)),
        ),
{
    let file = card_path_of(card, "/device/mem_info_vram_total"@);
    run_bind(used, |used: Option<u32>| total_plan(used, read_number_plan(file)), world);
    read_number_finds(world, file);
    lemma_run_total(world, run(used, world), read_number_plan(file));
}

proof fn lemma_run_temperature(
    world: spec_fn(Request) -> Answer,
    rest: Seq<Seq<char>>,
    value: Plan<Option<u32>>,
)
    ensures
        run(temperature_plan(rest, value), world) == match run(value, world) {
            Some(bits) => Reading::Float { bits, divisor: MILLI },
            None => run(temperatures_plan(rest), world),
        },
{
    run_bind(
        value,
        |value: Option<u32>|
            match value {
                Some(bits) => Plan::Done(Reading::Float { bits, divisor: MILLI }),
                None => temperatures_plan(rest),
            },
        world,
    );
}

proof fn lemma_run_temperatures(world: spec_fn(Request) -> Answer, dirs: Seq<Seq<char>>)
    ensures
        run(temperatures_plan(dirs), world) == float_over(temperature_in(world, dirs), MILLI),
    decreases dirs.len(),
{
    if dirs.len() > 0 {
        let file = path_of(dirs.first(), "temp1_input"@);
        read_number_finds(world, file);
        lemma_run_temperature(world, dirs.drop_first(), read_number_plan(file));
        lemma_run_temperatures(world, dirs.drop_first());
    }
}

proof fn lemma_run_card_temperature(world: spec_fn(Request) -> Answer, card: Seq<char>)
    ensures
        run(card_temperature_plan(card), world) == card_temperature_in(world, card),
{
    answering_keeps_the_result(card_temperature_plan(card), world);
    if let Some(names) = world(Request::List(monitors_of(card))).names() {
        lemma_run_temperatures(world, paths_of(monitors_of(card), names));
    }
}

proof fn lemma_run_card_power(world: spec_fn(Request) -> Answer, card: Seq<char>)
    ensures
        run(card_power_plan(card), world) == card_power_in(world, card),
{
    answering_keeps_the_result(card_power_plan(card), world);
    if let Some(names) = world(Request::List(monitors_of(card))).names() {
        if let Some(dir) = first_hwmon_dir_of(monitors_of(card), names) {
            lemma_run_file(world, path_of(dir, "power1_average"@), MICRO);
        }
    }
}

proof fn lemma_run_amd(world: spec_fn(Request) -> Answer, sensor: GpuSensor, card: Seq<char>)
    ensures
        run(amd_plan(sensor, card), world) == amd_in(world, sensor, card),
{
    let used = card_path_of(card, "/device/mem_info_vram_used"@);
    lemma_run_file(world, card_path_of(card, "/device/gpu_busy_percent"@), 1);
    lemma_run_file(world, used, GIGABYTE);
    lemma_run_file(world, card_path_of(card, "/device/mem_info_vram_total"@), GIGABYTE);
    read_number_finds(world, used);
    lemma_run_used(world, card, read_number_plan(used));
    lemma_run_card_temperature(world, card);
    lemma_run_card_power(world, card);
}

/// On a machine that does not change, the search for a sensor of a card finds what the card shows.
pub proof fn gpu_sensor_is_found(
    world: spec_fn(Request) -> Answer,
    sensor: GpuSensor,
    card: Seq<char>,
)
    ensures
        run(gpu_plan(sensor, card), world) == gpu_in(world, sensor, card),
{
    vendor_is_found(world, card);
    lemma_run_made(world, sensor, card, vendor_plan(card));
    lemma_run_amd(world, sensor, card);
    lemma_run_card_temperature(world, card);
    answering_keeps_the_result(device_plan(sensor, 0), world);
    if let GpuTarget::Device(index) = target_of(card) {
        answering_keeps_the_result(device_plan(sensor, index), world);
    }
}

/// A card that is named by the index of an NVIDIA device is that device: nothing is asked but the
/// driver, and that once.
pub proof fn device_is_asked_once(
    world: spec_fn(Request) -> Answer,
    sensor: GpuSensor,
    card: Seq<char>,
)
    requires
        target_of(card) is Device,
    ensures
        requests(gpu_plan(sensor, card), world) == 1,
        gpu_plan(sensor, card) matches Plan::Ask(q, _) && q == sensor.device_request(
            target_of(card)->Device_0,
        ),
{
    reveal_with_fuel(requests, 2);
}

/// The memory sensors of a card agree: the share that is in use is that of the memory shown in use
/// and the memory shown in all.
pub proof fn memory_sensors_agree(world: spec_fn(Request) -> Answer, card: Seq<char>)
    ensures
        match gpu_in(world, GpuSensor::Vram, card) {
            Reading::WidePercent { part, whole } => {
                &&& gpu_in(world, GpuSensor::VramGb, card) == (Reading::Scaled {
                    value: part,
                    divisor: GIGABYTE,
                })
                &&& gpu_in(world, GpuSensor::VramTotalGb, card) == (Reading::Scaled {
                    value: whole,
                    divisor: GIGABYTE,
                })
            },
            Reading::FloatPercent { part_bits, whole_bits } => {
                &&& is_positive(whole_bits)
                &&& gpu_in(world, GpuSensor::VramGb, card) == (Reading::Float {
                    bits: part_bits,
                    divisor: GIGABYTE,
                })
                &&& gpu_in(world, GpuSensor::VramTotalGb, card) == (Reading::Float {
                    bits: whole_bits,
                    divisor: GIGABYTE,
                })
            },
            r => r == Reading::Absent,
        },
{
}

/// A card and its name are listed as they are.
pub proof fn entry_of_a_card(info: GpuInfo)
    ensures
        info@.card == info.card@,
        info@.name == info.name@,
{
}

/// A card that shows how busy it is was made by AMD; else one that shows its frequency by Intel;
/// else its vendor number tells, once the white space around it is gone. The search for who made a
/// card finds that.
pub proof fn vendor_by_its_files(
    world: spec_fn(Request) -> Answer,
    card: String,
    r: (Query, VendorProbe),
)
    ensures
        call_ensures(detect_gpu_vendor_for_card, (card,), r) ==> {
            &&& r.0@ == Request::Exists(
                "/sys/class/drm/"@ + card@ + "/device/gpu_busy_percent"@,
            )
            &&& run(r.1.plan(), world) == vendor_in(world, card@)
        },
        ({
            let busy = world(
                Request::Exists("/sys/class/drm/"@ + card@ + "/device/gpu_busy_percent"@),
            ) == Answer::Flag(true);
            let frequency = world(Request::Exists("/sys/class/drm/"@ + card@ + "/gt_cur_freq_mhz"@))
                == Answer::Flag(true);
            let number = world(Request::Read("/sys/class/drm/"@ + card@ + "/device/vendor"@));
            let made = vendor_in(world, card@);
            &&& busy ==> made == GpuVendor::Amd
            &&& !busy && frequency ==> made == GpuVendor::Intel
            &&& !busy && !frequency ==> match number {
                Answer::Text(Some(t)) => {
                    &&& trimmed(t) == "0x8086"@ ==> made == GpuVendor::Intel
                    &&& trimmed(t) == "0x10de"@ ==> made == GpuVendor::Nvidia
                    &&& trimmed(t) == "0x1002"@ ==> made == GpuVendor::Amd
                    &&& trimmed(t) != "0x8086"@ && trimmed(t) != "0x10de"@ && trimmed(t)
                        != "0x1002"@ ==> made == GpuVendor::Unknown
                },
                _ => made == GpuVendor::Unknown,
            }
        }),
{
    vendor_is_found(world, card@);
    reveal_strlit("0x8086");
    reveal_strlit("0x10de");
    reveal_strlit("0x1002");
    assert("0x8086"@[2] == '8');
    assert("0x10de"@[2] == '1' && "0x10de"@[4] == 'd');
    assert("0x1002"@[2] == '1' && "0x1002"@[4] == '0');
}

/// Behind `nvidia:` stands the index of a device, and zero is taken for what cannot be read; any
/// other name is that of a card of the kernel.
pub proof fn target_behind_nvidia(card: &str, rest: Seq<char>, r: GpuTarget)
    ensures
        call_ensures(target, (card,), r) ==> r == target_of(card@),
        card@ == "nvidia:"@ + rest ==> match number_of(rest, u32::MAX as int) {
            Some(i) => target_of(card@) == GpuTarget::Device(i as u32),
            None => target_of(card@) == GpuTarget::Device(0),
        },
        !"nvidia:"@.is_prefix_of(card@) ==> target_of(card@) == GpuTarget::Card,
{
    if card@ == "nvidia:"@ + rest {
        assert(card@.skip("nvidia:"@.len() as int) =~= rest);
        assert("nvidia:"@.is_prefix_of(card@)) by {
            assert(card@.subrange(0, "nvidia:"@.len() as int) =~= "nvidia:"@);
        }
    }
}

/// A card that is a device of the NVIDIA driver, by the index in its name or, as the first device,
/// by its vendor number, shows what the driver tells of that device and no other: the load and the
/// temperature as they are, the memory in percent and in gigabytes, the power in thousandths.
pub proof fn sensors_of_a_device(
    world: spec_fn(Request) -> Answer,
    card: &str,
    index: u32,
    rest: Seq<char>,
)
    requires
        (card@ == "nvidia:"@ + rest && number_of(rest, u32::MAX as int) == Some(index as int)) || (
        card@ == "nvidia:"@ + rest && number_of(rest, u32::MAX as int) is None && index == 0) || (
        !"nvidia:"@.is_prefix_of(card@) && vendor_in(world, card@) == GpuVendor::Nvidia && index
            == 0),
    ensures
        forall|r: Step<GpuProbe, Reading>| #[trigger]
            call_ensures(find_gpu_load, (card,), r) ==> run(plan_of(r), world) == (match world(
                Request::DeviceLoad(index),
            ) {
                Answer::Number(Some(n)) => Reading::Scaled { value: n as u64, divisor: 1 },
                _ => Reading::Absent,
            }),
        forall|r: Step<GpuProbe, Reading>| #[trigger]
            call_ensures(find_gpu_temperature, (card,), r) ==> run(plan_of(r), world) == (
            match world(Request::DeviceTemperature(index)) {
                Answer::Number(Some(n)) => Reading::Scaled { value: n as u64, divisor: 1 },
                _ => Reading::Absent,
            }),
        forall|r: Step<GpuProbe, Reading>| #[trigger]
            call_ensures(find_gpu_vram, (card,), r) ==> run(plan_of(r), world) == (match world(
                Request::DeviceMemory(index),
            ) {
                Answer::Memory(Some((used, total))) => Reading::WidePercent {
                    part: used,
                    whole: total,
                },
                _ => Reading::Absent,
            }),
        forall|r: Step<GpuProbe, Reading>| #[trigger]
            call_ensures(find_gpu_vram_gb, (card,), r) ==> run(plan_of(r), world) == (match world(
                Request::DeviceMemory(index),
            ) {
                Answer::Memory(Some((used, _))) => Reading::Scaled {
                    value: used,
                    divisor: 1_073_741_824,
                },
                _ => Reading::Absent,
            }),
        forall|r: Step<GpuProbe, Reading>| #[trigger]
            call_ensures(find_gpu_vram_total_gb, (card,), r) ==> run(plan_of(r), world) == (
            match world(Request::DeviceMemory(index)) {
                Answer::Memory(Some((_, total))) => Reading::Scaled {
                    value: total,
                    divisor: 1_073_741_824,
                },
                _ => Reading::Absent,
            }),
        forall|r: Step<GpuProbe, Reading>| #[trigger]
            call_ensures(find_gpu_power, (card,), r) ==> run(plan_of(r), world) == (match world(
                Request::DevicePower(index),
            ) {
                Answer::Number(Some(n)) => Reading::Scaled { value: n as u64, divisor: 1_000 },
                _ => Reading::Absent,
            }),
{
    target_behind_nvidia(card, rest, GpuTarget::Card);
    gpu_sensor_is_found(world, GpuSensor::Load, card@);
    gpu_sensor_is_found(world, GpuSensor::Temperature, card@);
    gpu_sensor_is_found(world, GpuSensor::Vram, card@);
    gpu_sensor_is_found(world, GpuSensor::VramGb, card@);
    gpu_sensor_is_found(world, GpuSensor::VramTotalGb, card@);
    gpu_sensor_is_found(world, GpuSensor::Power, card@);
}

/// An AMD card shows its load and its memory by the numbers in its own files: the load as it is, the
/// memory in use in percent of the memory in all unless that is not greater than zero, and each in
/// gigabytes.
pub proof fn sensors_of_an_amd_card(world: spec_fn(Request) -> Answer, card: &str)
    requires
        !"nvidia:"@.is_prefix_of(card@),
        vendor_in(world, card@) == GpuVendor::Amd,
    ensures
        forall|r: Step<GpuProbe, Reading>| #[trigger]
            call_ensures(find_gpu_load, (card,), r) ==> run(plan_of(r), world) == (match number_in(
                world,
                "/sys/class/drm/"@ + card@ + "/device/gpu_busy_percent"@,
            ) {
                Some(bits) => Reading::Float { bits, divisor: 1 },
                None => Reading::Absent,
            }),
        forall|r: Step<GpuProbe, Reading>| #[trigger]
            call_ensures(find_gpu_vram, (card,), r) ==> run(plan_of(r), world) == (match (
                number_in(world, "/sys/class/drm/"@ + card@ + "/device/mem_info_vram_used"@),
                number_in(world, "/sys/class/drm/"@ + card@ + "/device/mem_info_vram_total"@),
            ) {
                (Some(used), Some(total)) => if is_positive(total) {
                    Reading::FloatPercent { part_bits: used, whole_bits: total }
                } else {
                    Reading::Absent
                },
                _ => Reading::Absent,
            }),
        forall|r: Step<GpuProbe, Reading>| #[trigger]
            call_ensures(find_gpu_vram_gb, (card,), r) ==> run(plan_of(r), world) == (
            match number_in(
                world,
                "/sys/class/drm/"@ + card@ + "/device/mem_info_vram_used"@,
            ) {
                Some(bits) => Reading::Float { bits, divisor: 1_073_741_824 },
                None => Reading::Absent,
            }),
        forall|r: Step<GpuProbe, Reading>| #[trigger]
            call_ensures(find_gpu_vram_total_gb, (card,), r) ==> run(plan_of(r), world) == (
            match number_in(
                world,
                "/sys/class/drm/"@ + card@ + "/device/mem_info_vram_total"@,
            ) {
                Some(bits) => Reading::Float { bits, divisor: 1_073_741_824 },
                None => Reading::Absent,
            }),
{
    gpu_sensor_is_found(world, GpuSensor::Load, card@);
    gpu_sensor_is_found(world, GpuSensor::Vram, card@);
    gpu_sensor_is_found(world, GpuSensor::VramGb, card@);
    gpu_sensor_is_found(world, GpuSensor::VramTotalGb, card@);
}

proof fn lemma_first_temperature(world: spec_fn(Request) -> Answer, dirs: Seq<Seq<char>>, k: int)
    requires
        0 <= k <= dirs.len(),
        forall|j: int|
            0 <= j < k ==> number_in(world, (#[trigger] dirs[j]) + "/"@ + "temp1_input"@) is None,
        k < dirs.len() ==> number_in(world, dirs[k] + "/"@ + "temp1_input"@) is Some,
    ensures
        temperature_in(world, dirs) == (if k < dirs.len() {
            number_in(world, dirs[k] + "/"@ + "temp1_input"@)
        } else {
            None
        }),
    decreases dirs.len(),
{
    if dirs.len() > 0 && k > 0 {
        let rest = dirs.drop_first();
        assert(number_in(world, dirs[0] + "/"@ + "temp1_input"@) is None);
        assert forall|j: int| 0 <= j < k - 1 implies number_in(
            world,
            (#[trigger] rest[j]) + "/"@ + "temp1_input"@,
        ) is None by {
            assert(rest[j] == dirs[j + 1]);
        }
        lemma_first_temperature(world, rest, k - 1);
    }
}

/// The temperature of a card by AMD or Intel is the first number that the files `temp1_input` of its
/// monitoring chips hold, in thousandths, the chips taken as the system lists them; and nothing where
/// none holds one, or where the chips cannot be listed.
pub proof fn temperature_of_a_card(
    world: spec_fn(Request) -> Answer,
    card: &str,
    names: Seq<Seq<char>>,
    k: int,
    r: Step<GpuProbe, Reading>,
)
    requires
        !"nvidia:"@.is_prefix_of(card@),
        vendor_in(world, card@) == GpuVendor::Amd || vendor_in(world, card@) == GpuVendor::Intel,
        call_ensures(find_gpu_temperature, (card,), r),
    ensures
        world(Request::List("/sys/class/drm/"@ + card@ + "/device/hwmon"@)).names() is None ==> run(
            plan_of(r),
            world,
        ) == Reading::Absent,
        ({
            let dir = "/sys/class/drm/"@ + card@ + "/device/hwmon"@;
            world(Request::List(dir)) == Answer::Names(Some(names)) && 0 <= k <= names.len() && (
            forall|j: int|
                0 <= j < k ==> number_in(
                    world,
                    dir + "/"@ + (#[trigger] names[j]) + "/"@ + "temp1_input"@,
                ) is None) ==> {
                &&& k == names.len() ==> run(plan_of(r), world) == Reading::Absent
                &&& k < names.len() ==> (number_in(
                    world,
                    dir + "/"@ + names[k] + "/"@ + "temp1_input"@,
                ) matches Some(bits) ==> run(plan_of(r), world) == (Reading::Float {
                    bits,
                    divisor: 1_000,
                }))
            }
        }),
{
    let dir = "/sys/class/drm/"@ + card@ + "/device/hwmon"@;
    let dirs = paths_of(dir, names);
    gpu_sensor_is_found(world, GpuSensor::Temperature, card@);
    if world(Request::List(dir)) == Answer::Names(Some(names)) && 0 <= k <= names.len() && (
    forall|j: int|
        0 <= j < k ==> number_in(
            world,
            dir + "/"@ + (#[trigger] names[j]) + "/"@ + "temp1_input"@,
        ) is None) {
        assert forall|j: int| 0 <= j < k implies number_in(
            world,
            (#[trigger] dirs[j]) + "/"@ + "temp1_input"@,
        ) is None by {
            assert(dirs[j] == dir + "/"@ + names[j]);
        }
        if k == names.len() {
            lemma_first_temperature(world, dirs, k);
        } else if number_in(world, dir + "/"@ + names[k] + "/"@ + "temp1_input"@) is Some {
            assert(dirs[k] == dir + "/"@ + names[k]);
            lemma_first_temperature(world, dirs, k);
        }
    }
}

/// The first directory is that of the first name that begins with `hwmon`; there is none where no
/// name does.
pub proof fn first_hwmon_name(
    base: &str,
    names: &Vec<String>,
    k: int,
    r: Option<String>,
)
    requires
        call_ensures(first_hwmon_dir, (base, names), r),
        0 <= k <= names.len(),
        forall|j: int|
            #![trigger names[j]]
            0 <= j < k ==> !"hwmon"@.is_prefix_of(names[j]@),
    ensures
        k == names.len() ==> r is None,
        k < names.len() && "hwmon"@.is_prefix_of(names[k]@) ==> (r matches Some(dir) && dir@
            == base@ + "/"@ + names[k]@),
{
    let all = names.deep_view();
    assert forall|j: int| 0 <= j < k implies !"hwmon"@.is_prefix_of(#[trigger] all[j]) by {
        assert(all[j] == names[j]@);
    }
    if k < names.len() {
        assert(all[k] == names[k]@);
    }
    lemma_first_hwmon(base@, all, k);
}

proof fn lemma_first_hwmon(base: Seq<char>, names: Seq<Seq<char>>, k: int)
    requires
        0 <= k <= names.len(),
        forall|j: int| 0 <= j < k ==> !"hwmon"@.is_prefix_of(#[trigger] names[j]),
    ensures
        k == names.len() ==> first_hwmon_dir_of(base, names) is None,
        k < names.len() && "hwmon"@.is_prefix_of(names[k]) ==> first_hwmon_dir_of(base, names)
            == Some(base + "/"@ + names[k]),
    decreases names.len(),
{
    if names.len() > 0 && k > 0 {
        let rest = names.drop_first();
        assert(!"hwmon"@.is_prefix_of(names[0]));
        assert forall|j: int| 0 <= j < k - 1 implies !"hwmon"@.is_prefix_of(#[trigger] rest[j]) by {
            assert(rest[j] == names[j + 1]);
        }
        lemma_first_hwmon(base, rest, k - 1);
    }
}

/// The power of an AMD card is the number in the file `power1_average` of the first of its
/// monitoring chips whose name begins with `hwmon`, in millionths; and nothing where there is no such
/// chip or no such number.
pub proof fn power_of_an_amd_card(
    world: spec_fn(Request) -> Answer,
    card: &str,
    names: Seq<Seq<char>>,
    k: int,
    r: Step<GpuProbe, Reading>,
)
    requires
        !"nvidia:"@.is_prefix_of(card@),
        vendor_in(world, card@) == GpuVendor::Amd,
        call_ensures(find_gpu_power, (card,), r),
    ensures
        world(Request::List("/sys/class/drm/"@ + card@ + "/device/hwmon"@)).names() is None ==> run(
            plan_of(r),
            world,
        ) == Reading::Absent,
        ({
            let dir = "/sys/class/drm/"@ + card@ + "/device/hwmon"@;
            world(Request::List(dir)) == Answer::Names(Some(names)) && 0 <= k <= names.len() && (
            forall|j: int| 0 <= j < k ==> !"hwmon"@.is_prefix_of(#[trigger] names[j])) ==> {
                &&& k == names.len() ==> run(plan_of(r), world) == Reading::Absent
                &&& k < names.len() && "hwmon"@.is_prefix_of(names[k]) ==> run(plan_of(r), world)
                    == (match number_in(
                    world,
                    dir + "/"@ + names[k] + "/"@ + "power1_average"@,
                ) {
                    Some(bits) => Reading::Float { bits, divisor: 1_000_000 },
                    None => Reading::Absent,
                })
            }
        }),
{
    let dir = "/sys/class/drm/"@ + card@ + "/device/hwmon"@;
    gpu_sensor_is_found(world, GpuSensor::Power, card@);
    if world(Request::List(dir)) == Answer::Names(Some(names)) && 0 <= k <= names.len() && (
    forall|j: int| 0 <= j < k ==> !"hwmon"@.is_prefix_of(#[trigger] names[j])) {
        lemma_first_hwmon(dir, names, k);
    }
}

/// A card by Intel shows its temperature and nothing else, and a card of which nobody knows who made
/// it shows nothing.
pub proof fn other_cards_show_little(world: spec_fn(Request) -> Answer, card: &str)
    requires
        !"nvidia:"@.is_prefix_of(card@),
        vendor_in(world, card@) == GpuVendor::Intel || vendor_in(world, card@)
            == GpuVendor::Unknown,
    ensures
        forall|r: Step<GpuProbe, Reading>| #[trigger]
            call_ensures(find_gpu_load, (card,), r) ==> run(plan_of(r), world) == Reading::Absent,
        forall|r: Step<GpuProbe, Reading>| #[trigger]
            call_ensures(find_gpu_vram, (card,), r) ==> run(plan_of(r), world) == Reading::Absent,
        forall|r: Step<GpuProbe, Reading>| #[trigger]
            call_ensures(find_gpu_vram_gb, (card,), r) ==> run(plan_of(r), world)
                == Reading::Absent,
        forall|r: Step<GpuProbe, Reading>| #[trigger]
            call_ensures(find_gpu_vram_total_gb, (card,), r) ==> run(plan_of(r), world)
                == Reading::Absent,
        forall|r: Step<GpuProbe, Reading>| #[trigger]
            call_ensures(find_gpu_power, (card,), r) ==> run(plan_of(r), world) == Reading::Absent,
        vendor_in(world, card@) == GpuVendor::Unknown ==> forall|r: Step<GpuProbe, Reading>|
            #[trigger]
            call_ensures(find_gpu_temperature, (card,), r) ==> run(plan_of(r), world)
                == Reading::Absent,
{
    gpu_sensor_is_found(world, GpuSensor::Load, card@);
    gpu_sensor_is_found(world, GpuSensor::Temperature, card@);
    gpu_sensor_is_found(world, GpuSensor::Vram, card@);
    gpu_sensor_is_found(world, GpuSensor::VramGb, card@);
    gpu_sensor_is_found(world, GpuSensor::VramTotalGb, card@);
    gpu_sensor_is_found(world, GpuSensor::Power, card@);
}

/// A vendor is found as it is.
pub proof fn vendor_is_itself(vendor: GpuVendor)
    ensures
        vendor@ == vendor,
{
}

} // verus!
