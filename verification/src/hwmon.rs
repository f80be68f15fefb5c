//! The sensors of the hardware monitoring chips, one directory each under `/sys/class/hwmon`.
use vstd::prelude::*;

use crate::file::{NumberProbe, number_in, path, path_of, paths, paths_of, read_number, read_number_finds, read_number_plan};
use crate::host::{Answer, Plan, Probe, Query, Reply, Request, Step, answering_keeps_the_result, asks, begins, bind, plan_of, run, run_bind};
use crate::number::{decimal, decimal_of};
use crate::reading::{MILLI, Reading};
use crate::text::{contains, occurs, trim, trimmed};

verus! {

/// The highest channel number that is looked at.
pub const LAST_CHANNEL: u32 = 32;

/// A sensor that the monitoring chips are searched for.
#[derive(Clone, Copy, Debug, PartialEq, Eq, Structural)]
pub enum HwmonSensor {
    CpuTemperature,
    MotherboardTemperature,
    NvmeTemperature,
    /// The fan with this number.
    FanSpeed(u32),
    CpuVoltage,
}

impl HwmonSensor {
    /// A chip of this name may have the sensor.
    pub open spec fn has_chip(self, name: Seq<char>) -> bool {
        match self {
            HwmonSensor::CpuTemperature => {
                ||| occurs(name, "coretemp"@)
                ||| occurs(name, "k10temp"@)
                ||| occurs(name, "zenpower"@)
            },
            HwmonSensor::MotherboardTemperature => {
                ||| occurs(name, "nct"@)
                ||| occurs(name, "it87"@)
            },
            HwmonSensor::NvmeTemperature => occurs(name, "nvme"@),
            HwmonSensor::FanSpeed(_) => true,
            HwmonSensor::CpuVoltage => true,
        }
    }

    fn chip(self, name: &str) -> (r: bool)
        ensures
            r == self.has_chip(name@),
    {
        match self {
            HwmonSensor::CpuTemperature => contains(name, "coretemp") || contains(name, "k10temp")
                || contains(name, "zenpower"),
            HwmonSensor::MotherboardTemperature => contains(name, "nct") || contains(name, "it87"),
            HwmonSensor::NvmeTemperature => contains(name, "nvme"),
            HwmonSensor::FanSpeed(_) => true,
            HwmonSensor::CpuVoltage => true,
        }
    }

    /// The first of the labelled channels of a chip that the sensor is looked for in, if it is
    /// looked for by label.
    pub open spec fn first_channel(self) -> Option<u32> {
        match self {
            HwmonSensor::CpuTemperature => Some(1),
            HwmonSensor::MotherboardTemperature => Some(1),
            HwmonSensor::CpuVoltage => Some(0),
            HwmonSensor::NvmeTemperature => None,
            HwmonSensor::FanSpeed(_) => None,
        }
    }

    fn first(self) -> (r: Option<u32>)
        ensures
            r == self.first_channel(),
    {
        match self {
            HwmonSensor::CpuTemperature => Some(1),
            HwmonSensor::MotherboardTemperature => Some(1),
            HwmonSensor::CpuVoltage => Some(0),
            HwmonSensor::NvmeTemperature => None,
            HwmonSensor::FanSpeed(_) => None,
        }
    }

    /// What the names of the files of a channel begin with.
    pub open spec fn channel_kind(self) -> Seq<char> {
        match self {
            HwmonSensor::CpuVoltage => "in"@,
            _ => "temp"@,
        }
    }

    /// The name of the file of channel `n` that ends with `suffix`.
    pub open spec fn channel_file(self, n: u32, suffix: Seq<char>) -> Seq<char> {
        self.channel_kind() + decimal_of(n as nat) + suffix
    }

    fn channel(self, n: u32, suffix: &str) -> (r: String)
        ensures
            r@ == self.channel_file(n, suffix@),
    {
        let kind = match self {
            HwmonSensor::CpuVoltage => "in",
            _ => "temp",
        };
        kind.to_owned().concat(decimal(n).as_str()).concat(suffix)
    }

    /// A channel with this label shows the sensor.
    pub open spec fn has_label(self, label: Seq<char>) -> bool {
        match self {
            HwmonSensor::CpuTemperature => {
                ||| occurs(label, "Package id 0"@)
                ||| occurs(label, "Tdie"@)
                ||| occurs(label, "Tctl"@)
                ||| occurs(label, "Tccd1"@)
                ||| occurs(label, "Core 0"@)
            },
            HwmonSensor::MotherboardTemperature => {
                ||| occurs(label, "SYSTIN"@)
                ||| occurs(label, "MB"@)
            },
            HwmonSensor::CpuVoltage => occurs(label, "CPU"@) && (occurs(label, "Vcore"@) || occurs(
                label,
                "in"@,
            )),
            HwmonSensor::NvmeTemperature => false,
            HwmonSensor::FanSpeed(_) => false,
        }
    }

    fn label(self, label: &str) -> (r: bool)
        ensures
            r == self.has_label(label@),
    {
        match self {
            HwmonSensor::CpuTemperature => contains(label, "Package id 0") || contains(
                label,
                "Tdie",
            ) || contains(label, "Tctl") || contains(label, "Tccd1") || contains(label, "Core 0"),
            HwmonSensor::MotherboardTemperature => contains(label, "SYSTIN") || contains(
                label,
                "MB",
            ),
            HwmonSensor::CpuVoltage => contains(label, "CPU") && (contains(label, "Vcore")
                || contains(label, "in")),
            HwmonSensor::NvmeTemperature => false,
            HwmonSensor::FanSpeed(_) => false,
        }
    }

    /// The file of a chip that shows the sensor where no labelled channel does, if there is one.
    pub open spec fn plain_file(self) -> Option<Seq<char>> {
        match self {
            HwmonSensor::CpuTemperature => Some("temp1_input"@),
            HwmonSensor::NvmeTemperature => Some("temp1_input"@),
            HwmonSensor::FanSpeed(n) => Some("fan"@ + decimal_of(n as nat) + "_input"@),
            HwmonSensor::MotherboardTemperature => None,
            HwmonSensor::CpuVoltage => None,
        }
    }

    fn plain(self) -> (r: Option<String>)
        ensures
            r.deep_view() == self.plain_file(),
    {
        match self {
            HwmonSensor::CpuTemperature => Some("temp1_input".to_owned()),
            HwmonSensor::NvmeTemperature => Some("temp1_input".to_owned()),
            HwmonSensor::FanSpeed(n) => Some(
                "fan".to_owned().concat(decimal(n).as_str()).concat("_input"),
            ),
            HwmonSensor::MotherboardTemperature => None,
            HwmonSensor::CpuVoltage => None,
        }
    }

    /// The value of the sensor where its file holds the number with these bits: fans count
    /// revolutions, the others thousandths.
    pub open spec fn value_of(self, bits: u32) -> Reading {
        match self {
            HwmonSensor::FanSpeed(_) => Reading::Float { bits, divisor: 1 },
            _ => Reading::Float { bits, divisor: MILLI },
        }
    }

    fn value(self, bits: u32) -> (r: Reading)
        ensures
            r == self.value_of(bits),
    {
        match self {
            HwmonSensor::FanSpeed(_) => Reading::Float { bits, divisor: 1 },
            _ => Reading::Float { bits, divisor: MILLI },
        }
    }
}

/// Finds the name of the chip with the directory `dir`: the text of its file `name`, else of its
/// file `device/name`, else nothing; without the white space around it.
pub open spec fn chip_name_plan(dir: Seq<char>) -> Plan<Seq<char>> {
    Plan::Ask(
        Request::Read(path_of(dir, "name"@)),
        |answer: Answer|
            match answer.text() {
                Some(t) => Plan::Done(trimmed(t)),
                None => device_name_plan(dir),
            },
    )
}

/// Finds the name of a chip in its file `device/name`.
pub open spec fn device_name_plan(dir: Seq<char>) -> Plan<Seq<char>> {
    Plan::Ask(
        Request::Read(path_of(dir, "device/name"@)),
        |answer: Answer|
            match answer.text() {
                Some(t) => Plan::Done(trimmed(t)),
                None => Plan::Done(trimmed(Seq::empty())),
            },
    )
}

/// Searches the chips with these directories in turn.
pub open spec fn chips_plan(sensor: HwmonSensor, chips: Seq<Seq<char>>) -> Plan<Reading>
    decreases chips.len(), 0int, 0int,
{
    if chips.len() == 0 {
        Plan::Done(Reading::Absent)
    } else {
        named_plan(sensor, chips.first(), chips.drop_first(), chip_name_plan(chips.first()))
    }
}

/// Searches the chip with the directory `dir` once `name` has found its name, then the chips in
/// `rest`.
pub open spec fn named_plan(
    sensor: HwmonSensor,
    dir: Seq<char>,
    rest: Seq<Seq<char>>,
    name: Plan<Seq<char>>,
) -> Plan<Reading>
    decreases rest.len(), 101int, 0int,
{
    bind(name, by_name(sensor, dir, rest))
}

/// What to do with the name of a chip: search the chip, then the chips in `rest`.
pub open spec fn by_name(
    sensor: HwmonSensor,
    dir: Seq<char>,
    rest: Seq<Seq<char>>,
) -> spec_fn(Seq<char>) -> Plan<Reading>
    decreases rest.len(), 100int, 0int,
{
    |name: Seq<char>| chip_plan(sensor, dir, rest, name)
}

/// Searches the chip of this name, then the chips in `rest`.
pub open spec fn chip_plan(
    sensor: HwmonSensor,
    dir: Seq<char>,
    rest: Seq<Seq<char>>,
    name: Seq<char>,
) -> Plan<Reading>
    decreases rest.len(), 99int, 0int,
{
    if sensor.has_chip(name) {
        match sensor.first_channel() {
            Some(n) => input_plan(sensor, dir, rest, n),
            None => plain_plan(sensor, dir, rest),
        }
    } else {
        chips_plan(sensor, rest)
    }
}

/// How many channels there are from `n` on.
pub open spec fn channels_from(n: u32) -> int {
    if n <= LAST_CHANNEL {
        LAST_CHANNEL + 1 - n
    } else {
        0
    }
}

/// Searches the channels of a chip from `n` on, for as long as they have an input.
pub open spec fn input_plan(
    sensor: HwmonSensor,
    dir: Seq<char>,
    rest: Seq<Seq<char>>,
    n: u32,
) -> Plan<Reading>
    decreases rest.len(), 5 + channels_from(n), 4int,
{
    Plan::Ask(
        Request::Exists(path_of(dir, sensor.channel_file(n, "_input"@))),
        |answer: Answer|
            if answer.flag() {
                label_plan(sensor, dir, rest, n)
            } else {
                plain_plan(sensor, dir, rest)
            },
    )
}

/// Looks at the label of channel `n`, and at its value if the label is one of the sensor's.
pub open spec fn label_plan(
    sensor: HwmonSensor,
    dir: Seq<char>,
    rest: Seq<Seq<char>>,
    n: u32,
) -> Plan<Reading>
    decreases rest.len(), 5 + channels_from(n), 3int,
{
    Plan::Ask(
        Request::Read(path_of(dir, sensor.channel_file(n, "_label"@))),
        |answer: Answer|
            if answer.text() matches Some(t) && sensor.has_label(trimmed(t)) {
                value_plan(
                    sensor,
                    dir,
                    rest,
                    n,
                    read_number_plan(path_of(dir, sensor.channel_file(n, "_input"@))),
                )
            } else {
                next_plan(sensor, dir, rest, n)
            },
    )
}

/// Ends with the value of channel `n` if `value` finds one.
pub open spec fn value_plan(
    sensor: HwmonSensor,
    dir: Seq<char>,
    rest: Seq<Seq<char>>,
    n: u32,
    value: Plan<Option<u32>>,
) -> Plan<Reading>
    decreases rest.len(), 5 + channels_from(n), 2int,
{
    bind(
        value,
        |value: Option<u32>|
            match value {
                Some(bits) => Plan::Done(sensor.value_of(bits)),
                None => next_plan(sensor, dir, rest, n),
            },
    )
}

/// Goes on after channel `n`.
pub open spec fn next_plan(
    sensor: HwmonSensor,
    dir: Seq<char>,
    rest: Seq<Seq<char>>,
    n: u32,
) -> Plan<Reading>
    decreases rest.len(), 5 + channels_from(n), 1int,
{
    if n < LAST_CHANNEL {
        input_plan(sensor, dir, rest, (n + 1) as u32)
    } else {
        plain_plan(sensor, dir, rest)
    }
}

/// Looks at the file of the chip that has no label, where the sensor has one.
pub open spec fn plain_plan(
    sensor: HwmonSensor,
    dir: Seq<char>,
    rest: Seq<Seq<char>>,
) -> Plan<Reading>
    decreases rest.len(), 2int, 0int,
{
    match sensor.plain_file() {
        Some(name) => plain_value_plan(sensor, rest, read_number_plan(path_of(dir, name))),
        None => chips_plan(sensor, rest),
    }
}

/// Ends with the value that `value` finds, else searches the chips in `rest`.
pub open spec fn plain_value_plan(
    sensor: HwmonSensor,
    rest: Seq<Seq<char>>,
    value: Plan<Option<u32>>,
) -> Plan<Reading>
    decreases rest.len(), 1int, 0int,
{
    bind(
        value,
        |value: Option<u32>|
            match value {
                Some(bits) => Plan::Done(sensor.value_of(bits)),
                None => chips_plan(sensor, rest),
            },
    )
}

proof fn lemma_named_after(
    sensor: HwmonSensor,
    dir: Seq<char>,
    rest: Seq<Seq<char>>,
    name: Plan<Seq<char>>,
    answer: Answer,
)
    requires
        name is Ask,
    ensures
        named_plan(sensor, dir, rest, name) is Ask,
        named_plan(sensor, dir, rest, name)->Ask_0 == name->Ask_0,
        named_plan(sensor, dir, rest, name).after(answer) == named_plan(
            sensor,
            dir,
            rest,
            name.after(answer),
        ),
{
}

proof fn lemma_value_after(
    sensor: HwmonSensor,
    dir: Seq<char>,
    rest: Seq<Seq<char>>,
    n: u32,
    value: Plan<Option<u32>>,
    answer: Answer,
)
    requires
        value is Ask,
    ensures
        value_plan(sensor, dir, rest, n, value) is Ask,
        value_plan(sensor, dir, rest, n, value)->Ask_0 == value->Ask_0,
        value_plan(sensor, dir, rest, n, value).after(answer) == value_plan(
            sensor,
            dir,
            rest,
            n,
            value.after(answer),
        ),
{
}

proof fn lemma_plain_value_after(
    sensor: HwmonSensor,
    rest: Seq<Seq<char>>,
    value: Plan<Option<u32>>,
    answer: Answer,
)
    requires
        value is Ask,
    ensures
        plain_value_plan(sensor, rest, value) is Ask,
        plain_value_plan(sensor, rest, value)->Ask_0 == value->Ask_0,
        plain_value_plan(sensor, rest, value).after(answer) == plain_value_plan(
            sensor,
            rest,
            value.after(answer),
        ),
{
}

/// The directory of the monitoring chips.
pub open spec fn chips_dir() -> Seq<char> {
    "/sys/class/hwmon"@
}


/// Searches all monitoring chips for the sensor, in the order in which the system lists them.
pub open spec fn hwmon_plan(sensor: HwmonSensor) -> Plan<Reading> {
    Plan::Ask(
        Request::List(chips_dir()),
        |answer: Answer|
            match answer.names() {
                Some(names) => chips_plan(sensor, paths_of(chips_dir(), names)),
                None => Plan::Done(Reading::Absent),
            },
    )
}

enum NameStage {
    Own,
    Device,
}

/// The search for the name of a chip.
pub struct ChipNameProbe {
    dir: String,
    stage: NameStage,
}

impl Probe for ChipNameProbe {
    type Found = String;

    closed spec fn plan(&self) -> Plan<Seq<char>> {
        match self.stage {
            NameStage::Own => chip_name_plan(self.dir@),
            NameStage::Device => device_name_plan(self.dir@),
        }
    }

    proof fn waits(&self) {
    }

    fn resume(self, reply: Reply) -> (r: Step<Self, String>) {
        let text = reply.text();
        match self.stage {
            NameStage::Own => match text {
                Some(t) => Step::Done(trim(t.as_str()).to_owned()),
                None => Step::Ask(
                    Query::Read(path(self.dir.as_str(), "device/name")),
                    ChipNameProbe { dir: self.dir, stage: NameStage::Device },
                ),
            },
            NameStage::Device => match text {
                Some(t) => Step::Done(trim(t.as_str()).to_owned()),
                None => Step::Done(String::new()),
            },
        }
    }
}

/// Begins to look for the name of the chip with the directory `dir`.
pub fn chip_name(dir: String) -> (r: (Query, ChipNameProbe))
    ensures
        asks(r.0, r.1, chip_name_plan(dir@)),
{
    (
        Query::Read(path(dir.as_str(), "name")),
        ChipNameProbe { dir, stage: NameStage::Own },
    )
}

enum HwmonStage {
    Chips,
    Name(ChipNameProbe),
    Input(u32),
    Label(u32),
    Value(u32, NumberProbe),
    Plain(NumberProbe),
}

/// The search of the monitoring chips for a sensor.
pub struct HwmonProbe {
    sensor: HwmonSensor,
    /// The directory of the chip that is being searched.
    dir: String,
    /// The directories of the chips to search after it.
    rest: Vec<String>,
    stage: HwmonStage,
}

impl HwmonProbe {
    spec fn whole(&self) -> Plan<Reading> {
        let sensor = self.sensor;
        let dir = self.dir@;
        let rest = self.rest.deep_view();
        match self.stage {
            HwmonStage::Chips => hwmon_plan(sensor),
            HwmonStage::Name(name) => named_plan(sensor, dir, rest, name.plan()),
            HwmonStage::Input(n) => input_plan(sensor, dir, rest, n),
            HwmonStage::Label(n) => label_plan(sensor, dir, rest, n),
            HwmonStage::Value(n, number) => value_plan(sensor, dir, rest, n, number.plan()),
            HwmonStage::Plain(number) => plain_value_plan(sensor, rest, number.plan()),
        }
    }

    spec fn stands(step: Step<HwmonProbe, Reading>, plan: Plan<Reading>) -> bool {
        match step {
            Step::Ask(q, p) => p.whole() == plan && (plan matches Plan::Ask(request, _) && request
                == q@),
            Step::Done(found) => plan == Plan::Done(found),
        }
    }

    fn chips(sensor: HwmonSensor, chips: Vec<String>) -> (r: Step<HwmonProbe, Reading>)
        ensures
            Self::stands(r, chips_plan(sensor, chips.deep_view())),
    {
        let mut rest = chips;
        if rest.len() == 0 {
            return Step::Done(Reading::Absent);
        }
        let dir = rest.remove(0);
        assert(rest.deep_view() =~= chips.deep_view().drop_first());
        let (query, name) = chip_name(dir.clone());
        Step::Ask(query, HwmonProbe { sensor, dir, rest, stage: HwmonStage::Name(name) })
    }

    fn chip(sensor: HwmonSensor, dir: String, rest: Vec<String>, name: String) -> (r: Step<
        HwmonProbe,
        Reading,
    >)
        ensures
            Self::stands(r, chip_plan(sensor, dir@, rest.deep_view(), name@)),
    {
        if sensor.chip(name.as_str()) {
            match sensor.first() {
                Some(n) => Self::input(sensor, dir, rest, n),
                None => Self::plain(sensor, dir, rest),
            }
        } else {
            Self::chips(sensor, rest)
        }
    }

    fn input(sensor: HwmonSensor, dir: String, rest: Vec<String>, n: u32) -> (r: Step<
        HwmonProbe,
        Reading,
    >)
        ensures
            Self::stands(r, input_plan(sensor, dir@, rest.deep_view(), n)),
    {
        Step::Ask(
            Query::Exists(path(dir.as_str(), sensor.channel(n, "_input").as_str())),
            HwmonProbe { sensor, dir, rest, stage: HwmonStage::Input(n) },
        )
    }

    fn after_channel(sensor: HwmonSensor, dir: String, rest: Vec<String>, n: u32) -> (r: Step<
        HwmonProbe,
        Reading,
    >)
        ensures
            Self::stands(r, next_plan(sensor, dir@, rest.deep_view(), n)),
    {
        if n < LAST_CHANNEL {
            Self::input(sensor, dir, rest, n + 1)
        } else {
            Self::plain(sensor, dir, rest)
        }
    }

    fn plain(sensor: HwmonSensor, dir: String, rest: Vec<String>) -> (r: Step<HwmonProbe, Reading>)
        ensures
            Self::stands(r, plain_plan(sensor, dir@, rest.deep_view())),
    {
        match sensor.plain() {
            Some(name) => {
                let (query, number) = read_number(path(dir.as_str(), name.as_str()));
                Step::Ask(query, HwmonProbe { sensor, dir, rest, stage: HwmonStage::Plain(number) })
            },
            None => Self::chips(sensor, rest),
        }
    }
}

impl Probe for HwmonProbe {
    type Found = Reading;

    closed spec fn plan(&self) -> Plan<Reading> {
        self.whole()
    }

    proof fn waits(&self) {
        match self.stage {
            HwmonStage::Name(name) => name.waits(),
            HwmonStage::Value(_, number) => number.waits(),
            HwmonStage::Plain(number) => number.waits(),
            _ => {},
        }
    }

    fn resume(self, reply: Reply) -> (r: Step<Self, Reading>) {
        let sensor = self.sensor;
        let dir = self.dir;
        let rest = self.rest;
        match self.stage {
            HwmonStage::Chips => match reply.names() {
                Some(names) => Self::chips(sensor, paths("/sys/class/hwmon", &names)),
                None => Step::Done(Reading::Absent),
            },
            HwmonStage::Name(name) => {
                proof {
                    name.waits();
                    lemma_named_after(sensor, dir@, rest.deep_view(), name.plan(), reply@);
                }
                match name.resume(reply) {
                    Step::Ask(query, name) => Step::Ask(
                        query,
                        HwmonProbe { sensor, dir, rest, stage: HwmonStage::Name(name) },
                    ),
                    Step::Done(name) => Self::chip(sensor, dir, rest, name),
                }
            },
            HwmonStage::Input(n) => if reply.flag() {
                Step::Ask(
                    Query::Read(path(dir.as_str(), sensor.channel(n, "_label").as_str())),
                    HwmonProbe { sensor, dir, rest, stage: HwmonStage::Label(n) },
                )
            } else {
                Self::plain(sensor, dir, rest)
            },
            HwmonStage::Label(n) => {
                let shown = match reply.text() {
                    Some(t) => sensor.label(trim(t.as_str())),
                    None => false,
                };
                if shown {
                    let (query, number) = read_number(
                        path(dir.as_str(), sensor.channel(n, "_input").as_str()),
                    );
                    Step::Ask(
                        query,
                        HwmonProbe { sensor, dir, rest, stage: HwmonStage::Value(n, number) },
                    )
                } else {
                    Self::after_channel(sensor, dir, rest, n)
                }
            },
            HwmonStage::Value(n, number) => {
                proof {
                    number.waits();
                    lemma_value_after(sensor, dir@, rest.deep_view(), n, number.plan(), reply@);
                }
                match number.resume(reply) {
                    Step::Ask(query, number) => Step::Ask(
                        query,
                        HwmonProbe { sensor, dir, rest, stage: HwmonStage::Value(n, number) },
                    ),
                    Step::Done(Some(bits)) => Step::Done(sensor.value(bits)),
                    Step::Done(None) => Self::after_channel(sensor, dir, rest, n),
                }
            },
            HwmonStage::Plain(number) => {
                proof {
                    number.waits();
                    lemma_plain_value_after(sensor, rest.deep_view(), number.plan(), reply@);
                }
                match number.resume(reply) {
                    Step::Ask(query, number) => Step::Ask(
                        query,
                        HwmonProbe { sensor, dir, rest, stage: HwmonStage::Plain(number) },
                    ),
                    Step::Done(Some(bits)) => Step::Done(sensor.value(bits)),
                    Step::Done(None) => Self::chips(sensor, rest),
                }
            },
        }
    }
}

fn search(sensor: HwmonSensor) -> (r: Step<HwmonProbe, Reading>)
    ensures
        begins(r, hwmon_plan(sensor)),
{
    Step::Ask(
        Query::List("/sys/class/hwmon".to_owned()),
        HwmonProbe { sensor, dir: String::new(), rest: Vec::new(), stage: HwmonStage::Chips },
    )
}

/// Begins to look for the temperature of the processor, in degrees.
pub fn find_cpu_temperature() -> (r: Step<HwmonProbe, Reading>)
    ensures
        begins(r, hwmon_plan(HwmonSensor::CpuTemperature)),
{
    search(HwmonSensor::CpuTemperature)
}

/// Begins to look for the temperature of the motherboard, in degrees.
pub fn find_motherboard_temperature() -> (r: Step<HwmonProbe, Reading>)
    ensures
        begins(r, hwmon_plan(HwmonSensor::MotherboardTemperature)),
{
    search(HwmonSensor::MotherboardTemperature)
}

/// Begins to look for the temperature of the NVMe drive, in degrees.
pub fn find_nvme_temperature() -> (r: Step<HwmonProbe, Reading>)
    ensures
        begins(r, hwmon_plan(HwmonSensor::NvmeTemperature)),
{
    search(HwmonSensor::NvmeTemperature)
}

/// Begins to look for the speed of the fan with this number, in revolutions per minute.
pub fn find_system_fan_speed(fan_number: u32) -> (r: Step<HwmonProbe, Reading>)
    ensures
        begins(r, hwmon_plan(HwmonSensor::FanSpeed(fan_number))),
{
    search(HwmonSensor::FanSpeed(fan_number))
}

/// Begins to look for the voltage of the processor, in volts.
pub fn find_cpu_voltage() -> (r: Step<HwmonProbe, Reading>)
    ensures
        begins(r, hwmon_plan(HwmonSensor::CpuVoltage)),
{
    search(HwmonSensor::CpuVoltage)
}

/// The name of the chip with the directory `dir`.
pub open spec fn name_in(world: spec_fn(Request) -> Answer, dir: Seq<char>) -> Seq<char> {
    match (
        world(Request::Read(path_of(dir, "name"@))).text(),
        world(Request::Read(path_of(dir, "device/name"@))).text(),
    ) {
        (Some(t), _) => trimmed(t),
        (None, Some(t)) => trimmed(t),
        (None, None) => Seq::empty(),
    }
}

/// Channel `n` of the chip with the directory `dir` has an input.
pub open spec fn has_input(
    world: spec_fn(Request) -> Answer,
    sensor: HwmonSensor,
    dir: Seq<char>,
    n: u32,
) -> bool {
    world(Request::Exists(path_of(dir, sensor.channel_file(n, "_input"@)))).flag()
}

/// What channel `n` shows of the sensor: the number in its input, if its label is one of the
/// sensor's.
pub open spec fn channel_in(
    world: spec_fn(Request) -> Answer,
    sensor: HwmonSensor,
    dir: Seq<char>,
    n: u32,
) -> Option<u32> {
    if world(Request::Read(path_of(dir, sensor.channel_file(n, "_label"@)))).text() matches Some(t)
        && sensor.has_label(trimmed(t)) {
        number_in(world, path_of(dir, sensor.channel_file(n, "_input"@)))
    } else {
        None
    }
}

/// Channel `n` is the first from `from` on to show the sensor, and no channel before it lacks an
/// input.
pub open spec fn shown_first(
    world: spec_fn(Request) -> Answer,
    sensor: HwmonSensor,
    dir: Seq<char>,
    from: u32,
    n: u32,
) -> bool {
    &&& from <= n <= LAST_CHANNEL
    &&& forall|m: u32| from <= m <= n ==> #[trigger] has_input(world, sensor, dir, m)
    &&& channel_in(world, sensor, dir, n) is Some
    &&& forall|m: u32| from <= m < n ==> #[trigger] channel_in(world, sensor, dir, m) is None
}

/// What the file of the chip that has no label shows.
pub open spec fn plain_in(
    world: spec_fn(Request) -> Answer,
    sensor: HwmonSensor,
    dir: Seq<char>,
) -> Option<u32> {
    match sensor.plain_file() {
        Some(name) => number_in(world, path_of(dir, name)),
        None => None,
    }
}

/// What the chip with the directory `dir` shows of the sensor, if it is a chip of the sensor: the
/// first labelled channel that shows it, else the file that has no label.
pub open spec fn chip_in(
    world: spec_fn(Request) -> Answer,
    sensor: HwmonSensor,
    dir: Seq<char>,
) -> Option<u32> {
    if !sensor.has_chip(name_in(world, dir)) {
        None
    } else if sensor.first_channel() matches Some(from) && exists|n: u32|
        shown_first(world, sensor, dir, from, n) {
        channel_in(
            world,
            sensor,
            dir,
            choose|n: u32| shown_first(world, sensor, dir, sensor.first_channel()->0, n),
        )
    } else {
        plain_in(world, sensor, dir)
    }
}

proof fn lemma_run_named(
    world: spec_fn(Request) -> Answer,
    sensor: HwmonSensor,
    dir: Seq<char>,
    rest: Seq<Seq<char>>,
    name: Plan<Seq<char>>,
)
    ensures
        run(named_plan(sensor, dir, rest, name), world) == run(
            chip_plan(sensor, dir, rest, run(name, world)),
            world,
        ),
{
    run_bind(name, by_name(sensor, dir, rest), world);
}

proof fn lemma_run_value(
    world: spec_fn(Request) -> Answer,
    sensor: HwmonSensor,
    dir: Seq<char>,
    rest: Seq<Seq<char>>,
    n: u32,
    value: Plan<Option<u32>>,
)
    ensures
        run(value_plan(sensor, dir, rest, n, value), world) == match run(value, world) {
            Some(bits) => sensor.value_of(bits),
            None => run(next_plan(sensor, dir, rest, n), world),
        },
{
    run_bind(
        value,
        |value: Option<u32>|
            match value {
                Some(bits) => Plan::Done(sensor.value_of(bits)),
                None => next_plan(sensor, dir, rest, n),
            },
        world,
    );
}

proof fn lemma_run_plain_value(
    world: spec_fn(Request) -> Answer,
    sensor: HwmonSensor,
    rest: Seq<Seq<char>>,
    value: Plan<Option<u32>>,
)
    ensures
        run(plain_value_plan(sensor, rest, value), world) == match run(value, world) {
            Some(bits) => sensor.value_of(bits),
            None => run(chips_plan(sensor, rest), world),
        },
{
    run_bind(
        value,
        |value: Option<u32>|
            match value {
                Some(bits) => Plan::Done(sensor.value_of(bits)),
                None => chips_plan(sensor, rest),
            },
        world,
    );
}

proof fn lemma_run_plain(
    world: spec_fn(Request) -> Answer,
    sensor: HwmonSensor,
    dir: Seq<char>,
    rest: Seq<Seq<char>>,
)
    ensures
        run(plain_plan(sensor, dir, rest), world) == match plain_in(world, sensor, dir) {
            Some(bits) => sensor.value_of(bits),
            None => run(chips_plan(sensor, rest), world),
        },
{
    match sensor.plain_file() {
        Some(name) => {
            read_number_finds(world, path_of(dir, name));
            lemma_run_plain_value(world, sensor, rest, read_number_plan(path_of(dir, name)));
        },
        None => {},
    }
}

proof fn lemma_run_input(
    world: spec_fn(Request) -> Answer,
    sensor: HwmonSensor,
    dir: Seq<char>,
    rest: Seq<Seq<char>>,
    n: u32,
)
    requires
        n <= LAST_CHANNEL,
    ensures
        forall|k: u32| #[trigger]
            shown_first(world, sensor, dir, n, k) ==> run(
                input_plan(sensor, dir, rest, n),
                world,
            ) == sensor.value_of(channel_in(world, sensor, dir, k)->0),
        (forall|k: u32| !#[trigger] shown_first(world, sensor, dir, n, k)) ==> run(
            input_plan(sensor, dir, rest, n),
            world,
        ) == run(plain_plan(sensor, dir, rest), world),
    decreases LAST_CHANNEL - n,
{
    let input = path_of(dir, sensor.channel_file(n, "_input"@));
    let whole = run(input_plan(sensor, dir, rest, n), world);
    let plain = run(plain_plan(sensor, dir, rest), world);
    answering_keeps_the_result(input_plan(sensor, dir, rest, n), world);
    answering_keeps_the_result(label_plan(sensor, dir, rest, n), world);
    read_number_finds(world, input);
    lemma_run_value(world, sensor, dir, rest, n, read_number_plan(input));
    if !has_input(world, sensor, dir, n) {
        assert(whole == plain);
        assert forall|k: u32| !#[trigger] shown_first(world, sensor, dir, n, k) by {}
    } else if channel_in(world, sensor, dir, n) is Some {
        assert(whole == sensor.value_of(channel_in(world, sensor, dir, n)->0));
        assert(shown_first(world, sensor, dir, n, n));
        assert forall|k: u32| shown_first(world, sensor, dir, n, k) implies k == n by {}
    } else {
        assert(whole == run(next_plan(sensor, dir, rest, n), world));
        if n < LAST_CHANNEL {
            let next = (n + 1) as u32;
            lemma_run_input(world, sensor, dir, rest, next);
            assert forall|k: u32|
                #![trigger shown_first(world, sensor, dir, n, k)]
                #![trigger shown_first(world, sensor, dir, next, k)]
                shown_first(world, sensor, dir, n, k) == shown_first(
                    world,
                    sensor,
                    dir,
                    next,
                    k,
                ) by {
                if shown_first(world, sensor, dir, n, k) {
                    assert(k != n);
                }
            }
        } else {
            assert forall|k: u32| !#[trigger] shown_first(world, sensor, dir, n, k) by {
                if shown_first(world, sensor, dir, n, k) {
                    assert(k == n);
                }
            }
        }
    }
}

proof fn lemma_run_chip_name(world: spec_fn(Request) -> Answer, dir: Seq<char>)
    ensures
        run(chip_name_plan(dir), world) == name_in(world, dir),
{
    answering_keeps_the_result(chip_name_plan(dir), world);
    answering_keeps_the_result(device_name_plan(dir), world);
}

proof fn lemma_run_chips(
    world: spec_fn(Request) -> Answer,
    sensor: HwmonSensor,
    chips: Seq<Seq<char>>,
)
    requires
        chips.len() > 0,
    ensures
        run(chips_plan(sensor, chips), world) == match chip_in(world, sensor, chips.first()) {
            Some(bits) => sensor.value_of(bits),
            None => run(chips_plan(sensor, chips.drop_first()), world),
        },
{
    let dir = chips.first();
    let rest = chips.drop_first();
    lemma_run_chip_name(world, dir);
    lemma_run_named(world, sensor, dir, rest, chip_name_plan(dir));
    lemma_run_plain(world, sensor, dir, rest);
    if sensor.first_channel() is Some {
        lemma_run_input(world, sensor, dir, rest, sensor.first_channel()->0);
    }
}

/// The chips before chip `k` show nothing of the sensor.
pub open spec fn none_before(
    world: spec_fn(Request) -> Answer,
    sensor: HwmonSensor,
    dirs: Seq<Seq<char>>,
    k: int,
) -> bool {
    forall|j: int| 0 <= j < k ==> chip_in(world, sensor, #[trigger] dirs[j]) is None
}

proof fn lemma_run_all_chips(
    world: spec_fn(Request) -> Answer,
    sensor: HwmonSensor,
    dirs: Seq<Seq<char>>,
)
    ensures
        forall|k: int, bits: u32|
            0 <= k < dirs.len() && #[trigger] none_before(world, sensor, dirs, k) && chip_in(
                world,
                sensor,
                dirs[k],
            ) == Some(bits) ==> run(chips_plan(sensor, dirs), world) == #[trigger] sensor.value_of(
                bits,
            ),
        none_before(world, sensor, dirs, dirs.len() as int) ==> run(
            chips_plan(sensor, dirs),
            world,
        ) == Reading::Absent,
    decreases dirs.len(),
{
    if dirs.len() > 0 {
        let rest = dirs.drop_first();
        lemma_run_chips(world, sensor, dirs);
        lemma_run_all_chips(world, sensor, rest);
        if chip_in(world, sensor, dirs.first()) is None {
            assert forall|k: int| 0 < k <= dirs.len() implies none_before(world, sensor, rest, k - 1)
                == #[trigger] none_before(world, sensor, dirs, k) by {
                if none_before(world, sensor, rest, k - 1) {
                    assert forall|j: int| 0 <= j < k implies chip_in(
                        world,
                        sensor,
                        #[trigger] dirs[j],
                    ) is None by {
                        if j > 0 {
                            assert(rest[j - 1] == dirs[j]);
                        }
                    }
                } else {
                    let j = choose|j: int|
                        0 <= j < k - 1 && chip_in(world, sensor, #[trigger] rest[j]) is Some;
                    assert(rest[j] == dirs[j + 1]);
                }
            }
            assert forall|k: int, bits: u32|
                0 <= k < dirs.len() && #[trigger] none_before(world, sensor, dirs, k) && chip_in(
                    world,
                    sensor,
                    dirs[k],
                ) == Some(bits) implies run(chips_plan(sensor, dirs), world)
                == #[trigger] sensor.value_of(bits) by {
                assert(k > 0);
                assert(none_before(world, sensor, rest, k - 1));
                assert(rest[k - 1] == dirs[k]);
            }
        } else {
            assert forall|k: int| #[trigger] none_before(world, sensor, dirs, k) implies k <= 0 by {
                if k > 0 {
                    assert(dirs[0] == dirs.first());
                }
            }
        }
    }
}

/// On a machine that does not change, the search for a sensor finds what the first chip that shows
/// it shows, in the order in which the system lists the chips; and nothing if no chip shows it.
pub proof fn first_chip_wins(world: spec_fn(Request) -> Answer, sensor: HwmonSensor)
    ensures
        match world(Request::List(chips_dir())).names() {
            Some(names) => {
                let dirs = paths_of(chips_dir(), names);
                &&& forall|k: int, bits: u32|
                    0 <= k < dirs.len() && #[trigger] none_before(world, sensor, dirs, k)
                        && chip_in(world, sensor, dirs[k]) == Some(bits) ==> run(
                        hwmon_plan(sensor),
                        world,
                    ) == #[trigger] sensor.value_of(bits)
                &&& none_before(world, sensor, dirs, dirs.len() as int) ==> run(
                    hwmon_plan(sensor),
                    world,
                ) == Reading::Absent
            },
            None => run(hwmon_plan(sensor), world) == Reading::Absent,
        },
{
    answering_keeps_the_result(hwmon_plan(sensor), world);
    if let Some(names) = world(Request::List(chips_dir())).names() {
        lemma_run_all_chips(world, sensor, paths_of(chips_dir(), names));
    }
}

/// The chips that are searched for a sensor, by what their names have in them.
pub proof fn chips_of_the_sensors(name: Seq<char>, fan: u32)
    ensures
        HwmonSensor::CpuTemperature.has_chip(name) <==> occurs(name, "coretemp"@) || occurs(
            name,
            "k10temp"@,
        ) || occurs(name, "zenpower"@),
        HwmonSensor::MotherboardTemperature.has_chip(name) <==> occurs(name, "nct"@) || occurs(
            name,
            "it87"@,
        ),
        HwmonSensor::NvmeTemperature.has_chip(name) <==> occurs(name, "nvme"@),
        HwmonSensor::FanSpeed(fan).has_chip(name),
        HwmonSensor::CpuVoltage.has_chip(name),
{
}

/// The labels that a sensor is told by, by what they have in them; no other label tells it.
pub proof fn labels_of_the_sensors(label: Seq<char>)
    ensures
        HwmonSensor::CpuTemperature.has_label(label) <==> occurs(label, "Package id 0"@) || occurs(
            label,
            "Tdie"@,
        ) || occurs(label, "Tctl"@) || occurs(label, "Tccd1"@) || occurs(label, "Core 0"@),
        HwmonSensor::MotherboardTemperature.has_label(label) <==> occurs(label, "SYSTIN"@)
            || occurs(label, "MB"@),
        HwmonSensor::CpuVoltage.has_label(label) <==> occurs(label, "CPU"@) && (occurs(
            label,
            "Vcore"@,
        ) || occurs(label, "in"@)),
{
}

/// The name of a chip is the text of its file `name`, or else of its file `device/name`, without the
/// white space around it; where neither can be read, it has none. The search for the name finds that.
pub proof fn name_of_a_chip(
    world: spec_fn(Request) -> Answer,
    dir: String,
    r: (Query, ChipNameProbe),
)
    ensures
        call_ensures(chip_name, (dir,), r) ==> {
            &&& r.0@ == Request::Read(dir@ + "/"@ + "name"@)
            &&& run(r.1.plan(), world) == name_in(world, dir@)
        },
        name_in(world, dir@) == (match world(Request::Read(dir@ + "/"@ + "name"@)) {
            Answer::Text(Some(t)) => trimmed(t),
            _ => match world(Request::Read(dir@ + "/"@ + "device/name"@)) {
                Answer::Text(Some(t)) => trimmed(t),
                _ => Seq::empty(),
            },
        }),
{
    lemma_run_chip_name(world, dir@);
}

/// A temperature channel has its number between `temp` and `_input` or `_label` in the names of its
/// files, and a voltage channel between `in` and these. The channel has an input where that file is
/// there, and shows the sensor where its label, without the white space around it, is one of the
/// sensor's: the number that its input holds.
pub proof fn files_of_a_channel(
    world: spec_fn(Request) -> Answer,
    sensor: HwmonSensor,
    dir: Seq<char>,
    n: u32,
    kind: Seq<char>,
)
    requires
        (sensor == HwmonSensor::CpuVoltage && kind == "in"@) || (sensor
            == HwmonSensor::CpuTemperature && kind == "temp"@) || (sensor
            == HwmonSensor::MotherboardTemperature && kind == "temp"@),
    ensures
        has_input(world, sensor, dir, n) <==> world(
            Request::Exists(dir + "/"@ + (kind + decimal_of(n as nat) + "_input"@)),
        ) == Answer::Flag(true),
        channel_in(world, sensor, dir, n) == (match world(
            Request::Read(dir + "/"@ + (kind + decimal_of(n as nat) + "_label"@)),
        ) {
            Answer::Text(Some(t)) => if sensor.has_label(trimmed(t)) {
                number_in(world, dir + "/"@ + (kind + decimal_of(n as nat) + "_input"@))
            } else {
                None
            },
            _ => None,
        }),
{
}

proof fn lemma_chip_by_channels(
    world: spec_fn(Request) -> Answer,
    sensor: HwmonSensor,
    dir: Seq<char>,
    from: u32,
    n: u32,
)
    requires
        sensor.has_chip(name_in(world, dir)),
        sensor.first_channel() == Some(from),
        from <= 1,
    ensures
        from <= n <= 32 && channel_in(world, sensor, dir, n) is Some && (forall|m: u32|
            from <= m <= n ==> #[trigger] has_input(world, sensor, dir, m)) && (forall|m: u32|
            from <= m < n ==> #[trigger] channel_in(world, sensor, dir, m) is None) ==> chip_in(
            world,
            sensor,
            dir,
        ) == channel_in(world, sensor, dir, n),
        (forall|m: u32|
            from <= m < n ==> #[trigger] channel_in(world, sensor, dir, m) is None) && (n == 33 || (
        from <= n <= 32 && !has_input(world, sensor, dir, n))) ==> chip_in(world, sensor, dir)
            == plain_in(world, sensor, dir),
{
    if from <= n <= 32 && channel_in(world, sensor, dir, n) is Some && (forall|m: u32|
        from <= m <= n ==> #[trigger] has_input(world, sensor, dir, m)) && (forall|m: u32|
        from <= m < n ==> #[trigger] channel_in(world, sensor, dir, m) is None) {
        assert(shown_first(world, sensor, dir, from, n));
        assert forall|k: u32| #[trigger] shown_first(world, sensor, dir, from, k) implies k == n by {
            if k < n {
                assert(channel_in(world, sensor, dir, k) is None);
            }
        }
    }
    if (forall|m: u32|
        from <= m < n ==> #[trigger] channel_in(world, sensor, dir, m) is None) && (n == 33 || (from
        <= n <= 32 && !has_input(world, sensor, dir, n))) {
        assert forall|k: u32| !#[trigger] shown_first(world, sensor, dir, from, k) by {
            if shown_first(world, sensor, dir, from, k) {
                if k < n {
                    assert(channel_in(world, sensor, dir, k) is None);
                } else {
                    assert(has_input(world, sensor, dir, n));
                }
            }
        }
    }
}

/// The channels of a chip are taken in turn, from the first to number 32, for as long as they have an
/// input: those of temperatures from one on, those of voltages from zero on. The first that shows the
/// sensor is what the chip shows. Where none does, it is for the processor the number in
/// `temp1_input`, and for the motherboard and the voltage nothing. A chip that is not one of the
/// sensor's shows nothing.
pub proof fn chip_by_its_channels(
    world: spec_fn(Request) -> Answer,
    sensor: HwmonSensor,
    dir: Seq<char>,
    from: u32,
    n: u32,
)
    requires
        (sensor == HwmonSensor::CpuVoltage && from == 0) || (sensor == HwmonSensor::CpuTemperature
            && from == 1) || (sensor == HwmonSensor::MotherboardTemperature && from == 1),
        forall|m: u32| from <= m < n ==> #[trigger] has_input(world, sensor, dir, m),
        forall|m: u32| from <= m < n ==> #[trigger] channel_in(world, sensor, dir, m) is None,
    ensures
        !sensor.has_chip(name_in(world, dir)) ==> chip_in(world, sensor, dir) is None,
        sensor.has_chip(name_in(world, dir)) && from <= n <= 32 && has_input(world, sensor, dir, n)
            && channel_in(world, sensor, dir, n) is Some ==> chip_in(world, sensor, dir)
            == channel_in(world, sensor, dir, n),
        sensor.has_chip(name_in(world, dir)) && (n == 33 || (from <= n <= 32 && !has_input(
            world,
            sensor,
            dir,
            n,
        ))) && sensor == HwmonSensor::CpuTemperature ==> chip_in(world, sensor, dir) == number_in(
            world,
            dir + "/"@ + "temp1_input"@,
        ),
        (n == 33 || (from <= n <= 32 && !has_input(world, sensor, dir, n))) && sensor
            != HwmonSensor::CpuTemperature ==> chip_in(world, sensor, dir) is None,
{
    if sensor.has_chip(name_in(world, dir)) {
        lemma_chip_by_channels(world, sensor, dir, from, n);
    }
}

/// An NVMe drive shows the number in `temp1_input` and nothing by label, any chip the speed of a fan
/// by the number in the file that has the number of the fan between `fan` and `_input`.
pub proof fn chip_by_one_file(world: spec_fn(Request) -> Answer, dir: Seq<char>, fan: u32)
    ensures
        occurs(name_in(world, dir), "nvme"@) ==> chip_in(world, HwmonSensor::NvmeTemperature, dir)
            == number_in(world, dir + "/"@ + "temp1_input"@),
        !occurs(name_in(world, dir), "nvme"@) ==> chip_in(
            world,
            HwmonSensor::NvmeTemperature,
            dir,
        ) is None,
        chip_in(world, HwmonSensor::FanSpeed(fan), dir) == number_in(
            world,
            dir + "/"@ + ("fan"@ + decimal_of(fan as nat) + "_input"@),
        ),
{
}

/// Each search lists `/sys/class/hwmon` and ends with what the first chip in that list that shows the
/// sensor shows: fans as they are, the others in thousandths. Where no chip shows it, or where the
/// chips cannot be listed, it ends with nothing.
pub proof fn searches_end_with_the_first_chip(
    world: spec_fn(Request) -> Answer,
    sensor: HwmonSensor,
    fan: u32,
    names: Seq<Seq<char>>,
    k: int,
    r: Step<HwmonProbe, Reading>,
)
    requires
        (sensor == HwmonSensor::CpuTemperature && call_ensures(find_cpu_temperature, (), r)) || (
        sensor == HwmonSensor::MotherboardTemperature && call_ensures(
            find_motherboard_temperature,
            (),
            r,
        )) || (sensor == HwmonSensor::NvmeTemperature && call_ensures(
            find_nvme_temperature,
            (),
            r,
        )) || (sensor == HwmonSensor::FanSpeed(fan) && call_ensures(
            find_system_fan_speed,
            (fan,),
            r,
        )) || (sensor == HwmonSensor::CpuVoltage && call_ensures(find_cpu_voltage, (), r)),
    ensures
        world(Request::List("/sys/class/hwmon"@)).names() is None ==> run(plan_of(r), world)
            == Reading::Absent,
        world(Request::List("/sys/class/hwmon"@)) == Answer::Names(Some(names)) && 0 <= k
            <= names.len() && (forall|j: int|
            0 <= j < k ==> chip_in(
                world,
                sensor,
                "/sys/class/hwmon"@ + "/"@ + #[trigger] names[j],
            ) is None) ==> {
            &&& k == names.len() ==> run(plan_of(r), world) == Reading::Absent
            &&& k < names.len() ==> (chip_in(
                world,
                sensor,
                "/sys/class/hwmon"@ + "/"@ + names[k],
            ) matches Some(bits) ==> {
                &&& sensor == HwmonSensor::FanSpeed(fan) ==> run(plan_of(r), world) == (
                Reading::Float { bits, divisor: 1 })
                &&& sensor != HwmonSensor::FanSpeed(fan) ==> run(plan_of(r), world) == (
                Reading::Float { bits, divisor: 1_000 })
            })
        },
{
    first_chip_wins(world, sensor);
    let dirs = paths_of("/sys/class/hwmon"@, names);
    if world(Request::List("/sys/class/hwmon"@)) == Answer::Names(Some(names)) && 0 <= k
        <= names.len() && (forall|j: int|
        0 <= j < k ==> chip_in(
            world,
            sensor,
            "/sys/class/hwmon"@ + "/"@ + #[trigger] names[j],
        ) is None) {
        assert forall|j: int| 0 <= j < k implies chip_in(world, sensor, #[trigger] dirs[j])
            is None by {
            assert(dirs[j] == "/sys/class/hwmon"@ + "/"@ + names[j]);
        }
        assert(none_before(world, sensor, dirs, k));
        if k < names.len() {
            assert(dirs[k] == "/sys/class/hwmon"@ + "/"@ + names[k]);
            if let Some(bits) = chip_in(world, sensor, dirs[k]) {
                assert(run(hwmon_plan(sensor), world) == sensor.value_of(bits));
            }
        }
    }
}

/// The search for the temperature of the processor ends with the number of the first channel that
/// has one of the labels, in thousandths, on the first chip that shows the temperature.
pub proof fn cpu_temperature_by_label(
    world: spec_fn(Request) -> Answer,
    names: Seq<Seq<char>>,
    k: int,
    n: u32,
    label: Seq<char>,
    bits: u32,
    r: Step<HwmonProbe, Reading>,
)
    requires
        call_ensures(find_cpu_temperature, (), r),
        world(Request::List("/sys/class/hwmon"@)) == Answer::Names(Some(names)),
        0 <= k < names.len(),
        forall|j: int|
            0 <= j < k ==> chip_in(
                world,
                HwmonSensor::CpuTemperature,
                "/sys/class/hwmon"@ + "/"@ + #[trigger] names[j],
            ) is None,
        occurs(name_in(world, "/sys/class/hwmon"@ + "/"@ + names[k]), "coretemp"@) || occurs(
            name_in(world, "/sys/class/hwmon"@ + "/"@ + names[k]),
            "k10temp"@,
        ) || occurs(name_in(world, "/sys/class/hwmon"@ + "/"@ + names[k]), "zenpower"@),
        1 <= n <= 32,
        forall|m: u32|
            1 <= m <= n ==> world(
                Request::Exists(
                    "/sys/class/hwmon"@ + "/"@ + names[k] + "/"@ + ("temp"@
                        + #[trigger] decimal_of(m as nat) + "_input"@),
                ),
            ) == Answer::Flag(true),
        forall|m: u32|
            1 <= m < n ==> #[trigger] channel_in(
                world,
                HwmonSensor::CpuTemperature,
                "/sys/class/hwmon"@ + "/"@ + names[k],
                m,
            ) is None,
        world(
            Request::Read(
                "/sys/class/hwmon"@ + "/"@ + names[k] + "/"@ + ("temp"@ + decimal_of(n as nat)
                    + "_label"@),
            ),
        ) == Answer::Text(Some(label)),
        occurs(trimmed(label), "Package id 0"@) || occurs(trimmed(label), "Tdie"@) || occurs(
            trimmed(label),
            "Tctl"@,
        ) || occurs(trimmed(label), "Tccd1"@) || occurs(trimmed(label), "Core 0"@),
        number_in(
            world,
            "/sys/class/hwmon"@ + "/"@ + names[k] + "/"@ + ("temp"@ + decimal_of(n as nat)
                + "_input"@),
        ) == Some(bits),
    ensures
        run(plan_of(r), world) == (Reading::Float { bits, divisor: 1_000 }),
{
    let sensor = HwmonSensor::CpuTemperature;
    let dir = "/sys/class/hwmon"@ + "/"@ + names[k];
    assert forall|m: u32| 1 <= m <= n implies #[trigger] has_input(world, sensor, dir, m) by {
        files_of_a_channel(world, sensor, dir, m, "temp"@);
        assert(decimal_of(m as nat) == decimal_of(m as nat));
    }
    files_of_a_channel(world, sensor, dir, n, "temp"@);
    chip_by_its_channels(world, sensor, dir, 1, n);
    searches_end_with_the_first_chip(world, sensor, 0, names, k, r);
}

} // verus!
