//! The list of the graphics cards of a machine.
use vstd::prelude::*;

use crate::file::{path, path_of, paths, paths_of};
use crate::gpu::{
    GpuEntry, GpuInfo, GpuSensor, GpuTarget, GpuVendor, VendorProbe, card_path, card_path_of,
    detect_gpu_vendor_for_card, gpu_plan, target_of, vendor_in, vendor_is_found, vendor_plan,
};
use crate::host::{Answer, Plan, Probe, Query, Reply, Request, Step, answering_keeps_the_result, asks, begins, bind, plan_of, run, run_bind};
use crate::number::{all_digits, decimal, decimal_of, digit, number_of_decimal, ten_digits};
use crate::order::{in_order, in_order_is_ordered, ordered, precedes, sort};
use crate::text::{after_prefix, characters, lines, lines_of, strip_prefix, trim, trimmed};

verus! {

/// What follows `PCI_ID=` in the first of the lines that begins so.
pub open spec fn pci_id_of(lines: Seq<Seq<char>>) -> Option<Seq<char>>
    decreases lines.len(),
{
    if lines.len() == 0 {
        None
    } else {
        match after_prefix(lines.first(), "PCI_ID="@) {
            Some(id) => Some(id),
            None => pci_id_of(lines.drop_first()),
        }
    }
}

/// What follows `PCI_ID=` in the first line of the text that begins so.
pub fn pci_id(text: &str) -> (r: Option<String>)
    ensures
        r.deep_view() == pci_id_of(lines_of(text@)),
{
    let all = lines(text);
    let mut i: usize = 0;
    assert(all.deep_view().skip(0) =~= all.deep_view());
    while i < all.len()
        invariant
            i <= all.len(),
            all.deep_view() == lines_of(text@),
            pci_id_of(all.deep_view()) == pci_id_of(all.deep_view().skip(i as int)),
        decreases all.len() - i,
    {
        assert(all.deep_view().skip(i as int).first() == all.deep_view()[i as int]);
        match strip_prefix(all[i].as_str(), "PCI_ID=") {
            Some(id) => {
                return Some(id.to_owned());
            },
            None => {},
        }
        assert(all.deep_view().skip(i as int).drop_first() =~= all.deep_view().skip(i + 1));
        i = i + 1;
    }
    None
}

/// Finds a name for the card: its PCI number, else the name of one of its monitoring chips, else
/// nothing.
pub open spec fn gpu_name_plan(card: Seq<char>) -> Plan<Seq<char>> {
    Plan::Ask(
        Request::Read(card_path_of(card, "/device/uevent"@)),
        |answer: Answer|
            match answer.text() {
                Some(t) => match pci_id_of(lines_of(t)) {
                    Some(id) => Plan::Done(id),
                    None => monitor_names_plan(card),
                },
                None => monitor_names_plan(card),
            },
    )
}

/// Finds a name among the monitoring chips of a card.
pub open spec fn monitor_names_plan(card: Seq<char>) -> Plan<Seq<char>> {
    let dir = card_path_of(card, "/device/hwmon"@);
    Plan::Ask(
        Request::List(dir),
        |answer: Answer|
            match answer.names() {
                Some(names) => name_files_plan(paths_of(dir, names)),
                None => Plan::Done(Seq::empty()),
            },
    )
}

/// Finds a name, that is more than white space, in the files `name` of these directories.
pub open spec fn name_files_plan(dirs: Seq<Seq<char>>) -> Plan<Seq<char>>
    decreases dirs.len(), 0int,
{
    if dirs.len() == 0 {
        Plan::Done(Seq::empty())
    } else {
        name_file_plan(dirs.first(), dirs.drop_first())
    }
}

/// Finds a name in the file `name` of `dir`, else in those of the directories in `rest`.
pub open spec fn name_file_plan(dir: Seq<char>, rest: Seq<Seq<char>>) -> Plan<Seq<char>>
    decreases rest.len(), 1int,
{
    Plan::Ask(
        Request::Read(path_of(dir, "name"@)),
        |answer: Answer|
            if answer.text() matches Some(t) && trimmed(t).len() > 0 {
                Plan::Done(trimmed(answer.text()->0))
            } else {
                name_files_plan(rest)
            },
    )
}

enum GpuNameStage {
    Events,
    Monitors,
    Monitor(Ghost<Seq<char>>),
}

/// The search for a name of a card.
pub struct GpuNameProbe {
    card: String,
    /// The directories to look in after the present one.
    rest: Vec<String>,
    stage: GpuNameStage,
}

impl GpuNameProbe {
    spec fn whole(&self) -> Plan<Seq<char>> {
        match self.stage {
            GpuNameStage::Events => gpu_name_plan(self.card@),
            GpuNameStage::Monitors => monitor_names_plan(self.card@),
            GpuNameStage::Monitor(dir) => name_file_plan(dir@, self.rest.deep_view()),
        }
    }

    spec fn stands(step: Step<GpuNameProbe, String>, plan: Plan<Seq<char>>) -> bool {
        match step {
            Step::Ask(q, p) => p.whole() == plan && (plan matches Plan::Ask(request, _) && request
                == q@),
            Step::Done(found) => plan == Plan::Done(found@),
        }
    }

    fn ask_monitors(card: String) -> (r: Step<GpuNameProbe, String>)
        ensures
            Self::stands(r, monitor_names_plan(card@)),
    {
        Step::Ask(
            Query::List(card_path(card.as_str(), "/device/hwmon")),
            GpuNameProbe { card, rest: Vec::new(), stage: GpuNameStage::Monitors },
        )
    }

    fn ask_name(card: String, dirs: Vec<String>) -> (r: Step<GpuNameProbe, String>)
        ensures
            Self::stands(r, name_files_plan(dirs.deep_view())),
    {
        let mut rest = dirs;
        if rest.len() == 0 {
            return Step::Done(String::new());
        }
        let dir = rest.remove(0);
        assert(rest.deep_view() =~= dirs.deep_view().drop_first());
        Step::Ask(
            Query::Read(path(dir.as_str(), "name")),
            GpuNameProbe { card, rest, stage: GpuNameStage::Monitor(Ghost(dir@)) },
        )
    }
}

impl Probe for GpuNameProbe {
    type Found = String;

    closed spec fn plan(&self) -> Plan<Seq<char>> {
        self.whole()
    }

    proof fn waits(&self) {
    }

    fn resume(self, reply: Reply) -> (r: Step<Self, String>) {
        let card = self.card;
        match self.stage {
            GpuNameStage::Events => match reply.text() {
                Some(t) => match pci_id(t.as_str()) {
                    Some(id) => Step::Done(id),
                    None => Self::ask_monitors(card),
                },
                None => Self::ask_monitors(card),
            },
            GpuNameStage::Monitors => match reply.names() {
                Some(names) => {
                    let dir = card_path(card.as_str(), "/device/hwmon");
                    Self::ask_name(card, paths(dir.as_str(), &names))
                },
                None => Step::Done(String::new()),
            },
            GpuNameStage::Monitor(_) => match reply.text() {
                Some(t) => {
                    let name = trim(t.as_str());
                    if name.is_empty() {
                        Self::ask_name(card, self.rest)
                    } else {
                        Step::Done(name.to_owned())
                    }
                },
                None => Self::ask_name(card, self.rest),
            },
        }
    }
}

/// Begins to look for a name of the card.
pub fn read_gpu_name(card: String) -> (r: (Query, GpuNameProbe))
    ensures
        asks(r.0, r.1, gpu_name_plan(card@)),
{
    (
        Query::Read(card_path(card.as_str(), "/device/uevent")),
        GpuNameProbe { card, rest: Vec::new(), stage: GpuNameStage::Events },
    )
}

/// The name of an entry of `/sys/class/drm` that is a card, and not one of its outputs: `card`,
/// then at least one digit, and nothing but digits.
pub open spec fn is_card(name: Seq<char>) -> bool {
    after_prefix(name, "card"@) matches Some(number) && number.len() > 0 && all_digits(number)
}

/// Whether the entry is a card.
pub fn card(name: &str) -> (r: bool)
    ensures
        r == is_card(name@),
{
    match strip_prefix(name, "card") {
        Some(number) => {
            let v = characters(number);
            if v.len() == 0 {
                return false;
            }
            let mut i: usize = 0;
            while i < v.len()
                invariant
                    i <= v.len(),
                    v@ == number@,
                    after_prefix(name@, "card"@) == Some(number@),
                    all_digits(v@.take(i as int)),
                decreases v.len() - i,
            {
                if !digit(v[i]) {
                    return false;
                }
                assert forall|j: int| 0 <= j < i + 1 implies crate::number::is_digit(
                    #[trigger] v@.take(i + 1)[j],
                ) by {
                    if j < i {
                        assert(crate::number::is_digit(v@.take(i as int)[j]));
                    }
                }
                i = i + 1;
            }
            assert(v@.take(i as int) =~= v@);
            true
        },
        None => false,
    }
}

/// The cards among the entries, in order.
pub open spec fn cards_of(names: Seq<Seq<char>>) -> Seq<Seq<char>> {
    in_order(names.filter(|name: Seq<char>| is_card(name)))
}

/// The cards among the entries, in order.
pub fn cards(names: &Vec<String>) -> (r: Vec<String>)
    ensures
        r.deep_view() == cards_of(names.deep_view()),
{
    let ghost all = names.deep_view();
    let ghost keep = |name: Seq<char>| is_card(name);
    let mut kept: Vec<String> = Vec::new();
    let mut i: usize = 0;
    proof {
        reveal(Seq::filter);
        assert(all.take(0) =~= Seq::empty());
        assert(kept.deep_view() =~= Seq::empty());
    }
    while i < names.len()
        invariant
            i <= names.len(),
            all == names.deep_view(),
            keep == (|name: Seq<char>| is_card(name)),
            kept.deep_view() == all.take(i as int).filter(keep),
        decreases names.len() - i,
    {
        let ghost before = kept.deep_view();
        proof {
            reveal(Seq::filter);
            assert(all.take(i + 1).drop_last() =~= all.take(i as int));
            assert(all.take(i + 1).last() == all[i as int]);
        }
        if card(names[i].as_str()) {
            kept.push(names[i].clone());
            assert(kept.deep_view() =~= before.push(all[i as int]));
        }
        i = i + 1;
    }
    assert(all.take(i as int) =~= all);
    sort(&kept)
}

/// How the NVIDIA device with this index is listed, where the driver gives it this name or none.
pub open spec fn device_entry(index: u32, name: Option<Seq<char>>) -> GpuEntry {
    let number = decimal_of(index as nat);
    let shown = match name {
        Some(name) => name,
        None => "NVIDIA GPU "@ + number,
    };
    GpuEntry {
        card: "nvidia:"@ + number,
        name: "NVIDIA "@ + shown + " (GPU "@ + number + ")"@,
    }
}

fn device_info(index: u32, name: Option<String>) -> (r: GpuInfo)
    ensures
        r@ == device_entry(index, name.deep_view()),
{
    let number = decimal(index);
    let shown = match name {
        Some(name) => name,
        None => "NVIDIA GPU ".to_owned().concat(number.as_str()),
    };
    GpuInfo {
        card: "nvidia:".to_owned().concat(number.as_str()),
        name: "NVIDIA ".to_owned().concat(shown.as_str()).concat(" (GPU ").concat(
            number.as_str(),
        ).concat(")"),
    }
}

/// How a card without a name of its own is called.
pub open spec fn vendor_word(vendor: GpuVendor) -> Seq<char> {
    match vendor {
        GpuVendor::Amd => "AMD"@,
        GpuVendor::Intel => "Intel"@,
        _ => "GPU"@,
    }
}

/// How a card of the kernel's list is listed.
pub open spec fn card_entry(card: Seq<char>, name: Seq<char>, vendor: GpuVendor) -> GpuEntry {
    GpuEntry {
        card,
        name: if name.len() == 0 {
            vendor_word(vendor) + " "@ + card + " ("@ + card + ")"@
        } else {
            card + " - "@ + name
        },
    }
}

fn card_info(card: String, name: String, vendor: GpuVendor) -> (r: GpuInfo)
    ensures
        r@ == card_entry(card@, name@, vendor),
{
    let shown = if name.as_str().is_empty() {
        let word = match vendor {
            GpuVendor::Amd => "AMD",
            GpuVendor::Intel => "Intel",
            _ => "GPU",
        };
        word.to_owned().concat(" ").concat(card.as_str()).concat(" (").concat(
            card.as_str(),
        ).concat(")")
    } else {
        card.clone().concat(" - ").concat(name.as_str())
    };
    GpuInfo { card, name: shown }
}

/// The graphics cards that a listing has found.
pub struct GpuList {
    pub gpus: Vec<GpuInfo>,
}

impl View for GpuList {
    type V = Seq<GpuEntry>;

    open spec fn view(&self) -> Seq<GpuEntry> {
        self.gpus.deep_view()
    }
}

/// Lists the cards: those of the NVIDIA driver, if it is there, then those of the kernel.
pub open spec fn list_plan() -> Plan<Seq<GpuEntry>> {
    Plan::Ask(
        Request::Exists("/proc/driver/nvidia/version"@),
        |answer: Answer|
            if answer.flag() {
                count_plan()
            } else {
                drm_plan(Seq::empty())
            },
    )
}

/// Lists the cards, those of the NVIDIA driver first.
pub open spec fn count_plan() -> Plan<Seq<GpuEntry>> {
    Plan::Ask(
        Request::DeviceCount,
        |answer: Answer|
            match answer.number() {
                Some(count) => devices_plan(Seq::empty(), 0, count),
                None => drm_plan(Seq::empty()),
            },
    )
}

/// Lists the devices of the NVIDIA driver from `index` up to `count`, then the cards of the
/// kernel, behind those found already.
pub open spec fn devices_plan(found: Seq<GpuEntry>, index: u32, count: u32) -> Plan<Seq<GpuEntry>>
    decreases count - index, 1int,
{
    if index < count {
        device_plan(found, index, count)
    } else {
        drm_plan(found)
    }
}

/// Lists the device with this index, then those behind it.
pub open spec fn device_plan(found: Seq<GpuEntry>, index: u32, count: u32) -> Plan<Seq<GpuEntry>>
    decreases count - index, 0int,
{
    Plan::Ask(
        Request::Device(index),
        |answer: Answer|
            if index < count {
                devices_plan(
                    match answer.device() {
                        Some(name) => found.push(device_entry(index, name)),
                        None => found,
                    },
                    (index + 1) as u32,
                    count,
                )
            } else {
                drm_plan(found)
            },
    )
}

/// Lists the cards of the kernel, behind those found already.
pub open spec fn drm_plan(found: Seq<GpuEntry>) -> Plan<Seq<GpuEntry>> {
    Plan::Ask(
        Request::List("/sys/class/drm"@),
        |answer: Answer|
            match answer.names() {
                Some(names) => cards_plan(found, cards_of(names)),
                None => Plan::Done(found),
            },
    )
}

/// Lists these cards in turn, behind those found already.
pub open spec fn cards_plan(found: Seq<GpuEntry>, cards: Seq<Seq<char>>) -> Plan<Seq<GpuEntry>>
    decreases cards.len(), 0int,
{
    if cards.len() == 0 {
        Plan::Done(found)
    } else {
        named_plan(found, cards.first(), cards.drop_first(), gpu_name_plan(cards.first()))
    }
}

/// Lists `card` once `name` has found a name of it, then the cards in `rest`.
pub open spec fn named_plan(
    found: Seq<GpuEntry>,
    card: Seq<char>,
    rest: Seq<Seq<char>>,
    name: Plan<Seq<char>>,
) -> Plan<Seq<GpuEntry>>
    decreases rest.len(), 4int,
{
    bind(name, by_name(found, card, rest))
}

/// What to do with the name of `card`: find who made it, list it, then list the cards in `rest`.
pub open spec fn by_name(
    found: Seq<GpuEntry>,
    card: Seq<char>,
    rest: Seq<Seq<char>>,
) -> spec_fn(Seq<char>) -> Plan<Seq<GpuEntry>>
    decreases rest.len(), 3int,
{
    |name: Seq<char>| made_plan(found, card, rest, name, vendor_plan(card))
}

/// Lists `card` with this name once `vendor` has found who made it, then the cards in `rest`.
pub open spec fn made_plan(
    found: Seq<GpuEntry>,
    card: Seq<char>,
    rest: Seq<Seq<char>>,
    name: Seq<char>,
    vendor: Plan<GpuVendor>,
) -> Plan<Seq<GpuEntry>>
    decreases rest.len(), 2int,
{
    bind(vendor, by_vendor(found, card, rest, name))
}

/// What to do with the vendor of `card`: list the card, then the cards in `rest`.
pub open spec fn by_vendor(
    found: Seq<GpuEntry>,
    card: Seq<char>,
    rest: Seq<Seq<char>>,
    name: Seq<char>,
) -> spec_fn(GpuVendor) -> Plan<Seq<GpuEntry>>
    decreases rest.len(), 1int,
{
    |vendor: GpuVendor| cards_plan(found.push(card_entry(card, name, vendor)), rest)
}

enum ListStage {
    Driver,
    Count,
    Device(u32, u32),
    Cards,
    Name(String, GpuNameProbe),
    Vendor(String, String, VendorProbe),
}

/// The search for all graphics cards.
pub struct ListProbe {
    found: Vec<GpuInfo>,
    /// The cards to list after the present one.
    rest: Vec<String>,
    stage: ListStage,
}

impl ListProbe {
    spec fn whole(&self) -> Plan<Seq<GpuEntry>> {
        let found = self.found.deep_view();
        let rest = self.rest.deep_view();
        match self.stage {
            ListStage::Driver => list_plan(),
            ListStage::Count => count_plan(),
            ListStage::Device(index, count) => device_plan(found, index, count),
            ListStage::Cards => drm_plan(found),
            ListStage::Name(card, name) => named_plan(found, card@, rest, name.plan()),
            ListStage::Vendor(card, name, vendor) => made_plan(
                found,
                card@,
                rest,
                name@,
                vendor.plan(),
            ),
        }
    }

    spec fn stands(step: Step<ListProbe, GpuList>, plan: Plan<Seq<GpuEntry>>) -> bool {
        match step {
            Step::Ask(q, p) => p.whole() == plan && (plan matches Plan::Ask(request, _) && request
                == q@),
            Step::Done(found) => plan == Plan::Done(found@),
        }
    }

    fn ask_drm(found: Vec<GpuInfo>) -> (r: Step<ListProbe, GpuList>)
        ensures
            Self::stands(r, drm_plan(found.deep_view())),
    {
        Step::Ask(
            Query::List("/sys/class/drm".to_owned()),
            ListProbe { found, rest: Vec::new(), stage: ListStage::Cards },
        )
    }

    fn ask_device(found: Vec<GpuInfo>, index: u32, count: u32) -> (r: Step<ListProbe, GpuList>)
        ensures
            Self::stands(r, devices_plan(found.deep_view(), index, count)),
    {
        if index < count {
            Step::Ask(
                Query::Device(index),
                ListProbe { found, rest: Vec::new(), stage: ListStage::Device(index, count) },
            )
        } else {
            Self::ask_drm(found)
        }
    }

    fn ask_name(found: Vec<GpuInfo>, cards: Vec<String>) -> (r: Step<ListProbe, GpuList>)
        ensures
            Self::stands(r, cards_plan(found.deep_view(), cards.deep_view())),
    {
        let mut rest = cards;
        if rest.len() == 0 {
            return Step::Done(GpuList { gpus: found });
        }
        let card = rest.remove(0);
        assert(rest.deep_view() =~= cards.deep_view().drop_first());
        let (query, name) = read_gpu_name(card.clone());
        Step::Ask(query, ListProbe { found, rest, stage: ListStage::Name(card, name) })
    }
}

proof fn lemma_named_after(
    found: Seq<GpuEntry>,
    card: Seq<char>,
    rest: Seq<Seq<char>>,
    name: Plan<Seq<char>>,
    answer: Answer,
)
    requires
        name is Ask,
    ensures
        named_plan(found, card, rest, name) is Ask,
        named_plan(found, card, rest, name)->Ask_0 == name->Ask_0,
        named_plan(found, card, rest, name).after(answer) == named_plan(
            found,
            card,
            rest,
            name.after(answer),
        ),
{
}

proof fn lemma_made_after(
    found: Seq<GpuEntry>,
    card: Seq<char>,
    rest: Seq<Seq<char>>,
    name: Seq<char>,
    vendor: Plan<GpuVendor>,
    answer: Answer,
)
    requires
        vendor is Ask,
    ensures
        made_plan(found, card, rest, name, vendor) is Ask,
        made_plan(found, card, rest, name, vendor)->Ask_0 == vendor->Ask_0,
        made_plan(found, card, rest, name, vendor).after(answer) == made_plan(
            found,
            card,
            rest,
            name,
            vendor.after(answer),
        ),
{
}

impl Probe for ListProbe {
    type Found = GpuList;

    closed spec fn plan(&self) -> Plan<Seq<GpuEntry>> {
        self.whole()
    }

    proof fn waits(&self) {
        match self.stage {
            ListStage::Name(_, name) => name.waits(),
            ListStage::Vendor(_, _, vendor) => vendor.waits(),
            _ => {},
        }
    }

    fn resume(self, reply: Reply) -> (r: Step<Self, GpuList>) {
        let mut found = self.found;
        let rest = self.rest;
        let ghost old_found = found.deep_view();
        match self.stage {
            ListStage::Driver => {
                let none: Vec<GpuInfo> = Vec::new();
                assert(none.deep_view() =~= Seq::empty());
                if reply.flag() {
                    Step::Ask(
                        Query::DeviceCount,
                        ListProbe { found: none, rest, stage: ListStage::Count },
                    )
                } else {
                    Self::ask_drm(none)
                }
            },
            ListStage::Count => {
                let none: Vec<GpuInfo> = Vec::new();
                assert(none.deep_view() =~= Seq::empty());
                match reply.number() {
                    Some(count) => Self::ask_device(none, 0, count),
                    None => Self::ask_drm(none),
                }
            },
            ListStage::Device(index, count) => {
                if index < count {
                    match reply.device() {
                        Some(name) => {
                            let info = device_info(index, name);
                            found.push(info);
                            assert(found.deep_view() =~= old_found.push(info@));
                        },
                        None => {},
                    }
                    Self::ask_device(found, index + 1, count)
                } else {
                    Self::ask_drm(found)
                }
            },
            ListStage::Cards => match reply.names() {
                Some(names) => Self::ask_name(found, cards(&names)),
                None => Step::Done(GpuList { gpus: found }),
            },
            ListStage::Name(card, name) => {
                proof {
                    name.waits();
                    lemma_named_after(old_found, card@, rest.deep_view(), name.plan(), reply@);
                }
                match name.resume(reply) {
                    Step::Ask(query, name) => Step::Ask(
                        query,
                        ListProbe { found, rest, stage: ListStage::Name(card, name) },
                    ),
                    Step::Done(name) => {
                        let (query, vendor) = detect_gpu_vendor_for_card(card.clone());
                        Step::Ask(
                            query,
                            ListProbe { found, rest, stage: ListStage::Vendor(card, name, vendor) },
                        )
                    },
                }
            },
            ListStage::Vendor(card, name, vendor) => {
                proof {
                    vendor.waits();
                    lemma_made_after(
                        old_found,
                        card@,
                        rest.deep_view(),
                        name@,
                        vendor.plan(),
                        reply@,
                    );
                }
                match vendor.resume(reply) {
                    Step::Ask(query, vendor) => Step::Ask(
                        query,
                        ListProbe { found, rest, stage: ListStage::Vendor(card, name, vendor) },
                    ),
                    Step::Done(vendor) => {
                        let info = card_info(card, name, vendor);
                        found.push(info);
                        assert(found.deep_view() =~= old_found.push(info@));
                        Self::ask_name(found, rest)
                    },
                }
            },
        }
    }
}

/// Begins to list the graphics cards.
pub fn list_gpus() -> (r: Step<ListProbe, GpuList>)
    ensures
        begins(r, list_plan()),
{
    Step::Ask(
        Query::Exists("/proc/driver/nvidia/version".to_owned()),
        ListProbe { found: Vec::new(), rest: Vec::new(), stage: ListStage::Driver },
    )
}

/// The first name, that is more than white space, in the files `name` of these directories.
pub open spec fn file_name_in(
    world: spec_fn(Request) -> Answer,
    dirs: Seq<Seq<char>>,
) -> Seq<char>
    decreases dirs.len(),
{
    if dirs.len() == 0 {
        Seq::empty()
    } else {
        match world(Request::Read(path_of(dirs.first(), "name"@))).text() {
            Some(t) => if trimmed(t).len() > 0 {
                trimmed(t)
            } else {
                file_name_in(world, dirs.drop_first())
            },
            None => file_name_in(world, dirs.drop_first()),
        }
    }
}

/// The PCI number of the card with this name.
pub open spec fn pci_id_in(world: spec_fn(Request) -> Answer, card: Seq<char>) -> Option<Seq<char>> {
    match world(Request::Read(card_path_of(card, "/device/uevent"@))).text() {
        Some(t) => pci_id_of(lines_of(t)),
        None => None,
    }
}

/// The name of the card, on a machine that answers as `world` does.
pub open spec fn gpu_name_in(world: spec_fn(Request) -> Answer, card: Seq<char>) -> Seq<char> {
    let dir = card_path_of(card, "/device/hwmon"@);
    match (pci_id_in(world, card), world(Request::List(dir)).names()) {
        (Some(id), _) => id,
        (None, Some(names)) => file_name_in(world, paths_of(dir, names)),
        (None, None) => Seq::empty(),
    }
}

/// The devices of the NVIDIA driver from `index` up to `count`, those left out that are not there.
pub open spec fn devices_in(
    world: spec_fn(Request) -> Answer,
    index: u32,
    count: u32,
) -> Seq<GpuEntry>
    decreases count - index,
{
    if index < count {
        let rest = devices_in(world, (index + 1) as u32, count);
        match world(Request::Device(index)).device() {
            Some(name) => seq![device_entry(index, name)] + rest,
            None => rest,
        }
    } else {
        Seq::empty()
    }
}

/// All devices of the NVIDIA driver, if it is there.
pub open spec fn all_devices_in(world: spec_fn(Request) -> Answer) -> Seq<GpuEntry> {
    if world(Request::Exists("/proc/driver/nvidia/version"@)).flag() {
        match world(Request::DeviceCount).number() {
            Some(count) => devices_in(world, 0, count),
            None => Seq::empty(),
        }
    } else {
        Seq::empty()
    }
}

/// These cards of the kernel, each with its name and the one who made it.
pub open spec fn cards_in(
    world: spec_fn(Request) -> Answer,
    cards: Seq<Seq<char>>,
) -> Seq<GpuEntry> {
    cards.map_values(
        |card: Seq<char>| card_entry(card, gpu_name_in(world, card), vendor_in(world, card)),
    )
}

/// All cards of the kernel.
pub open spec fn all_cards_in(world: spec_fn(Request) -> Answer) -> Seq<GpuEntry> {
    match world(Request::List("/sys/class/drm"@)).names() {
        Some(names) => cards_in(world, cards_of(names)),
        None => Seq::empty(),
    }
}

proof fn lemma_run_name_files(world: spec_fn(Request) -> Answer, dirs: Seq<Seq<char>>)
    ensures
        run(name_files_plan(dirs), world) == file_name_in(world, dirs),
    decreases dirs.len(),
{
    if dirs.len() > 0 {
        answering_keeps_the_result(name_file_plan(dirs.first(), dirs.drop_first()), world);
        lemma_run_name_files(world, dirs.drop_first());
    }
}

/// On a machine that does not change, the search for a name of a card finds it.
pub proof fn gpu_name_is_found(world: spec_fn(Request) -> Answer, card: Seq<char>)
    ensures
        run(gpu_name_plan(card), world) == gpu_name_in(world, card),
{
    let dir = card_path_of(card, "/device/hwmon"@);
    answering_keeps_the_result(gpu_name_plan(card), world);
    answering_keeps_the_result(monitor_names_plan(card), world);
    if let Some(names) = world(Request::List(dir)).names() {
        lemma_run_name_files(world, paths_of(dir, names));
    }
}

proof fn lemma_run_named(
    world: spec_fn(Request) -> Answer,
    found: Seq<GpuEntry>,
    card: Seq<char>,
    rest: Seq<Seq<char>>,
    name: Plan<Seq<char>>,
)
    ensures
        run(named_plan(found, card, rest, name), world) == run(
            made_plan(found, card, rest, run(name, world), vendor_plan(card)),
            world,
        ),
{
    run_bind(name, by_name(found, card, rest), world);
}

proof fn lemma_run_made(
    world: spec_fn(Request) -> Answer,
    found: Seq<GpuEntry>,
    card: Seq<char>,
    rest: Seq<Seq<char>>,
    name: Seq<char>,
    vendor: Plan<GpuVendor>,
)
    ensures
        run(made_plan(found, card, rest, name, vendor), world) == run(
            cards_plan(found.push(card_entry(card, name, run(vendor, world))), rest),
            world,
        ),
{
    run_bind(vendor, by_vendor(found, card, rest, name), world);
}

proof fn lemma_run_cards(
    world: spec_fn(Request) -> Answer,
    found: Seq<GpuEntry>,
    cards: Seq<Seq<char>>,
)
    ensures
        run(cards_plan(found, cards), world) == found + cards_in(world, cards),
    decreases cards.len(),
{
    if cards.len() == 0 {
        assert(found + cards_in(world, cards) =~= found);
    } else {
        let card = cards.first();
        let rest = cards.drop_first();
        let name = gpu_name_in(world, card);
        gpu_name_is_found(world, card);
        vendor_is_found(world, card);
        lemma_run_named(world, found, card, rest, gpu_name_plan(card));
        lemma_run_made(world, found, card, rest, name, vendor_plan(card));
        let more = found.push(card_entry(card, name, vendor_in(world, card)));
        lemma_run_cards(world, more, rest);
        assert(more + cards_in(world, rest) =~= found + cards_in(world, cards));
    }
}

proof fn lemma_run_drm(world: spec_fn(Request) -> Answer, found: Seq<GpuEntry>)
    ensures
        run(drm_plan(found), world) == found + all_cards_in(world),
{
    answering_keeps_the_result(drm_plan(found), world);
    match world(Request::List("/sys/class/drm"@)).names() {
        Some(names) => {
            lemma_run_cards(world, found, cards_of(names));
        },
        None => {
            assert(found + all_cards_in(world) =~= found);
        },
    }
}

proof fn lemma_run_devices(
    world: spec_fn(Request) -> Answer,
    found: Seq<GpuEntry>,
    index: u32,
    count: u32,
)
    ensures
        run(devices_plan(found, index, count), world) == found + devices_in(world, index, count)
            + all_cards_in(world),
    decreases count - index,
{
    if index < count {
        let next = (index + 1) as u32;
        let rest = devices_in(world, next, count);
        answering_keeps_the_result(device_plan(found, index, count), world);
        match world(Request::Device(index)).device() {
            Some(name) => {
                let more = found.push(device_entry(index, name));
                lemma_run_devices(world, more, next, count);
                assert(more + rest + all_cards_in(world) =~= found + (seq![
                    device_entry(index, name),
                ] + rest) + all_cards_in(world));
            },
            None => {
                lemma_run_devices(world, found, next, count);
            },
        }
    } else {
        lemma_run_drm(world, found);
        assert(found + devices_in(world, index, count) =~= found);
    }
}

/// On a machine that does not change, the listing has the devices of the NVIDIA driver, if it is
/// there, and behind them the cards of the kernel.
pub proof fn devices_then_cards(world: spec_fn(Request) -> Answer)
    ensures
        run(list_plan(), world) == all_devices_in(world) + all_cards_in(world),
{
    answering_keeps_the_result(list_plan(), world);
    answering_keeps_the_result(count_plan(), world);
    let none = Seq::<GpuEntry>::empty();
    lemma_run_drm(world, none);
    if let Some(count) = world(Request::DeviceCount).number() {
        lemma_run_devices(world, none, 0, count);
        assert(none + devices_in(world, 0, count) =~= devices_in(world, 0, count));
    }
}

/// The card name that an NVIDIA device is listed by is one that leads back to the device: each of
/// its sensors is looked for at that device.
pub proof fn listed_device_leads_back(index: u32, name: Option<Seq<char>>)
    ensures
        target_of(device_entry(index, name).card) == GpuTarget::Device(index),
        forall|sensor: GpuSensor| #[trigger]
            gpu_plan(sensor, device_entry(index, name).card) == crate::gpu::device_plan(
                sensor,
                index,
            ),
{
    let number = decimal_of(index as nat);
    let card = device_entry(index, name).card;
    number_of_decimal(index as nat, u32::MAX as int);
    assert("nvidia:"@.is_prefix_of(card));
    assert(card.skip("nvidia:"@.len() as int) =~= number);
}

/// No two NVIDIA devices are listed by the same card name.
pub proof fn listed_devices_are_told_apart(
    a: u32,
    name_a: Option<Seq<char>>,
    b: u32,
    name_b: Option<Seq<char>>,
)
    requires
        a != b,
    ensures
        device_entry(a, name_a).card != device_entry(b, name_b).card,
{
    listed_device_leads_back(a, name_a);
    listed_device_leads_back(b, name_b);
}

/// No card of the kernel has a name that leads to an NVIDIA device.
pub proof fn listed_card_leads_back(card: Seq<char>)
    requires
        is_card(card),
    ensures
        target_of(card) == GpuTarget::Card,
{
    reveal_strlit("card");
    reveal_strlit("nvidia:");
    assert("card"@[0] == 'c');
    assert(card[0] == 'c');
    assert("nvidia:"@[0] == 'n');
}

/// The cards that are listed are the entries that are cards, each as often as it is there, and in
/// order.
pub proof fn cards_are_the_entries_in_order(names: Seq<Seq<char>>)
    ensures
        ordered(cards_of(names)),
        cards_of(names).to_multiset() == names.filter(
            |name: Seq<char>| is_card(name),
        ).to_multiset(),
        forall|i: int| 0 <= i < cards_of(names).len() ==> is_card(#[trigger] cards_of(names)[i]),
{
    let kept = names.filter(|name: Seq<char>| is_card(name));
    in_order_is_ordered(kept);
    broadcast use vstd::seq_lib::group_to_multiset_ensures;
    assert forall|i: int| 0 <= i < cards_of(names).len() implies is_card(
        #[trigger] cards_of(names)[i],
    ) by {
        let card = cards_of(names)[i];
        assert(cards_of(names).contains(card));
        assert(kept.to_multiset().count(card) > 0);
        assert(kept.contains(card));
        let j = choose|j: int| 0 <= j < kept.len() && kept[j] == card;
        names.lemma_filter_pred(|name: Seq<char>| is_card(name), j);
    }
}

/// The entry is that of an NVIDIA device that the driver knows, and leads back to it.
pub open spec fn is_device_entry(
    world: spec_fn(Request) -> Answer,
    entry: GpuEntry,
    index: u32,
) -> bool {
    &&& world(Request::Device(index)).device() matches Some(name) && entry == device_entry(
        index,
        name,
    )
    &&& target_of(entry.card) == GpuTarget::Device(index)
}

/// The entry is that of an NVIDIA device that the driver knows, and leads back to it.
pub open spec fn is_some_device_entry(world: spec_fn(Request) -> Answer, entry: GpuEntry) -> bool {
    exists|index: u32| is_device_entry(world, entry, index)
}

proof fn lemma_devices_lead_back(world: spec_fn(Request) -> Answer, from: u32, count: u32)
    ensures
        forall|k: int|
            0 <= k < devices_in(world, from, count).len() ==> is_some_device_entry(
                world,
                #[trigger] devices_in(world, from, count)[k],
            ),
    decreases count - from,
{
    if from < count {
        let all = devices_in(world, from, count);
        let next = (from + 1) as u32;
        let rest = devices_in(world, next, count);
        lemma_devices_lead_back(world, next, count);
        if let Some(name) = world(Request::Device(from)).device() {
            listed_device_leads_back(from, name);
            assert(is_device_entry(world, all[0], from));
            assert forall|k: int| 0 <= k < all.len() implies is_some_device_entry(
                world,
                #[trigger] all[k],
            ) by {
                if k > 0 {
                    assert(all[k] == rest[k - 1]);
                }
            }
        }
    }
}

/// Whatever is listed is found again by the card name it is listed with: a device of the NVIDIA
/// driver at that device, a card of the kernel under its name in the kernel's list.
pub proof fn whatever_is_listed_is_found_again(world: spec_fn(Request) -> Answer)
    ensures
        forall|k: int|
            0 <= k < all_devices_in(world).len() ==> is_some_device_entry(
                world,
                #[trigger] run(list_plan(), world)[k],
            ),
        forall|k: int|
            all_devices_in(world).len() <= k < run(list_plan(), world).len() ==> {
                let card = (#[trigger] run(list_plan(), world)[k]).card;
                is_card(card) && target_of(card) == GpuTarget::Card
            },
{
    let devices = all_devices_in(world);
    let all = run(list_plan(), world);
    devices_then_cards(world);
    if let Some(count) = world(Request::DeviceCount).number() {
        lemma_devices_lead_back(world, 0, count);
    }
    assert forall|k: int| 0 <= k < devices.len() implies is_some_device_entry(
        world,
        #[trigger] all[k],
    ) by {
        assert(all[k] == devices[k]);
    }
    assert forall|k: int| devices.len() <= k < all.len() implies is_card(
        (#[trigger] all[k]).card,
    ) && target_of(all[k].card) == GpuTarget::Card by {
        let names = world(Request::List("/sys/class/drm"@)).names()->0;
        cards_are_the_entries_in_order(names);
        let card = cards_of(names)[k - devices.len()];
        assert(all[k].card == card);
        listed_card_leads_back(card);
    }
}

proof fn lemma_first_pci_id(lines: Seq<Seq<char>>, k: int)
    requires
        0 <= k <= lines.len(),
        forall|j: int| 0 <= j < k ==> !"PCI_ID="@.is_prefix_of(#[trigger] lines[j]),
    ensures
        k == lines.len() ==> pci_id_of(lines) is None,
        k < lines.len() && "PCI_ID="@.is_prefix_of(lines[k]) ==> pci_id_of(lines) == Some(
            lines[k].skip(7),
        ),
    decreases lines.len(),
{
    reveal_strlit("PCI_ID=");
    if lines.len() > 0 && k > 0 {
        let rest = lines.drop_first();
        assert(!"PCI_ID="@.is_prefix_of(lines[0]));
        assert forall|j: int| 0 <= j < k - 1 implies !"PCI_ID="@.is_prefix_of(
            #[trigger] rest[j],
        ) by {
            assert(rest[j] == lines[j + 1]);
        }
        lemma_first_pci_id(rest, k - 1);
    }
}

/// The PCI number is what follows `PCI_ID=` in the first line that begins so, whatever the lines
/// before it are; there is none where no line begins so.
pub proof fn pci_id_of_the_first_line(text: &str, k: int, r: Option<String>)
    requires
        call_ensures(pci_id, (text,), r),
        0 <= k <= lines_of(text@).len(),
        forall|j: int| 0 <= j < k ==> !"PCI_ID="@.is_prefix_of(#[trigger] lines_of(text@)[j]),
    ensures
        k == lines_of(text@).len() ==> r is None,
        k < lines_of(text@).len() && "PCI_ID="@.is_prefix_of(lines_of(text@)[k]) ==> (r matches Some(
            id,
        ) && id@ == lines_of(text@)[k].skip(7)),
{
    lemma_first_pci_id(lines_of(text@), k);
}

/// The search for a name of a card reads its events, and ends with the PCI number in the first line
/// that gives one.
pub proof fn name_by_the_pci_id(
    world: spec_fn(Request) -> Answer,
    card: String,
    text: Seq<char>,
    k: int,
    r: (Query, GpuNameProbe),
)
    requires
        world(Request::Read("/sys/class/drm/"@ + card@ + "/device/uevent"@)) == Answer::Text(
            Some(text),
        ),
        0 <= k < lines_of(text).len(),
        "PCI_ID="@.is_prefix_of(lines_of(text)[k]),
        forall|j: int| 0 <= j < k ==> !"PCI_ID="@.is_prefix_of(#[trigger] lines_of(text)[j]),
    ensures
        gpu_name_in(world, card@) == lines_of(text)[k].skip(7),
        call_ensures(read_gpu_name, (card,), r) ==> {
            &&& r.0@ == Request::Read("/sys/class/drm/"@ + card@ + "/device/uevent"@)
            &&& run(r.1.plan(), world) == lines_of(text)[k].skip(7)
        },
{
    lemma_first_pci_id(lines_of(text), k);
    gpu_name_is_found(world, card@);
}

proof fn lemma_first_file_name(world: spec_fn(Request) -> Answer, dirs: Seq<Seq<char>>, k: int)
    requires
        0 <= k <= dirs.len(),
        forall|j: int|
            0 <= j < k ==> match world(Request::Read((#[trigger] dirs[j]) + "/"@ + "name"@)) {
                Answer::Text(Some(t)) => trimmed(t).len() == 0,
                _ => true,
            },
    ensures
        k == dirs.len() ==> file_name_in(world, dirs) == Seq::<char>::empty(),
        k < dirs.len() ==> match world(Request::Read(dirs[k] + "/"@ + "name"@)) {
            Answer::Text(Some(t)) => trimmed(t).len() > 0 ==> file_name_in(world, dirs) == trimmed(
                t,
            ),
            _ => true,
        },
    decreases dirs.len(),
{
    if dirs.len() > 0 && k > 0 {
        let rest = dirs.drop_first();
        assert(dirs[0] == dirs.first());
        assert forall|j: int| 0 <= j < k - 1 implies match world(
            Request::Read((#[trigger] rest[j]) + "/"@ + "name"@),
        ) {
            Answer::Text(Some(t)) => trimmed(t).len() == 0,
            _ => true,
        } by {
            assert(rest[j] == dirs[j + 1]);
        }
        lemma_first_file_name(world, rest, k - 1);
    }
}

/// A card whose events cannot be read, or give no PCI number, is named after the first of its
/// monitoring chips, as the system lists them, whose file `name` holds more than white space; and not
/// at all where none does, or where the chips cannot be listed.
pub proof fn name_by_a_monitor(
    world: spec_fn(Request) -> Answer,
    card: String,
    names: Seq<Seq<char>>,
    k: int,
    r: (Query, GpuNameProbe),
)
    requires
        match world(Request::Read("/sys/class/drm/"@ + card@ + "/device/uevent"@)) {
            Answer::Text(Some(t)) => forall|j: int|
                0 <= j < lines_of(t).len() ==> !"PCI_ID="@.is_prefix_of(#[trigger] lines_of(t)[j]),
            _ => true,
        },
    ensures
        call_ensures(read_gpu_name, (card,), r) ==> run(r.1.plan(), world) == gpu_name_in(
            world,
            card@,
        ),
        world(Request::List("/sys/class/drm/"@ + card@ + "/device/hwmon"@)).names() is None
            ==> gpu_name_in(world, card@) == Seq::<char>::empty(),
        ({
            let dir = "/sys/class/drm/"@ + card@ + "/device/hwmon"@;
            world(Request::List(dir)) == Answer::Names(Some(names)) && 0 <= k <= names.len() && (
            forall|j: int|
                0 <= j < k ==> match world(
                    Request::Read(dir + "/"@ + (#[trigger] names[j]) + "/"@ + "name"@),
                ) {
                    Answer::Text(Some(t)) => trimmed(t).len() == 0,
                    _ => true,
                }) ==> {
                &&& k == names.len() ==> gpu_name_in(world, card@) == Seq::<char>::empty()
                &&& k < names.len() ==> match world(
                    Request::Read(dir + "/"@ + names[k] + "/"@ + "name"@),
                ) {
                    Answer::Text(Some(t)) => trimmed(t).len() > 0 ==> gpu_name_in(world, card@)
                        == trimmed(t),
                    _ => true,
                }
            }
        }),
{
    let dir = "/sys/class/drm/"@ + card@ + "/device/hwmon"@;
    let dirs = paths_of(dir, names);
    gpu_name_is_found(world, card@);
    if let Answer::Text(Some(t)) = world(
        Request::Read("/sys/class/drm/"@ + card@ + "/device/uevent"@),
    ) {
        lemma_first_pci_id(lines_of(t), lines_of(t).len() as int);
    }
    if world(Request::List(dir)) == Answer::Names(Some(names)) && 0 <= k <= names.len() && (
    forall|j: int|
        0 <= j < k ==> match world(
            Request::Read(dir + "/"@ + (#[trigger] names[j]) + "/"@ + "name"@),
        ) {
            Answer::Text(Some(t)) => trimmed(t).len() == 0,
            _ => true,
        }) {
        assert forall|j: int| 0 <= j < k implies match world(
            Request::Read((#[trigger] dirs[j]) + "/"@ + "name"@),
        ) {
            Answer::Text(Some(t)) => trimmed(t).len() == 0,
            _ => true,
        } by {
            assert(dirs[j] == dir + "/"@ + names[j]);
        }
        if k < names.len() {
            assert(dirs[k] == dir + "/"@ + names[k]);
        }
        lemma_first_file_name(world, dirs, k);
    }
}

/// A card is an entry that is called `card` and then one digit or more, and nothing else.
pub proof fn card_and_its_number(name: &str, r: bool)
    ensures
        call_ensures(card, (name,), r) ==> r == is_card(name@),
        is_card(name@) <==> {
            &&& "card"@.is_prefix_of(name@)
            &&& name@.len() > 4
            &&& forall|i: int| 4 <= i < name@.len() ==> "0123456789"@.contains(#[trigger] name@[i])
        },
{
    reveal_strlit("card");
    let s = name@;
    let number = s.skip(4);
    if "card"@.is_prefix_of(s) {
        assert forall|i: int| 4 <= i < s.len() implies crate::number::is_digit(#[trigger] s[i])
            == "0123456789"@.contains(s[i]) by {
            ten_digits(s[i]);
        }
        assert forall|i: int| 0 <= i < number.len() implies #[trigger] number[i] == s[i + 4] by {}
        if all_digits(number) {
            assert forall|i: int| 4 <= i < s.len() implies "0123456789"@.contains(
                #[trigger] s[i],
            ) by {
                assert(crate::number::is_digit(number[i - 4]));
            }
        }
    }
}

proof fn lemma_filter_count(names: Seq<Seq<char>>, name: Seq<char>)
    ensures
        names.filter(|name: Seq<char>| is_card(name)).to_multiset().count(name) == (if is_card(
            name,
        ) {
            names.to_multiset().count(name)
        } else {
            0
        }),
    decreases names.len(),
{
    broadcast use vstd::seq_lib::group_to_multiset_ensures;
    reveal(Seq::filter);
    if names.len() > 0 {
        lemma_filter_count(names.drop_last(), name);
        assert(names =~= names.drop_last().push(names.last()));
    } else {
        assert(names.filter(|name: Seq<char>| is_card(name)) =~= Seq::empty());
        assert(names =~= Seq::empty());
    }
}

/// The cards among the entries are the entries that are cards, each as often as it is there, and none
/// stands behind one that it comes before.
pub proof fn cards_among_the_entries(names: &Vec<String>, name: Seq<char>, r: Vec<String>)
    ensures
        call_ensures(cards, (names,), r) ==> r.deep_view() == cards_of(names.deep_view()),
        is_card(name) ==> cards_of(names.deep_view()).to_multiset().count(name)
            == names.deep_view().to_multiset().count(name),
        !is_card(name) ==> cards_of(names.deep_view()).to_multiset().count(name) == 0,
        forall|i: int, j: int|
            0 <= i <= j < cards_of(names.deep_view()).len() ==> precedes(
                #[trigger] cards_of(names.deep_view())[i],
                #[trigger] cards_of(names.deep_view())[j],
            ),
{
    cards_are_the_entries_in_order(names.deep_view());
    lemma_filter_count(names.deep_view(), name);
}

/// An NVIDIA device is listed by `nvidia:` and its index, and shown by its name between `NVIDIA` and
/// its index, or by its index again where it has no name.
pub proof fn entry_of_a_device(index: u32, name: Seq<char>)
    ensures
        device_entry(index, Some(name)).card == "nvidia:"@ + decimal_of(index as nat),
        device_entry(index, None).card == "nvidia:"@ + decimal_of(index as nat),
        device_entry(index, Some(name)).name == "NVIDIA "@ + name + " (GPU "@ + decimal_of(
            index as nat,
        ) + ")"@,
        device_entry(index, None).name == "NVIDIA "@ + ("NVIDIA GPU "@ + decimal_of(index as nat))
            + " (GPU "@ + decimal_of(index as nat) + ")"@,
{
}

/// A card of the kernel is listed by its name there, and shown by it and the name that was found; or
/// where none was found by who made it, if that is AMD or Intel, and its name there twice.
pub proof fn entry_of_a_kernel_card(card: Seq<char>, name: Seq<char>, vendor: GpuVendor)
    ensures
        card_entry(card, name, vendor).card == card,
        name.len() > 0 ==> card_entry(card, name, vendor).name == card + " - "@ + name,
        name.len() == 0 && vendor == GpuVendor::Amd ==> card_entry(card, name, vendor).name
            == "AMD"@ + " "@ + card + " ("@ + card + ")"@,
        name.len() == 0 && vendor == GpuVendor::Intel ==> card_entry(card, name, vendor).name
            == "Intel"@ + " "@ + card + " ("@ + card + ")"@,
        name.len() == 0 && vendor != GpuVendor::Amd && vendor != GpuVendor::Intel ==> card_entry(
            card,
            name,
            vendor,
        ).name == "GPU"@ + " "@ + card + " ("@ + card + ")"@,
{
}

/// One more device that the driver counts stands behind the others if the driver knows it, and is
/// left out if it does not.
pub proof fn one_more_device(world: spec_fn(Request) -> Answer, from: u32, count: u32)
    requires
        from <= count < u32::MAX,
    ensures
        devices_in(world, count, count) == Seq::<GpuEntry>::empty(),
        devices_in(world, from, (count + 1) as u32) == (match world(Request::Device(count)) {
            Answer::Device(Some(name)) => devices_in(world, from, count).push(
                device_entry(count, name),
            ),
            _ => devices_in(world, from, count),
        }),
    decreases count - from,
{
    let more = (count + 1) as u32;
    if from < count {
        let next = (from + 1) as u32;
        one_more_device(world, next, count);
        assert(devices_in(world, from, more) =~= match world(Request::Device(count)) {
            Answer::Device(Some(name)) => devices_in(world, from, count).push(
                device_entry(count, name),
            ),
            _ => devices_in(world, from, count),
        });
    } else {
        assert(devices_in(world, more, more) == Seq::<GpuEntry>::empty());
        assert(devices_in(world, from, more) =~= match world(Request::Device(count)) {
            Answer::Device(Some(name)) => devices_in(world, from, count).push(
                device_entry(count, name),
            ),
            _ => devices_in(world, from, count),
        });
    }
}

/// The listing has the devices that the NVIDIA driver counts, if the driver is there and counts them;
/// behind them stands each card among the entries of `/sys/class/drm`, with the name that was found
/// for it and who made it, if the entries can be listed; and nothing else.
pub proof fn listing_in_full(world: spec_fn(Request) -> Answer, r: Step<ListProbe, GpuList>)
    requires
        call_ensures(list_gpus, (), r),
    ensures
        world(Request::Exists("/proc/driver/nvidia/version"@)) != Answer::Flag(true)
            ==> all_devices_in(world) == Seq::<GpuEntry>::empty(),
        world(Request::DeviceCount).number() is None ==> all_devices_in(world) == Seq::<
            GpuEntry,
        >::empty(),
        world(Request::Exists("/proc/driver/nvidia/version"@)) == Answer::Flag(true) ==> (world(
            Request::DeviceCount,
        ) matches Answer::Number(Some(count)) ==> all_devices_in(world) == devices_in(
            world,
            0,
            count,
        )),
        forall|i: int|
            0 <= i < all_devices_in(world).len() ==> #[trigger] run(plan_of(r), world)[i]
                == all_devices_in(world)[i],
        world(Request::List("/sys/class/drm"@)).names() is None ==> run(plan_of(r), world)
            == all_devices_in(world),
        world(Request::List("/sys/class/drm"@)) matches Answer::Names(Some(names)) ==> {
            let first = all_devices_in(world).len() as int;
            let cards = cards_of(names);
            &&& run(plan_of(r), world).len() == first + cards.len()
            &&& forall|i: int|
                first <= i < first + cards.len() ==> #[trigger] run(plan_of(r), world)[i]
                    == card_entry(
                    cards[i - first],
                    gpu_name_in(world, cards[i - first]),
                    vendor_in(world, cards[i - first]),
                )
        },
{
    devices_then_cards(world);
    if world(Request::List("/sys/class/drm"@)).names() is None {
        assert(all_devices_in(world) + all_cards_in(world) =~= all_devices_in(world));
    }
}

/// A list holds its cards in turn, as they are.
pub proof fn list_holds_its_cards(list: GpuList)
    ensures
        list@.len() == list.gpus.len(),
        forall|i: int|
            0 <= i < list.gpus.len() ==> #[trigger] list@[i] == (GpuEntry {
                card: list.gpus[i].card@,
                name: list.gpus[i].name@,
            }),
{
}

} // verus!
