//! The sensors of what flows through disks and networks, in megabytes per second.
use vstd::prelude::*;

use crate::reading::{MEGABYTE, Reading};
use crate::text::same;

verus! {

/// The bytes that a disk has read and written since the machine was started.
#[derive(Clone, Copy, Debug)]
pub struct DiskTraffic {
    pub read: u64,
    pub written: u64,
}

/// The bytes that went through a network interface since the machine was started.
#[derive(Debug)]
pub struct NetworkTraffic {
    pub name: String,
    pub received: u64,
    pub transmitted: u64,
}

/// All counters together.
pub open spec fn sum(counters: Seq<u64>) -> int
    decreases counters.len(),
{
    if counters.len() == 0 {
        0
    } else {
        sum(counters.drop_last()) + counters.last()
    }
}

proof fn lemma_sum_grows(counters: Seq<u64>, k: int)
    requires
        0 <= k <= counters.len(),
    ensures
        0 <= sum(counters.take(k)) <= sum(counters),
    decreases counters.len(),
{
    if k == counters.len() {
        assert(counters.take(k) =~= counters);
        if k > 0 {
            lemma_sum_grows(counters.drop_last(), k - 1);
        }
    } else {
        lemma_sum_grows(counters.drop_last(), k);
        assert(counters.drop_last().take(k) =~= counters.take(k));
    }
}

/// All counters together, if the sum fits in a `u64`.
pub fn total(counters: &Vec<u64>) -> (r: Option<u64>)
    ensures
        match r {
            Some(n) => n == sum(counters@),
            None => sum(counters@) > u64::MAX,
        },
{
    let mut n: u64 = 0;
    let mut i: usize = 0;
    assert(counters@.take(0) =~= Seq::empty());
    while i < counters.len()
        invariant
            i <= counters.len(),
            n == sum(counters@.take(i as int)),
        decreases counters.len() - i,
    {
        assert(counters@.take(i + 1).drop_last() =~= counters@.take(i as int));
        match n.checked_add(counters[i]) {
            Some(m) => {
                n = m;
            },
            None => {
                proof {
                    lemma_sum_grows(counters@, i + 1);
                }
                return None;
            },
        }
        i = i + 1;
    }
    assert(counters@.take(i as int) =~= counters@);
    Some(n)
}

/// The bytes that came between two counts, none where the counters have been set back.
pub open spec fn bytes_since(then: u64, bytes: int) -> u64 {
    if bytes >= then {
        (bytes - then) as u64
    } else {
        0
    }
}

/// The speed shown where `before` is the last look, the bytes counted and the time, and `bytes` are
/// counted at the time `now`: the bytes that came since over the time that has passed. Where no
/// time has passed there is no speed, and the bytes themselves are shown. The first look shows
/// nothing.
pub open spec fn speed(before: Option<(u64, u64)>, bytes: int, now: u64) -> Reading {
    match before {
        Some((then, at)) => if now > at {
            Reading::Rate {
                value: bytes_since(then, bytes),
                divisor: MEGABYTE,
                millis: (now - at) as u64,
            }
        } else {
            Reading::Scaled { value: bytes_since(then, bytes), divisor: MEGABYTE }
        },
        None => Reading::Absent,
    }
}

/// Looks at a counter at the time `now`, in milliseconds on a clock that does not go back, and
/// remembers the look.
pub fn look(seen: &mut Option<(u64, u64)>, bytes: u64, now: u64) -> (r: Reading)
    ensures
        r == speed(*old(seen), bytes as int, now),
        *final(seen) == Some((bytes, now)),
{
    let r = match *seen {
        Some((then, at)) => {
            let value: u64 = bytes.saturating_sub(then);
            if now > at {
                Reading::Rate { value, divisor: MEGABYTE, millis: now - at }
            } else {
                Reading::Scaled { value, divisor: MEGABYTE }
            }
        },
        None => Reading::Absent,
    };
    *seen = Some((bytes, now));
    r
}

/// What each disk has written.
pub open spec fn written_of(disks: Seq<DiskTraffic>) -> Seq<u64> {
    disks.map_values(|disk: DiskTraffic| disk.written)
}

/// What each disk has read.
pub open spec fn read_of(disks: Seq<DiskTraffic>) -> Seq<u64> {
    disks.map_values(|disk: DiskTraffic| disk.read)
}

/// What each disk has written.
pub fn written(disks: &Vec<DiskTraffic>) -> (r: Vec<u64>)
    ensures
        r@ == written_of(disks@),
{
    let mut r: Vec<u64> = Vec::new();
    let mut i: usize = 0;
    while i < disks.len()
        invariant
            i <= disks.len(),
            r@ == written_of(disks@).take(i as int),
        decreases disks.len() - i,
    {
        r.push(disks[i].written);
        i = i + 1;
        assert(r@ =~= written_of(disks@).take(i as int));
    }
    assert(r@ =~= written_of(disks@));
    r
}

/// What each disk has read.
pub fn read(disks: &Vec<DiskTraffic>) -> (r: Vec<u64>)
    ensures
        r@ == read_of(disks@),
{
    let mut r: Vec<u64> = Vec::new();
    let mut i: usize = 0;
    while i < disks.len()
        invariant
            i <= disks.len(),
            r@ == read_of(disks@).take(i as int),
        decreases disks.len() - i,
    {
        r.push(disks[i].read);
        i = i + 1;
        assert(r@ =~= read_of(disks@).take(i as int));
    }
    assert(r@ =~= read_of(disks@));
    r
}

/// A [`NetworkTraffic`], its name taken as a sequence of characters.
pub struct NetworkView {
    pub name: Seq<char>,
    pub received: u64,
    pub transmitted: u64,
}

impl View for NetworkTraffic {
    type V = NetworkView;

    open spec fn view(&self) -> NetworkView {
        NetworkView {
            name: self.name@,
            received: self.received,
            transmitted: self.transmitted,
        }
    }
}

impl DeepView for NetworkTraffic {
    type V = NetworkView;

    open spec fn deep_view(&self) -> NetworkView {
        self@
    }
}

/// The interface is not the one by which the machine talks to itself.
pub open spec fn leaves_the_machine(network: NetworkView) -> bool {
    network.name != "lo"@
}

/// What each interface that leads out of the machine has received.
pub open spec fn received_of(networks: Seq<NetworkView>) -> Seq<u64> {
    networks.filter(|network: NetworkView| leaves_the_machine(network)).map_values(
        |network: NetworkView| network.received,
    )
}

/// What each interface that leads out of the machine has transmitted.
pub open spec fn transmitted_of(networks: Seq<NetworkView>) -> Seq<u64> {
    networks.filter(|network: NetworkView| leaves_the_machine(network)).map_values(
        |network: NetworkView| network.transmitted,
    )
}

/// One more interface adds its counters, unless it is the one by which the machine talks to
/// itself: that one never counts.
pub proof fn one_more_network(networks: Seq<NetworkView>, network: NetworkView)
    ensures
        received_of(networks.push(network)) == (if leaves_the_machine(network) {
            received_of(networks).push(network.received)
        } else {
            received_of(networks)
        }),
        transmitted_of(networks.push(network)) == (if leaves_the_machine(network) {
            transmitted_of(networks).push(network.transmitted)
        } else {
            transmitted_of(networks)
        }),
{
    reveal(Seq::filter);
    assert(networks.push(network).drop_last() =~= networks);
    if leaves_the_machine(network) {
        assert(received_of(networks.push(network)) =~= received_of(networks).push(
            network.received,
        ));
        assert(transmitted_of(networks.push(network)) =~= transmitted_of(networks).push(
            network.transmitted,
        ));
    }
}

proof fn lemma_no_network()
    ensures
        received_of(Seq::empty()) == Seq::<u64>::empty(),
        transmitted_of(Seq::empty()) == Seq::<u64>::empty(),
{
    reveal(Seq::filter);
    assert(received_of(Seq::empty()) =~= Seq::empty());
    assert(transmitted_of(Seq::empty()) =~= Seq::empty());
}

/// What each interface that leads out of the machine has received.
pub fn received(networks: &Vec<NetworkTraffic>) -> (r: Vec<u64>)
    ensures
        r@ == received_of(networks.deep_view()),
{
    let ghost all = networks.deep_view();
    let mut r: Vec<u64> = Vec::new();
    let mut i: usize = 0;
    proof {
        lemma_no_network();
        assert(all.take(0) =~= Seq::empty());
    }
    while i < networks.len()
        invariant
            i <= networks.len(),
            all == networks.deep_view(),
            r@ == received_of(all.take(i as int)),
        decreases networks.len() - i,
    {
        proof {
            one_more_network(all.take(i as int), all[i as int]);
            assert(all.take(i as int).push(all[i as int]) =~= all.take(i + 1));
        }
        if !same(networks[i].name.as_str(), "lo") {
            r.push(networks[i].received);
        }
        i = i + 1;
    }
    assert(all.take(i as int) =~= all);
    r
}

/// What each interface that leads out of the machine has transmitted.
pub fn transmitted(networks: &Vec<NetworkTraffic>) -> (r: Vec<u64>)
    ensures
        r@ == transmitted_of(networks.deep_view()),
{
    let ghost all = networks.deep_view();
    let mut r: Vec<u64> = Vec::new();
    let mut i: usize = 0;
    proof {
        lemma_no_network();
        assert(all.take(0) =~= Seq::empty());
    }
    while i < networks.len()
        invariant
            i <= networks.len(),
            all == networks.deep_view(),
            r@ == transmitted_of(all.take(i as int)),
        decreases networks.len() - i,
    {
        proof {
            one_more_network(all.take(i as int), all[i as int]);
            assert(all.take(i as int).push(all[i as int]) =~= all.take(i + 1));
        }
        if !same(networks[i].name.as_str(), "lo") {
            r.push(networks[i].transmitted);
        }
        i = i + 1;
    }
    assert(all.take(i as int) =~= all);
    r
}

/// Looks at several counters together.
fn look_at_all(seen: &mut Option<(u64, u64)>, now: u64, counters: &Vec<u64>) -> (r: Reading)
    requires
        sum(counters@) <= u64::MAX,
    ensures
        r == speed(*old(seen), sum(counters@), now),
        *final(seen) == Some((sum(counters@) as u64, now)),
{
    look(seen, total(counters).unwrap(), now)
}

/// The speed at which the disks write, in megabytes per second.
///
/// `now` is the time in milliseconds on a clock that does not go back. The bytes
/// counted in all must fit in a `u64`; [`total`] of [`written`] tells.
pub fn find_disk_write(seen: &mut Option<(u64, u64)>, now: u64, disks: &Vec<DiskTraffic>) -> (r:
    Reading)
    requires
        sum(written_of(disks@)) <= u64::MAX,
    ensures
        r == speed(*old(seen), sum(written_of(disks@)), now),
        *final(seen) == Some((sum(written_of(disks@)) as u64, now)),
{
    look_at_all(seen, now, &written(disks))
}

/// The speed at which the disks read, in megabytes per second.
///
/// `now` is the time in milliseconds on a clock that does not go back. The bytes
/// counted in all must fit in a `u64`; [`total`] of [`read`] tells.
pub fn find_disk_read(seen: &mut Option<(u64, u64)>, now: u64, disks: &Vec<DiskTraffic>) -> (r:
    Reading)
    requires
        sum(read_of(disks@)) <= u64::MAX,
    ensures
        r == speed(*old(seen), sum(read_of(disks@)), now),
        *final(seen) == Some((sum(read_of(disks@)) as u64, now)),
{
    look_at_all(seen, now, &read(disks))
}

/// The speed at which the networks receive, in megabytes per second.
///
/// `now` is the time in milliseconds on a clock that does not go back. The bytes
/// counted in all must fit in a `u64`; [`total`] of [`received`] tells.
pub fn find_net_download(seen: &mut Option<(u64, u64)>, now: u64, networks: &Vec<NetworkTraffic>) -> (r:
    Reading)
    requires
        sum(received_of(networks.deep_view())) <= u64::MAX,
    ensures
        r == speed(*old(seen), sum(received_of(networks.deep_view())), now),
        *final(seen) == Some((sum(received_of(networks.deep_view())) as u64, now)),
{
    look_at_all(seen, now, &received(networks))
}

/// The speed at which the networks transmit, in megabytes per second.
///
/// `now` is the time in milliseconds on a clock that does not go back. The bytes
/// counted in all must fit in a `u64`; [`total`] of [`transmitted`] tells.
pub fn find_net_upload(seen: &mut Option<(u64, u64)>, now: u64, networks: &Vec<NetworkTraffic>) -> (r:
    Reading)
    requires
        sum(transmitted_of(networks.deep_view())) <= u64::MAX,
    ensures
        r == speed(*old(seen), sum(transmitted_of(networks.deep_view())), now),
        *final(seen) == Some((sum(transmitted_of(networks.deep_view())) as u64, now)),
{
    look_at_all(seen, now, &transmitted(networks))
}

/// The order of the counters does not matter to all of them together.
pub proof fn sum_has_no_order(a: Seq<u64>, b: Seq<u64>)
    requires
        a.to_multiset() == b.to_multiset(),
    ensures
        sum(a) == sum(b),
    decreases a.len(),
{
    broadcast use vstd::seq_lib::group_to_multiset_ensures;
    a.to_multiset_ensures();
    b.to_multiset_ensures();
    if a.len() > 0 {
        let last = a.last();
        assert(a.contains(last));
        assert(b.to_multiset().count(last) > 0);
        assert(b.contains(last));
        let k = choose|k: int| 0 <= k < b.len() && b[k] == last;
        assert(a.remove(a.len() - 1) =~= a.drop_last());
        sum_has_no_order(a.drop_last(), b.remove(k));
        lemma_sum_without(b, k);
    }
}

proof fn lemma_sum_without(counters: Seq<u64>, k: int)
    requires
        0 <= k < counters.len(),
    ensures
        sum(counters) == sum(counters.remove(k)) + counters[k],
    decreases counters.len(),
{
    if k == counters.len() - 1 {
        assert(counters.remove(k) =~= counters.drop_last());
    } else {
        lemma_sum_without(counters.drop_last(), k);
        assert(counters.remove(k).drop_last() =~= counters.drop_last().remove(k));
    }
}

/// The order in which the interfaces come does not matter to what is shown of them.
pub proof fn networks_have_no_order(a: Seq<NetworkView>, b: Seq<NetworkView>)
    requires
        a.to_multiset() == b.to_multiset(),
    ensures
        sum(received_of(a)) == sum(received_of(b)),
        sum(transmitted_of(a)) == sum(transmitted_of(b)),
    decreases a.len(),
{
    broadcast use vstd::seq_lib::group_to_multiset_ensures;
    a.to_multiset_ensures();
    b.to_multiset_ensures();
    if a.len() > 0 {
        let last = a.last();
        assert(a.contains(last));
        assert(b.to_multiset().count(last) > 0);
        assert(b.contains(last));
        let k = choose|k: int| 0 <= k < b.len() && b[k] == last;
        assert(a.remove(a.len() - 1) =~= a.drop_last());
        networks_have_no_order(a.drop_last(), b.remove(k));
        assert(a =~= a.drop_last().push(last));
        one_more_network(a.drop_last(), last);
        lemma_networks_without(b, k);
        if leaves_the_machine(last) {
            assert(received_of(a).drop_last() =~= received_of(a.drop_last()));
            assert(transmitted_of(a).drop_last() =~= transmitted_of(a.drop_last()));
        }
    } else {
        assert(a =~= b);
    }
}

proof fn lemma_networks_without(networks: Seq<NetworkView>, k: int)
    requires
        0 <= k < networks.len(),
    ensures
        sum(received_of(networks)) == sum(received_of(networks.remove(k))) + (
        if leaves_the_machine(networks[k]) {
            networks[k].received as int
        } else {
            0
        }),
        sum(transmitted_of(networks)) == sum(transmitted_of(networks.remove(k))) + (
        if leaves_the_machine(networks[k]) {
            networks[k].transmitted as int
        } else {
            0
        }),
    decreases networks.len(),
{
    let front = networks.drop_last();
    let last = networks.last();
    assert(networks =~= front.push(last));
    one_more_network(front, last);
    if leaves_the_machine(last) {
        assert(received_of(networks).drop_last() =~= received_of(front));
        assert(transmitted_of(networks).drop_last() =~= transmitted_of(front));
    }
    if k == networks.len() - 1 {
        assert(networks.remove(k) =~= front);
    } else {
        lemma_networks_without(front, k);
        let less = front.remove(k);
        assert(networks.remove(k) =~= less.push(last));
        one_more_network(less, last);
        if leaves_the_machine(last) {
            assert(received_of(less.push(last)).drop_last() =~= received_of(less));
            assert(transmitted_of(less.push(last)).drop_last() =~= transmitted_of(less));
        }
    }
}

/// The bytes of what is shown.
pub open spec fn bytes_of(reading: Reading) -> int {
    match reading {
        Reading::Rate { value, .. } => value as int,
        Reading::Scaled { value, .. } => value as int,
        _ => 0,
    }
}

/// What look `k` of these shows, each the bytes counted and the time.
pub open spec fn shown_at(looks: Seq<(u64, u64)>, k: int) -> Reading {
    let before = if k == 0 {
        None
    } else {
        Some(looks[k - 1])
    };
    speed(before, looks[k].0 as int, looks[k].1)
}

/// The bytes that the first `n` of these looks show in all.
pub open spec fn shown(looks: Seq<(u64, u64)>, n: nat) -> int
    decreases n,
{
    if n == 0 {
        0
    } else {
        shown(looks, (n - 1) as nat) + bytes_of(shown_at(looks, n - 1))
    }
}

/// As long as the counters only rise, nothing is shown twice and nothing is lost, whenever the looks
/// are: the bytes shown in all are those that came between the first look and the last.
pub proof fn looks_add_up(looks: Seq<(u64, u64)>, n: nat)
    requires
        0 < n <= looks.len(),
        forall|i: int, j: int|
            0 <= i <= j < looks.len() ==> (#[trigger] looks[i]).0 <= (#[trigger] looks[j]).0,
    ensures
        shown(looks, n) == looks[n - 1].0 - looks[0].0,
    decreases n,
{
    if n == 1 {
        assert(shown(looks, 0) == 0);
    } else {
        looks_add_up(looks, (n - 1) as nat);
        assert(looks[n - 2].0 <= looks[n - 1].0);
    }
}

/// Whatever the looks before were, the look at which the counters have been set back shows no bytes,
/// and its lower count is what the next look is measured by.
pub proof fn looks_after_a_reset(looks: Seq<(u64, u64)>, k: int)
    requires
        0 < k < looks.len() - 1,
        looks[k].0 < looks[k - 1].0,
        looks[k].0 <= looks[k + 1].0,
    ensures
        bytes_of(shown_at(looks, k)) == 0,
        bytes_of(shown_at(looks, k + 1)) == looks[k + 1].0 - looks[k].0,
        looks[k - 1].1 < looks[k].1 ==> shown_at(looks, k) == (Reading::Rate {
            value: 0,
            divisor: MEGABYTE,
            millis: (looks[k].1 - looks[k - 1].1) as u64,
        }),
        looks[k].1 < looks[k + 1].1 ==> shown_at(looks, k + 1) == (Reading::Rate {
            value: (looks[k + 1].0 - looks[k].0) as u64,
            divisor: MEGABYTE,
            millis: (looks[k + 1].1 - looks[k].1) as u64,
        }),
{
}

/// The counters of the disks are as many as the disks, and each is the count of its disk.
pub proof fn each_disk_counts_as_it_is(disks: &Vec<DiskTraffic>, r: Vec<u64>)
    ensures
        call_ensures(read, (disks,), r) ==> r.len() == disks.len() && forall|i: int|
            0 <= i < disks.len() ==> #[trigger] r[i] == disks[i].read,
        call_ensures(written, (disks,), r) ==> r.len() == disks.len() && forall|i: int|
            0 <= i < disks.len() ==> #[trigger] r[i] == disks[i].written,
{
}

/// One more disk adds its own counts, and no disk has none.
pub proof fn one_more_disk(disks: Seq<DiskTraffic>, disk: DiskTraffic)
    ensures
        sum(read_of(Seq::empty())) == 0,
        sum(written_of(Seq::empty())) == 0,
        sum(read_of(disks.push(disk))) == sum(read_of(disks)) + disk.read,
        sum(written_of(disks.push(disk))) == sum(written_of(disks)) + disk.written,
{
    assert(read_of(disks.push(disk)).drop_last() =~= read_of(disks));
    assert(written_of(disks.push(disk)).drop_last() =~= written_of(disks));
}

/// No counters make nothing, and one more counter adds itself.
pub proof fn one_more_counter(counters: Seq<u64>, counter: u64)
    ensures
        sum(Seq::empty()) == 0,
        sum(counters.push(counter)) == sum(counters) + counter,
{
    assert(counters.push(counter).drop_last() =~= counters);
}

/// The total is told wherever it can be held.
pub proof fn total_is_the_sum(counters: &Vec<u64>, r: Option<u64>)
    ensures
        call_ensures(total, (counters,), r) ==> {
            &&& r is Some <==> sum(counters@) <= u64::MAX
            &&& r matches Some(n) ==> n == sum(counters@)
        },
{
}

/// One more interface adds its own counts, unless it is called `lo`: then it adds none. No interface
/// has no counts.
pub proof fn one_more_interface(networks: Seq<NetworkView>, network: NetworkView)
    ensures
        received_of(Seq::empty()) == Seq::<u64>::empty(),
        transmitted_of(Seq::empty()) == Seq::<u64>::empty(),
        network.name == "lo"@ ==> received_of(networks.push(network)) == received_of(networks),
        network.name == "lo"@ ==> transmitted_of(networks.push(network)) == transmitted_of(networks),
        network.name != "lo"@ ==> received_of(networks.push(network)) == received_of(networks).push(
            network.received,
        ),
        network.name != "lo"@ ==> transmitted_of(networks.push(network)) == transmitted_of(
            networks,
        ).push(network.transmitted),
{
    lemma_no_network();
    one_more_network(networks, network);
}

/// The counters of the interfaces are those of the interfaces as they are, name and counts.
pub proof fn each_interface_counts_as_it_is(networks: &Vec<NetworkTraffic>, r: Vec<u64>)
    ensures
        call_ensures(received, (networks,), r) ==> r@ == received_of(networks.deep_view()),
        call_ensures(transmitted, (networks,), r) ==> r@ == transmitted_of(networks.deep_view()),
        networks.deep_view().len() == networks.len(),
        forall|i: int|
            0 <= i < networks.len() ==> #[trigger] networks.deep_view()[i] == (NetworkView {
                name: networks[i].name@,
                received: networks[i].received,
                transmitted: networks[i].transmitted,
            }),
{
}

/// Each look remembers the counters together and its time. The first shows nothing. A later one
/// shows the bytes that came since the look before, none where the counters have fallen, in
/// megabytes of two to the twentieth bytes: over the milliseconds since, or as they are where none
/// have passed.
pub proof fn looks_show_what_came_since(
    seen: &mut Option<(u64, u64)>,
    now: u64,
    disks: &Vec<DiskTraffic>,
    networks: &Vec<NetworkTraffic>,
    counters: Vec<u64>,
    r: Reading,
)
    requires
        sum(counters@) <= u64::MAX,
        (call_ensures(read, (disks,), counters) && call_ensures(
            find_disk_read,
            (seen, now, disks),
            r,
        )) || (call_ensures(written, (disks,), counters) && call_ensures(
            find_disk_write,
            (seen, now, disks),
            r,
        )) || (call_ensures(received, (networks,), counters) && call_ensures(
            find_net_download,
            (seen, now, networks),
            r,
        )) || (call_ensures(transmitted, (networks,), counters) && call_ensures(
            find_net_upload,
            (seen, now, networks),
            r,
        )),
    ensures
        *final(seen) == Some((sum(counters@) as u64, now)),
        *old(seen) is None ==> r == Reading::Absent,
        *old(seen) matches Some((then, at)) ==> {
            &&& now > at && sum(counters@) >= then ==> r == (Reading::Rate {
                value: (sum(counters@) - then) as u64,
                divisor: 1_048_576,
                millis: (now - at) as u64,
            })
            &&& now > at && sum(counters@) < then ==> r == (Reading::Rate {
                value: 0,
                divisor: 1_048_576,
                millis: (now - at) as u64,
            })
            &&& now <= at && sum(counters@) >= then ==> r == (Reading::Scaled {
                value: (sum(counters@) - then) as u64,
                divisor: 1_048_576,
            })
            &&& now <= at && sum(counters@) < then ==> r == (Reading::Scaled {
                value: 0,
                divisor: 1_048_576,
            })
        },
{
}

/// A look at one counter remembers it and shows what came since, as a look at several does.
pub proof fn look_shows_what_came_since(
    seen: &mut Option<(u64, u64)>,
    bytes: u64,
    now: u64,
    r: Reading,
)
    requires
        call_ensures(look, (seen, bytes, now), r),
    ensures
        *final(seen) == Some((bytes, now)),
        *old(seen) is None ==> r == Reading::Absent,
        *old(seen) matches Some((then, at)) ==> {
            &&& now > at && bytes >= then ==> r == (Reading::Rate {
                value: (bytes - then) as u64,
                divisor: 1_048_576,
                millis: (now - at) as u64,
            })
            &&& now > at && bytes < then ==> r == (Reading::Rate {
                value: 0,
                divisor: 1_048_576,
                millis: (now - at) as u64,
            })
            &&& now <= at && bytes >= then ==> r == (Reading::Scaled {
                value: (bytes - then) as u64,
                divisor: 1_048_576,
            })
            &&& now <= at && bytes < then ==> r == (Reading::Scaled {
                value: 0,
                divisor: 1_048_576,
            })
        },
{
}

} // verus!
