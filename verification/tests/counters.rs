use sensors::cpu::{cpu_times, CpuTimes};
use sensors::memory::Component;
use sensors::reading::{positive, Reading, GIGABYTE, MEGABYTE};
use sensors::traffic::{
    read, received, total, transmitted, written, DiskTraffic, NetworkTraffic,
};
use sensors::{
    find_cpu_load, find_disk_read, find_disk_write, find_net_download, find_net_upload,
    find_ram_temperature, find_ram_total_gb, find_ram_usage, find_ram_usage_gb,
};

fn network(name: &str, received: u64, transmitted: u64) -> NetworkTraffic {
    NetworkTraffic { name: name.to_string(), received, transmitted }
}

fn component(label: &str, temperature: Option<f32>) -> Component {
    Component { label: label.to_string(), temperature: temperature.map(f32::to_bits) }
}

#[test]
fn cpu_times_come_from_the_first_line() {
    let stat = "cpu  10 20 30 400 50 6 7 0 0 0\ncpu0 1 2 3 4 5 6 7\n";
    let expected = CpuTimes {
        user: 10,
        nice: 20,
        system: 30,
        idle: 400,
        iowait: 50,
        irq: 6,
        softirq: 7,
    };
    assert_eq!(cpu_times(stat), Some(expected));
}

#[test]
fn unreadable_fields_count_as_zero() {
    let times = cpu_times("cpu x -1 3 4 5 6 18446744073709551616").unwrap();
    assert_eq!(times.user, 0);
    assert_eq!(times.nice, 0);
    assert_eq!(times.system, 3);
    assert_eq!(times.softirq, 0);
}

#[test]
fn other_texts_give_no_times() {
    assert_eq!(cpu_times(""), None);
    assert_eq!(cpu_times("\ncpu  1 2 3 4 5 6 7"), None);
    assert_eq!(cpu_times("cpu0 1 2 3 4 5 6 7"), None);
    assert_eq!(cpu_times(" cpu 1 2 3 4 5 6 7"), None);
    assert_eq!(cpu_times("cpu\t1 2 3 4 5 6 7"), None);
    assert_eq!(cpu_times("cpu  1 2 3 4 5 6"), None);
}

#[test]
fn times_that_cannot_be_added_are_told() {
    let most = cpu_times("cpu 18446744073709551615 0 0 0 0 0 0").unwrap();
    assert!(most.fits());
    let more = cpu_times("cpu 18446744073709551615 0 0 1 0 0 0").unwrap();
    assert!(!more.fits());
}

#[test]
fn cpu_load_is_the_share_since_the_last_look() {
    let mut seen = None;
    assert_eq!(find_cpu_load(&mut seen, "cpu  10 0 10 70 10 0 0"), Reading::Absent);
    assert_eq!(seen, Some((100, 20)));
    assert_eq!(
        find_cpu_load(&mut seen, "cpu  40 5 15 120 10 5 5"),
        Reading::Percent { part: 50, whole: 100 }
    );
    assert_eq!(seen, Some((200, 70)));
}

#[test]
fn cpu_load_without_passing_time_is_absent() {
    let mut seen = Some((100, 20));
    assert_eq!(find_cpu_load(&mut seen, "cpu  10 0 10 70 10 0 0"), Reading::Absent);
    let mut later = Some((500, 20));
    assert_eq!(find_cpu_load(&mut later, "cpu  10 0 10 70 10 0 0"), Reading::Absent);
    assert_eq!(later, Some((100, 20)));
    let mut busier = Some((50, 60));
    assert_eq!(
        find_cpu_load(&mut busier, "cpu  10 0 10 70 10 0 0"),
        Reading::Percent { part: 0, whole: 50 }
    );
}

#[test]
fn cpu_load_of_another_text_forgets_nothing() {
    let mut seen = Some((100, 20));
    assert_eq!(find_cpu_load(&mut seen, "intr 1 2 3 4 5 6 7 8"), Reading::Absent);
    assert_eq!(seen, Some((100, 20)));
}

#[test]
fn cpu_load_is_at_most_the_whole() {
    let mut seen = None;
    for (text, part) in [
        ("cpu 0 0 0 0 0 0 0", 0),
        ("cpu 3 0 1 6 0 0 0", 4),
        ("cpu 13 0 1 6 0 0 0", 10),
        ("cpu 13 0 1 9 7 0 0", 0),
    ] {
        match find_cpu_load(&mut seen, text) {
            Reading::Percent { part: p, whole } => {
                assert_eq!(p, part);
                assert!(p <= whole);
                assert_eq!(whole, 10);
            }
            other => assert_eq!(other, Reading::Absent),
        }
    }
}

#[test]
fn ram_is_shown_in_percent_and_gigabytes() {
    assert_eq!(find_ram_usage(3, 4), Reading::Percent { part: 3, whole: 4 });
    assert_eq!(find_ram_usage(3, 0), Reading::Absent);
    assert_eq!(
        find_ram_usage_gb(5_368_709_120),
        Reading::Scaled { value: 5_368_709_120, divisor: 1_073_741_824 }
    );
    assert_eq!(find_ram_total_gb(7), Reading::Scaled { value: 7, divisor: GIGABYTE });
}

#[test]
fn ram_temperature_is_that_of_the_first_module() {
    let components = vec![
        component("coretemp Core 0", Some(60.0)),
        component("spd5118 temp1", None),
        component("hwmon SPD5118-1", Some(41.5)),
        component("spd5118 temp2", Some(43.0)),
    ];
    assert_eq!(
        find_ram_temperature(&components),
        Reading::Float { bits: 41.5_f32.to_bits(), divisor: 1 }
    );
}

#[test]
fn ram_temperature_may_be_absent() {
    assert_eq!(find_ram_temperature(&vec![]), Reading::Absent);
    let components = vec![component("Spd5118", Some(1.0)), component("spd5118", None)];
    assert_eq!(find_ram_temperature(&components), Reading::Absent);
}

fn rate(value: u64, millis: u64) -> Reading {
    Reading::Rate { value, divisor: MEGABYTE, millis }
}

#[test]
fn disk_speed_is_what_came_over_the_time_that_passed() {
    let mut wrote = None;
    let mut had_read = None;
    let first = vec![
        DiskTraffic { read: 10, written: 1_048_576 },
        DiskTraffic { read: 5, written: 0 },
    ];
    assert_eq!(find_disk_write(&mut wrote, 1_000, &first), Reading::Absent);
    assert_eq!(find_disk_read(&mut had_read, 1_500, &first), Reading::Absent);
    assert_eq!(wrote, Some((1_048_576, 1_000)));
    assert_eq!(had_read, Some((15, 1_500)));
    let second = vec![
        DiskTraffic { read: 10, written: 2_097_152 },
        DiskTraffic { read: 9, written: 1 },
    ];
    assert_eq!(
        find_disk_write(&mut wrote, 2_000, &second),
        Reading::Rate { value: 1_048_577, divisor: 1_048_576, millis: 1_000 }
    );
    assert_eq!(find_disk_read(&mut had_read, 1_750, &second), rate(4, 250));
    assert_eq!(wrote, Some((2_097_153, 2_000)));
    assert_eq!(had_read, Some((19, 1_750)));
}

#[test]
fn four_megabytes_in_two_seconds_are_two_per_second() {
    let mut seen = None;
    let none = vec![DiskTraffic { read: 0, written: 0 }];
    let some = vec![DiskTraffic { read: 0, written: 4_194_304 }];
    assert_eq!(find_disk_write(&mut seen, 7, &none), Reading::Absent);
    match find_disk_write(&mut seen, 2_007, &some) {
        Reading::Rate { value, divisor, millis } => {
            let speed = (value as f32 / divisor as f32) / (millis as f32 / 1000.0);
            assert_eq!(speed, 2.0);
        }
        _ => panic!("a second look shows a speed"),
    }
}

#[test]
fn a_look_without_passing_time_shows_the_bytes() {
    let mut seen = Some((100, 500));
    let disks = vec![DiskTraffic { read: 150, written: 0 }];
    assert_eq!(
        find_disk_read(&mut seen, 500, &disks),
        Reading::Scaled { value: 50, divisor: MEGABYTE }
    );
    assert_eq!(seen, Some((150, 500)));
    let more = vec![DiskTraffic { read: 170, written: 0 }];
    assert_eq!(find_disk_read(&mut seen, 501, &more), rate(20, 1));
    assert_eq!(seen, Some((170, 501)));
}

#[test]
fn counters_that_were_set_back_show_zero_once() {
    let mut seen = Some((900, 0));
    let high = vec![DiskTraffic { read: 0, written: 1_000 }];
    assert_eq!(
        find_disk_write(&mut seen, 0, &high),
        Reading::Scaled { value: 100, divisor: MEGABYTE }
    );
    let low = vec![DiskTraffic { read: 0, written: 10 }];
    assert_eq!(find_disk_write(&mut seen, 1_000, &low), rate(0, 1_000));
    let more = vec![DiskTraffic { read: 0, written: 25 }];
    assert_eq!(find_disk_write(&mut seen, 3_000, &more), rate(15, 2_000));
}

#[test]
fn looks_at_rising_counters_add_up() {
    let mut seen = None;
    let mut shown = 0;
    for (written, now) in
        [(100, 0), (100, 10), (250, 10), (1_000, 35), (1_000, 35), (1_001, 36)]
    {
        let disks = vec![DiskTraffic { read: 0, written }];
        match find_disk_write(&mut seen, now, &disks) {
            Reading::Rate { value, .. } => shown += value,
            Reading::Scaled { value, .. } => shown += value,
            _ => {}
        }
    }
    assert_eq!(shown, 901);
}

#[test]
fn loopback_does_not_count() {
    let networks =
        vec![network("lo", 1_000, 2_000), network("eth0", 10, 20), network("lo0", 3, 4)];
    assert_eq!(received(&networks), vec![10, 3]);
    assert_eq!(transmitted(&networks), vec![20, 4]);
    let mut down = Some((1, 0));
    let mut up = Some((2, 0));
    assert_eq!(find_net_download(&mut down, 500, &networks), rate(12, 500));
    assert_eq!(find_net_upload(&mut up, 600, &networks), rate(22, 600));
    assert_eq!(down, Some((13, 500)));
    assert_eq!(up, Some((24, 600)));
}

#[test]
fn networks_may_come_in_any_order() {
    let mut a = Some((0, 0));
    let mut b = Some((0, 0));
    let forth = vec![network("eth0", 1, 5), network("lo", 9, 9), network("wlan0", 2, 6)];
    let back = vec![network("wlan0", 2, 6), network("lo", 9, 9), network("eth0", 1, 5)];
    assert_eq!(find_net_download(&mut a, 9, &forth), find_net_download(&mut b, 9, &back));
    assert_eq!(a, Some((3, 9)));
    assert_eq!(find_net_upload(&mut a, 10, &forth), find_net_upload(&mut b, 10, &back));
    assert_eq!(b, Some((11, 10)));
}

#[test]
fn totals_that_cannot_be_held_are_told() {
    assert_eq!(total(&vec![]), Some(0));
    assert_eq!(total(&vec![u64::MAX - 1, 1]), Some(u64::MAX));
    assert_eq!(total(&vec![u64::MAX, 0, 1]), None);
    let disks = vec![DiskTraffic { read: 1, written: u64::MAX }; 2];
    assert_eq!(total(&written(&disks)), None);
    assert_eq!(total(&read(&disks)), Some(2));
}

#[test]
fn positive_is_greater_than_zero() {
    for v in [
        0.0_f32,
        -0.0,
        1.0,
        -1.0,
        f32::MIN_POSITIVE,
        1e-45,
        -1e-45,
        f32::MAX,
        f32::INFINITY,
        f32::NEG_INFINITY,
        f32::NAN,
        -f32::NAN,
    ] {
        assert_eq!(positive(v.to_bits()), v > 0.0);
    }
}
