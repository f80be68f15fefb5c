use sensors::file::read_number;
use sensors::gpu::{
    detect_gpu_vendor_for_card, first_hwmon_dir, target, vendor, GpuTarget, GpuVendor,
};
use sensors::host::{follow, Probe, Query, Reply, Step};
use sensors::hwmon::chip_name;
use sensors::listing::{card, cards, pci_id, read_gpu_name};
use sensors::reading::{Reading, GIGABYTE, MICRO, MILLI};
use sensors::{
    find_cpu_temperature, find_cpu_voltage, find_gpu_load, find_gpu_power, find_gpu_temperature,
    find_gpu_vram, find_gpu_vram_gb, find_gpu_vram_total_gb, find_motherboard_temperature,
    find_nvme_temperature, find_system_fan_speed, list_gpus,
};
use std::cell::RefCell;

/// A machine made of the given files; a device is (index, name, load, temperature, memory, power).
struct Fake {
    files: Vec<(String, String)>,
    devices: Vec<(u32, Option<String>, u32, u32, (u64, u64), u32)>,
    count: Option<u32>,
    asked: RefCell<Vec<String>>,
}

impl Fake {
    fn new(files: &[(&str, &str)]) -> Fake {
        Fake {
            files: files.iter().map(|(p, t)| (p.to_string(), t.to_string())).collect(),
            devices: vec![],
            count: None,
            asked: RefCell::new(vec![]),
        }
    }

    fn device(&self, index: u32) -> Option<&(u32, Option<String>, u32, u32, (u64, u64), u32)> {
        self.devices.iter().find(|d| d.0 == index)
    }

    fn answer(&self, query: Query) -> Reply {
        match query {
            Query::Exists(path) => {
                self.asked.borrow_mut().push(format!("? {}", path));
                let dir = format!("{}/", path);
                Reply::Flag(self.files.iter().any(|(p, _)| *p == path || p.starts_with(&dir)))
            }
            Query::Read(path) => {
                self.asked.borrow_mut().push(path.clone());
                Reply::Text(
                    self.files.iter().find(|(p, _)| *p == path).map(|(_, t)| t.clone()),
                )
            }
            Query::List(path) => {
                self.asked.borrow_mut().push(format!("{}/", path));
                let dir = format!("{}/", path);
                let mut names: Vec<String> = vec![];
                for (p, _) in &self.files {
                    if let Some(rest) = p.strip_prefix(&dir) {
                        let name = rest.split('/').next().unwrap().to_string();
                        if !names.contains(&name) {
                            names.push(name);
                        }
                    }
                }
                Reply::Names(if names.is_empty() { None } else { Some(names) })
            }
            Query::Float(text) => Reply::Number(text.parse::<f32>().ok().map(f32::to_bits)),
            Query::DeviceCount => Reply::Number(self.count),
            Query::Device(index) => Reply::Device(self.device(index).map(|d| d.1.clone())),
            Query::DeviceLoad(index) => Reply::Number(self.device(index).map(|d| d.2)),
            Query::DeviceTemperature(index) => Reply::Number(self.device(index).map(|d| d.3)),
            Query::DeviceMemory(index) => Reply::Memory(self.device(index).map(|d| d.4)),
            Query::DevicePower(index) => Reply::Number(self.device(index).map(|d| d.5)),
        }
    }

    fn find<P: Probe>(&self, first: Step<P, P::Found>) -> P::Found {
        follow(first, |query| self.answer(query))
    }
}

fn float(value: f32, divisor: u64) -> Reading {
    Reading::Float { bits: value.to_bits(), divisor }
}

fn strings(items: &[&str]) -> Vec<String> {
    items.iter().map(|s| s.to_string()).collect()
}

#[test]
fn a_number_is_read_without_the_space_around_it() {
    let fake = Fake::new(&[("/a", " 42.5\n"), ("/b", "forty")]);
    for (path, expected) in
        [("/a", Some(42.5_f32.to_bits())), ("/b", None), ("/c", None)]
    {
        let (query, probe) = read_number(path.to_string());
        assert_eq!(fake.find(Step::Ask(query, probe)), expected);
    }
}

#[test]
fn a_reply_of_another_kind_tells_nothing() {
    let (_, probe) = read_number("/a".to_string());
    assert!(matches!(probe.resume(Reply::Flag(true)), Step::Done(None)));
}

#[test]
fn a_chip_is_named_by_itself_or_its_device() {
    let fake = Fake::new(&[("/a/name", "nct6775\n"), ("/b/device/name", " it87 ")]);
    for (dir, expected) in [("/a", "nct6775"), ("/b", "it87"), ("/c", "")] {
        let (query, probe) = chip_name(dir.to_string());
        assert_eq!(fake.find(Step::Ask(query, probe)), expected);
    }
}

#[test]
fn cpu_temperature_is_that_of_a_known_label() {
    let fake = Fake::new(&[
        ("/sys/class/hwmon/hwmon0/name", "acpitz\n"),
        ("/sys/class/hwmon/hwmon0/temp1_input", "20000\n"),
        ("/sys/class/hwmon/hwmon1/name", "k10temp\n"),
        ("/sys/class/hwmon/hwmon1/temp1_input", "50000\n"),
        ("/sys/class/hwmon/hwmon1/temp1_label", "Other\n"),
        ("/sys/class/hwmon/hwmon1/temp2_input", "61500\n"),
        ("/sys/class/hwmon/hwmon1/temp2_label", " Tctl\n"),
        ("/sys/class/hwmon/hwmon1/temp3_input", "70000\n"),
        ("/sys/class/hwmon/hwmon1/temp3_label", "Tdie\n"),
    ]);
    assert_eq!(fake.find(find_cpu_temperature()), float(61500.0, MILLI));
    assert_eq!(
        *fake.asked.borrow(),
        strings(&[
            "/sys/class/hwmon/",
            "/sys/class/hwmon/hwmon0/name",
            "/sys/class/hwmon/hwmon1/name",
            "? /sys/class/hwmon/hwmon1/temp1_input",
            "/sys/class/hwmon/hwmon1/temp1_label",
            "? /sys/class/hwmon/hwmon1/temp2_input",
            "/sys/class/hwmon/hwmon1/temp2_label",
            "/sys/class/hwmon/hwmon1/temp2_input",
        ])
    );
}

#[test]
fn cpu_temperature_without_a_label_is_that_of_the_first_channel() {
    let fake = Fake::new(&[
        ("/sys/class/hwmon/hwmon0/name", "coretemp"),
        ("/sys/class/hwmon/hwmon0/temp1_input", "48000"),
        ("/sys/class/hwmon/hwmon0/temp3_input", "99000"),
        ("/sys/class/hwmon/hwmon0/temp3_label", "Core 0"),
    ]);
    assert_eq!(fake.find(find_cpu_temperature()), float(48000.0, MILLI));
}

#[test]
fn a_channel_whose_value_cannot_be_read_is_passed_over() {
    let fake = Fake::new(&[
        ("/sys/class/hwmon/hwmon0/name", "zenpower"),
        ("/sys/class/hwmon/hwmon0/temp1_input", "n/a"),
        ("/sys/class/hwmon/hwmon0/temp1_label", "Tdie"),
        ("/sys/class/hwmon/hwmon0/temp2_input", "33000"),
        ("/sys/class/hwmon/hwmon0/temp2_label", "Tccd1"),
    ]);
    assert_eq!(fake.find(find_cpu_temperature()), float(33000.0, MILLI));
}

#[test]
fn no_more_than_thirty_two_channels_are_searched() {
    let mut files = vec![("/sys/class/hwmon/hwmon0/name".to_string(), "nct".to_string())];
    for n in 1..=33 {
        files.push((format!("/sys/class/hwmon/hwmon0/temp{}_input", n), format!("{}000", n)));
    }
    let mut fake = Fake::new(&[]);
    fake.files = files;
    fake.files.push((
        "/sys/class/hwmon/hwmon0/temp33_label".to_string(),
        "SYSTIN".to_string(),
    ));
    assert_eq!(fake.find(find_motherboard_temperature()), Reading::Absent);
    fake.files.push((
        "/sys/class/hwmon/hwmon0/temp32_label".to_string(),
        "SYSTIN".to_string(),
    ));
    assert_eq!(fake.find(find_motherboard_temperature()), float(32000.0, MILLI));
}

#[test]
fn motherboard_temperature_needs_a_label() {
    let fake = Fake::new(&[
        ("/sys/class/hwmon/hwmon0/name", "w83627ehf"),
        ("/sys/class/hwmon/hwmon0/temp1_input", "1000"),
        ("/sys/class/hwmon/hwmon0/temp1_label", "MB Temp"),
        ("/sys/class/hwmon/hwmon1/name", "it87"),
        ("/sys/class/hwmon/hwmon1/temp1_input", "2000"),
        ("/sys/class/hwmon/hwmon2/name", "nct6798"),
        ("/sys/class/hwmon/hwmon2/temp1_input", "39000"),
        ("/sys/class/hwmon/hwmon2/temp1_label", "MB Temp"),
    ]);
    assert_eq!(fake.find(find_motherboard_temperature()), float(39000.0, MILLI));
}

#[test]
fn nvme_temperature_is_that_of_the_first_drive_that_shows_one() {
    let fake = Fake::new(&[
        ("/sys/class/hwmon/hwmon0/name", "nvme"),
        ("/sys/class/hwmon/hwmon1/name", "nvme"),
        ("/sys/class/hwmon/hwmon1/temp1_input", "36850"),
    ]);
    assert_eq!(fake.find(find_nvme_temperature()), float(36850.0, MILLI));
}

#[test]
fn fan_speed_is_not_scaled() {
    let fake = Fake::new(&[
        ("/sys/class/hwmon/hwmon0/fan1_input", "900"),
        ("/sys/class/hwmon/hwmon1/fan2_input", "1450\n"),
    ]);
    assert_eq!(fake.find(find_system_fan_speed(2)), float(1450.0, 1));
    assert_eq!(fake.find(find_system_fan_speed(12)), Reading::Absent);
}

#[test]
fn cpu_voltage_channels_begin_with_zero() {
    let fake = Fake::new(&[
        ("/sys/class/hwmon/hwmon0/in0_input", "500"),
        ("/sys/class/hwmon/hwmon0/in0_label", "Vcore"),
        ("/sys/class/hwmon/hwmon0/in1_input", "1104"),
        ("/sys/class/hwmon/hwmon0/in1_label", "CPU Vcore"),
    ]);
    assert_eq!(fake.find(find_cpu_voltage()), float(1104.0, MILLI));
    let first = Fake::new(&[
        ("/sys/class/hwmon/hwmon0/in0_input", "777"),
        ("/sys/class/hwmon/hwmon0/in0_label", "CPU in"),
    ]);
    assert_eq!(first.find(find_cpu_voltage()), float(777.0, MILLI));
}

#[test]
fn a_machine_without_chips_shows_nothing() {
    let fake = Fake::new(&[]);
    assert_eq!(fake.find(find_cpu_temperature()), Reading::Absent);
    assert_eq!(fake.find(find_motherboard_temperature()), Reading::Absent);
    assert_eq!(fake.find(find_nvme_temperature()), Reading::Absent);
    assert_eq!(fake.find(find_system_fan_speed(1)), Reading::Absent);
    assert_eq!(fake.find(find_cpu_voltage()), Reading::Absent);
}

#[test]
fn a_card_name_tells_where_its_sensors_are() {
    assert_eq!(target("nvidia:0"), GpuTarget::Device(0));
    assert_eq!(target("nvidia:17"), GpuTarget::Device(17));
    assert_eq!(target("nvidia:4294967296"), GpuTarget::Device(0));
    assert_eq!(target("nvidia:x"), GpuTarget::Device(0));
    assert_eq!(target("nvidia:"), GpuTarget::Device(0));
    assert_eq!(target("card0"), GpuTarget::Card);
    assert_eq!(target("Nvidia:1"), GpuTarget::Card);
}

#[test]
fn vendors_have_numbers() {
    assert_eq!(vendor("0x8086"), GpuVendor::Intel);
    assert_eq!(vendor("0x10de"), GpuVendor::Nvidia);
    assert_eq!(vendor("0x1002"), GpuVendor::Amd);
    assert_eq!(vendor("0x10DE"), GpuVendor::Unknown);
}

#[test]
fn vendors_are_told_by_what_a_card_shows() {
    let fake = Fake::new(&[
        ("/sys/class/drm/card0/device/gpu_busy_percent", "3"),
        ("/sys/class/drm/card1/gt_cur_freq_mhz", "300"),
        ("/sys/class/drm/card2/device/vendor", "0x10de\n"),
        ("/sys/class/drm/card3/device/vendor", "0x1a03\n"),
        ("/sys/class/drm/card5/device/gpu_busy_percent", "3"),
        ("/sys/class/drm/card5/device/vendor", "0x8086\n"),
    ]);
    for (card, expected) in [
        ("card0", GpuVendor::Amd),
        ("card1", GpuVendor::Intel),
        ("card2", GpuVendor::Nvidia),
        ("card3", GpuVendor::Unknown),
        ("card4", GpuVendor::Unknown),
        ("card5", GpuVendor::Amd),
    ] {
        let (query, probe) = detect_gpu_vendor_for_card(card.to_string());
        assert_eq!(fake.find(Step::Ask(query, probe)), expected);
    }
}

fn amd() -> Fake {
    Fake::new(&[
        ("/sys/class/drm/card0/device/gpu_busy_percent", "17\n"),
        ("/sys/class/drm/card0/device/mem_info_vram_used", "1024\n"),
        ("/sys/class/drm/card0/device/mem_info_vram_total", "4096\n"),
        ("/sys/class/drm/card0/device/hwmon/other/temp1_input", "broken"),
        ("/sys/class/drm/card0/device/hwmon/hwmon3/temp1_input", "54000\n"),
        ("/sys/class/drm/card0/device/hwmon/hwmon3/power1_average", "35000000\n"),
    ])
}

#[test]
fn amd_cards_are_read_from_files() {
    let fake = amd();
    assert_eq!(fake.find(find_gpu_load("card0")), float(17.0, 1));
    assert_eq!(fake.find(find_gpu_temperature("card0")), float(54000.0, MILLI));
    assert_eq!(
        fake.find(find_gpu_vram("card0")),
        Reading::FloatPercent {
            part_bits: 1024.0_f32.to_bits(),
            whole_bits: 4096.0_f32.to_bits(),
        }
    );
    assert_eq!(fake.find(find_gpu_vram_gb("card0")), float(1024.0, GIGABYTE));
    assert_eq!(fake.find(find_gpu_vram_total_gb("card0")), float(4096.0, GIGABYTE));
    assert_eq!(fake.find(find_gpu_power("card0")), float(35_000_000.0, MICRO));
}

#[test]
fn a_share_of_no_memory_is_absent() {
    for total in ["0", "-1", "nan", "none"] {
        let fake = Fake::new(&[
            ("/sys/class/drm/card0/device/gpu_busy_percent", "17\n"),
            ("/sys/class/drm/card0/device/mem_info_vram_used", "1024\n"),
            ("/sys/class/drm/card0/device/mem_info_vram_total", total),
        ]);
        assert_eq!(fake.find(find_gpu_vram("card0")), Reading::Absent);
    }
    let fake = Fake::new(&[
        ("/sys/class/drm/card0/device/gpu_busy_percent", "17\n"),
        ("/sys/class/drm/card0/device/mem_info_vram_total", "4096"),
    ]);
    assert_eq!(fake.find(find_gpu_vram("card0")), Reading::Absent);
    assert_eq!(fake.find(find_gpu_vram_gb("card0")), Reading::Absent);
}

#[test]
fn the_first_monitoring_directory_gives_the_power() {
    let names = strings(&["power", "hwmon7", "hwmon1"]);
    assert_eq!(first_hwmon_dir("/base", &names), Some("/base/hwmon7".to_string()));
    assert_eq!(first_hwmon_dir("/base", &strings(&["power", "Hwmon1"])), None);
    let fake = Fake::new(&[
        ("/sys/class/drm/card0/device/gpu_busy_percent", "17\n"),
        ("/sys/class/drm/card0/device/hwmon/hwmon1/name", "amdgpu"),
        ("/sys/class/drm/card0/device/hwmon/hwmon2/power1_average", "1"),
    ]);
    assert_eq!(fake.find(find_gpu_power("card0")), Reading::Absent);
}

#[test]
fn intel_cards_show_only_their_temperature() {
    let fake = Fake::new(&[
        ("/sys/class/drm/card1/gt_cur_freq_mhz", "300"),
        ("/sys/class/drm/card1/device/mem_info_vram_used", "1024\n"),
        ("/sys/class/drm/card1/device/hwmon/hwmon0/temp1_input", "44000"),
        ("/sys/class/drm/card1/device/hwmon/hwmon0/power1_average", "1"),
    ]);
    assert_eq!(fake.find(find_gpu_temperature("card1")), float(44000.0, MILLI));
    assert_eq!(fake.find(find_gpu_load("card1")), Reading::Absent);
    assert_eq!(fake.find(find_gpu_vram_gb("card1")), Reading::Absent);
    assert_eq!(fake.find(find_gpu_power("card1")), Reading::Absent);
}

fn nvidia() -> Fake {
    let mut fake = Fake::new(&[
        ("/proc/driver/nvidia/version", "550"),
        ("/sys/class/drm/card2/device/vendor", "0x10de"),
    ]);
    fake.count = Some(4);
    fake.devices = vec![
        (0, Some("GeForce".to_string()), 11, 60, (1, 2), 100_500),
        (2, None, 22, 70, (3, 0), 200_500),
    ];
    fake
}

#[test]
fn nvidia_devices_are_asked_from_the_driver() {
    let fake = nvidia();
    assert_eq!(
        fake.find(find_gpu_load("nvidia:2")),
        Reading::Scaled { value: 22, divisor: 1 }
    );
    assert_eq!(
        fake.find(find_gpu_temperature("nvidia:2")),
        Reading::Scaled { value: 70, divisor: 1 }
    );
    assert_eq!(
        fake.find(find_gpu_vram("nvidia:2")),
        Reading::WidePercent { part: 3, whole: 0 }
    );
    assert_eq!(
        fake.find(find_gpu_vram_gb("nvidia:0")),
        Reading::Scaled { value: 1, divisor: GIGABYTE }
    );
    assert_eq!(
        fake.find(find_gpu_vram_total_gb("nvidia:0")),
        Reading::Scaled { value: 2, divisor: GIGABYTE }
    );
    assert_eq!(
        fake.find(find_gpu_power("nvidia:2")),
        Reading::Scaled { value: 200_500, divisor: MILLI }
    );
    assert_eq!(fake.find(find_gpu_power("nvidia:1")), Reading::Absent);
    assert_eq!(fake.find(find_gpu_vram("nvidia:9")), Reading::Absent);
    assert!(fake.asked.borrow().is_empty());
}

#[test]
fn a_card_of_nvidia_is_the_first_device() {
    let fake = nvidia();
    assert_eq!(
        fake.find(find_gpu_load("card2")),
        Reading::Scaled { value: 11, divisor: 1 }
    );
}

#[test]
fn only_cards_are_listed_and_not_their_outputs() {
    assert!(card("card0"));
    assert!(card("card12"));
    assert!(!card("card"));
    assert!(!card("card0-HDMI-A-1"));
    assert!(!card("renderD128"));
    assert!(!card("car"));
    let names = strings(&["card1", "version", "card0-DP-1", "card10", "card0"]);
    assert_eq!(cards(&names), strings(&["card0", "card1", "card10"]));
}

#[test]
fn the_first_pci_number_names_a_card() {
    assert_eq!(
        pci_id("DRIVER=amdgpu\nPCI_ID=1002:744C\nPCI_ID=1:2\n"),
        Some("1002:744C".to_string())
    );
    assert_eq!(pci_id("DRIVER=i915\n PCI_ID=8086:1\n"), None);
    assert_eq!(pci_id("PCI_ID="), Some(String::new()));
}

#[test]
fn a_card_is_named_by_its_number_or_its_chip() {
    let fake = Fake::new(&[
        ("/sys/class/drm/card0/device/uevent", "A=1\r\nPCI_ID=1002:744C\r\n"),
        ("/sys/class/drm/card1/device/uevent", "A=1\n"),
        ("/sys/class/drm/card1/device/hwmon/hwmon0/name", " \n"),
        ("/sys/class/drm/card1/device/hwmon/hwmon1/name", "i915\n"),
    ]);
    for (name, expected) in [("card0", "1002:744C"), ("card1", "i915"), ("card2", "")] {
        let (query, probe) = read_gpu_name(name.to_string());
        assert_eq!(fake.find(Step::Ask(query, probe)), expected);
    }
}

#[test]
fn devices_are_listed_before_cards() {
    let mut fake = nvidia();
    for (path, text) in [
        ("/sys/class/drm/card10/device/vendor", "0x1a03"),
        ("/sys/class/drm/card1/device/gpu_busy_percent", "0"),
        ("/sys/class/drm/card1/device/uevent", "PCI_ID=1002:744C\n"),
        ("/sys/class/drm/card0/gt_cur_freq_mhz", "300"),
        ("/sys/class/drm/card0-HDMI-A-1/status", "connected"),
        ("/sys/class/drm/card3/device/gpu_busy_percent", "0"),
    ] {
        fake.files.push((path.to_string(), text.to_string()));
    }
    let listed: Vec<(String, String)> =
        fake.find(list_gpus()).gpus.iter().map(|g| (g.card.clone(), g.name.clone())).collect();
    let expected: Vec<(String, String)> = [
        ("nvidia:0", "NVIDIA GeForce (GPU 0)"),
        ("nvidia:2", "NVIDIA NVIDIA GPU 2 (GPU 2)"),
        ("card0", "Intel card0 (card0)"),
        ("card1", "card1 - 1002:744C"),
        ("card10", "GPU card10 (card10)"),
        ("card2", "GPU card2 (card2)"),
        ("card3", "AMD card3 (card3)"),
    ]
    .iter()
    .map(|(c, n)| (c.to_string(), n.to_string()))
    .collect();
    assert_eq!(listed, expected);
}

#[test]
fn an_entry_without_a_number_is_not_listed() {
    let fake = Fake::new(&[
        ("/sys/class/drm/card/status", "on"),
        ("/sys/class/drm/card0/device/uevent", "PCI_ID=8086:9A49"),
    ]);
    let listed: Vec<(String, String)> =
        fake.find(list_gpus()).gpus.iter().map(|g| (g.card.clone(), g.name.clone())).collect();
    assert_eq!(listed, vec![("card0".to_string(), "card0 - 8086:9A49".to_string())]);
}

#[test]
fn whatever_is_listed_leads_back() {
    let fake = nvidia();
    let gpus = fake.find(list_gpus()).gpus;
    let targets: Vec<GpuTarget> = gpus.iter().map(|g| target(&g.card)).collect();
    assert_eq!(
        targets,
        vec![GpuTarget::Device(0), GpuTarget::Device(2), GpuTarget::Card]
    );
    let copy = gpus[0].clone();
    assert_eq!(copy.card, "nvidia:0");
    assert_eq!(copy.name, "NVIDIA GeForce (GPU 0)");
}

#[test]
fn without_the_driver_no_device_is_listed() {
    let mut fake = nvidia();
    fake.files.remove(0);
    let cards: Vec<String> =
        fake.find(list_gpus()).gpus.iter().map(|g| g.card.clone()).collect();
    assert_eq!(cards, strings(&["card2"]));
    let mut silent = nvidia();
    silent.count = None;
    let cards: Vec<String> =
        silent.find(list_gpus()).gpus.iter().map(|g| g.card.clone()).collect();
    assert_eq!(cards, strings(&["card2"]));
    assert!(Fake::new(&[]).find(list_gpus()).gpus.is_empty());
}

#[test]
fn memory_sensors_of_a_card_agree() {
    let fake = amd();
    match (
        fake.find(find_gpu_vram("card0")),
        fake.find(find_gpu_vram_gb("card0")),
        fake.find(find_gpu_vram_total_gb("card0")),
    ) {
        (
            Reading::FloatPercent { part_bits, whole_bits },
            Reading::Float { bits: used, .. },
            Reading::Float { bits: total, .. },
        ) => {
            assert_eq!(part_bits, used);
            assert_eq!(whole_bits, total);
        }
        _ => panic!("a card with memory shows it"),
    }
}
