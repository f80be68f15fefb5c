//! The sensors of a machine: the load and the temperature of its processor, its memory, its disks
//! and networks, its fans and voltages, and its graphics cards.
//!
//! The library decides what to look at and what to make of it. Whoever uses it does the looking: a
//! sensor that has to search puts its queries through [`host::follow`]; the others take what was
//! read. Either way the result is a [`reading::Reading`].
pub mod cpu;
pub mod file;
pub mod gpu;
pub mod host;
pub mod hwmon;
pub mod listing;
pub mod memory;
pub mod number;
pub mod order;
pub mod reading;
pub mod text;
pub mod traffic;

pub use crate::cpu::find_cpu_load;
pub use crate::gpu::{
    GpuInfo, find_gpu_load, find_gpu_power, find_gpu_temperature, find_gpu_vram, find_gpu_vram_gb,
    find_gpu_vram_total_gb,
};
pub use crate::hwmon::{
    find_cpu_temperature, find_cpu_voltage, find_motherboard_temperature, find_nvme_temperature,
    find_system_fan_speed,
};
pub use crate::listing::list_gpus;
pub use crate::memory::{
    find_ram_temperature, find_ram_total_gb, find_ram_usage, find_ram_usage_gb,
};
pub use crate::traffic::{find_disk_read, find_disk_write, find_net_download, find_net_upload};
