//! From the numbers that the NVIDIA management library gives to a snapshot.

use crate::formatter::units::{Information, Power, Temperature, ZERO_CELSIUS};
use crate::gpu_status::{GetFieldError, GpuStatusData, PState};
use crate::text::{chars_of, spec_trim, str_eq, string_of, trim};
use vstd::prelude::*;
use vstd::string::*;

verus! {

/// What the management library reports of a device, each number as the
/// library gives it, or the reason why there is none.
#[derive(Debug, Clone, Copy)]
pub struct NvidiaReadings {
    /// Whether any process is using the GPU.
    pub has_running_processes: bool,
    /// GPU utilization in percent.
    pub gpu_utilization: Result<u32, GetFieldError>,
    /// Memory data bus utilization in percent.
    pub memory_utilization: Result<u32, GetFieldError>,
    /// Memory used in bytes.
    pub memory_used: Result<u64, GetFieldError>,
    /// Total memory in bytes.
    pub memory_total: Result<u64, GetFieldError>,
    /// Decoder utilization in percent.
    pub decoder_utilization: Result<u32, GetFieldError>,
    /// Encoder utilization in percent.
    pub encoder_utilization: Result<u32, GetFieldError>,
    /// Temperature in whole degrees Celsius.
    pub temperature: Result<u32, GetFieldError>,
    /// Power usage in milliwatts.
    pub power_usage: Result<u32, GetFieldError>,
    /// Performance state.
    pub performance_state: Result<PState, GetFieldError>,
    /// Fan speed in percent.
    pub fan_speed: Result<u32, GetFieldError>,
    /// PCIe TX throughput in kilobytes per second.
    pub pcie_tx: Result<u32, GetFieldError>,
    /// PCIe RX throughput in kilobytes per second.
    pub pcie_rx: Result<u32, GetFieldError>,
}

/// A percentage as one byte: the number itself up to 255, and its low byte
/// beyond.
pub open spec fn spec_percent(reading: Result<u32, GetFieldError>) -> Result<u8, GetFieldError> {
    match reading {
        Ok(v) => Ok((v % 256) as u8),
        Err(e) => Err(e),
    }
}

fn percent(reading: Result<u32, GetFieldError>) -> (r: Result<u8, GetFieldError>)
    ensures
        r == spec_percent(reading),
{
    match reading {
        Ok(v) => Ok((v % 256) as u8),
        Err(e) => Err(e),
    }
}

/// An amount in bytes.
pub open spec fn spec_bytes(reading: Result<u64, GetFieldError>) -> Result<Information, GetFieldError> {
    match reading {
        Ok(v) => Ok(Information { bytes: v }),
        Err(e) => Err(e),
    }
}

fn bytes(reading: Result<u64, GetFieldError>) -> (r: Result<Information, GetFieldError>)
    ensures
        r == spec_bytes(reading),
{
    match reading {
        Ok(v) => Ok(Information { bytes: v }),
        Err(e) => Err(e),
    }
}

/// An amount in kilobytes of a thousand bytes.
pub open spec fn spec_kilobytes(reading: Result<u32, GetFieldError>) -> Result<
    Information,
    GetFieldError,
> {
    match reading {
        Ok(v) => Ok(Information { bytes: (v * 1000) as u64 }),
        Err(e) => Err(e),
    }
}

fn kilobytes(reading: Result<u32, GetFieldError>) -> (r: Result<Information, GetFieldError>)
    ensures
        r == spec_kilobytes(reading),
{
    match reading {
        Ok(v) => Ok(Information { bytes: v as u64 * 1000 }),
        Err(e) => Err(e),
    }
}

impl NvidiaReadings {
    /// The snapshot of a device that is powered on.
    pub open spec fn spec_status(self) -> GpuStatusData {
        GpuStatusData {
            has_running_processes: self.has_running_processes,
            powered_on: true,
            gpu_utilization: spec_percent(self.gpu_utilization),
            mem_used: spec_bytes(self.memory_used),
            mem_total: spec_bytes(self.memory_total),
            mem_rw: spec_percent(self.memory_utilization),
            decoder_utilization: spec_percent(self.decoder_utilization),
            encoder_utilization: spec_percent(self.encoder_utilization),
            temperature: match self.temperature {
                Ok(c) => Ok(Temperature { microkelvin: (c * 1_000_000 + ZERO_CELSIUS) as u64 }),
                Err(e) => Err(e),
            },
            power: match self.power_usage {
                Ok(mw) => Ok(Power { microwatts: (mw * 1000) as u64 }),
                Err(e) => Err(e),
            },
            p_state: self.performance_state,
            p_level: Err(GetFieldError::BrandUnsupported),
            fan_speed: spec_percent(self.fan_speed),
            tx: spec_kilobytes(self.pcie_tx),
            rx: spec_kilobytes(self.pcie_rx),
            render_utilization: Err(GetFieldError::BrandUnsupported),
            video_utilization: Err(GetFieldError::BrandUnsupported),
        }
    }

    /// The snapshot of a device that is powered on: the readings in the
    /// units of the snapshot. What the vendor has no notion of is not
    /// supported.
    pub fn status(&self) -> (r: GpuStatusData)
        ensures
            r == self.spec_status(),
    {
        GpuStatusData {
            has_running_processes: self.has_running_processes,
            powered_on: true,
            gpu_utilization: percent(self.gpu_utilization),
            mem_used: bytes(self.memory_used),
            mem_total: bytes(self.memory_total),
            mem_rw: percent(self.memory_utilization),
            decoder_utilization: percent(self.decoder_utilization),
            encoder_utilization: percent(self.encoder_utilization),
            temperature: match self.temperature {
                Ok(c) => Ok(Temperature { microkelvin: c as u64 * 1_000_000 + ZERO_CELSIUS }),
                Err(e) => Err(e),
            },
            power: match self.power_usage {
                Ok(mw) => Ok(Power { microwatts: mw as u64 * 1000 }),
                Err(e) => Err(e),
            },
            p_state: self.performance_state,
            p_level: Err(GetFieldError::BrandUnsupported),
            fan_speed: percent(self.fan_speed),
            tx: kilobytes(self.pcie_tx),
            rx: kilobytes(self.pcie_rx),
            render_utilization: Err(GetFieldError::BrandUnsupported),
            video_utilization: Err(GetFieldError::BrandUnsupported),
        }
    }
}

/// The snapshot of a device that is powered off: nothing is read from it, so
/// that reading does not wake it.
pub fn powered_off() -> (r: GpuStatusData)
    ensures
        r == GpuStatusData::nothing(),
{
    GpuStatusData::default()
}

/// Whether the runtime status of a PCI device, as the kernel writes it, says
/// that the device is powered on: it reads `active`, white space around it
/// aside.
pub fn is_active(status: &str) -> (r: bool)
    ensures
        r == (spec_trim(status@) == "active"@),
{
    let core = trim(status);
    str_eq(core.as_str(), "active")
}

/// The name of a PCI device in the kernel's file system for the bus id that
/// the management library gives: that bus id without its first four
/// characters, since the library writes the domain with eight digits and the
/// kernel with four.
pub fn sysfs_bus_id(bus_id: &str) -> (r: String)
    ensures
        r@ == (if bus_id@.len() >= 4 {
            bus_id@.skip(4)
        } else {
            Seq::<char>::empty()
        }),
{
    let v = chars_of(bus_id);
    if v.len() >= 4 {
        let r = string_of(&v, 4, v.len());
        assert(r@ =~= bus_id@.skip(4));
        r
    } else {
        String::new()
    }
}

/// The file that holds the runtime status of the PCI device `bus_id`.
pub fn runtime_status_path(bus_id: &str) -> (r: String)
    ensures
        r@ == "/sys/bus/pci/devices/"@ + bus_id@ + "/power/runtime_status"@,
{
    let mut r = String::from_str("/sys/bus/pci/devices/");
    r.append(bus_id);
    r.append("/power/runtime_status");
    r
}

} // verus!
