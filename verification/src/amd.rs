//! From the numbers that the AMD driver's files hold to a snapshot.

use crate::formatter::units::{Information, Power, Temperature, ZERO_CELSIUS};
use crate::gpu_status::{GetFieldError, GpuStatusData, PerformanceLevel};
use crate::text::{all_digits, chars_of, is_digit, starts_with, str_starts_with};
use vstd::prelude::*;

verus! {

/// What the driver's files report of a device, each number as its file holds
/// it, or the reason why there is none.
#[derive(Debug, Clone, Copy)]
pub struct AmdReadings {
    /// Whether any process is using the GPU.
    pub has_running_processes: bool,
    /// GPU utilization in percent.
    pub busy_percent: Result<u8, GetFieldError>,
    /// Memory used in bytes.
    pub used_vram: Result<u64, GetFieldError>,
    /// Total memory in bytes.
    pub total_vram: Result<u64, GetFieldError>,
    /// Temperature at the edge sensor in thousandths of a degree Celsius.
    pub edge_temperature: Result<i64, GetFieldError>,
    /// Power usage in millionths of a watt.
    pub power_input: Result<u64, GetFieldError>,
    /// Performance level.
    pub performance_level: Result<PerformanceLevel, GetFieldError>,
    /// Fan speed in revolutions per minute.
    pub fan_current: Result<u32, GetFieldError>,
    /// The highest fan speed in revolutions per minute.
    pub fan_max: Result<u32, GetFieldError>,
}

/// The temperature that a file of thousandths of a degree Celsius holds. A
/// number below absolute zero is no reading.
pub open spec fn spec_temperature(reading: Result<i64, GetFieldError>) -> Result<
    Temperature,
    GetFieldError,
> {
    match reading {
        Ok(mc) => if mc * 1000 + ZERO_CELSIUS < 0 || mc * 1000 + ZERO_CELSIUS > u64::MAX {
            Err(GetFieldError::Unavailable)
        } else {
            Ok(Temperature { microkelvin: (mc * 1000 + ZERO_CELSIUS) as u64 })
        },
        Err(e) => Err(e),
    }
}

/// The fan speed as a percentage of the highest speed, rounded to the
/// nearest whole number and at most 100. Without a highest speed there is
/// none: the reason is that of the speed, else that of the highest speed,
/// and a highest speed of zero makes the reading unavailable.
pub open spec fn spec_fan_percent(
    current: Result<u32, GetFieldError>,
    max: Result<u32, GetFieldError>,
) -> Result<u8, GetFieldError> {
    match (current, max) {
        (Err(e), _) => Err(e),
        (Ok(_), Err(e)) => Err(e),
        (Ok(c), Ok(m)) => if m == 0 {
            Err(GetFieldError::Unavailable)
        } else if (200 * c + m) / (2 * m) > 100 {
            Ok(100u8)
        } else {
            Ok(((200 * c + m) / (2 * m)) as u8)
        },
    }
}

impl AmdReadings {
    /// The snapshot of the device.
    pub open spec fn spec_status(self) -> GpuStatusData {
        GpuStatusData {
            has_running_processes: self.has_running_processes,
            powered_on: true,
            gpu_utilization: self.busy_percent,
            mem_used: match self.used_vram {
                Ok(v) => Ok(Information { bytes: v }),
                Err(e) => Err(e),
            },
            mem_total: match self.total_vram {
                Ok(v) => Ok(Information { bytes: v }),
                Err(e) => Err(e),
            },
            mem_rw: Err(GetFieldError::BrandUnsupported),
            decoder_utilization: Err(GetFieldError::BrandUnsupported),
            encoder_utilization: Err(GetFieldError::BrandUnsupported),
            temperature: spec_temperature(self.edge_temperature),
            power: match self.power_input {
                Ok(uw) => Ok(Power { microwatts: uw }),
                Err(e) => Err(e),
            },
            p_state: Err(GetFieldError::BrandUnsupported),
            p_level: self.performance_level,
            fan_speed: spec_fan_percent(self.fan_current, self.fan_max),
            tx: Err(GetFieldError::BrandUnsupported),
            rx: Err(GetFieldError::BrandUnsupported),
            render_utilization: Err(GetFieldError::BrandUnsupported),
            video_utilization: Err(GetFieldError::BrandUnsupported),
        }
    }

    /// The snapshot of the device: the readings in the units of the
    /// snapshot. What the vendor has no notion of is not supported.
    pub fn status(&self) -> (r: GpuStatusData)
        ensures
            r == self.spec_status(),
    {
        GpuStatusData {
            has_running_processes: self.has_running_processes,
            powered_on: true,
            gpu_utilization: self.busy_percent,
            mem_used: match self.used_vram {
                Ok(v) => Ok(Information { bytes: v }),
                Err(e) => Err(e),
            },
            mem_total: match self.total_vram {
                Ok(v) => Ok(Information { bytes: v }),
                Err(e) => Err(e),
            },
            mem_rw: Err(GetFieldError::BrandUnsupported),
            decoder_utilization: Err(GetFieldError::BrandUnsupported),
            encoder_utilization: Err(GetFieldError::BrandUnsupported),
            temperature: match self.edge_temperature {
                Ok(mc) => {
                    let uk: i128 = mc as i128 * 1000 + ZERO_CELSIUS as i128;
                    if uk < 0 || uk > u64::MAX as i128 {
                        Err(GetFieldError::Unavailable)
                    } else {
                        Ok(Temperature { microkelvin: uk as u64 })
                    }
                },
                Err(e) => Err(e),
            },
            power: match self.power_input {
                Ok(uw) => Ok(Power { microwatts: uw }),
                Err(e) => Err(e),
            },
            p_state: Err(GetFieldError::BrandUnsupported),
            p_level: self.performance_level,
            fan_speed: fan_percent(self.fan_current, self.fan_max),
            tx: Err(GetFieldError::BrandUnsupported),
            rx: Err(GetFieldError::BrandUnsupported),
            render_utilization: Err(GetFieldError::BrandUnsupported),
            video_utilization: Err(GetFieldError::BrandUnsupported),
        }
    }
}

fn fan_percent(current: Result<u32, GetFieldError>, max: Result<u32, GetFieldError>) -> (r: Result<
    u8,
    GetFieldError,
>)
    ensures
        r == spec_fan_percent(current, max),
{
    match (current, max) {
        (Err(e), _) => Err(e),
        (Ok(_), Err(e)) => Err(e),
        (Ok(c), Ok(m)) => {
            if m == 0 {
                Err(GetFieldError::Unavailable)
            } else {
                let p: u64 = (200 * (c as u64) + m as u64) / (2 * (m as u64));
                if p > 100 {
                    Ok(100)
                } else {
                    Ok(p as u8)
                }
            }
        },
    }
}

/// Whether `name` is the name of the directory of a graphics card: `card`
/// and then digits only, if anything.
pub fn is_card_name(name: &str) -> (r: bool)
    ensures
        r == (starts_with(name@, "card"@) && all_digits(name@.skip(4))),
{
    proof {
        reveal_strlit("card");
    }
    if !str_starts_with(name, "card") {
        return false;
    }
    let v = chars_of(name);
    let mut i: usize = 4;
    while i < v.len()
        invariant
            4 <= i <= v.len(),
            v@ == name@,
            forall|k: int| 4 <= k < i ==> is_digit(#[trigger] v@[k]),
        decreases v.len() - i,
    {
        if v[i] < '0' || v[i] > '9' {
            assert(name@.skip(4)[i - 4] == v@[i as int]);
            return false;
        }
        i += 1;
    }
    assert forall|k: int| 0 <= k < name@.skip(4).len() implies is_digit(#[trigger] name@.skip(4)[k]) by {
        assert(name@.skip(4)[k] == v@[k + 4]);
    }
    true
}

} // verus!
