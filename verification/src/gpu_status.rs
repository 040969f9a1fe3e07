//! Metric snapshots and the fields that placeholders name.

pub mod fields;

use crate::formatter::decimal::{
    lemma_nat_text_digits, lemma_padded_text_digits, nat_text, padded_text, write_nat, Decimal,
};
use crate::formatter::units::{Information, Power, Temperature, Unit};
use crate::formatter::trim::{
    last_position, lemma_last_position, lemma_last_position_absent, lemma_last_position_concat,
    lemma_strip_zeros, lemma_strip_zeros_end, lemma_trimmed_append, lemma_utf8_len_prefix,
    strip_zeros, trim_trailing_zeros, trimmed, utf8_len,
};
use crate::formatter::{chunk_views, rendered, State};
use crate::gpu_status::fields::{Field, MemField, U8Field};
use vstd::prelude::*;
use vstd::string::*;

verus! {

/// Why a snapshot holds no value for a metric.
#[derive(Debug, Clone, Copy, PartialEq, Eq, Structural)]
pub enum GetFieldError {
    /// The vendor or the device does not have this metric at all.
    BrandUnsupported,
    /// The metric exists, but it could not be read this time.
    Unavailable,
}

/// Why a field was not written.
#[derive(Debug)]
pub enum WriteFieldError {
    /// The snapshot holds no value for the field.
    FieldIsNone,
}

/// (NVIDIA) Performance state: sixteen levels, `P0` the highest, or unknown.
#[derive(Debug, Clone, Copy, PartialEq, Eq, Structural)]
pub enum PState {
    P0,
    P1,
    P2,
    P3,
    P4,
    P5,
    P6,
    P7,
    P8,
    P9,
    P10,
    P11,
    P12,
    P13,
    P14,
    P15,
    Unknown,
}

impl Default for PState {
    fn default() -> (r: PState)
        ensures
            r == PState::Unknown,
    {
        PState::Unknown
    }
}

impl PState {
    /// The name under which the state is shown.
    pub open spec fn label(self) -> Seq<char> {
        match self {
            PState::P0 => "P0"@,
            PState::P1 => "P1"@,
            PState::P2 => "P2"@,
            PState::P3 => "P3"@,
            PState::P4 => "P4"@,
            PState::P5 => "P5"@,
            PState::P6 => "P6"@,
            PState::P7 => "P7"@,
            PState::P8 => "P8"@,
            PState::P9 => "P9"@,
            PState::P10 => "P10"@,
            PState::P11 => "P11"@,
            PState::P12 => "P12"@,
            PState::P13 => "P13"@,
            PState::P14 => "P14"@,
            PState::P15 => "P15"@,
            PState::Unknown => "Unknown"@,
        }
    }

    /// The name under which the state is shown.
    pub fn as_str(self) -> (r: &'static str)
        ensures
            r@ == self.label(),
    {
        match self {
            PState::P0 => "P0",
            PState::P1 => "P1",
            PState::P2 => "P2",
            PState::P3 => "P3",
            PState::P4 => "P4",
            PState::P5 => "P5",
            PState::P6 => "P6",
            PState::P7 => "P7",
            PState::P8 => "P8",
            PState::P9 => "P9",
            PState::P10 => "P10",
            PState::P11 => "P11",
            PState::P12 => "P12",
            PState::P13 => "P13",
            PState::P14 => "P14",
            PState::P15 => "P15",
            PState::Unknown => "Unknown",
        }
    }
}

/// (AMD) Performance level that the driver is forced to.
#[derive(Debug, Clone, Copy, PartialEq, Eq, Structural)]
pub enum PerformanceLevel {
    Auto,
    Low,
    High,
    Manual,
    ProfileStandard,
    ProfileMinSclk,
    ProfileMinMclk,
    ProfilePeak,
    PerfDeterminism,
    ProfileExit,
}

impl PerformanceLevel {
    /// The name under which the level is shown: the one the driver uses.
    pub open spec fn label(self) -> Seq<char> {
        match self {
            PerformanceLevel::Auto => "auto"@,
            PerformanceLevel::Low => "low"@,
            PerformanceLevel::High => "high"@,
            PerformanceLevel::Manual => "manual"@,
            PerformanceLevel::ProfileStandard => "profile_standard"@,
            PerformanceLevel::ProfileMinSclk => "profile_min_sclk"@,
            PerformanceLevel::ProfileMinMclk => "profile_min_mclk"@,
            PerformanceLevel::ProfilePeak => "profile_peak"@,
            PerformanceLevel::PerfDeterminism => "perf_determinism"@,
            PerformanceLevel::ProfileExit => "profile_exit"@,
        }
    }
}

/// Calls `to_string` on the `amdgpu_sysfs::gpu_handle::PerformanceLevel` of
/// the same name, which goes through that type's `Display`. Taken on trust,
/// not proved: `Display` writes each level as [`PerformanceLevel::label`]
/// lists it, in lower case with underscores.
#[verifier::external_body]
fn performance_level_text(level: PerformanceLevel) -> (r: String)
    ensures
        r@ == level.label(),
{
    let outside = match level {
        PerformanceLevel::Auto => amdgpu_sysfs::gpu_handle::PerformanceLevel::Auto,
        PerformanceLevel::Low => amdgpu_sysfs::gpu_handle::PerformanceLevel::Low,
        PerformanceLevel::High => amdgpu_sysfs::gpu_handle::PerformanceLevel::High,
        PerformanceLevel::Manual => amdgpu_sysfs::gpu_handle::PerformanceLevel::Manual,
        PerformanceLevel::ProfileStandard => amdgpu_sysfs::gpu_handle::PerformanceLevel::ProfileStandard,
        PerformanceLevel::ProfileMinSclk => amdgpu_sysfs::gpu_handle::PerformanceLevel::ProfileMinSclk,
        PerformanceLevel::ProfileMinMclk => amdgpu_sysfs::gpu_handle::PerformanceLevel::ProfileMinMclk,
        PerformanceLevel::ProfilePeak => amdgpu_sysfs::gpu_handle::PerformanceLevel::ProfilePeak,
        PerformanceLevel::PerfDeterminism => amdgpu_sysfs::gpu_handle::PerformanceLevel::PerfDeterminism,
        PerformanceLevel::ProfileExit => amdgpu_sysfs::gpu_handle::PerformanceLevel::ProfileExit,
    };
    outside.to_string()
}

/// The share that `used` is of `total`, in percent, rounded to the nearest
/// whole number and half a percent away from zero, and at most 255. Of a
/// total of zero nothing is zero percent and anything else 255.
pub open spec fn percentage(used: nat, total: nat) -> nat {
    if total == 0 {
        if used == 0 {
            0
        } else {
            255
        }
    } else {
        let r = (200 * used + total) / (2 * total);
        if r > 255 {
            255
        } else {
            r
        }
    }
}

/// What is in use is at most all: where no more is used than there is, the
/// percentage is at most 100.
pub proof fn lemma_percentage_bound(used: nat, total: nat)
    requires
        used <= total,
    ensures
        percentage(used, total) <= 100,
{
    if total > 0 {
        let r = (200 * used + total) / (2 * total);
        assert(r <= 100) by (nonlinear_arith)
            requires
                r == (200 * used + total) / (2 * total),
                used <= total,
                total > 0,
        ;
    }
}

/// The text of a quantity in a unit: with a precision, exactly that many
/// digits after the point; without one, all its digits, less the zeros at the
/// end and a point that they leave bare.
pub open spec fn quantity_text(d: Decimal, precision: Option<usize>) -> Seq<char> {
    match precision {
        Some(p) => d.text(Some(p)),
        None => trimmed(d.text(None), 0),
    }
}

/// Without a precision the text of a quantity is never empty and never ends
/// with the point; and where it holds a point, it does not end with a zero
/// either.
pub proof fn lemma_natural_text(d: Decimal)
    requires
        d.wf(),
    ensures
        quantity_text(d, None).len() > 0,
        quantity_text(d, None).last() != '.',
        last_position(quantity_text(d, None), '.') >= 0 ==> quantity_text(d, None).last() != '0',
{
    let s = d.text(None);
    d.lemma_text_natural();
    let whole = nat_text(d.whole as nat);
    let frac = padded_text(d.frac as nat, d.scale as nat);
    lemma_nat_text_digits(d.whole as nat);
    lemma_padded_text_digits(d.frac as nat, d.scale as nat);
    let a = (if d.negative {
        seq!['-']
    } else {
        Seq::<char>::empty()
    }) + whole;
    assert forall|i: int| 0 <= i < a.len() implies a[i] != '.' by {
        if d.negative && i > 0 {
            assert(a[i] == whole[i - 1]);
        } else if !d.negative {
            assert(a[i] == whole[i]);
        }
    }
    assert(a.last() == whole.last());
    lemma_last_position_absent(a, '.');
    if d.scale == 0 {
        assert(s =~= a);
    } else {
        let n = a.len() as int;
        let head = a + seq!['.'];
        assert(s =~= head + frac) by {
            assert(frac + Seq::<char>::empty() =~= frac);
        }
        assert forall|i: int| 0 <= i < frac.len() implies frac[i] != '.' by {}
        lemma_last_position_absent(frac, '.');
        lemma_last_position_concat(head, frac, '.');
        assert(head.last() == '.');
        assert(last_position(s, '.') == n);
        assert(s.take(n) =~= a);
        lemma_utf8_len_prefix(a, 0);
        assert(a.skip(0) =~= a);
        lemma_strip_zeros(s, n);
        lemma_strip_zeros_end(s);
        let t0 = strip_zeros(s);
        if t0.last() == '.' {
            lemma_last_position(s, '.');
            assert(t0.last() == s[t0.len() - 1]);
            assert(t0.len() - 1 == n) by {
                if t0.len() - 1 > n {
                    assert(s[t0.len() - 1] == frac[t0.len() - 1 - n - 1]);
                }
            }
            assert(t0.drop_last() =~= a);
        }
    }
}

/// What is shown in place of a value that is not there.
pub open spec fn unavailable_marker() -> Seq<char> {
    "N/A"@
}

/// One reading of the metrics of a GPU. Each metric is a value or the reason
/// why there is none.
#[derive(Debug, Clone, Copy, PartialEq, Eq)]
pub struct GpuStatusData {
    /// Whether any process is using GPU.
    pub has_running_processes: bool,
    /// Whether GPU is powered on at the PCI level.
    pub powered_on: bool,
    /// GPU utilization in percent.
    pub gpu_utilization: Result<u8, GetFieldError>,
    /// Memory used.
    pub mem_used: Result<Information, GetFieldError>,
    /// Total memory.
    pub mem_total: Result<Information, GetFieldError>,
    /// Memory data bus utilization in percent.
    pub mem_rw: Result<u8, GetFieldError>,
    /// Decoder utilization in percent.
    pub decoder_utilization: Result<u8, GetFieldError>,
    /// Encoder utilization in percent.
    pub encoder_utilization: Result<u8, GetFieldError>,
    /// Temperature.
    pub temperature: Result<Temperature, GetFieldError>,
    /// Power usage.
    pub power: Result<Power, GetFieldError>,
    /// (NVIDIA) Performance state.
    pub p_state: Result<PState, GetFieldError>,
    /// (AMD) Performance level.
    pub p_level: Result<PerformanceLevel, GetFieldError>,
    /// Fan speed in percent.
    pub fan_speed: Result<u8, GetFieldError>,
    /// PCIe TX throughput per second.
    pub tx: Result<Information, GetFieldError>,
    /// PCIe RX throughput per second.
    pub rx: Result<Information, GetFieldError>,
    /// Render engine utilization in percent.
    pub render_utilization: Result<u8, GetFieldError>,
    /// Video engine utilization in percent.
    pub video_utilization: Result<u8, GetFieldError>,
}

impl Default for GpuStatusData {
    /// The reading of a device that is off and has no metric at all.
    fn default() -> (r: GpuStatusData)
        ensures
            r == GpuStatusData::nothing(),
    {
        GpuStatusData {
            has_running_processes: false,
            powered_on: false,
            gpu_utilization: Err(GetFieldError::BrandUnsupported),
            mem_used: Err(GetFieldError::BrandUnsupported),
            mem_total: Err(GetFieldError::BrandUnsupported),
            mem_rw: Err(GetFieldError::BrandUnsupported),
            decoder_utilization: Err(GetFieldError::BrandUnsupported),
            encoder_utilization: Err(GetFieldError::BrandUnsupported),
            temperature: Err(GetFieldError::BrandUnsupported),
            power: Err(GetFieldError::BrandUnsupported),
            p_state: Err(GetFieldError::BrandUnsupported),
            p_level: Err(GetFieldError::BrandUnsupported),
            fan_speed: Err(GetFieldError::BrandUnsupported),
            tx: Err(GetFieldError::BrandUnsupported),
            rx: Err(GetFieldError::BrandUnsupported),
            render_utilization: Err(GetFieldError::BrandUnsupported),
            video_utilization: Err(GetFieldError::BrandUnsupported),
        }
    }
}

impl GpuStatusData {
    /// The reading of a device that is off and has no metric at all.
    pub open spec fn nothing() -> GpuStatusData {
        GpuStatusData {
            has_running_processes: false,
            powered_on: false,
            gpu_utilization: Err(GetFieldError::BrandUnsupported),
            mem_used: Err(GetFieldError::BrandUnsupported),
            mem_total: Err(GetFieldError::BrandUnsupported),
            mem_rw: Err(GetFieldError::BrandUnsupported),
            decoder_utilization: Err(GetFieldError::BrandUnsupported),
            encoder_utilization: Err(GetFieldError::BrandUnsupported),
            temperature: Err(GetFieldError::BrandUnsupported),
            power: Err(GetFieldError::BrandUnsupported),
            p_state: Err(GetFieldError::BrandUnsupported),
            p_level: Err(GetFieldError::BrandUnsupported),
            fan_speed: Err(GetFieldError::BrandUnsupported),
            tx: Err(GetFieldError::BrandUnsupported),
            rx: Err(GetFieldError::BrandUnsupported),
            render_utilization: Err(GetFieldError::BrandUnsupported),
            video_utilization: Err(GetFieldError::BrandUnsupported),
        }
    }

    /// The reading of a percentage.
    pub open spec fn u8_value(self, field: U8Field) -> Result<u8, GetFieldError> {
        match field {
            U8Field::GpuUtilization => self.gpu_utilization,
            U8Field::MemRw => self.mem_rw,
            U8Field::DecoderUtilization => self.decoder_utilization,
            U8Field::EncoderUtilization => self.encoder_utilization,
            U8Field::FanSpeed => self.fan_speed,
            U8Field::RenderUtilization => self.render_utilization,
            U8Field::VideoUtilization => self.video_utilization,
        }
    }

    /// The reading of an amount of information.
    pub open spec fn mem_value(self, field: MemField) -> Result<Information, GetFieldError> {
        match field {
            MemField::MemUsed => self.mem_used,
            MemField::MemTotal => self.mem_total,
            MemField::Tx => self.tx,
            MemField::Rx => self.rx,
        }
    }

    /// The memory in use as a percentage of the total: there is one exactly
    /// when both the memory used and the total memory have a value.
    pub open spec fn mem_usage(self) -> Option<u8> {
        match (self.mem_used, self.mem_total) {
            (Ok(used), Ok(total)) => Some(percentage(used.bytes as nat, total.bytes as nat) as u8),
            _ => None,
        }
    }

    /// The text of the value of `field`, where the snapshot holds one.
    /// [`Field::Unknown`] never has a value.
    pub open spec fn field_text(self, field: Field) -> Option<Seq<char>> {
        match field {
            Field::U8(f) => match self.u8_value(f) {
                Ok(v) => Some(nat_text(v as nat)),
                Err(_) => None,
            },
            Field::Mem { field, unit, precision } => match self.mem_value(field) {
                Ok(v) => Some(quantity_text(unit.spec_compute(v), precision)),
                Err(_) => None,
            },
            Field::Temperature { unit, precision } => match self.temperature {
                Ok(v) => Some(quantity_text(unit.spec_compute(v), precision)),
                Err(_) => None,
            },
            Field::Power { unit, precision } => match self.power {
                Ok(v) => Some(quantity_text(unit.spec_compute(v), precision)),
                Err(_) => None,
            },
            Field::PState => match self.p_state {
                Ok(s) => Some(s.label()),
                Err(_) => None,
            },
            Field::PLevel => match self.p_level {
                Ok(l) => Some(l.label()),
                Err(_) => None,
            },
            Field::MemUtilization => match self.mem_usage() {
                Some(v) => Some(nat_text(v as nat)),
                None => None,
            },
            Field::Unknown => None,
        }
    }

    /// What is shown for `field`: the text of its value, or the marker where
    /// there is none.
    pub open spec fn shown(self, field: Field) -> Seq<char> {
        match self.field_text(field) {
            Some(t) => t,
            None => unavailable_marker(),
        }
    }

    /// Whether the device can never have a value for `field`: the field is
    /// [`Field::Unknown`], or the snapshot says that the vendor does not have
    /// the metric. The memory utilization needs both the memory used and the
    /// total memory.
    pub open spec fn unsupported(self, field: Field) -> bool {
        match field {
            Field::U8(f) => self.u8_value(f) == Err::<u8, GetFieldError>(GetFieldError::BrandUnsupported),
            Field::Mem { field, unit, precision } => self.mem_value(field) == Err::<
                Information,
                GetFieldError,
            >(GetFieldError::BrandUnsupported),
            Field::Temperature { unit, precision } => self.temperature == Err::<
                Temperature,
                GetFieldError,
            >(GetFieldError::BrandUnsupported),
            Field::Power { unit, precision } => self.power == Err::<Power, GetFieldError>(
                GetFieldError::BrandUnsupported,
            ),
            Field::PState => self.p_state == Err::<PState, GetFieldError>(GetFieldError::BrandUnsupported),
            Field::PLevel => self.p_level == Err::<PerformanceLevel, GetFieldError>(
                GetFieldError::BrandUnsupported,
            ),
            Field::MemUtilization => self.mem_used == Err::<Information, GetFieldError>(
                GetFieldError::BrandUnsupported,
            ) || self.mem_total == Err::<Information, GetFieldError>(GetFieldError::BrandUnsupported),
            Field::Unknown => true,
        }
    }

    pub fn get_u8_field(&self, field: U8Field) -> (r: Result<u8, GetFieldError>)
        ensures
            r == self.u8_value(field),
    {
        match field {
            U8Field::GpuUtilization => self.gpu_utilization,
            U8Field::MemRw => self.mem_rw,
            U8Field::DecoderUtilization => self.decoder_utilization,
            U8Field::EncoderUtilization => self.encoder_utilization,
            U8Field::FanSpeed => self.fan_speed,
            U8Field::RenderUtilization => self.render_utilization,
            U8Field::VideoUtilization => self.video_utilization,
        }
    }

    pub fn get_mem_field(&self, field: MemField) -> (r: Result<Information, GetFieldError>)
        ensures
            r == self.mem_value(field),
    {
        match field {
            MemField::MemUsed => self.mem_used,
            MemField::MemTotal => self.mem_total,
            MemField::Tx => self.tx,
            MemField::Rx => self.rx,
        }
    }

    /// The memory in use as a percentage of the total.
    pub fn compute_mem_usage(&self) -> (r: Option<u8>)
        ensures
            r == self.mem_usage(),
            r.is_some() <==> self.mem_used.is_ok() && self.mem_total.is_ok(),
    {
        match (self.mem_used, self.mem_total) {
            (Ok(used), Ok(total)) => {
                if total.bytes == 0 {
                    if used.bytes == 0 {
                        Some(0)
                    } else {
                        Some(255)
                    }
                } else {
                    let r: u128 = (200 * (used.bytes as u128) + total.bytes as u128) / (2 * (
                    total.bytes as u128));
                    if r > 255 {
                        Some(255)
                    } else {
                        Some(r as u8)
                    }
                }
            },
            _ => None,
        }
    }

    /// The label of the status bar: `Off` for a device that is powered off,
    /// `Idle` for one that no process uses, else the template of `state`
    /// rendered against this snapshot.
    pub open spec fn text_of(self, state: State) -> Seq<char> {
        if !self.powered_on {
            "Off"@
        } else if !self.has_running_processes {
            "Idle"@
        } else {
            rendered(chunk_views(state.chunks@), self)
        }
    }

    /// The tooltip: `GPU powered off` for a device that is powered off, `GPU
    /// idle` for one that no process uses, else the template of `state`
    /// rendered against this snapshot.
    pub open spec fn tooltip_of(self, state: State) -> Seq<char> {
        if !self.powered_on {
            "GPU powered off"@
        } else if !self.has_running_processes {
            "GPU idle"@
        } else {
            rendered(chunk_views(state.chunks@), self)
        }
    }

    pub fn get_text<'a>(&self, state: &'a mut State) -> (r: &'a str)
        ensures
            r@ == self.text_of(*old(state)),
            final(state).chunks == old(state).chunks,
            final(state).buffer@ == (if self.powered_on && self.has_running_processes {
                r@
            } else {
                old(state).buffer@
            }),
    {
        if !self.powered_on {
            return "Off";
        }
        if !self.has_running_processes {
            return "Idle";
        }
        state.assemble(self);
        state.buffer.as_str()
    }

    pub fn get_tooltip<'a>(&self, state: &'a mut State) -> (r: &'a str)
        ensures
            r@ == self.tooltip_of(*old(state)),
            final(state).chunks == old(state).chunks,
            final(state).buffer@ == (if self.powered_on && self.has_running_processes {
                r@
            } else {
                old(state).buffer@
            }),
    {
        if !self.powered_on {
            return "GPU powered off";
        }
        if !self.has_running_processes {
            return "GPU idle";
        }
        state.assemble(self);
        state.buffer.as_str()
    }

    /// Appends the text of a quantity in a unit to `buffer`.
    fn write_quantity(d: &Decimal, precision: Option<usize>, buffer: &mut String)
        requires
            d.wf(),
        ensures
            final(buffer)@ == old(buffer)@ + quantity_text(*d, precision),
    {
        let scan_end_index = buffer.as_str().as_bytes().len();
        assert(scan_end_index == utf8_len(buffer@));
        d.write(buffer, precision);
        if precision.is_none() {
            proof {
                d.lemma_text_start();
                lemma_trimmed_append(old(buffer)@, d.text(None));
            }
            trim_trailing_zeros(buffer, scan_end_index);
        }
    }

    /// Write `field` value to `buffer`.
    ///
    /// - Writes "N/A" if `field` is [Field::Unknown].
    /// - Returns [WriteFieldError::FieldIsNone], and leaves `buffer` as it
    ///   is, if the snapshot holds no value for `field`.
    pub fn write_field(&self, field: Field, buffer: &mut String) -> (r: Result<(), WriteFieldError>)
        ensures
            match field {
                Field::Unknown => r.is_ok() && final(buffer)@ == old(buffer)@ + unavailable_marker(),
                _ => match self.field_text(field) {
                    Some(t) => r.is_ok() && final(buffer)@ == old(buffer)@ + t,
                    None => r.is_err() && final(buffer)@ == old(buffer)@,
                },
            },
    {
        match field {
            Field::U8(f) => match self.get_u8_field(f) {
                Ok(v) => {
                    write_nat(buffer, v as u128);
                    Ok(())
                },
                Err(_) => Err(WriteFieldError::FieldIsNone),
            },
            Field::Mem { field, unit, precision } => match self.get_mem_field(field) {
                Ok(v) => {
                    let d = unit.compute(v);
                    Self::write_quantity(&d, precision, buffer);
                    Ok(())
                },
                Err(_) => Err(WriteFieldError::FieldIsNone),
            },
            Field::Temperature { unit, precision } => match self.temperature {
                Ok(v) => {
                    let d = unit.compute(v);
                    Self::write_quantity(&d, precision, buffer);
                    Ok(())
                },
                Err(_) => Err(WriteFieldError::FieldIsNone),
            },
            Field::Power { unit, precision } => match self.power {
                Ok(v) => {
                    let d = unit.compute(v);
                    Self::write_quantity(&d, precision, buffer);
                    Ok(())
                },
                Err(_) => Err(WriteFieldError::FieldIsNone),
            },
            Field::PState => match self.p_state {
                Ok(s) => {
                    buffer.append(s.as_str());
                    Ok(())
                },
                Err(_) => Err(WriteFieldError::FieldIsNone),
            },
            Field::PLevel => match self.p_level {
                Ok(l) => {
                    let text = performance_level_text(l);
                    buffer.append(text.as_str());
                    Ok(())
                },
                Err(_) => Err(WriteFieldError::FieldIsNone),
            },
            Field::MemUtilization => match self.compute_mem_usage() {
                Some(v) => {
                    write_nat(buffer, v as u128);
                    Ok(())
                },
                None => Err(WriteFieldError::FieldIsNone),
            },
            Field::Unknown => {
                buffer.append("N/A");
                Ok(())
            },
        }
    }

    /// Returns `true` if the field is [Field::Unknown] or the snapshot holds
    /// no value for it.
    pub fn is_field_unavailable(&self, field: Field) -> (r: bool)
        ensures
            r == self.field_text(field).is_none(),
    {
        match field {
            Field::Unknown => true,
            Field::U8(f) => self.get_u8_field(f).is_err(),
            Field::Mem { field, unit: _, precision: _ } => self.get_mem_field(field).is_err(),
            Field::Temperature { unit: _, precision: _ } => self.temperature.is_err(),
            Field::Power { unit: _, precision: _ } => self.power.is_err(),
            Field::PState => self.p_state.is_err(),
            Field::PLevel => self.p_level.is_err(),
            Field::MemUtilization => self.compute_mem_usage().is_none(),
        }
    }

    /// Returns `true` if the field is [Field::Unknown] or the vendor does not
    /// have the metric at all. A metric that only could not be read this time
    /// is supported.
    pub fn is_field_unsupported(&self, field: Field) -> (r: bool)
        ensures
            r == self.unsupported(field),
    {
        match field {
            Field::Unknown => true,
            Field::U8(f) => is_unsupported(&self.get_u8_field(f)),
            Field::Mem { field, unit: _, precision: _ } => is_unsupported(&self.get_mem_field(field)),
            Field::Temperature { unit: _, precision: _ } => is_unsupported(&self.temperature),
            Field::Power { unit: _, precision: _ } => is_unsupported(&self.power),
            Field::PState => is_unsupported(&self.p_state),
            Field::PLevel => is_unsupported(&self.p_level),
            Field::MemUtilization => is_unsupported(&self.mem_used) || is_unsupported(&self.mem_total),
        }
    }
}

/// The memory utilization has a value exactly when both the memory used and
/// the total memory have one: whenever either is missing, for whichever
/// reason and whatever the other holds, it is missing too and is shown as the
/// marker.
pub proof fn lemma_mem_utilization_needs_both(data: GpuStatusData)
    ensures
        data.field_text(Field::MemUtilization).is_some() <==> data.mem_used.is_ok()
            && data.mem_total.is_ok(),
        data.mem_used.is_err() || data.mem_total.is_err() ==> data.shown(Field::MemUtilization)
            == unavailable_marker(),
        data.mem_used == Err::<Information, GetFieldError>(GetFieldError::BrandUnsupported)
            || data.mem_total == Err::<Information, GetFieldError>(GetFieldError::BrandUnsupported)
            ==> data.unsupported(Field::MemUtilization),
{
}

/// A field that is not supported has no value, and is shown as the marker.
pub proof fn lemma_unsupported_is_unavailable(data: GpuStatusData, field: Field)
    requires
        data.unsupported(field),
    ensures
        data.field_text(field).is_none(),
        data.shown(field) == unavailable_marker(),
{
}

fn is_unsupported<T>(reading: &Result<T, GetFieldError>) -> (r: bool)
    ensures
        r == (*reading == Err::<T, GetFieldError>(GetFieldError::BrandUnsupported)),
{
    match reading {
        Err(GetFieldError::BrandUnsupported) => true,
        _ => false,
    }
}

} // verus!
