//! Units in which a placeholder may ask for a quantity.

use crate::formatter::decimal::{lemma_pow10_positive, lemma_pow10_values, pow10, Decimal};
use crate::text::str_eq;
use vstd::arithmetic::div_mod::lemma_fundamental_div_mod;
use vstd::prelude::*;

verus! {

/// An amount of information, in bytes.
#[derive(Debug, Clone, Copy, PartialEq, Eq, Structural)]
pub struct Information {
    pub bytes: u64,
}

/// A thermodynamic temperature, in millionths of a kelvin.
#[derive(Debug, Clone, Copy, PartialEq, Eq, Structural)]
pub struct Temperature {
    pub microkelvin: u64,
}

/// A power, in millionths of a watt.
#[derive(Debug, Clone, Copy, PartialEq, Eq, Structural)]
pub struct Power {
    pub microwatts: u64,
}

/// A unit in which a quantity is given as an exact decimal number.
pub trait Unit: Copy {
    /// The quantity that the unit measures.
    type Value;

    /// The quantity `v` in this unit.
    spec fn spec_compute(self, v: Self::Value) -> Decimal;

    /// The quantity `v` in this unit.
    fn compute(self, v: Self::Value) -> (d: Decimal)
        ensures
            d == self.spec_compute(v),
            d.wf(),
    ;
}

/// Zero degrees Celsius, in millionths of a kelvin.
pub const ZERO_CELSIUS: u64 = 273_150_000;

impl Temperature {
    /// The temperature that lies `microcelsius` millionths of a degree above
    /// zero degrees Celsius; none below absolute zero.
    pub fn from_microcelsius(microcelsius: i64) -> (r: Option<Temperature>)
        ensures
            microcelsius + ZERO_CELSIUS < 0 ==> r.is_none(),
            microcelsius + ZERO_CELSIUS >= 0 ==> r == Some(
                Temperature { microkelvin: (microcelsius + ZERO_CELSIUS) as u64 },
            ),
    {
        let k: i128 = microcelsius as i128 + ZERO_CELSIUS as i128;
        if k < 0 {
            None
        } else {
            Some(Temperature { microkelvin: k as u64 })
        }
    }
}

/// A unit of information: bytes or bits, with binary (1024) or decimal (1000)
/// prefixes.
#[derive(Debug, Clone, Copy, PartialEq, Eq, Structural)]
pub enum MemUnit {
    KiB,
    MiB,
    GiB,
    KB,
    MB,
    GB,
    Kib,
    Mib,
    Gib,
    Kb,
    Mb,
    Gb,
}

impl MemUnit {
    /// The unit that `name` spells. Spelling is case-sensitive: `MiB` is a
    /// mebibyte, `Mib` a mebibit, `MB` a megabyte, `Mb` a megabit.
    pub open spec fn spec_from_name(name: Seq<char>) -> Option<MemUnit> {
        if name == "KiB"@ {
            Some(MemUnit::KiB)
        } else if name == "MiB"@ {
            Some(MemUnit::MiB)
        } else if name == "GiB"@ {
            Some(MemUnit::GiB)
        } else if name == "KB"@ {
            Some(MemUnit::KB)
        } else if name == "MB"@ {
            Some(MemUnit::MB)
        } else if name == "GB"@ {
            Some(MemUnit::GB)
        } else if name == "Kib"@ {
            Some(MemUnit::Kib)
        } else if name == "Mib"@ {
            Some(MemUnit::Mib)
        } else if name == "Gib"@ {
            Some(MemUnit::Gib)
        } else if name == "Kb"@ {
            Some(MemUnit::Kb)
        } else if name == "Mb"@ {
            Some(MemUnit::Mb)
        } else if name == "Gb"@ {
            Some(MemUnit::Gb)
        } else {
            None
        }
    }

    /// How many bits or bytes of the unit's kind one byte holds: 1 for a unit
    /// of bytes, 8 for a unit of bits.
    pub open spec fn multiplier(self) -> nat {
        match self {
            MemUnit::KiB | MemUnit::MiB | MemUnit::GiB | MemUnit::KB | MemUnit::MB | MemUnit::GB => 1,
            MemUnit::Kib | MemUnit::Mib | MemUnit::Gib | MemUnit::Kb | MemUnit::Mb | MemUnit::Gb => 8,
        }
    }

    /// How many bytes, or bits, make one of the unit: a power of 1024 for the
    /// binary prefixes, of 1000 for the decimal ones.
    pub open spec fn divisor(self) -> nat {
        match self {
            MemUnit::KiB | MemUnit::Kib => 1024,
            MemUnit::MiB | MemUnit::Mib => 1024 * 1024,
            MemUnit::GiB | MemUnit::Gib => 1024 * 1024 * 1024,
            MemUnit::KB | MemUnit::Kb => 1000,
            MemUnit::MB | MemUnit::Mb => 1000 * 1000,
            MemUnit::GB | MemUnit::Gb => 1000 * 1000 * 1000,
        }
    }

    /// How many digits after the point write any whole number divided by the
    /// divisor.
    pub open spec fn scale(self) -> nat {
        match self {
            MemUnit::KiB | MemUnit::Kib => 10,
            MemUnit::MiB | MemUnit::Mib => 20,
            MemUnit::GiB | MemUnit::Gib => 30,
            MemUnit::KB | MemUnit::Kb => 3,
            MemUnit::MB | MemUnit::Mb => 6,
            MemUnit::GB | MemUnit::Gb => 9,
        }
    }

    /// Ten to the scale, over the divisor.
    pub open spec fn factor(self) -> nat {
        match self {
            MemUnit::KiB | MemUnit::Kib => 9_765_625,
            MemUnit::MiB | MemUnit::Mib => 95_367_431_640_625,
            MemUnit::GiB | MemUnit::Gib => 931_322_574_615_478_515_625,
            MemUnit::KB | MemUnit::Kb | MemUnit::MB | MemUnit::Mb | MemUnit::GB | MemUnit::Gb => 1,
        }
    }

    /// The divisor times the factor is ten to the scale.
    pub proof fn lemma_factor(self)
        ensures
            self.divisor() * self.factor() == pow10(self.scale()),
    {
        lemma_pow10_values();
    }

    fn parameters(self) -> (r: (u128, u8, u128))
        ensures
            r.0 == self.divisor(),
            r.1 == self.scale(),
            r.2 == self.factor(),
    {
        match self {
            MemUnit::KiB | MemUnit::Kib => (1024, 10, 9_765_625),
            MemUnit::MiB | MemUnit::Mib => (1_048_576, 20, 95_367_431_640_625),
            MemUnit::GiB | MemUnit::Gib => (1_073_741_824, 30, 931_322_574_615_478_515_625),
            MemUnit::KB | MemUnit::Kb => (1_000, 3, 1),
            MemUnit::MB | MemUnit::Mb => (1_000_000, 6, 1),
            MemUnit::GB | MemUnit::Gb => (1_000_000_000, 9, 1),
        }
    }

    pub fn from_name(name: &str) -> (r: Option<MemUnit>)
        ensures
            r == Self::spec_from_name(name@),
    {
        if str_eq(name, "KiB") {
            Some(MemUnit::KiB)
        } else if str_eq(name, "MiB") {
            Some(MemUnit::MiB)
        } else if str_eq(name, "GiB") {
            Some(MemUnit::GiB)
        } else if str_eq(name, "KB") {
            Some(MemUnit::KB)
        } else if str_eq(name, "MB") {
            Some(MemUnit::MB)
        } else if str_eq(name, "GB") {
            Some(MemUnit::GB)
        } else if str_eq(name, "Kib") {
            Some(MemUnit::Kib)
        } else if str_eq(name, "Mib") {
            Some(MemUnit::Mib)
        } else if str_eq(name, "Gib") {
            Some(MemUnit::Gib)
        } else if str_eq(name, "Kb") {
            Some(MemUnit::Kb)
        } else if str_eq(name, "Mb") {
            Some(MemUnit::Mb)
        } else if str_eq(name, "Gb") {
            Some(MemUnit::Gb)
        } else {
            None
        }
    }
}

impl Unit for MemUnit {
    type Value = Information;

    /// The amount `v` in this unit: the number of bytes, times the multiplier,
    /// over the divisor.
    open spec fn spec_compute(self, v: Information) -> Decimal {
        let n = (v.bytes * self.multiplier()) as nat;
        Decimal {
            negative: false,
            whole: (n / self.divisor()) as u128,
            frac: ((n % self.divisor()) * self.factor()) as u128,
            scale: self.scale() as u8,
        }
    }

    /// The amount `v` in this unit, exactly: its value times the divisor is
    /// the number of bytes times the multiplier.
    fn compute(self, v: Information) -> (d: Decimal)
        ensures
            d.magnitude() * self.divisor() == v.bytes * self.multiplier() * pow10(self.scale()),
    {
        let (div, scale, factor) = self.parameters();
        let mult: u128 = match self {
            MemUnit::KiB | MemUnit::MiB | MemUnit::GiB | MemUnit::KB | MemUnit::MB | MemUnit::GB => 1,
            MemUnit::Kib | MemUnit::Mib | MemUnit::Gib | MemUnit::Kb | MemUnit::Mb | MemUnit::Gb => 8,
        };
        let n: u128 = v.bytes as u128 * mult;
        let whole = n / div;
        let rem = n % div;
        proof {
            self.lemma_factor();
            lemma_pow10_values();
            lemma_fundamental_div_mod(n as int, div as int);
            lemma_pow10_positive(scale as nat);
            assert(rem * factor < div * factor) by (nonlinear_arith)
                requires
                    rem < div,
                    factor > 0,
            ;
        }
        let d = Decimal { negative: false, whole, frac: rem * factor, scale };
        proof {
            let t = pow10(scale as nat);
            assert((whole * t + rem * factor) * div == n * t) by (nonlinear_arith)
                requires
                    n as int == div as int * whole as int + rem as int,
                    div * factor == t,
            ;
        }
        d
    }
}

/// A temperature scale.
#[derive(Debug, Clone, Copy, PartialEq, Eq, Structural)]
pub enum TemperatureUnit {
    Celsius,
    Fahrenheit,
    Kelvin,
}

impl TemperatureUnit {
    /// The scale that `name` spells: one letter, `c`, `f` or `k`, in either
    /// case.
    pub open spec fn spec_from_name(name: Seq<char>) -> Option<TemperatureUnit> {
        if name == "c"@ || name == "C"@ {
            Some(TemperatureUnit::Celsius)
        } else if name == "f"@ || name == "F"@ {
            Some(TemperatureUnit::Fahrenheit)
        } else if name == "k"@ || name == "K"@ {
            Some(TemperatureUnit::Kelvin)
        } else {
            None
        }
    }

    pub fn from_name(name: &str) -> (r: Option<TemperatureUnit>)
        ensures
            r == Self::spec_from_name(name@),
    {
        if str_eq(name, "c") || str_eq(name, "C") {
            Some(TemperatureUnit::Celsius)
        } else if str_eq(name, "f") || str_eq(name, "F") {
            Some(TemperatureUnit::Fahrenheit)
        } else if str_eq(name, "k") || str_eq(name, "K") {
            Some(TemperatureUnit::Kelvin)
        } else {
            None
        }
    }
}

impl Unit for TemperatureUnit {
    type Value = Temperature;

    /// The temperature `v` on this scale, in millionths of a degree for
    /// kelvin and Celsius and in ten-millionths for Fahrenheit. In kelvin it
    /// is `v` itself; in degrees Celsius 273.15 less; in degrees Fahrenheit
    /// nine fifths of the kelvin less 459.67.
    open spec fn spec_compute(self, v: Temperature) -> Decimal {
        match self {
            TemperatureUnit::Kelvin => Decimal::of_scaled(v.microkelvin as int, 6),
            TemperatureUnit::Celsius => Decimal::of_scaled(v.microkelvin - 273_150_000, 6),
            TemperatureUnit::Fahrenheit => Decimal::of_scaled(18 * v.microkelvin - 4_596_700_000, 7),
        }
    }

    /// The temperature `v` on this scale.
    fn compute(self, v: Temperature) -> (d: Decimal)
        ensures
            match self {
                TemperatureUnit::Kelvin => d.scale == 6 && d.scaled() == v.microkelvin,
                TemperatureUnit::Celsius => d.scale == 6 && d.scaled() == v.microkelvin - 273_150_000,
                TemperatureUnit::Fahrenheit => d.scale == 7 && d.scaled() == 18 * v.microkelvin
                    - 4_596_700_000,
            },
    {
        let k: i128 = v.microkelvin as i128;
        match self {
            TemperatureUnit::Kelvin => Decimal::from_scaled(k, 6),
            TemperatureUnit::Celsius => Decimal::from_scaled(k - 273_150_000, 6),
            TemperatureUnit::Fahrenheit => Decimal::from_scaled(18 * k - 4_596_700_000, 7),
        }
    }
}

/// A unit of power.
#[derive(Debug, Clone, Copy, PartialEq, Eq, Structural)]
pub enum PowerUnit {
    Watt,
    KiloWatt,
}

impl PowerUnit {
    /// The unit that `name` spells: `w` or `kw`, in lower case.
    pub open spec fn spec_from_name(name: Seq<char>) -> Option<PowerUnit> {
        if name == "w"@ {
            Some(PowerUnit::Watt)
        } else if name == "kw"@ {
            Some(PowerUnit::KiloWatt)
        } else {
            None
        }
    }

    pub fn from_name(name: &str) -> (r: Option<PowerUnit>)
        ensures
            r == Self::spec_from_name(name@),
    {
        if str_eq(name, "w") {
            Some(PowerUnit::Watt)
        } else if str_eq(name, "kw") {
            Some(PowerUnit::KiloWatt)
        } else {
            None
        }
    }
}

impl Unit for PowerUnit {
    type Value = Power;

    /// The power `v` in this unit: in watts `v` itself, in kilowatts a
    /// thousandth of it.
    open spec fn spec_compute(self, v: Power) -> Decimal {
        match self {
            PowerUnit::Watt => Decimal::of_scaled(v.microwatts as int, 6),
            PowerUnit::KiloWatt => Decimal::of_scaled(v.microwatts as int, 9),
        }
    }

    /// The power `v` in this unit.
    fn compute(self, v: Power) -> (d: Decimal)
        ensures
            d.scaled() == v.microwatts,
            match self {
                PowerUnit::Watt => d.scale == 6,
                PowerUnit::KiloWatt => d.scale == 9,
            },
    {
        match self {
            PowerUnit::Watt => Decimal::from_scaled(v.microwatts as i128, 6),
            PowerUnit::KiloWatt => Decimal::from_scaled(v.microwatts as i128, 9),
        }
    }
}

/// The scales agree: the degrees Fahrenheit are nine fifths of the degrees
/// Celsius and 32 more, and the degrees Celsius are 273.15 less than the
/// kelvin.
pub proof fn lemma_temperature_scales(v: Temperature)
    ensures
        TemperatureUnit::Celsius.spec_compute(v).scaled() == TemperatureUnit::Kelvin.spec_compute(
            v,
        ).scaled() - 273_150_000,
        TemperatureUnit::Fahrenheit.spec_compute(v).scaled() == 18 * TemperatureUnit::Celsius.spec_compute(
            v,
        ).scaled() + 320_000_000,
{
    Decimal::lemma_of_scaled(v.microkelvin as int, 6);
    Decimal::lemma_of_scaled(v.microkelvin - 273_150_000, 6);
    Decimal::lemma_of_scaled(18 * v.microkelvin - 4_596_700_000, 7);
}

/// A kilowatt is a thousand watts: the two numbers have the same digits, the
/// point three places apart.
pub proof fn lemma_power_units(v: Power)
    ensures
        PowerUnit::Watt.spec_compute(v).scaled() == v.microwatts,
        PowerUnit::KiloWatt.spec_compute(v).scaled() == v.microwatts,
        PowerUnit::Watt.spec_compute(v).scale + 3 == PowerUnit::KiloWatt.spec_compute(v).scale,
{
    Decimal::lemma_of_scaled(v.microwatts as int, 6);
    Decimal::lemma_of_scaled(v.microwatts as int, 9);
}

} // verus!
