//! The closed vocabulary of placeholder fields, and how the text between the
//! braces of a placeholder names one of them.

use crate::formatter::units::{MemUnit, PowerUnit, TemperatureUnit};
use crate::text::{chars_of, find_char, parse_unsigned, position, str_eq, unsigned_of};
use vstd::prelude::*;
use vstd::string::*;

verus! {

/// A percentage between 0 and 100 that takes no unit.
#[derive(Debug, Clone, Copy, PartialEq, Eq, Structural)]
pub enum U8Field {
    /// GPU utilization in percent.
    GpuUtilization,
    /// Memory data bus utilization in percent.
    MemRw,
    /// Decoder utilization in percent.
    DecoderUtilization,
    /// Encoder utilization in percent.
    EncoderUtilization,
    /// Fan speed in percent.
    FanSpeed,
    /// Render engine utilization in percent.
    RenderUtilization,
    /// Video engine utilization in percent.
    VideoUtilization,
}

impl U8Field {
    /// The field that `name` spells, in snake case.
    pub open spec fn spec_from_name(name: Seq<char>) -> Option<U8Field> {
        if name == "gpu_utilization"@ {
            Some(U8Field::GpuUtilization)
        } else if name == "mem_rw"@ {
            Some(U8Field::MemRw)
        } else if name == "decoder_utilization"@ {
            Some(U8Field::DecoderUtilization)
        } else if name == "encoder_utilization"@ {
            Some(U8Field::EncoderUtilization)
        } else if name == "fan_speed"@ {
            Some(U8Field::FanSpeed)
        } else if name == "render_utilization"@ {
            Some(U8Field::RenderUtilization)
        } else if name == "video_utilization"@ {
            Some(U8Field::VideoUtilization)
        } else {
            None
        }
    }

    pub fn from_name(name: &str) -> (r: Option<U8Field>)
        ensures
            r == Self::spec_from_name(name@),
    {
        if str_eq(name, "gpu_utilization") {
            Some(U8Field::GpuUtilization)
        } else if str_eq(name, "mem_rw") {
            Some(U8Field::MemRw)
        } else if str_eq(name, "decoder_utilization") {
            Some(U8Field::DecoderUtilization)
        } else if str_eq(name, "encoder_utilization") {
            Some(U8Field::EncoderUtilization)
        } else if str_eq(name, "fan_speed") {
            Some(U8Field::FanSpeed)
        } else if str_eq(name, "render_utilization") {
            Some(U8Field::RenderUtilization)
        } else if str_eq(name, "video_utilization") {
            Some(U8Field::VideoUtilization)
        } else {
            None
        }
    }
}

/// An amount of information, which a placeholder asks for in a unit.
#[derive(Debug, Clone, Copy, PartialEq, Eq, Structural)]
pub enum MemField {
    /// Memory used.
    MemUsed,
    /// Total memory.
    MemTotal,
    /// PCIe TX throughput per second.
    Tx,
    /// PCIe RX throughput per second.
    Rx,
}

impl MemField {
    /// The field that `name` spells, in snake case.
    pub open spec fn spec_from_name(name: Seq<char>) -> Option<MemField> {
        if name == "mem_used"@ {
            Some(MemField::MemUsed)
        } else if name == "mem_total"@ {
            Some(MemField::MemTotal)
        } else if name == "tx"@ {
            Some(MemField::Tx)
        } else if name == "rx"@ {
            Some(MemField::Rx)
        } else {
            None
        }
    }

    pub fn from_name(name: &str) -> (r: Option<MemField>)
        ensures
            r == Self::spec_from_name(name@),
    {
        if str_eq(name, "mem_used") {
            Some(MemField::MemUsed)
        } else if str_eq(name, "mem_total") {
            Some(MemField::MemTotal)
        } else if str_eq(name, "tx") {
            Some(MemField::Tx)
        } else if str_eq(name, "rx") {
            Some(MemField::Rx)
        } else {
            None
        }
    }
}

/// What one placeholder stands for.
#[derive(Debug, PartialEq, Clone, Copy)]
#[allow(inconsistent_fields)]
pub enum Field {
    U8(U8Field),
    Mem { field: MemField, unit: MemUnit, precision: Option<usize> },
    Temperature { unit: TemperatureUnit, precision: Option<usize> },
    Power { unit: PowerUnit, precision: Option<usize> },
    /// (NVIDIA) Performance state.
    PState,
    /// (AMD) Performance level.
    PLevel,
    /// Memory utilization in percent, computed as [MemField::MemUsed] / [MemField::MemTotal].
    MemUtilization,
    /// A name outside the vocabulary.
    Unknown,
}

/// Why the text of a placeholder names no field.
#[derive(Debug)]
pub enum UnitParseError {
    /// The field takes a unit and none was given.
    NoUnit,
    /// The text after the dot is no unsigned number.
    Precision(String),
    /// The text after the colon is no unit of information.
    Memory(String),
    /// The text after the colon is no temperature scale.
    Temperature(String),
    /// The text after the colon is no unit of power.
    Power(String),
}

/// A [`UnitParseError`] with its texts as sequences of characters.
pub enum ParseFailure {
    NoUnit,
    Precision(Seq<char>),
    Memory(Seq<char>),
    Temperature(Seq<char>),
    Power(Seq<char>),
}

impl View for UnitParseError {
    type V = ParseFailure;

    open spec fn view(&self) -> ParseFailure {
        match self {
            UnitParseError::NoUnit => ParseFailure::NoUnit,
            UnitParseError::Precision(s) => ParseFailure::Precision(s@),
            UnitParseError::Memory(s) => ParseFailure::Memory(s@),
            UnitParseError::Temperature(s) => ParseFailure::Temperature(s@),
            UnitParseError::Power(s) => ParseFailure::Power(s@),
        }
    }
}

impl ParseFailure {
    /// The sentence that reports this failure.
    pub open spec fn message(self) -> Seq<char> {
        match self {
            ParseFailure::NoUnit => "No unit provided where required"@,
            ParseFailure::Precision(s) => "Unable to parse precision: `"@ + s + "`"@,
            ParseFailure::Memory(s) => "Invalid memory unit: `"@ + s + "`"@,
            ParseFailure::Temperature(s) => "Invalid temperature unit: `"@ + s + "`"@,
            ParseFailure::Power(s) => "Invalid power unit: `"@ + s + "`"@,
        }
    }
}

impl UnitParseError {
    /// The sentence that reports this error.
    pub fn message(&self) -> (r: String)
        ensures
            r@ == self@.message(),
    {
        match self {
            UnitParseError::NoUnit => String::from_str("No unit provided where required"),
            UnitParseError::Precision(s) => quoted("Unable to parse precision: `", s.as_str()),
            UnitParseError::Memory(s) => quoted("Invalid memory unit: `", s.as_str()),
            UnitParseError::Temperature(s) => quoted("Invalid temperature unit: `", s.as_str()),
            UnitParseError::Power(s) => quoted("Invalid power unit: `", s.as_str()),
        }
    }
}

fn quoted(lead: &str, what: &str) -> (r: String)
    ensures
        r@ == lead@ + what@ + "`"@,
{
    let mut r = String::from_str(lead);
    r.append(what);
    r.append("`");
    r
}

/// The up to three parts of a placeholder's text: `field`, `field:unit` or
/// `field:unit.precision`.
#[derive(Debug, Clone, Copy)]
pub struct FormatSegments<'a> {
    pub field: &'a str,
    pub unit: Option<&'a str>,
    pub precision: Option<&'a str>,
}

/// The parts of a placeholder's text as sequences of characters.
pub struct Segments {
    pub field: Seq<char>,
    pub unit: Option<Seq<char>>,
    pub precision: Option<Seq<char>>,
}

impl<'a> View for FormatSegments<'a> {
    type V = Segments;

    open spec fn view(&self) -> Segments {
        Segments {
            field: self.field@,
            unit: match self.unit {
                Some(u) => Some(u@),
                None => None,
            },
            precision: match self.precision {
                Some(p) => Some(p@),
                None => None,
            },
        }
    }
}

/// How a placeholder's text falls into parts: the field ends at the first
/// colon, and what follows is the unit up to its first dot, then the
/// precision. Without a colon all of it is the field; without a dot after the
/// colon there is no precision.
pub open spec fn split_segments(s: Seq<char>) -> Segments {
    let i = position(s, ':');
    if i == s.len() {
        Segments { field: s, unit: None, precision: None }
    } else {
        let rest = s.skip(i + 1);
        let j = position(rest, '.');
        if j == rest.len() {
            Segments { field: s.take(i), unit: Some(rest), precision: None }
        } else {
            Segments { field: s.take(i), unit: Some(rest.take(j)), precision: Some(rest.skip(j + 1)) }
        }
    }
}

impl<'a> FormatSegments<'a> {
    /// Splits the text of a placeholder into its parts.
    pub fn parse(s: &'a str) -> (seg: FormatSegments<'a>)
        ensures
            seg@ == split_segments(s@),
    {
        let v = chars_of(s);
        let n = v.len();
        let i = find_char(&v, 0, ':');
        assert(v@.skip(0) =~= s@);
        if i == n {
            return FormatSegments { field: s, unit: None, precision: None };
        }
        let j = find_char(&v, i + 1, '.');
        let ghost rest = s@.skip(i + 1);
        assert(s@.take(i as int) =~= s@.subrange(0, i as int));
        let field = s.substring_char(0, i);
        if j == n {
            assert(rest =~= s@.subrange(i + 1, n as int));
            let unit = s.substring_char(i + 1, n);
            return FormatSegments { field, unit: Some(unit), precision: None };
        }
        assert(rest.take(j - (i + 1)) =~= s@.subrange(i + 1, j as int));
        assert(rest.skip(j - (i + 1) + 1) =~= s@.subrange(j + 1, n as int));
        let unit = s.substring_char(i + 1, j);
        let precision = s.substring_char(j + 1, n);
        FormatSegments { field, unit: Some(unit), precision: Some(precision) }
    }
}

/// The precision that the parts ask for: none where they hold none, else the
/// number they write; text that is no unsigned number is a failure.
pub open spec fn spec_precision(seg: Segments) -> Result<Option<usize>, ParseFailure> {
    match seg.precision {
        None => Ok(None),
        Some(p) => match unsigned_of(p) {
            Some(n) => Ok(Some(n)),
            None => Err(ParseFailure::Precision(p)),
        },
    }
}

/// The field that the parts of a placeholder name.
///
/// The names of the vocabulary are matched exactly. A field that takes no unit
/// ignores the other parts. A field that takes one fails without it, fails on
/// a unit that its quantity does not have, and then on a precision that is no
/// number. Any other name is [`Field::Unknown`], whatever the other parts hold.
pub open spec fn spec_field(seg: Segments) -> Result<Field, ParseFailure> {
    if seg.field == "p_level"@ {
        Ok(Field::PLevel)
    } else if seg.field == "p_state"@ {
        Ok(Field::PState)
    } else if seg.field == "mem_utilization"@ {
        Ok(Field::MemUtilization)
    } else if seg.field == "power"@ {
        match seg.unit {
            None => Err(ParseFailure::NoUnit),
            Some(u) => match PowerUnit::spec_from_name(u) {
                None => Err(ParseFailure::Power(u)),
                Some(unit) => match spec_precision(seg) {
                    Err(e) => Err(e),
                    Ok(precision) => Ok(Field::Power { unit, precision }),
                },
            },
        }
    } else if seg.field == "temperature"@ {
        match seg.unit {
            None => Err(ParseFailure::NoUnit),
            Some(u) => match TemperatureUnit::spec_from_name(u) {
                None => Err(ParseFailure::Temperature(u)),
                Some(unit) => match spec_precision(seg) {
                    Err(e) => Err(e),
                    Ok(precision) => Ok(Field::Temperature { unit, precision }),
                },
            },
        }
    } else {
        match MemField::spec_from_name(seg.field) {
            Some(field) => match seg.unit {
                None => Err(ParseFailure::NoUnit),
                Some(u) => match MemUnit::spec_from_name(u) {
                    None => Err(ParseFailure::Memory(u)),
                    Some(unit) => match spec_precision(seg) {
                        Err(e) => Err(e),
                        Ok(precision) => Ok(Field::Mem { field, unit, precision }),
                    },
                },
            },
            None => match U8Field::spec_from_name(seg.field) {
                Some(f) => Ok(Field::U8(f)),
                None => Ok(Field::Unknown),
            },
        }
    }
}

/// Whether `name` is the name of a field that takes a unit.
pub open spec fn takes_unit(name: Seq<char>) -> bool {
    name == "power"@ || name == "temperature"@ || MemField::spec_from_name(name).is_some()
}

/// Whether `name` is a name of the vocabulary.
pub open spec fn in_vocabulary(name: Seq<char>) -> bool {
    name == "p_level"@ || name == "p_state"@ || name == "mem_utilization"@ || takes_unit(name)
        || U8Field::spec_from_name(name).is_some()
}

/// A field that takes a unit and is given none is an error, never
/// [`Field::Unknown`]: the name is known, the text is incomplete.
pub proof fn lemma_unit_is_required(seg: Segments)
    requires
        takes_unit(seg.field),
        seg.unit.is_none(),
    ensures
        spec_field(seg) == Err::<Field, ParseFailure>(ParseFailure::NoUnit),
{
    reveal_strlit("p_level");
    reveal_strlit("p_state");
    reveal_strlit("mem_utilization");
    reveal_strlit("power");
    reveal_strlit("temperature");
    reveal_strlit("mem_used");
    reveal_strlit("mem_total");
    reveal_strlit("tx");
    reveal_strlit("rx");
    assert("p_level"@.len() == 7 && "p_state"@.len() == 7 && "mem_utilization"@.len() == 15);
    assert("power"@.len() == 5 && "temperature"@.len() == 11);
    assert("mem_used"@.len() == 8 && "mem_total"@.len() == 9 && "tx"@.len() == 2 && "rx"@.len() == 2);
}

/// A name outside the vocabulary is never an error: it is
/// [`Field::Unknown`], whatever stands behind it.
pub proof fn lemma_unknown_is_no_error(seg: Segments)
    requires
        !in_vocabulary(seg.field),
    ensures
        spec_field(seg) == Ok::<Field, ParseFailure>(Field::Unknown),
{
}

/// A field is [`Field::Unknown`] only for a name outside the vocabulary.
pub proof fn lemma_known_is_not_unknown(seg: Segments)
    requires
        in_vocabulary(seg.field),
    ensures
        spec_field(seg) != Ok::<Field, ParseFailure>(Field::Unknown),
{
}

/// Whether an outcome is the one that the text calls for.
pub open spec fn field_result_is(
    r: Result<Field, UnitParseError>,
    expected: Result<Field, ParseFailure>,
) -> bool {
    match r {
        Ok(f) => expected == Ok::<Field, ParseFailure>(f),
        Err(e) => expected == Err::<Field, ParseFailure>(e@),
    }
}

fn parse_precision(seg: &FormatSegments) -> (r: Result<Option<usize>, UnitParseError>)
    ensures
        match r {
            Ok(p) => spec_precision(seg@) == Ok::<Option<usize>, ParseFailure>(p),
            Err(e) => spec_precision(seg@) == Err::<Option<usize>, ParseFailure>(e@),
        },
{
    match seg.precision {
        None => Ok(None),
        Some(p) => match parse_unsigned(p) {
            Some(n) => Ok(Some(n)),
            None => Err(UnitParseError::Precision(p.to_owned())),
        },
    }
}

impl Field {
    /// The field that the parts of a placeholder name.
    pub fn from_segments(seg: FormatSegments) -> (r: Result<Field, UnitParseError>)
        ensures
            field_result_is(r, spec_field(seg@)),
    {
        if str_eq(seg.field, "p_level") {
            Ok(Field::PLevel)
        } else if str_eq(seg.field, "p_state") {
            Ok(Field::PState)
        } else if str_eq(seg.field, "mem_utilization") {
            Ok(Field::MemUtilization)
        } else if str_eq(seg.field, "power") {
            let unit_name = match seg.unit {
                None => { return Err(UnitParseError::NoUnit); },
                Some(u) => u,
            };
            let unit = match PowerUnit::from_name(unit_name) {
                None => { return Err(UnitParseError::Power(unit_name.to_owned())); },
                Some(unit) => unit,
            };
            match parse_precision(&seg) {
                Err(e) => Err(e),
                Ok(precision) => Ok(Field::Power { unit, precision }),
            }
        } else if str_eq(seg.field, "temperature") {
            let unit_name = match seg.unit {
                None => { return Err(UnitParseError::NoUnit); },
                Some(u) => u,
            };
            let unit = match TemperatureUnit::from_name(unit_name) {
                None => { return Err(UnitParseError::Temperature(unit_name.to_owned())); },
                Some(unit) => unit,
            };
            match parse_precision(&seg) {
                Err(e) => Err(e),
                Ok(precision) => Ok(Field::Temperature { unit, precision }),
            }
        } else {
            match MemField::from_name(seg.field) {
                Some(field) => {
                    let unit_name = match seg.unit {
                        None => { return Err(UnitParseError::NoUnit); },
                        Some(u) => u,
                    };
                    let unit = match MemUnit::from_name(unit_name) {
                        None => { return Err(UnitParseError::Memory(unit_name.to_owned())); },
                        Some(unit) => unit,
                    };
                    match parse_precision(&seg) {
                        Err(e) => Err(e),
                        Ok(precision) => Ok(Field::Mem { field, unit, precision }),
                    }
                },
                None => match U8Field::from_name(seg.field) {
                    Some(f) => Ok(Field::U8(f)),
                    None => Ok(Field::Unknown),
                },
            }
        }
    }

    /// Parses the text between the braces of a placeholder into a field.
    ///
    /// The text has the form `p_state` for a field without a unit, and
    /// `temperature:c` or `temperature:f.2` for one with a unit; the number
    /// after the dot is how many decimal places to show.
    pub fn from_str(s: &str) -> (r: Result<Field, UnitParseError>)
        ensures
            field_result_is(r, spec_field(split_segments(s@))),
    {
        Field::from_segments(FormatSegments::parse(s))
    }
}

} // verus!
