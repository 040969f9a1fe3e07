use gpu_usage_waybar::formatter::units::{MemUnit, PowerUnit, TemperatureUnit};
use gpu_usage_waybar::formatter::{parse, Chunk, State};
use gpu_usage_waybar::gpu_status::fields::{Field, FormatSegments, MemField, U8Field, UnitParseError};

#[test]
fn formatter_test_parse() {
    let format = r"PSTATE: {p_state}
PLEVEL: {p_level}
FAN SPEED: {fan_speed}%
TX: {tx:MiB} MiB/s
RX: {rx:MiB} MiB/s";

    let chunks = parse(format).unwrap();

    assert_eq!(
        chunks,
        vec![
            Chunk::Static("PSTATE: ".to_string()),
            Chunk::Variable(Field::PState),
            Chunk::Static("\nPLEVEL: ".to_string()),
            Chunk::Variable(Field::PLevel),
            Chunk::Static("\nFAN SPEED: ".to_string()),
            Chunk::Variable(Field::U8(U8Field::FanSpeed)),
            Chunk::Static("%\nTX: ".to_string()),
            Chunk::Variable(Field::Mem {
                field: MemField::Tx,
                unit: MemUnit::MiB,
                precision: None,
            }),
            Chunk::Static(" MiB/s\nRX: ".to_string()),
            Chunk::Variable(Field::Mem {
                field: MemField::Rx,
                unit: MemUnit::MiB,
                precision: None,
            }),
            Chunk::Static(" MiB/s".to_string()),
        ]
    );
}

#[test]
fn mod_test_parse() {
    let format = r"PSTATE: {p_state}
PLEVEL: {p_level}
FAN SPEED: {fan_speed}%
TX: {tx:MiB.1} MiB/s
RX: {rx:MiB.2} MiB/s";

    let chunks = parse(format).unwrap();

    assert_eq!(
        chunks,
        vec![
            Chunk::Static("PSTATE: ".to_string()),
            Chunk::Variable(Field::PState),
            Chunk::Static("\nPLEVEL: ".to_string()),
            Chunk::Variable(Field::PLevel),
            Chunk::Static("\nFAN SPEED: ".to_string()),
            Chunk::Variable(Field::U8(U8Field::FanSpeed)),
            Chunk::Static("%\nTX: ".to_string()),
            Chunk::Variable(Field::Mem {
                field: MemField::Tx,
                unit: MemUnit::MiB,
                precision: Some(1),
            }),
            Chunk::Static(" MiB/s\nRX: ".to_string()),
            Chunk::Variable(Field::Mem {
                field: MemField::Rx,
                unit: MemUnit::MiB,
                precision: Some(2),
            }),
            Chunk::Static(" MiB/s".to_string()),
        ]
    );
}

#[test]
fn test_parse_unit() {
    assert!(matches!(
        parse("{temperature}"),
        Err(UnitParseError::NoUnit)
    ));

    let field = &parse("{temperature:c}").unwrap()[0];
    assert!(matches!(
        field,
        Chunk::Variable(Field::Temperature {
            unit: TemperatureUnit::Celsius,
            precision: None
        })
    ));

    let field = &parse("{temperature:c.2}").unwrap()[0];
    assert!(matches!(
        field,
        Chunk::Variable(Field::Temperature {
            unit: TemperatureUnit::Celsius,
            precision: Some(2)
        })
    ));
}

#[test]
fn test_parse_format_segments() {
    let seg = FormatSegments::parse("temperature");
    assert_eq!(seg.field, "temperature");
    assert_eq!(seg.unit, None);
    assert_eq!(seg.precision, None);

    let seg = FormatSegments::parse("temperature:c");
    assert_eq!(seg.field, "temperature");
    assert_eq!(seg.unit, Some("c"));
    assert_eq!(seg.precision, None);

    let seg = FormatSegments::parse("temperature:c.2");
    assert_eq!(seg.field, "temperature");
    assert_eq!(seg.unit, Some("c"));
    assert_eq!(seg.precision, Some("2"));
}

#[test]
fn segments_split_at_the_first_colon_and_the_first_dot() {
    let seg = FormatSegments::parse("a:b:c.1.2");
    assert_eq!(seg.field, "a");
    assert_eq!(seg.unit, Some("b:c"));
    assert_eq!(seg.precision, Some("1.2"));

    let seg = FormatSegments::parse("a.b");
    assert_eq!(seg.field, "a.b");
    assert_eq!(seg.unit, None);

    let seg = FormatSegments::parse(":");
    assert_eq!(seg.field, "");
    assert_eq!(seg.unit, Some(""));
    assert_eq!(seg.precision, None);
}

#[test]
fn p_state_alone_is_one_variable_chunk() {
    let chunks = parse("{p_state}").unwrap();
    assert_eq!(chunks, vec![Chunk::Variable(Field::PState)]);
}

#[test]
fn unknown_name_is_an_unknown_chunk() {
    let chunks = parse("{unknown_xyz}").unwrap();
    assert_eq!(chunks, vec![Chunk::Variable(Field::Unknown)]);
    let chunks = parse("{unknown_xyz:nonsense.12}").unwrap();
    assert_eq!(chunks, vec![Chunk::Variable(Field::Unknown)]);
}

#[test]
fn empty_static_runs_make_no_chunk() {
    assert_eq!(parse("").unwrap(), vec![]);
    assert_eq!(
        parse("{p_state}{p_level}").unwrap(),
        vec![Chunk::Variable(Field::PState), Chunk::Variable(Field::PLevel)]
    );
    assert_eq!(
        parse(" {p_state} ").unwrap(),
        vec![
            Chunk::Static(" ".to_string()),
            Chunk::Variable(Field::PState),
            Chunk::Static(" ".to_string()),
        ]
    );
}

#[test]
fn text_that_is_no_placeholder_stays_static() {
    for text in [
        "{}", "{ p_state }", "{p_state", "p_state}", "{p_state:}", "{tx:MiB.}", "{tx:MiB.1x}",
        "{tx:MiB.1.2}", "{tx::MiB}", "{a-b}", "{tempé}",
    ] {
        assert_eq!(parse(text).unwrap(), vec![Chunk::Static(text.to_string())], "{}", text);
    }
}

#[test]
fn a_placeholder_may_start_inside_a_failed_one() {
    assert_eq!(
        parse("{a{p_state}}").unwrap(),
        vec![
            Chunk::Static("{a".to_string()),
            Chunk::Variable(Field::PState),
            Chunk::Static("}".to_string()),
        ]
    );
}

#[test]
fn static_text_keeps_characters_of_several_bytes() {
    assert_eq!(
        parse("温度: {temperature:c.1}°C").unwrap(),
        vec![
            Chunk::Static("温度: ".to_string()),
            Chunk::Variable(Field::Temperature { unit: TemperatureUnit::Celsius, precision: Some(1) }),
            Chunk::Static("°C".to_string()),
        ]
    );
}

#[test]
fn every_name_of_the_vocabulary() {
    let cases = [
        ("gpu_utilization", Field::U8(U8Field::GpuUtilization)),
        ("mem_rw", Field::U8(U8Field::MemRw)),
        ("decoder_utilization", Field::U8(U8Field::DecoderUtilization)),
        ("encoder_utilization", Field::U8(U8Field::EncoderUtilization)),
        ("fan_speed", Field::U8(U8Field::FanSpeed)),
        ("render_utilization", Field::U8(U8Field::RenderUtilization)),
        ("video_utilization", Field::U8(U8Field::VideoUtilization)),
        ("p_state", Field::PState),
        ("p_level", Field::PLevel),
        ("mem_utilization", Field::MemUtilization),
        ("mem_used:KiB", Field::Mem { field: MemField::MemUsed, unit: MemUnit::KiB, precision: None }),
        ("mem_total:GB.3", Field::Mem { field: MemField::MemTotal, unit: MemUnit::GB, precision: Some(3) }),
        ("tx:Mb", Field::Mem { field: MemField::Tx, unit: MemUnit::Mb, precision: None }),
        ("rx:Gib.0", Field::Mem { field: MemField::Rx, unit: MemUnit::Gib, precision: Some(0) }),
        ("temperature:F", Field::Temperature { unit: TemperatureUnit::Fahrenheit, precision: None }),
        ("temperature:k.1", Field::Temperature { unit: TemperatureUnit::Kelvin, precision: Some(1) }),
        ("power:w", Field::Power { unit: PowerUnit::Watt, precision: None }),
        ("power:kw.2", Field::Power { unit: PowerUnit::KiloWatt, precision: Some(2) }),
        ("P_STATE", Field::Unknown),
        ("", Field::Unknown),
    ];
    for (text, field) in cases {
        assert_eq!(Field::from_str(text).unwrap(), field, "{}", text);
    }
}

#[test]
fn every_unit_name() {
    let mem = [
        ("KiB", MemUnit::KiB), ("MiB", MemUnit::MiB), ("GiB", MemUnit::GiB),
        ("KB", MemUnit::KB), ("MB", MemUnit::MB), ("GB", MemUnit::GB),
        ("Kib", MemUnit::Kib), ("Mib", MemUnit::Mib), ("Gib", MemUnit::Gib),
        ("Kb", MemUnit::Kb), ("Mb", MemUnit::Mb), ("Gb", MemUnit::Gb),
    ];
    for (name, unit) in mem {
        assert_eq!(MemUnit::from_name(name), Some(unit));
    }
    assert_eq!(MemUnit::from_name("mib"), None);
    assert_eq!(MemUnit::from_name("B"), None);
    assert_eq!(TemperatureUnit::from_name("c"), Some(TemperatureUnit::Celsius));
    assert_eq!(TemperatureUnit::from_name("C"), Some(TemperatureUnit::Celsius));
    assert_eq!(TemperatureUnit::from_name("f"), Some(TemperatureUnit::Fahrenheit));
    assert_eq!(TemperatureUnit::from_name("K"), Some(TemperatureUnit::Kelvin));
    assert_eq!(TemperatureUnit::from_name("celsius"), None);
    assert_eq!(PowerUnit::from_name("w"), Some(PowerUnit::Watt));
    assert_eq!(PowerUnit::from_name("kw"), Some(PowerUnit::KiloWatt));
    assert_eq!(PowerUnit::from_name("W"), None);
}

#[test]
fn each_error_and_its_input() {
    assert!(matches!(Field::from_str("power"), Err(UnitParseError::NoUnit)));
    assert!(matches!(Field::from_str("mem_used"), Err(UnitParseError::NoUnit)));
    match Field::from_str("mem_used:mib") {
        Err(UnitParseError::Memory(u)) => assert_eq!(u, "mib"),
        other => panic!("{:?}", other),
    }
    match Field::from_str("temperature:x.2") {
        Err(UnitParseError::Temperature(u)) => assert_eq!(u, "x"),
        other => panic!("{:?}", other),
    }
    match Field::from_str("power:W") {
        Err(UnitParseError::Power(u)) => assert_eq!(u, "W"),
        other => panic!("{:?}", other),
    }
    match Field::from_str("power:w.two") {
        Err(UnitParseError::Precision(p)) => assert_eq!(p, "two"),
        other => panic!("{:?}", other),
    }
    match Field::from_str("power:w.") {
        Err(UnitParseError::Precision(p)) => assert_eq!(p, ""),
        other => panic!("{:?}", other),
    }
    // The unit is looked at before the precision.
    assert!(matches!(Field::from_str("power:x.y"), Err(UnitParseError::Power(_))));
}

#[test]
fn a_precision_beyond_the_machine_word_is_an_error() {
    let text = "{tx:MiB.99999999999999999999999999}";
    match parse(text) {
        Err(UnitParseError::Precision(p)) => assert_eq!(p, "99999999999999999999999999"),
        other => panic!("{:?}", other),
    }
    assert_eq!(
        Field::from_str("tx:MiB.+3").unwrap(),
        Field::Mem { field: MemField::Tx, unit: MemUnit::MiB, precision: Some(3) }
    );
    assert_eq!(
        Field::from_str("tx:MiB.007").unwrap(),
        Field::Mem { field: MemField::Tx, unit: MemUnit::MiB, precision: Some(7) }
    );
}

#[test]
fn one_bad_placeholder_fails_the_whole_template() {
    assert!(matches!(
        parse("{p_state} {temperature} {power:x}"),
        Err(UnitParseError::NoUnit)
    ));
    assert!(matches!(
        parse("{p_state} {power:x} {temperature}"),
        Err(UnitParseError::Power(_))
    ));
    assert!(State::try_from_format("{mem_used}").is_err());
}

#[test]
fn error_messages() {
    assert_eq!(UnitParseError::NoUnit.message(), "No unit provided where required");
    assert_eq!(
        UnitParseError::Precision("x".to_string()).message(),
        "Unable to parse precision: `x`"
    );
    assert_eq!(UnitParseError::Memory("mib".to_string()).message(), "Invalid memory unit: `mib`");
    assert_eq!(
        UnitParseError::Temperature("x".to_string()).message(),
        "Invalid temperature unit: `x`"
    );
    assert_eq!(UnitParseError::Power("W".to_string()).message(), "Invalid power unit: `W`");
}

#[test]
fn parsing_the_same_text_twice_gives_the_same_chunks() {
    let text = "A {p_state}\nB {tx:MiB.1}\n{nope}";
    assert_eq!(parse(text).unwrap(), parse(&text.to_string()).unwrap());
}
