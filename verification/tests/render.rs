use gpu_usage_waybar::formatter::decimal::Decimal;
use gpu_usage_waybar::formatter::units::{
    Information, MemUnit, Power, PowerUnit, Temperature, TemperatureUnit, Unit,
};
use gpu_usage_waybar::formatter::{parse, render, State};
use gpu_usage_waybar::gpu_status::fields::{Field, MemField, U8Field};
use gpu_usage_waybar::gpu_status::{
    GetFieldError, GpuStatusData, PState, PerformanceLevel, WriteFieldError,
};

fn shown(data: &GpuStatusData, template: &str) -> String {
    let mut state = State::try_from_format(template).unwrap();
    state.assemble(data);
    state.buffer
}

fn running() -> GpuStatusData {
    GpuStatusData { powered_on: true, has_running_processes: true, ..Default::default() }
}

#[test]
fn test_write_field_precision() {
    let data = GpuStatusData {
        temperature: Ok(Temperature::from_microcelsius(35_123_450).unwrap()),
        ..Default::default()
    };
    let mut buf = String::new();

    data.write_field(
        Field::Temperature {
            unit: TemperatureUnit::Celsius,
            precision: Some(2),
        },
        &mut buf,
    )
    .unwrap();

    assert_eq!(buf, "35.12");
}

#[test]
fn test_write_field_precision_zero() {
    let data = GpuStatusData {
        temperature: Ok(Temperature::from_microcelsius(35_123_450).unwrap()),
        ..Default::default()
    };
    let mut buf = String::new();

    data.write_field(
        Field::Temperature {
            unit: TemperatureUnit::Celsius,
            precision: Some(0),
        },
        &mut buf,
    )
    .unwrap();

    assert_eq!(buf, "35");
}

#[test]
fn without_a_precision_the_zeros_at_the_end_go() {
    let mut data = running();
    data.temperature = Ok(Temperature::from_microcelsius(35_500_000).unwrap());
    assert_eq!(shown(&data, "{temperature:c}"), "35.5");
    data.temperature = Ok(Temperature::from_microcelsius(35_000_000).unwrap());
    assert_eq!(shown(&data, "{temperature:c}"), "35");
    data.temperature = Ok(Temperature::from_microcelsius(35_123_450).unwrap());
    assert_eq!(shown(&data, "{temperature:c}"), "35.12345");
    data.temperature = Ok(Temperature::from_microcelsius(100_000_000).unwrap());
    assert_eq!(shown(&data, "{temperature:c}"), "100");
}

#[test]
fn with_a_precision_the_zeros_stay() {
    let mut data = running();
    data.temperature = Ok(Temperature::from_microcelsius(35_100_000).unwrap());
    assert_eq!(shown(&data, "{temperature:c.2}"), "35.10");
    assert_eq!(shown(&data, "{temperature:c.8}"), "35.10000000");
    assert_eq!(shown(&data, "{temperature:c.6}"), "35.100000");
}

#[test]
fn an_earlier_decimal_point_is_not_touched() {
    let mut data = running();
    data.temperature = Ok(Temperature::from_microcelsius(120_000_000).unwrap());
    assert_eq!(shown(&data, "100.00 {temperature:c}"), "100.00 120");
    assert_eq!(shown(&data, "v1.0: {temperature:c} {temperature:c.1}"), "v1.0: 120 120.0");
}

#[test]
fn end_to_end() {
    let mut data = running();
    data.gpu_utilization = Ok(42);
    assert_eq!(shown(&data, "GPU: {gpu_utilization}%"), "GPU: 42%");
    let chunks = parse("GPU: {gpu_utilization}%").unwrap();
    let mut out = "left over".to_string();
    render(&chunks, &data, &mut out);
    assert_eq!(out, "GPU: 42%");
}

#[test]
fn temperature_scales() {
    let mut data = running();
    data.temperature = Ok(Temperature::from_microcelsius(100_000_000).unwrap());
    assert_eq!(shown(&data, "{temperature:c} {temperature:f} {temperature:k}"), "100 212 373.15");
    data.temperature = Ok(Temperature::from_microcelsius(-40_000_000).unwrap());
    assert_eq!(shown(&data, "{temperature:c} {temperature:f} {temperature:k}"), "-40 -40 233.15");
    data.temperature = Ok(Temperature::from_microcelsius(35_123_450).unwrap());
    assert_eq!(shown(&data, "{temperature:f}"), "95.22221");
    assert_eq!(shown(&data, "{temperature:f.1}"), "95.2");
    assert_eq!(shown(&data, "{temperature:k.3}"), "308.273");
    data.temperature = Ok(Temperature { microkelvin: 0 });
    assert_eq!(shown(&data, "{temperature:c} {temperature:f} {temperature:k}"), "-273.15 -459.67 0");
    assert_eq!(shown(&data, "{temperature:c.0} {temperature:f.1}"), "-273 -459.7");
    assert_eq!(Temperature::from_microcelsius(-273_150_001), None);
    assert_eq!(Temperature::from_microcelsius(-273_150_000), Some(Temperature { microkelvin: 0 }));
}

#[test]
fn a_negative_value_that_rounds_to_zero_keeps_its_sign() {
    let mut data = running();
    data.temperature = Ok(Temperature::from_microcelsius(-4_000).unwrap());
    assert_eq!(shown(&data, "{temperature:c.2}"), "-0.00");
    assert_eq!(shown(&data, "{temperature:c}"), "-0.004");
}

#[test]
fn information_units() {
    let mut data = running();
    data.mem_used = Ok(Information { bytes: 1_610_612_736 });
    assert_eq!(shown(&data, "{mem_used:KiB}"), "1572864");
    assert_eq!(shown(&data, "{mem_used:MiB}"), "1536");
    assert_eq!(shown(&data, "{mem_used:GiB}"), "1.5");
    assert_eq!(shown(&data, "{mem_used:KB}"), "1610612.736");
    assert_eq!(shown(&data, "{mem_used:MB}"), "1610.612736");
    assert_eq!(shown(&data, "{mem_used:GB}"), "1.610612736");
    assert_eq!(shown(&data, "{mem_used:Kib}"), "12582912");
    assert_eq!(shown(&data, "{mem_used:Mib}"), "12288");
    assert_eq!(shown(&data, "{mem_used:Gib}"), "12");
    assert_eq!(shown(&data, "{mem_used:Kb}"), "12884901.888");
    assert_eq!(shown(&data, "{mem_used:Mb}"), "12884.901888");
    assert_eq!(shown(&data, "{mem_used:Gb}"), "12.884901888");
    assert_eq!(shown(&data, "{mem_used:GiB.0} {mem_used:GB.2} {mem_used:MiB.1}"), "2 1.61 1536.0");
}

#[test]
fn information_is_exact_down_to_one_byte() {
    let mut data = running();
    data.tx = Ok(Information { bytes: 1 });
    assert_eq!(shown(&data, "{tx:KiB}"), "0.0009765625");
    assert_eq!(shown(&data, "{tx:GiB}"), "0.000000000931322574615478515625");
    assert_eq!(shown(&data, "{tx:GiB.12}"), "0.000000000931");
    assert_eq!(shown(&data, "{tx:Gib}"), "0.000000007450580596923828125");
    data.tx = Ok(Information { bytes: 0 });
    assert_eq!(shown(&data, "{tx:GiB} {tx:KB.2}"), "0 0.00");
    data.tx = Ok(Information { bytes: u64::MAX });
    assert_eq!(shown(&data, "{tx:Kb}"), "147573952589676412.92");
    assert_eq!(shown(&data, "{tx:GiB.3}"), "17179869184.000");
    assert_eq!(shown(&data, "{tx:GiB}"), "17179869183.999999999068677425384521484375");
}

#[test]
fn power_units() {
    let mut data = running();
    data.power = Ok(Power { microwatts: 123_456_000 });
    assert_eq!(shown(&data, "{power:w}"), "123.456");
    assert_eq!(shown(&data, "{power:kw}"), "0.123456");
    assert_eq!(shown(&data, "{power:w.1} {power:w.0} {power:kw.2}"), "123.5 123 0.12");
}

#[test]
fn rounding_goes_to_the_nearest_and_of_two_to_the_even() {
    let d = |whole: u128, frac: u128, scale: u8, p: usize| {
        let mut s = String::new();
        Decimal { negative: false, whole, frac, scale }.write(&mut s, Some(p));
        s
    };
    assert_eq!(d(0, 5, 1, 0), "0");
    assert_eq!(d(1, 5, 1, 0), "2");
    assert_eq!(d(2, 5, 1, 0), "2");
    assert_eq!(d(2, 51, 2, 0), "3");
    assert_eq!(d(0, 25, 2, 1), "0.2");
    assert_eq!(d(0, 35, 2, 1), "0.4");
    assert_eq!(d(0, 251, 3, 1), "0.3");
    assert_eq!(d(9, 996, 3, 2), "10.00");
    assert_eq!(d(9, 994, 3, 2), "9.99");
    assert_eq!(d(99, 95, 2, 1), "100.0");
    assert_eq!(d(7, 0, 0, 0), "7");
    assert_eq!(d(7, 0, 0, 3), "7.000");
    assert_eq!(d(7, 5, 2, 2), "7.05");
    assert_eq!(d(7, 5, 2, 1), "7.0");
    let mut s = String::new();
    Decimal { negative: true, whole: 1, frac: 50, scale: 2 }.write(&mut s, None);
    assert_eq!(s, "-1.50");
    assert_eq!(Decimal::from_scaled(-1_500, 3), Decimal { negative: true, whole: 1, frac: 500, scale: 3 });
    assert_eq!(Decimal::from_scaled(0, 3), Decimal { negative: false, whole: 0, frac: 0, scale: 3 });
}

#[test]
fn conversions_give_exact_decimals() {
    assert_eq!(
        MemUnit::MiB.compute(Information { bytes: 1_572_864 }),
        Decimal { negative: false, whole: 1, frac: 50_000_000_000_000_000_000, scale: 20 }
    );
    assert_eq!(
        MemUnit::Kb.compute(Information { bytes: 1 }),
        Decimal { negative: false, whole: 0, frac: 8, scale: 3 }
    );
    assert_eq!(
        TemperatureUnit::Fahrenheit.compute(Temperature { microkelvin: 273_150_000 }),
        Decimal { negative: false, whole: 32, frac: 0, scale: 7 }
    );
    assert_eq!(
        PowerUnit::KiloWatt.compute(Power { microwatts: 1_500_000 }),
        Decimal { negative: false, whole: 0, frac: 1_500_000, scale: 9 }
    );
}

#[test]
fn memory_utilization() {
    let mut data = running();
    let mem = |bytes: u64| Ok(Information { bytes });
    data.mem_used = mem(1);
    data.mem_total = mem(3);
    assert_eq!(data.compute_mem_usage(), Some(33));
    data.mem_used = mem(2);
    assert_eq!(data.compute_mem_usage(), Some(67));
    assert_eq!(shown(&data, "{mem_utilization}%"), "67%");
    data.mem_used = mem(1);
    data.mem_total = mem(200);
    assert_eq!(data.compute_mem_usage(), Some(1));
    data.mem_total = mem(201);
    assert_eq!(data.compute_mem_usage(), Some(0));
    data.mem_used = mem(u64::MAX);
    data.mem_total = mem(u64::MAX);
    assert_eq!(data.compute_mem_usage(), Some(100));
    data.mem_total = mem(1);
    assert_eq!(data.compute_mem_usage(), Some(255));
    data.mem_total = mem(0);
    assert_eq!(data.compute_mem_usage(), Some(255));
    data.mem_used = mem(0);
    assert_eq!(data.compute_mem_usage(), Some(0));
}

#[test]
fn memory_utilization_needs_both_readings() {
    let mem = Ok(Information { bytes: 10 });
    for missing in [GetFieldError::BrandUnsupported, GetFieldError::Unavailable] {
        let mut data = running();
        data.mem_used = mem;
        data.mem_total = Err(missing);
        assert_eq!(data.compute_mem_usage(), None);
        assert!(data.is_field_unavailable(Field::MemUtilization));
        assert_eq!(shown(&data, "{mem_utilization}"), "N/A");
        data.mem_used = Err(missing);
        data.mem_total = mem;
        assert_eq!(data.compute_mem_usage(), None);
        assert!(data.is_field_unavailable(Field::MemUtilization));
        data.mem_used = Err(missing);
        data.mem_total = Err(missing);
        assert_eq!(data.compute_mem_usage(), None);
    }
}

#[test]
fn states_and_levels_by_their_labels() {
    let mut data = running();
    let states = [
        (PState::P0, "P0"), (PState::P1, "P1"), (PState::P2, "P2"), (PState::P3, "P3"),
        (PState::P4, "P4"), (PState::P5, "P5"), (PState::P6, "P6"), (PState::P7, "P7"),
        (PState::P8, "P8"), (PState::P9, "P9"), (PState::P10, "P10"), (PState::P11, "P11"),
        (PState::P12, "P12"), (PState::P13, "P13"), (PState::P14, "P14"), (PState::P15, "P15"),
        (PState::Unknown, "Unknown"),
    ];
    for (state, label) in states {
        data.p_state = Ok(state);
        assert_eq!(shown(&data, "{p_state}"), label);
        assert_eq!(state.as_str(), label);
    }
    assert_eq!(PState::default(), PState::Unknown);
    let levels = [
        (PerformanceLevel::Auto, "auto"),
        (PerformanceLevel::Low, "low"),
        (PerformanceLevel::High, "high"),
        (PerformanceLevel::Manual, "manual"),
        (PerformanceLevel::ProfileStandard, "profile_standard"),
        (PerformanceLevel::ProfileMinSclk, "profile_min_sclk"),
        (PerformanceLevel::ProfileMinMclk, "profile_min_mclk"),
        (PerformanceLevel::ProfilePeak, "profile_peak"),
        (PerformanceLevel::PerfDeterminism, "perf_determinism"),
        (PerformanceLevel::ProfileExit, "profile_exit"),
    ];
    for (level, label) in levels {
        data.p_level = Ok(level);
        assert_eq!(shown(&data, "[{p_level}]"), format!("[{}]", label));
    }
}

#[test]
fn every_percentage() {
    let mut data = running();
    data.gpu_utilization = Ok(0);
    data.mem_rw = Ok(7);
    data.decoder_utilization = Ok(10);
    data.encoder_utilization = Ok(99);
    data.fan_speed = Ok(100);
    data.render_utilization = Ok(255);
    data.video_utilization = Ok(42);
    assert_eq!(
        shown(
            &data,
            "{gpu_utilization} {mem_rw} {decoder_utilization} {encoder_utilization} {fan_speed} {render_utilization} {video_utilization}"
        ),
        "0 7 10 99 100 255 42"
    );
    assert_eq!(data.get_u8_field(U8Field::MemRw), Ok(7));
    assert_eq!(data.get_mem_field(MemField::Tx), Err(GetFieldError::BrandUnsupported));
}

#[test]
fn what_is_not_there_is_shown_as_not_available() {
    let mut data = running();
    data.power = Err(GetFieldError::Unavailable);
    assert_eq!(
        shown(&data, "a {gpu_utilization} b {power:w.1} c {nope} d {p_state}{p_level} e"),
        "a N/A b N/A c N/A d N/AN/A e"
    );
}

#[test]
fn write_field_leaves_the_buffer_alone_when_there_is_no_value() {
    let data = running();
    let mut buf = "x".to_string();
    assert!(matches!(
        data.write_field(Field::U8(U8Field::FanSpeed), &mut buf),
        Err(WriteFieldError::FieldIsNone)
    ));
    assert_eq!(buf, "x");
    assert!(data.write_field(Field::Unknown, &mut buf).is_ok());
    assert_eq!(buf, "xN/A");
}

#[test]
fn availability_and_support() {
    let mut data = running();
    data.fan_speed = Ok(3);
    data.power = Err(GetFieldError::Unavailable);
    let fan = Field::U8(U8Field::FanSpeed);
    let power = Field::Power { unit: PowerUnit::Watt, precision: None };
    let temperature = Field::Temperature { unit: TemperatureUnit::Kelvin, precision: None };
    assert!(!data.is_field_unavailable(fan));
    assert!(!data.is_field_unsupported(fan));
    assert!(data.is_field_unavailable(power));
    assert!(!data.is_field_unsupported(power));
    assert!(data.is_field_unavailable(temperature));
    assert!(data.is_field_unsupported(temperature));
    assert!(data.is_field_unavailable(Field::Unknown));
    assert!(data.is_field_unsupported(Field::Unknown));
    data.mem_used = Err(GetFieldError::Unavailable);
    data.mem_total = Ok(Information { bytes: 1 });
    assert!(data.is_field_unavailable(Field::MemUtilization));
    assert!(!data.is_field_unsupported(Field::MemUtilization));
    data.mem_total = Err(GetFieldError::BrandUnsupported);
    assert!(data.is_field_unsupported(Field::MemUtilization));
}

#[test]
fn text_and_tooltip_of_a_device_that_is_off_or_idle() {
    let mut state = State::try_from_format("{gpu_utilization}%").unwrap();
    let mut data = GpuStatusData { gpu_utilization: Ok(5), ..Default::default() };
    assert_eq!(data.get_text(&mut state), "Off");
    assert_eq!(data.get_tooltip(&mut state), "GPU powered off");
    data.has_running_processes = true;
    assert_eq!(data.get_text(&mut state), "Off");
    data.powered_on = true;
    data.has_running_processes = false;
    assert_eq!(data.get_text(&mut state), "Idle");
    assert_eq!(data.get_tooltip(&mut state), "GPU idle");
    data.has_running_processes = true;
    assert_eq!(data.get_text(&mut state), "5%");
    assert_eq!(data.get_tooltip(&mut state), "5%");
}

#[test]
fn the_buffer_is_used_again() {
    let mut state = State::try_from_format("{fan_speed}").unwrap();
    let mut data = running();
    data.fan_speed = Ok(100);
    state.assemble(&data);
    assert_eq!(state.buffer, "100");
    data.fan_speed = Ok(7);
    state.assemble(&data);
    assert_eq!(state.buffer, "7");
}
