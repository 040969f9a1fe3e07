use gpu_usage_waybar::formatter::parse;
use gpu_usage_waybar::formatter::prune::prune_template;
use gpu_usage_waybar::formatter::units::{Information, Temperature};
use gpu_usage_waybar::gpu_status::{GetFieldError, GpuStatusData, PState};

const DEFAULT_TOOLTIP: &str = "GPU: {gpu_utilization}%
MEM USED: {mem_used:MiB.0}/{mem_total:MiB.0} MiB ({mem_utilization}%)
MEM R/W: {mem_rw}%
DEC: {decoder_utilization}%
ENC: {encoder_utilization}%
TEMP: {temperature:c.1}°C
POWER: {power:w.1}W
PSTATE: {p_state}
PLEVEL: {p_level}
FAN SPEED: {fan_speed}%
TX: {tx:MiB.1} MiB/s
RX: {rx:MiB.1} MiB/s
";

#[test]
fn only_the_lines_of_what_the_device_has_stay() {
    let data = GpuStatusData {
        p_state: Ok(PState::P2),
        tx: Ok(Information { bytes: 1 }),
        rx: Ok(Information { bytes: 2 }),
        ..Default::default()
    };
    assert_eq!(
        prune_template(DEFAULT_TOOLTIP, &data),
        "PSTATE: {p_state}\nTX: {tx:MiB.1} MiB/s\nRX: {rx:MiB.1} MiB/s\n"
    );
}

#[test]
fn a_device_with_nothing_leaves_nothing() {
    assert_eq!(prune_template(DEFAULT_TOOLTIP, &GpuStatusData::default()), "");
    assert_eq!(prune_template("", &GpuStatusData::default()), "");
}

#[test]
fn a_line_without_a_placeholder_stays() {
    let data = GpuStatusData::default();
    assert_eq!(prune_template("title\n{fan_speed}\n\nend", &data), "title\n\nend");
    assert_eq!(prune_template("\n\n", &data), "\n\n");
    assert_eq!(prune_template("{ not one }\r\n{fan_speed}\r\nlast", &data), "{ not one }\r\nlast");
}

#[test]
fn one_missing_field_drops_the_whole_line() {
    let data = GpuStatusData {
        mem_used: Ok(Information { bytes: 1 }),
        mem_total: Err(GetFieldError::BrandUnsupported),
        ..Default::default()
    };
    assert_eq!(prune_template("a {mem_used:MiB} of {mem_total:MiB}\nb {mem_used:KB}", &data), "b {mem_used:KB}");
    assert_eq!(prune_template("{mem_utilization}\n", &data), "");
}

#[test]
fn a_reading_that_only_failed_keeps_its_line() {
    let data = GpuStatusData {
        temperature: Err(GetFieldError::Unavailable),
        ..Default::default()
    };
    assert_eq!(prune_template("T {temperature:c}\nP {power:w}\n", &data), "T {temperature:c}\n");
}

#[test]
fn unknown_and_malformed_placeholders_drop_their_line() {
    let data = GpuStatusData {
        temperature: Ok(Temperature { microkelvin: 300_000_000 }),
        ..Default::default()
    };
    assert_eq!(
        prune_template("a {temperature:c}\nb {nope}\nc {temperature}\nd {temperature:x}\n", &data),
        "a {temperature:c}\n"
    );
}

#[test]
fn the_last_line_needs_no_line_feed() {
    let data = GpuStatusData { p_state: Ok(PState::P0), ..Default::default() };
    assert_eq!(prune_template("{fan_speed}\n{p_state}", &data), "{p_state}");
    assert_eq!(prune_template("{p_state}\n{fan_speed}", &data), "{p_state}\n");
}

#[test]
fn the_pruned_text_parses_like_the_lines_that_stayed() {
    let data = GpuStatusData {
        p_state: Ok(PState::P2),
        tx: Ok(Information { bytes: 1 }),
        rx: Ok(Information { bytes: 2 }),
        ..Default::default()
    };
    let pruned = prune_template(DEFAULT_TOOLTIP, &data);
    let kept = "PSTATE: {p_state}\nTX: {tx:MiB.1} MiB/s\nRX: {rx:MiB.1} MiB/s\n";
    assert_eq!(parse(&pruned).unwrap(), parse(kept).unwrap());
    assert_eq!(prune_template(&pruned, &data), pruned);
}
