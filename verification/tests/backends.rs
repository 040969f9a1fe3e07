use gpu_usage_waybar::amd::{is_card_name, AmdReadings};
use gpu_usage_waybar::config::structs::{Args, ConfigFile};
use gpu_usage_waybar::config::{resolve_template, DEFAULT_TEXT_FORMAT, DEFAULT_TOOLTIP_FORMAT};
use gpu_usage_waybar::drm::client::{
    line_value, should_manage, ClientManager, CLIENT_ID_KEY, RENDER_ENGINE_KEY,
};
use gpu_usage_waybar::drm::device::{card_index, get_dri_card_index, PciId};
use gpu_usage_waybar::formatter::units::{Information, Power, Temperature};
use gpu_usage_waybar::formatter::{parse, unknown_fields};
use gpu_usage_waybar::gpu_status::{GetFieldError, GpuStatusData, PState, PerformanceLevel};
use gpu_usage_waybar::instance::GpuType;
use gpu_usage_waybar::nvidia::{is_active, powered_off, runtime_status_path, sysfs_bus_id, NvidiaReadings};
use gpu_usage_waybar::text::{
    is_whitespace_exec, parse_bounded, parse_hex_u16, second_word_of, str_contains, str_starts_with,
    trim,
};

#[test]
fn vendor_by_the_loaded_modules() {
    assert_eq!(GpuType::detect("snd 1 0\nnvidia_drm 2 1\namdgpu 3 0\n"), Some(GpuType::Nvidia));
    assert_eq!(GpuType::detect("snd 1 0\namdgpu 3 0\n"), Some(GpuType::Amd));
    assert_eq!(GpuType::detect("snd 1 0\ni915 3 0\n"), None);
    assert_eq!(GpuType::detect(""), None);
    assert_eq!(GpuType::detect("nvidi"), None);
}

#[test]
fn text_search() {
    assert!(str_contains("abc", ""));
    assert!(str_contains("", ""));
    assert!(str_contains("abc", "c"));
    assert!(str_contains("aab", "ab"));
    assert!(!str_contains("abc", "abcd"));
    assert!(!str_contains("", "a"));
    assert!(str_starts_with("card0", "card"));
    assert!(!str_starts_with("car", "card"));
    assert!(str_starts_with("x", ""));
}

#[test]
fn numbers() {
    assert_eq!(parse_bounded("0", 0), Some(0));
    assert_eq!(parse_bounded("1", 0), None);
    assert_eq!(parse_bounded("255", 255), Some(255));
    assert_eq!(parse_bounded("256", 255), None);
    assert_eq!(parse_bounded("+7", 255), Some(7));
    assert_eq!(parse_bounded("-7", 255), None);
    assert_eq!(parse_bounded("", 255), None);
    assert_eq!(parse_bounded("+", 255), None);
    assert_eq!(parse_bounded("1 ", 255), None);
    assert_eq!(parse_bounded("18446744073709551615", u64::MAX), Some(u64::MAX));
    assert_eq!(parse_bounded("18446744073709551616", u64::MAX), None);
    assert_eq!(parse_bounded("0000000000000000000000012", 255), Some(12));
    assert_eq!(parse_hex_u16("10de"), Some(0x10de));
    assert_eq!(parse_hex_u16("10DE"), Some(0x10de));
    assert_eq!(parse_hex_u16("ffff"), Some(0xffff));
    assert_eq!(parse_hex_u16("10000"), None);
    assert_eq!(parse_hex_u16("+1f"), Some(0x1f));
    assert_eq!(parse_hex_u16("1g"), None);
    assert_eq!(parse_hex_u16(""), None);
}

#[test]
fn pci_ids() {
    assert_eq!(
        PciId::from_property("10DE:2684"),
        Some(PciId { vendor_id: 0x10de, device_id: 0x2684 })
    );
    assert_eq!(PciId::from_property("10DE2684"), None);
    assert_eq!(PciId::from_property("10DE:"), None);
    assert_eq!(PciId::from_property("10DE:26:84"), None);
    let id = PciId { vendor_id: 0x10de, device_id: 0x2684 };
    assert_eq!(id.model_modalias(), format!("pci:v{:08X}d{:08X}*", 0x10deu16, 0x2684u16));
    assert_eq!(id.model_modalias(), "pci:v000010DEd00002684*");
    assert_eq!(id.vendor_modalias(), "pci:v000010DE*");
    let id = PciId { vendor_id: 0xffff, device_id: 0 };
    assert_eq!(id.model_modalias(), "pci:v0000FFFFd00000000*");
}

#[test]
fn card_indices() {
    assert_eq!(card_index("card0"), Some(Some(0)));
    assert_eq!(card_index("card255"), Some(Some(255)));
    assert_eq!(card_index("card256"), Some(None));
    assert_eq!(card_index("card"), Some(None));
    assert_eq!(card_index("card0-HDMI-A-1"), Some(None));
    assert_eq!(card_index("renderD128"), None);
    let names = vec!["renderD128".to_string(), "card1".to_string(), "card2".to_string()];
    assert_eq!(get_dri_card_index(&names), Some(Some(1)));
    assert_eq!(get_dri_card_index(&vec!["renderD128".to_string()]), None);
    assert_eq!(get_dri_card_index(&vec![]), None);
    assert!(is_card_name("card0"));
    assert!(is_card_name("card"));
    assert!(is_card_name("card12"));
    assert!(!is_card_name("card0-DP-1"));
    assert!(!is_card_name("xcard0"));
    assert!(!is_card_name("renderD128"));
}

#[test]
fn lines_of_a_client() {
    assert_eq!(line_value("drm-client-id:\t42", CLIENT_ID_KEY, u32::MAX as u64), Some(Some(42)));
    assert_eq!(
        line_value("drm-engine-render:\t123456789 ns", RENDER_ENGINE_KEY, u64::MAX),
        Some(Some(123456789))
    );
    assert_eq!(line_value("drm-driver:\ti915", CLIENT_ID_KEY, u64::MAX), None);
    assert_eq!(line_value("drm-client-id:", CLIENT_ID_KEY, u64::MAX), Some(None));
    assert_eq!(line_value("drm-client-id: x", CLIENT_ID_KEY, u64::MAX), Some(None));
    assert_eq!(line_value("drm-client-id: 4294967296", CLIENT_ID_KEY, u32::MAX as u64), Some(None));
    assert_eq!(second_word_of("  a \t b  c"), Some("b".to_string()));
    assert_eq!(second_word_of("a"), None);
    assert_eq!(second_word_of("a  "), None);
    assert_eq!(second_word_of(""), None);
    assert_eq!(second_word_of("a\u{3000}b"), Some("b".to_string()));
    let names = vec!["card0".to_string(), "renderD128".to_string()];
    assert!(should_manage(&names, "renderD128"));
    assert!(!should_manage(&names, "card1"));
}

#[test]
fn clients_come_and_go() {
    let mut m: ClientManager<&str> = ClientManager::new();
    m.begin_update();
    m.mark_or_insert_client(7, "seven");
    m.mark_or_insert_client(3, "three");
    m.mark_or_insert_client(7, "seven again");
    m.retain_seen();
    let seen: Vec<(u32, u64, &str)> = m.clients.iter().map(|c| (c.id, c.last_seen, c.reader)).collect();
    assert_eq!(seen, vec![(7, 1, "seven"), (3, 1, "three")]);
    m.begin_update();
    m.mark_or_insert_client(3, "three again");
    m.mark_or_insert_client(9, "nine");
    m.retain_seen();
    let seen: Vec<(u32, u64, &str)> = m.clients.iter().map(|c| (c.id, c.last_seen, c.reader)).collect();
    assert_eq!(seen, vec![(3, 2, "three"), (9, 2, "nine")]);
    m.begin_update();
    m.retain_seen();
    assert!(m.clients.is_empty());
    assert_eq!(m.current_tick, 3);
}

#[test]
fn power_status() {
    assert!(is_active("active\n"));
    assert!(is_active("  active \t\r\n"));
    assert!(is_active("active"));
    assert!(!is_active("suspended\n"));
    assert!(!is_active("act ive"));
    assert!(!is_active(""));
    assert!(!is_active(" \n"));
    assert_eq!(sysfs_bus_id("00000000:01:00.0"), "0000:01:00.0");
    assert_eq!(sysfs_bus_id("abc"), "");
    assert_eq!(runtime_status_path("0000:01:00.0"), "/sys/bus/pci/devices/0000:01:00.0/power/runtime_status");
    assert_eq!(powered_off(), GpuStatusData::default());
    assert!(!powered_off().powered_on);
}

#[test]
fn nvidia_readings() {
    let missing = Err(GetFieldError::BrandUnsupported);
    let r = NvidiaReadings {
        has_running_processes: true,
        gpu_utilization: Ok(42),
        memory_utilization: Ok(300),
        memory_used: Ok(1 << 30),
        memory_total: Ok(8 << 30),
        decoder_utilization: Err(GetFieldError::Unavailable),
        encoder_utilization: missing,
        temperature: Ok(65),
        power_usage: Ok(123_456),
        performance_state: Ok(PState::P8),
        fan_speed: Ok(30),
        pcie_tx: Ok(1500),
        pcie_rx: Ok(u32::MAX),
    };
    let s = r.status();
    assert!(s.powered_on && s.has_running_processes);
    assert_eq!(s.gpu_utilization, Ok(42));
    assert_eq!(s.mem_rw, Ok(44));
    assert_eq!(s.mem_used, Ok(Information { bytes: 1 << 30 }));
    assert_eq!(s.mem_total, Ok(Information { bytes: 8 << 30 }));
    assert_eq!(s.decoder_utilization, Err(GetFieldError::Unavailable));
    assert_eq!(s.encoder_utilization, Err(GetFieldError::BrandUnsupported));
    assert_eq!(s.temperature, Ok(Temperature { microkelvin: 338_150_000 }));
    assert_eq!(s.power, Ok(Power { microwatts: 123_456_000 }));
    assert_eq!(s.p_state, Ok(PState::P8));
    assert_eq!(s.p_level, Err(GetFieldError::BrandUnsupported));
    assert_eq!(s.fan_speed, Ok(30));
    assert_eq!(s.tx, Ok(Information { bytes: 1_500_000 }));
    assert_eq!(s.rx, Ok(Information { bytes: 4_294_967_295_000 }));
    assert_eq!(s.render_utilization, Err(GetFieldError::BrandUnsupported));
}

#[test]
fn amd_readings() {
    let r = AmdReadings {
        has_running_processes: true,
        busy_percent: Ok(12),
        used_vram: Ok(100),
        total_vram: Ok(200),
        edge_temperature: Ok(45_500),
        power_input: Ok(33_000_000),
        performance_level: Ok(PerformanceLevel::Auto),
        fan_current: Ok(1500),
        fan_max: Ok(3000),
    };
    let s = r.status();
    assert!(s.powered_on);
    assert_eq!(s.gpu_utilization, Ok(12));
    assert_eq!(s.mem_used, Ok(Information { bytes: 100 }));
    assert_eq!(s.temperature, Ok(Temperature { microkelvin: 318_650_000 }));
    assert_eq!(s.power, Ok(Power { microwatts: 33_000_000 }));
    assert_eq!(s.p_level, Ok(PerformanceLevel::Auto));
    assert_eq!(s.p_state, Err(GetFieldError::BrandUnsupported));
    assert_eq!(s.fan_speed, Ok(50));
    let fan = |current, max| AmdReadings { fan_current: current, fan_max: max, ..r }.status().fan_speed;
    assert_eq!(fan(Ok(1), Ok(3)), Ok(33));
    assert_eq!(fan(Ok(2), Ok(3)), Ok(67));
    assert_eq!(fan(Ok(1), Ok(200)), Ok(1));
    assert_eq!(fan(Ok(4000), Ok(3000)), Ok(100));
    assert_eq!(fan(Ok(u32::MAX), Ok(1)), Ok(100));
    assert_eq!(fan(Ok(1), Ok(0)), Err(GetFieldError::Unavailable));
    assert_eq!(fan(Ok(1), Err(GetFieldError::BrandUnsupported)), Err(GetFieldError::BrandUnsupported));
    assert_eq!(fan(Err(GetFieldError::Unavailable), Ok(1)), Err(GetFieldError::Unavailable));
    let cold = AmdReadings { edge_temperature: Ok(-273_151), ..r }.status();
    assert_eq!(cold.temperature, Err(GetFieldError::Unavailable));
    let zero = AmdReadings { edge_temperature: Ok(-273_150), ..r }.status();
    assert_eq!(zero.temperature, Ok(Temperature { microkelvin: 0 }));
    let hot = AmdReadings { edge_temperature: Ok(i64::MAX), ..r }.status();
    assert_eq!(hot.temperature, Err(GetFieldError::Unavailable));
}

#[test]
fn the_command_line_overrules_the_file() {
    let mut config = ConfigFile::default();
    assert_eq!(config.general.interval, 1000);
    assert_eq!(config.text.format, None);
    assert!(config.text.show_memory);
    config.tooltip.format = Some("T".to_string());
    config.merge_args_into_config(&Args::default());
    assert_eq!(config.general.interval, 1000);
    assert_eq!(config.tooltip.format, Some("T".to_string()));
    assert!(config.text.show_memory);
    config.merge_args_into_config(&Args {
        text_no_memory: true,
        text_format: Some("{p_state}".to_string()),
        tooltip_format: None,
        interval: Some(250),
    });
    assert_eq!(config.general.interval, 250);
    assert_eq!(config.text.format, Some("{p_state}".to_string()));
    assert_eq!(config.tooltip.format, Some("T".to_string()));
    assert!(!config.text.show_memory);
    config.merge_args_into_config(&Args::default());
    assert!(!config.text.show_memory);
    assert_eq!(config.general.interval, 250);
}

#[test]
fn the_default_label_with_and_without_memory() {
    let data = GpuStatusData {
        powered_on: true,
        has_running_processes: true,
        gpu_utilization: Ok(9),
        mem_used: Ok(Information { bytes: 1 }),
        mem_total: Ok(Information { bytes: 4 }),
        ..Default::default()
    };
    let mut config = ConfigFile::default();
    let mut state = config.text_state().unwrap();
    assert_eq!(data.get_text(&mut state), "9%|25%");
    config.text.show_memory = false;
    let mut state = config.text_state().unwrap();
    assert_eq!(data.get_text(&mut state), "9%");
    config.text.format = Some("{mem_utilization}".to_string());
    let mut state = config.text_state().unwrap();
    assert_eq!(data.get_text(&mut state), "25");
}

#[test]
fn the_template_in_use() {
    let data = GpuStatusData { p_state: Ok(PState::P0), ..Default::default() };
    assert_eq!(resolve_template(&Some("{fan_speed}\n".to_string()), "{p_state}\n", &data), "{fan_speed}\n");
    assert_eq!(resolve_template(&None, "{p_state}\n{fan_speed}\n", &data), "{p_state}\n");
    let mut config = ConfigFile::default();
    let state = config.tooltip_state(&data).unwrap();
    assert_eq!(state.chunks, parse("PSTATE: {p_state}\n").unwrap());
    assert_eq!(config.text_state().unwrap().chunks, parse(DEFAULT_TEXT_FORMAT).unwrap());
    config.tooltip.format = Some("{temperature}".to_string());
    assert!(config.tooltip_state(&data).is_err());
    config.text.format = Some("{power}".to_string());
    assert!(config.text_state().is_err());
}

#[test]
fn the_default_templates_parse_and_name_known_fields_only() {
    assert!(parse(DEFAULT_TEXT_FORMAT).is_ok());
    assert!(parse(DEFAULT_TOOLTIP_FORMAT).is_ok());
    assert!(unknown_fields(DEFAULT_TEXT_FORMAT).is_empty());
    assert!(unknown_fields(DEFAULT_TOOLTIP_FORMAT).is_empty());
    assert_eq!(DEFAULT_TOOLTIP_FORMAT.lines().count(), 14);
}

#[test]
fn unknown_names_are_listed_for_a_warning() {
    assert_eq!(unknown_fields("{a} {p_state} {b:c.1}{a}"), vec!["a", "b", "a"]);
    assert_eq!(unknown_fields("no placeholder"), Vec::<String>::new());
    assert_eq!(unknown_fields("{a} {temperature} {b}"), vec!["a"]);
}

#[test]
fn white_space_is_what_the_standard_library_says() {
    for code in 0..=0x10FFFFu32 {
        if let Some(c) = char::from_u32(code) {
            assert_eq!(is_whitespace_exec(c), c.is_whitespace(), "U+{:04X}", code);
        }
    }
}

#[test]
fn numbers_read_as_the_standard_library_reads_them() {
    for text in ["", "+", "-", "0", "+0", "-0", "007", "255", "256", " 1", "1 ", "1_0", "٣", "65535", "65536", "+65535"] {
        assert_eq!(parse_bounded(text, 255), text.parse::<u8>().ok().map(u64::from), "{:?}", text);
        assert_eq!(parse_bounded(text, 65535), text.parse::<u16>().ok().map(u64::from), "{:?}", text);
    }
    for text in ["", "+", "-", "0", "+f", "-f", "00ff", "FFFF", "10000", " f", "fg", "0x10", "ｆ"] {
        assert_eq!(parse_hex_u16(text), u16::from_str_radix(text, 16).ok(), "{:?}", text);
    }
    for text in ["a b c", "  a  b", "a", "", " ", "a\tb\n", "a\u{a0}b", "a\u{200b}b c"] {
        assert_eq!(
            second_word_of(text),
            text.split_whitespace().nth(1).map(str::to_string),
            "{:?}",
            text
        );
    }
    for text in ["active\n", " active", "\u{2003}active\u{3000}", "inactive", "active x", ""] {
        assert_eq!(is_active(text), text.trim() == "active", "{:?}", text);
    }
}

#[test]
fn the_default_tooltip_of_an_nvidia_device() {
    let missing = Err(GetFieldError::BrandUnsupported);
    let data = NvidiaReadings {
        has_running_processes: true,
        gpu_utilization: Ok(42),
        memory_utilization: Ok(7),
        memory_used: Ok(1_610_612_736),
        memory_total: Ok(8_589_934_592),
        decoder_utilization: Ok(0),
        encoder_utilization: missing,
        temperature: Ok(65),
        power_usage: Ok(123_460),
        performance_state: Ok(PState::P8),
        fan_speed: Err(GetFieldError::Unavailable),
        pcie_tx: Ok(1_048_576),
        pcie_rx: Ok(2_500),
    }
    .status();
    let mut state = ConfigFile::default().tooltip_state(&data).unwrap();
    assert_eq!(
        data.get_tooltip(&mut state),
        "GPU: 42%\nMEM USED: 1536/8192 MiB (19%)\nMEM R/W: 7%\nDEC: 0%\nTEMP: 65°C\nPOWER: 123.5W\nPSTATE: P8\nFAN SPEED: N/A%\nTX: 1000.0 MiB/s\nRX: 2.4 MiB/s\n"
    );
    let mut text = ConfigFile::default().text_state().unwrap();
    assert_eq!(data.get_text(&mut text), "42%|19%");
}

#[test]
fn the_default_tooltip_of_an_amd_device() {
    let data = AmdReadings {
        has_running_processes: true,
        busy_percent: Ok(3),
        used_vram: Ok(512 << 20),
        total_vram: Ok(16 << 30),
        edge_temperature: Ok(41_000),
        power_input: Ok(9_000_000),
        performance_level: Ok(PerformanceLevel::ProfilePeak),
        fan_current: Err(GetFieldError::BrandUnsupported),
        fan_max: Err(GetFieldError::BrandUnsupported),
    }
    .status();
    let mut state = ConfigFile::default().tooltip_state(&data).unwrap();
    assert_eq!(
        data.get_tooltip(&mut state),
        "GPU: 3%\nMEM USED: 512/16384 MiB (3%)\nTEMP: 41°C\nPOWER: 9.0W\nPLEVEL: profile_peak\n"
    );
}

#[test]
fn trimming_white_space() {
    for text in ["", " ", "a", " a", "a ", " a b ", "\n\ta\u{a0}", "\u{200b} a"] {
        assert_eq!(trim(text), text.trim(), "{:?}", text);
    }
}
