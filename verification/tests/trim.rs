use gpu_usage_waybar::formatter::trim_trailing_zeros;

#[test]
fn test_trim_trailing_zeros() {
    let mut buf = "1.50000".to_string();
    trim_trailing_zeros(&mut buf, 0);
    assert_eq!(buf, "1.5");
}

#[test]
fn test_trim_trailing_zeros_and_dot() {
    let mut buf = "1.00000".to_string();
    trim_trailing_zeros(&mut buf, 0);
    assert_eq!(buf, "1");
}

#[test]
fn test_trim_trailing_zeros_without_decimal() {
    let mut buf = "10000".to_string();
    trim_trailing_zeros(&mut buf, 0);
    assert_eq!(buf, "10000");
}

#[test]
fn test_trim_trailing_zeros_with_previous_decimals() {
    let mut buf = "100.00 120".to_string();
    trim_trailing_zeros(&mut buf, 7);
    assert_eq!(buf, "100.00 120");
}

#[test]
fn test_trim_trailing_zeros_with_mutiple_dots() {
    let mut buf = "100.00 120.0 500.000".to_string();
    trim_trailing_zeros(&mut buf, 13);
    assert_eq!(buf, "100.00 120.0 500");
}

#[test]
fn trim_counts_the_boundary_in_bytes() {
    // The two leading characters take six bytes: the dot is the fifth
    // character and starts at byte 8.
    let mut buf = "温度 1.50".to_string();
    trim_trailing_zeros(&mut buf, 8);
    assert_eq!(buf, "温度 1.50");
    trim_trailing_zeros(&mut buf, 7);
    assert_eq!(buf, "温度 1.5");
}

#[test]
fn trim_leaves_a_dot_at_the_boundary() {
    let mut buf = "ab.500".to_string();
    trim_trailing_zeros(&mut buf, 2);
    assert_eq!(buf, "ab.500");
    trim_trailing_zeros(&mut buf, 1);
    assert_eq!(buf, "ab.5");
}

#[test]
fn trim_stops_at_the_last_dot() {
    let mut buf = "1.0.000".to_string();
    trim_trailing_zeros(&mut buf, 0);
    assert_eq!(buf, "1.0");
}
