use hwmon_pair::fans::{get_speed, Fan};
use hwmon_pair::fan_service::FanService;
use hwmon_pair::pwm::Pwm;
use hwmon_pair::sysfs::join;
use hwmon_pair::temp::Temp;

#[test]
fn join_adds_one_separator() {
    assert_eq!(join("/sys/x", "pwm1"), "/sys/x/pwm1");
    assert_eq!(join("/sys/x/", "pwm1"), "/sys/x/pwm1");
    assert_eq!(join("", "pwm1"), "pwm1");
}

#[test]
fn pwm_rejects_values_above_maximum() {
    let p = Pwm::new("/sys/x".to_string()).with_index("1".to_string()).with_name("pwm1".to_string());
    assert!(p.write_speed(256).is_none());
    assert!(p.write_speed(1000).is_none());
    assert!(p.write_speed(i32::MAX).is_none());
}

#[test]
fn pwm_writes_decimal_to_control_file() {
    let p = Pwm::new("/sys/x".to_string()).with_index("1".to_string()).with_name("pwm1".to_string());
    let w = p.write_speed(255).unwrap();
    assert_eq!(w.path, "/sys/x/pwm1");
    assert_eq!(w.value, "255");
    let w = p.write_speed(0).unwrap();
    assert_eq!(w.value, "0");
    assert_eq!(p.get_input_path(), "/sys/x/pwm1");
    let d = p.duplicate();
    assert_eq!(d.name, "pwm1");
    assert_eq!(d.index, "1");
}

#[test]
fn fan_builders_set_fields() {
    let f = Fan::new("/sys/x".to_string())
        .with_current_speed(900)
        .with_index("3".to_string())
        .with_label("CPU".to_string())
        .with_rpm(100, 2000);
    assert_eq!(f.index, 3);
    assert_eq!(f.label, "CPU");
    assert_eq!(f.min_speed_rpm, 100);
    assert_eq!(f.max_speed_rpm, 2000);
    assert_eq!(f.current_speed, 900);
    assert!(f.paired_pwm.is_none());
    assert_eq!(f.get_input_path(), "/sys/x/fan3_input");
}

#[test]
fn fan_new_starts_at_zero() {
    let f = Fan::new("/sys/x".to_string());
    assert_eq!(f.index, 0);
    assert_eq!(f.current_speed, 0);
    assert_eq!(f.label, "");
    assert_eq!(Fan::new("/x".to_string()).with_index("z".to_string()).index, 0);
}

#[test]
fn fan_speed_text() {
    assert_eq!(get_speed("1234"), 1234);
    assert_eq!(get_speed("?"), 0);
    assert_eq!(Fan::get_formatted_speed("1500"), "1500 RPM");
    assert_eq!(Fan::get_formatted_speed("bad"), "0 RPM");
    let mut f = Fan::new("/sys/x".to_string()).with_current_speed(700);
    assert_eq!(f.get_formatted_cached_speed(), "700 RPM");
    f.update_speed("820");
    assert_eq!(f.current_speed, 820);
    f.update_speed("");
    assert_eq!(f.current_speed, 0);
}

#[test]
fn temp_renders_one_decimal() {
    assert_eq!(Temp::get_temp("45000"), "45.0 \u{b0}C");
    assert_eq!(Temp::get_temp("45678"), "45.6 \u{b0}C");
    assert_eq!(Temp::get_temp("-500"), "-0.5 \u{b0}C");
    assert_eq!(Temp::get_temp("nope"), "0.0 \u{b0}C");
    let t = Temp::new("/sys/x".to_string()).with_index("2".to_string()).with_label("Core".to_string());
    assert_eq!(t.get_input_path(), "/sys/x/temp2_input");
    assert_eq!(t.label, "Core");
}

#[test]
fn fan_service_holds_its_parts() {
    let s = FanService::new(vec![Fan::new("/a".to_string())], vec![]);
    assert_eq!(s.fans.len(), 1);
    assert_eq!(s.pwms.len(), 0);
}
