use hwmon_pair::engine::{PairingRun, RunAction};
use hwmon_pair::hwmon::Hwmon;
use hwmon_pair::hwmon_service::HwmonService;
use hwmon_pair::pairing::{
    PairingSearch, SearchOutcome, ABANDON_CEILING, INITIAL_THRESHOLD, QUIESCENT_DUTY, SETTLE_SECONDS,
    STIMULUS_DUTY,
};
use hwmon_pair::sysfs::{read_attribute, FileEntry};

fn entry(name: &str, content: Option<&str>) -> FileEntry {
    FileEntry::new(name.to_string(), content.map(|c| c.to_string()))
}

fn listing() -> Vec<FileEntry> {
    vec![
        entry("name", Some("nct6798")),
        entry("fan1_input", Some("1200")),
        entry("fan1_label", None),
        entry("fan1_min", Some("300")),
        entry("fan1_max", Some("2400")),
        entry("fan2_input", Some("abc")),
        entry("fan2_label", Some("Rear")),
        entry("fan_input", Some("5")),
        entry("temp1_input", Some("41000")),
        entry("temp1_label", Some("CPU")),
        entry("pwm1", Some("100")),
        entry("pwm1_enable", Some("1")),
        entry("pwm2", Some("80")),
    ]
}

#[test]
fn discovery_finds_every_kind() {
    let mut h = Hwmon::new("/sys/class/hwmon/hwmon3".to_string(), "nct6798".to_string());
    h.initialize(&listing());
    assert_eq!(h.fans.len(), 2);
    assert_eq!(h.temps.len(), 1);
    assert_eq!(h.pwms.len(), 2);
    assert_eq!(h.fans[0].index, 1);
    assert_eq!(h.fans[0].current_speed, 1200);
    assert_eq!(h.fans[0].min_speed_rpm, 300);
    assert_eq!(h.fans[0].max_speed_rpm, 2400);
    assert_eq!(h.fans[1].index, 2);
    assert_eq!(h.fans[1].label, "Rear");
    assert_eq!(h.fans[1].current_speed, 0);
    assert_eq!(h.fans[1].min_speed_rpm, 0);
    assert_eq!(h.temps[0].label, "CPU");
    assert_eq!(h.temps[0].index, "1");
    assert_eq!(h.pwms[0].name, "pwm1");
    assert_eq!(h.pwms[1].name, "pwm2");
    assert_eq!(h.pwms[1].get_input_path(), "/sys/class/hwmon/hwmon3/pwm2");
    assert_eq!(h.path(), "/sys/class/hwmon/hwmon3");
    assert_eq!(h.describe(), "nct6798 /sys/class/hwmon/hwmon3");
}

#[test]
fn unreadable_label_gives_empty_label() {
    let mut h = Hwmon::new("/g".to_string(), "g".to_string());
    h.initialize_fans(&listing());
    assert_eq!(h.fans[0].label, "");
    assert_eq!(h.fans[0].index, 1);
}

#[test]
fn empty_listing_empties_collections() {
    let mut h = Hwmon::new("/g".to_string(), "g".to_string());
    h.initialize(&listing());
    h.initialize(&vec![]);
    assert!(h.fans.is_empty() && h.temps.is_empty() && h.pwms.is_empty());
}

#[test]
fn read_attribute_takes_first_match() {
    let l = listing();
    assert_eq!(read_attribute(&l, &"fan1_min".to_string()), "300");
    assert_eq!(read_attribute(&l, &"fan1_label".to_string()), "");
    assert_eq!(read_attribute(&l, &"fan9_label".to_string()), "");
}

#[test]
fn set_all_pwm_writes_each_output() {
    let mut h = Hwmon::new("/g".to_string(), "g".to_string());
    h.initialize_pwms(&listing());
    let w = h.set_all_pwm(100);
    assert_eq!(w.len(), 2);
    assert_eq!(w[0].path, "/g/pwm1");
    assert_eq!(w[1].path, "/g/pwm2");
    assert_eq!(w[1].value, "100");
    assert!(h.set_all_pwm(256).is_empty());
}

fn group_with_fans(speeds: &[&str]) -> Hwmon {
    let mut entries = Vec::new();
    for (i, s) in speeds.iter().enumerate() {
        entries.push(entry(&format!("fan{}_input", i + 1), Some(s)));
    }
    entries.push(entry("pwm1", Some("100")));
    entries.push(entry("pwm2", Some("100")));
    let mut h = Hwmon::new("/g".to_string(), "g".to_string());
    h.initialize(&entries);
    h
}

#[test]
fn single_responder_is_paired_at_first_step() {
    let mut h = group_with_fans(&["1000", "1200", "800"]);
    assert_eq!(h.baseline_speeds(), vec![1000, 1200, 800]);
    let mut search = PairingSearch::new();
    assert_eq!(search.threshold, INITIAL_THRESHOLD);
    let out = h.pair_step(1, &mut search, &vec![1030, 1800, 760]);
    assert_eq!(out, SearchOutcome::Matched(1));
    assert_eq!(search.threshold, 400);
    assert_eq!(h.fans[1].paired_pwm.as_ref().unwrap().name, "pwm2");
    assert!(h.fans[0].paired_pwm.is_none());
    assert!(h.fans[2].paired_pwm.is_none());
}

#[test]
fn two_large_responders_are_abandoned() {
    let mut h = group_with_fans(&["1000", "1200", "800"]);
    let mut search = PairingSearch::new();
    let live = vec![2100, 2300, 800];
    let mut thresholds = vec![search.threshold];
    let mut out = h.pair_step(0, &mut search, &live);
    while out == SearchOutcome::Continue {
        thresholds.push(search.threshold);
        out = h.pair_step(0, &mut search, &live);
    }
    assert_eq!(out, SearchOutcome::Abandoned);
    assert_eq!(thresholds, vec![400, 500, 600, 700, 800, 900, 1000]);
    assert!(h.fans.iter().all(|f| f.paired_pwm.is_none()));
}

#[test]
fn threshold_grows_until_unique() {
    let mut search = PairingSearch::new();
    let baseline = vec![1000, 1000];
    let live = vec![1450, 1650];
    assert_eq!(search.step(&baseline, &live), SearchOutcome::Continue);
    assert_eq!(search.threshold, 500);
    assert_eq!(search.step(&baseline, &live), SearchOutcome::Matched(1));
    assert_eq!(search.threshold, 500);
    assert!(search.threshold <= ABANDON_CEILING);
}

#[test]
fn no_responder_is_abandoned_at_ceiling() {
    let mut search = PairingSearch::new();
    let baseline = vec![1000];
    let live = vec![1010];
    let mut last = search.threshold;
    loop {
        let out = search.step(&baseline, &live);
        assert!(search.threshold >= last && search.threshold <= 1000);
        last = search.threshold;
        if out != SearchOutcome::Continue {
            assert_eq!(out, SearchOutcome::Abandoned);
            break;
        }
    }
    assert_eq!(last, 1000);
}

#[test]
fn baseline_capture_and_manual_pairing() {
    let mut h = group_with_fans(&["1000", "1200"]);
    h.update_fan_speeds(&vec!["1100".to_string(), "x".to_string()]);
    assert_eq!(h.baseline_speeds(), vec![1100, 0]);
    assert!(h.pair_channel(2, 0));
    assert_eq!(h.fans[1].paired_pwm.as_ref().unwrap().name, "pwm1");
    assert!(!h.pair_channel(7, 0));
    h.pair_fan(0, 1);
    assert_eq!(h.fans[0].paired_pwm.as_ref().unwrap().name, "pwm2");
}

#[test]
fn groups_are_filtered_and_sorted_by_path() {
    let entries = vec![
        entry("hwmon2", Some("acpitz")),
        entry("hwmon10", Some("nct6798")),
        entry("other", Some("x")),
        entry("hwmon1", None),
        entry("hwmon0", Some("k10temp")),
    ];
    let s = HwmonService::new("/sys/class/hwmon", &entries);
    let paths: Vec<&str> = s.hwmons.iter().map(|h| h.path()).collect();
    assert_eq!(
        paths,
        vec!["/sys/class/hwmon/hwmon0", "/sys/class/hwmon/hwmon10", "/sys/class/hwmon/hwmon2"]
    );
    assert_eq!(s.hwmons[1].name, "nct6798");
    assert!(HwmonService::new("/sys/class/hwmon", &vec![]).hwmons.is_empty());
}

#[test]
fn pairing_run_visits_each_output_in_turn() {
    let mut h = group_with_fans(&["1000", "1200"]);
    let mut run = PairingRun::new();
    assert_eq!(run.action(2), RunAction::CaptureBaseline);
    h.update_fan_speeds(&vec!["1000".to_string(), "1200".to_string()]);
    run.baseline_captured();
    assert_eq!(
        run.action(2),
        RunAction::Stimulate { pwm: 0, duty: STIMULUS_DUTY, settle_seconds: SETTLE_SECONDS }
    );
    run.stimulated();
    assert_eq!(run.action(2), RunAction::Sample { pwm: 0 });
    assert_eq!(run.sampled(&mut h, &vec![1700, 1210]), SearchOutcome::Matched(0));
    assert_eq!(
        run.action(2),
        RunAction::Conclude { pwm: 0, outcome: SearchOutcome::Matched(0), duty: QUIESCENT_DUTY }
    );
    assert_eq!(h.fans[0].paired_pwm.as_ref().unwrap().name, "pwm1");
    run.concluded();
    assert_eq!(run.action(2), RunAction::Stimulate { pwm: 1, duty: 255, settle_seconds: 5 });
    run.stimulated();
    assert_eq!(run.sampled(&mut h, &vec![1000, 1300]), SearchOutcome::Continue);
    assert_eq!(run.action(2), RunAction::Sample { pwm: 1 });
    assert_eq!(run.search.threshold, 500);
    for _ in 0..5 {
        assert_eq!(run.sampled(&mut h, &vec![1000, 1300]), SearchOutcome::Continue);
    }
    assert_eq!(run.search.threshold, 1000);
    assert_eq!(run.sampled(&mut h, &vec![1000, 1300]), SearchOutcome::Abandoned);
    run.concluded();
    assert_eq!(run.action(2), RunAction::Done);
    assert!(h.fans[1].paired_pwm.is_none());
}
