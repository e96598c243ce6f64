use hwmon_pair::fans::Fan;
use hwmon_pair::hwmon::Hwmon;
use hwmon_pair::program::{group_menu_line, handle_selection_error, initial_select, SelectError, SelectStep};
use hwmon_pair::telemetry::{display_order, parse_selection, render_frame, LivePoll, PollAction, Selection};
use hwmon_pair::terminal_utils::{
    get_yes_no_selection, get_yes_no_selection_default_no, get_yes_no_selection_default_yes,
    read_string_default, yes_no_prompt,
};

fn fan(index: &str, label: &str, cached: i32) -> Fan {
    Fan::new("/g".to_string()).with_index(index.to_string()).with_label(label.to_string()).with_current_speed(cached)
}

#[test]
fn poll_stops_once_cancelled() {
    let mut p = LivePoll::new();
    assert_eq!(p.tick(false), PollAction::Render);
    assert_eq!(p.tick(false), PollAction::Render);
    assert_eq!(p.tick(true), PollAction::Stop);
    assert_eq!(p.tick(false), PollAction::Stop);
    assert_eq!(p.tick(false), PollAction::Stop);
}

#[test]
fn display_order_is_stable_by_channel() {
    let fans = vec![fan("3", "c", 0), fan("1", "a", 0), fan("3", "d", 0), fan("2", "b", 0)];
    assert_eq!(display_order(&fans), vec![1, 3, 0, 2]);
    assert!(display_order(&vec![]).is_empty());
}

#[test]
fn display_frame_text() {
    let fans = vec![fan("2", "Rear", 900), fan("1", "CPU", 1000)];
    let readings = vec!["950".to_string(), "1500".to_string()];
    let order = display_order(&fans);
    assert_eq!(
        render_frame("Fans\n", &fans, &readings, &order, false),
        "Fans\nCPU: 1500 RPM \nRear: 950 RPM \n"
    );
}

#[test]
fn selection_frame_highlights_changed_fans() {
    let fans = vec![fan("2", "Rear", 900), fan("1", "CPU", 1000)];
    let readings = vec!["950".to_string(), "1500".to_string()];
    let order = display_order(&fans);
    assert_eq!(
        render_frame("pwm1", &fans, &readings, &order, true),
        "pwm1 \n\x1b[32m1: CPU\x1b[0m - 1500 RPM (was 1000 RPM) \n2: Rear - 950 RPM (was 900 RPM) \n\nSelect fan that has changed speed, or {enter} if none\n"
    );
}

#[test]
fn selection_input_meaning() {
    assert_eq!(parse_selection(""), Selection::NoChange);
    assert_eq!(parse_selection("2"), Selection::Index(2));
    assert_eq!(parse_selection("two"), Selection::Invalid);
    assert_eq!(parse_selection("-1"), Selection::Invalid);
}

#[test]
fn yes_no_answers() {
    assert_eq!(get_yes_no_selection("", true), Some(true));
    assert_eq!(get_yes_no_selection("", false), Some(false));
    assert_eq!(get_yes_no_selection("y", false), Some(true));
    assert_eq!(get_yes_no_selection("N", true), Some(false));
    assert_eq!(get_yes_no_selection("yes", true), None);
    assert_eq!(get_yes_no_selection_default_yes(""), Some(true));
    assert_eq!(get_yes_no_selection_default_no(""), Some(false));
    assert_eq!(yes_no_prompt("Pair?", true), "Pair? (Y)/n");
    assert_eq!(yes_no_prompt("Pair?", false), "Pair? y/(N)");
}

#[test]
fn string_default_on_empty() {
    assert_eq!(read_string_default("", "abc"), "abc");
    assert_eq!(read_string_default("x", "abc"), "x");
}

fn group(name: &str, fans: usize) -> Hwmon {
    let mut h = Hwmon::new(format!("/h/{name}"), name.to_string());
    for i in 0..fans {
        h.fans.push(fan(&format!("{}", i + 1), "", 0));
    }
    h
}

#[test]
fn initial_selection() {
    assert_eq!(initial_select(&vec![]), Err(SelectError::NoGroups));
    assert_eq!(initial_select(&vec![group("a", 0), group("b", 2)]), Ok(Some(1)));
    assert_eq!(initial_select(&vec![group("a", 1), group("b", 2)]), Ok(None));
    assert_eq!(initial_select(&vec![group("a", 0)]), Ok(None));
}

#[test]
fn selection_retries_are_bounded() {
    assert_eq!(handle_selection_error(1, 0, 3), SelectStep::Accept(1));
    assert_eq!(handle_selection_error(5, 0, 3), SelectStep::Reprompt);
    assert_eq!(handle_selection_error(5, 8, 3), SelectStep::Reprompt);
    assert_eq!(handle_selection_error(5, 9, 3), SelectStep::Fail(SelectError::TooMany(10)));
    assert_eq!(SelectError::TooMany(10).message(), "too many invalid attempts: 10");
    assert_eq!(SelectError::NoGroups.message(), "no hwmons found");
}

#[test]
fn menu_line_counts() {
    let h = group("nct", 2);
    assert_eq!(group_menu_line(0, &h), "0: nct (2 fans, 0 temp sensors, 0 pwm inputs)");
}
