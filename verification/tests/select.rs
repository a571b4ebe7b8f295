use x11_primary_switcher::failure::Failure;
use x11_primary_switcher::outputs::Output;
use x11_primary_switcher::outputs::OutputSet;
use x11_primary_switcher::select::auto_cycle;
use x11_primary_switcher::select::choices;
use x11_primary_switcher::select::choose_default;
use x11_primary_switcher::select::Choice;
use x11_primary_switcher::select::choose_listed;
use x11_primary_switcher::select::current_primary;
use x11_primary_switcher::select::has_output;
use x11_primary_switcher::select::next_primary_index;
use x11_primary_switcher::select::parse_selection;
use x11_primary_switcher::select::select_mode;
use x11_primary_switcher::select::Mode;
use x11_primary_switcher::select::Switch;

fn set(names: &[&str], primary: Option<usize>) -> OutputSet {
    let outputs = names
        .iter()
        .enumerate()
        .map(|(i, n)| Output { name: n.to_string(), primary: primary == Some(i), connected: true })
        .collect();
    OutputSet::new(outputs).unwrap()
}

#[test]
fn empty_set_cannot_be_made() {
    assert_eq!(OutputSet::new(Vec::new()), None);
}

#[test]
fn set_keeps_connected_outputs_only() {
    let mixed = vec![
        Output { name: "A".to_string(), primary: true, connected: false },
        Output { name: "B".to_string(), primary: false, connected: true },
        Output { name: "C".to_string(), primary: false, connected: false },
        Output { name: "D".to_string(), primary: true, connected: true },
    ];
    let kept = OutputSet::new(mixed).unwrap();
    assert_eq!(
        kept.outputs(),
        &vec![
            Output { name: "B".to_string(), primary: false, connected: true },
            Output { name: "D".to_string(), primary: true, connected: true },
        ]
    );
    assert_eq!(kept.len(), 2);
    assert_eq!(kept.primary(), (Some(1), Some("D".to_string())));
    let none = vec![Output { name: "A".to_string(), primary: true, connected: false }];
    assert_eq!(OutputSet::new(none), None);
}

#[test]
fn mode_precedence_is_status_auto_default_interactive() {
    for status in [false, true] {
        for auto in [false, true] {
            for default in [false, true] {
                let want = if status {
                    Mode::Status
                } else if auto {
                    Mode::AutoCycle
                } else if default {
                    Mode::ConfigDefault
                } else {
                    Mode::Interactive
                };
                assert_eq!(select_mode(status, auto, default), want);
            }
        }
    }
}

#[test]
fn cycle_picks_the_next_output() {
    let names = ["A", "B", "C"];
    for i in 0..3 {
        let outputs = set(&names, Some(i));
        assert_eq!(next_primary_index(&outputs), (i + 1) % 3);
        assert_eq!(
            auto_cycle(&outputs),
            Switch {
                mode: Mode::AutoCycle,
                previous: Some(names[i].to_string()),
                target: names[(i + 1) % 3].to_string(),
                notice: false,
            }
        );
    }
}

#[test]
fn cycle_with_two_outputs_always_moves() {
    assert_eq!(next_primary_index(&set(&["A", "B"], Some(0))), 1);
    assert_eq!(next_primary_index(&set(&["A", "B"], Some(1))), 0);
}

#[test]
fn cycle_with_one_output_stays() {
    let only = set(&["A"], Some(0));
    assert_eq!(next_primary_index(&only), 0);
    assert_eq!(auto_cycle(&only).target, "A");
    assert_eq!(auto_cycle(&only).previous, Some("A".to_string()));
}

#[test]
fn cycle_without_primary_starts_at_first() {
    let outputs = set(&["A", "B", "C"], None);
    assert_eq!(next_primary_index(&outputs), 0);
    assert_eq!(auto_cycle(&outputs).target, "A");
    assert_eq!(auto_cycle(&outputs).previous, None);
}

#[test]
fn status_reports_the_primary() {
    assert_eq!(current_primary(&set(&["A", "B"], Some(1))), Ok("B".to_string()));
    assert_eq!(current_primary(&set(&["A", "B"], None)), Err(Failure::NoPrimary));
}

#[test]
fn default_without_preference_is_first_with_notice() {
    let outputs = set(&["A", "B"], Some(1));
    assert_eq!(
        choose_default(&outputs, None, None),
        Switch { mode: Mode::ConfigDefault, previous: Some("B".to_string()), target: "A".to_string(), notice: true }
    );
}

#[test]
fn default_uses_resolved_name() {
    let outputs = set(&["A", "B"], None);
    let switch = choose_default(&outputs, Some("Some Display"), Some("B"));
    assert_eq!(switch.target, "B");
    assert!(!switch.notice);
}

#[test]
fn default_uses_raw_hint_when_unresolved() {
    let outputs = set(&["A", "weird"], None);
    assert_eq!(choose_default(&outputs, Some("weird"), None).target, "weird");
}

#[test]
fn default_falls_back_to_first_when_absent() {
    let outputs = set(&["A", "B"], None);
    assert_eq!(choose_default(&outputs, Some("Some Display"), Some("DP-9")).target, "A");
    assert_eq!(choose_default(&outputs, Some("DP-9"), None).target, "A");
    assert_eq!(choose_default(&outputs, Some("B"), Some("DP-9")).target, "A");
}

#[test]
fn outputs_are_found_by_name() {
    let outputs = set(&["A", "B"], None);
    assert!(has_output(&outputs, "A"));
    assert!(has_output(&outputs, "B"));
    assert!(!has_output(&outputs, "C"));
    assert!(!has_output(&outputs, "a"));
    assert!(!has_output(&outputs, ""));
}

#[test]
fn selection_is_one_based() {
    assert_eq!(parse_selection("1", 3), Some(0));
    assert_eq!(parse_selection("3\n", 3), Some(2));
    assert_eq!(parse_selection("  2 \r\n", 3), Some(1));
    assert_eq!(parse_selection("+2", 3), Some(1));
}

#[test]
fn selection_zero_is_invalid() {
    assert_eq!(parse_selection("0", 3), None);
    assert_eq!(choose_listed(&set(&["A", "B"], None), "0\n"), Err(Failure::InvalidSelection));
}

#[test]
fn selection_beyond_count_is_invalid() {
    assert_eq!(parse_selection("4", 3), None);
    assert_eq!(parse_selection("18446744073709551616", 3), None);
    assert_eq!(choose_listed(&set(&["A", "B"], None), "3\n"), Err(Failure::InvalidSelection));
}

#[test]
fn selection_that_is_no_number_is_invalid() {
    for input in ["", "\n", "x", "1x", "-1", "1 2", "1.0", "one"] {
        assert_eq!(parse_selection(input, 3), None, "{:?}", input);
        assert_eq!(choose_listed(&set(&["A", "B", "C"], None), input), Err(Failure::InvalidSelection));
    }
}

#[test]
fn selection_picks_the_listed_output() {
    let outputs = set(&["A", "B"], Some(0));
    assert_eq!(
        choose_listed(&outputs, "2\n"),
        Ok(Switch { mode: Mode::Interactive, previous: Some("A".to_string()), target: "B".to_string(), notice: false })
    );
}

#[test]
fn choices_are_numbered_from_one() {
    let outputs = set(&["A", "B", "C"], Some(1));
    assert_eq!(
        choices(&outputs),
        vec![
            Choice { number: 1, name: "A".to_string(), current: false },
            Choice { number: 2, name: "B".to_string(), current: true },
            Choice { number: 3, name: "C".to_string(), current: false },
        ]
    );
}

#[test]
fn the_number_shown_picks_the_entry() {
    let outputs = set(&["A", "B", "C"], None);
    for choice in choices(&outputs) {
        let input = format!("{}\n", choice.number);
        assert_eq!(choose_listed(&outputs, &input).unwrap().target, choice.name);
    }
}
