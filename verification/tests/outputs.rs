use x11_primary_switcher::outputs::current_primary_index_name;
use x11_primary_switcher::outputs::output_from_match;
use x11_primary_switcher::outputs::parse_outputs;
use x11_primary_switcher::outputs::Output;
use x11_primary_switcher::text::is_whitespace;
use x11_primary_switcher::text::lines;

const QUERY: &str = "Screen 0: minimum 16 x 16, current 4480 x 1440, maximum 32767 x 32767\n\
DP-2 connected primary 2560x1440+0+0 (normal left inverted right x axis y axis) 600mm x 340mm\n\
   2560x1440     59.95*+\n\
HDMI-0 connected 1920x1080+2560+0 (normal left inverted right x axis y axis) 530mm x 300mm\n\
   1920x1080     60.00*+\n\
DP-1 disconnected (normal left inverted right x axis y axis)\n";

fn output(name: &str, primary: bool) -> Output {
    Output { name: name.to_string(), primary, connected: true }
}

#[test]
fn parses_connected_outputs_in_order() {
    assert_eq!(parse_outputs(QUERY), vec![output("DP-2", true), output("HDMI-0", false)]);
}

#[test]
fn whitespace_is_what_std_calls_whitespace() {
    for code in 0..=0x10FFFFu32 {
        if let Some(c) = char::from_u32(code) {
            assert_eq!(is_whitespace(c), c.is_whitespace(), "U+{:04X}", code);
        }
    }
}

#[test]
fn lines_are_what_std_calls_lines() {
    let samples = ["", "\n", "a", "a\n", "a\nb", "a\r\nb\r\n", "a\r", "a\r\n", "\r\n\r\n", "\n\n", "a\n\rb", "\r", "x\r\r\ny", "é\nü\r\n"];
    for s in samples {
        let want: Vec<String> = s.lines().map(|l| l.to_string()).collect();
        assert_eq!(lines(s), want, "{:?}", s);
    }
}

#[test]
fn first_primary_is_found() {
    let outs = vec![output("A", false), output("B", true), output("C", true)];
    assert_eq!(current_primary_index_name(&outs), (Some(1), Some("B".to_string())));
    assert_eq!(current_primary_index_name(&outs[..1]), (None, None));
}

#[test]
fn disconnected_outputs_are_dropped() {
    let text = "A disconnected primary 1x1\nB connected 1x1\nC disconnected\nD unknown connection\n";
    assert_eq!(parse_outputs(text), vec![output("B", false)]);
}

#[test]
fn lines_that_report_nothing_are_ignored() {
    let text = "\n   1920x1080 60.00*+\nScreen 0: minimum 8 x 8\n connected\nDP-1connected\n DP-1 connected\nDP 1 connected\n";
    assert_eq!(parse_outputs(text), Vec::<Output>::new());
}

#[test]
fn primary_needs_white_space_on_both_sides() {
    assert_eq!(parse_outputs("DP-1 connected primary 1920x1080+0+0"), vec![output("DP-1", true)]);
    assert_eq!(parse_outputs("DP-1 connected primary"), vec![output("DP-1", false)]);
    assert_eq!(parse_outputs("DP-1 connected  primary\t1920x1080"), vec![output("DP-1", true)]);
    assert_eq!(parse_outputs("DP-1 connected 1920x1080 (primary )"), vec![output("DP-1", false)]);
}

#[test]
fn primary_may_stand_between_any_white_space() {
    assert_eq!(
        parse_outputs("DP-1 connected\tprimary\t1920x1080+0+0"),
        vec![output("DP-1", true)]
    );
    assert_eq!(
        parse_outputs("DP-1 connected\u{a0}primary\u{2003}1920x1080+0+0"),
        vec![output("DP-1", true)]
    );
    assert_eq!(parse_outputs("DP-1 connected primary\r\n"), vec![output("DP-1", false)]);
    assert_eq!(parse_outputs("DP-1 connected primary \r\n"), vec![output("DP-1", true)]);
}

#[test]
fn primary_may_stand_anywhere_in_the_line() {
    assert_eq!(
        parse_outputs("DP-1 connected 1920x1080+0+0 (normal) primary 600mm"),
        vec![output("DP-1", true)]
    );
    assert_eq!(parse_outputs("DP-1 connected 1920x1080 primary"), vec![output("DP-1", false)]);
    assert_eq!(parse_outputs("DP-1 connected notprimary 1920x1080"), vec![output("DP-1", false)]);
    assert_eq!(parse_outputs("DP-1 connected primary-1 1920x1080"), vec![output("DP-1", false)]);
    assert_eq!(parse_outputs("DP-1 connected Primary 1920x1080"), vec![output("DP-1", false)]);
}

#[test]
fn connector_names_may_hold_marks() {
    let text = "DVI-I-1-1 connected 1x1\nVirtual_1.a+b:c/d\tconnected\r\nX y connected\n";
    assert_eq!(parse_outputs(text), vec![output("DVI-I-1-1", false), output("Virtual_1.a+b:c/d", false)]);
}

#[test]
fn match_without_groups_reports_nothing() {
    assert_eq!(output_from_match("x", &None), None);
    assert_eq!(output_from_match("x", &Some(vec![Some("x".to_string())])), None);
    let groups = vec![Some("A connected".to_string()), Some("A".to_string()), Some("connected".to_string())];
    assert_eq!(output_from_match("A connected primary z", &Some(groups)), Some(output("A", true)));
    let groups = vec![Some("A disconnected".to_string()), Some("A".to_string()), Some("disconnected".to_string())];
    assert_eq!(output_from_match("A disconnected primary z", &Some(groups)), None);
    let groups = vec![Some("A connected".to_string()), None, Some("connected".to_string())];
    assert_eq!(output_from_match("A connected", &Some(groups)), None);
    let groups = vec![Some("A connected".to_string()), Some("A".to_string()), Some("connected".to_string())];
    assert_eq!(output_from_match("A connected\tprimary\tz", &Some(groups)), Some(output("A", true)));
}
