use lightctl::dial::{dial_step, DialStep, DIAL_MAX_ATTEMPTS};
use lightctl::parse::{HsvParseError, MainParseError};
use lightctl::plan::{plan_commands, Command, PlanError};
use lightctl::wire::Param;

fn cmd(method: &str, params: Vec<Param>) -> Command {
    Command { method: String::from(method), params }
}

fn s(text: &str) -> Param {
    Param::Str(String::from(text))
}

#[test]
fn main_fifty_ambient_off_sends_exactly_three_commands() {
    let (cmds, err) = plan_commands(Some("50"), Some("off"));
    assert_eq!(err, None);
    assert_eq!(
        cmds,
        vec![
            cmd("set_power", vec![s("on"), s("smooth"), Param::Uint16(500), Param::Uint8(5)]),
            cmd("set_bright", vec![Param::Uint8(50), s("smooth"), Param::Uint16(500)]),
            cmd("bg_set_power", vec![s("off"), s("smooth"), Param::Uint16(500)]),
        ]
    );
}

#[test]
fn main_off_alone_sends_exactly_one_command() {
    let (cmds, err) = plan_commands(Some("off"), None);
    assert_eq!(err, None);
    assert_eq!(cmds, vec![cmd("set_power", vec![s("off"), s("smooth"), Param::Uint16(500)])]);
}

#[test]
fn main_normal_mode_carries_code_one() {
    let (cmds, err) = plan_commands(Some("150"), None);
    assert_eq!(err, None);
    assert_eq!(
        cmds,
        vec![
            cmd("set_power", vec![s("on"), s("smooth"), Param::Uint16(500), Param::Uint8(1)]),
            cmd("set_bright", vec![Param::Uint8(50), s("smooth"), Param::Uint16(500)]),
        ]
    );
}

#[test]
fn ambient_triple_sends_power_hsv_bright() {
    let (cmds, err) = plan_commands(None, Some("200,50,75"));
    assert_eq!(err, None);
    assert_eq!(
        cmds,
        vec![
            cmd("bg_set_power", vec![s("on"), s("smooth"), Param::Uint16(500)]),
            cmd(
                "bg_set_hsv",
                vec![Param::Uint16(200), Param::Uint8(50), s("smooth"), Param::Uint16(500)]
            ),
            cmd("bg_set_bright", vec![Param::Uint8(75), s("smooth"), Param::Uint16(500)]),
        ]
    );
}

#[test]
fn ambient_value_zero_sends_single_power_off() {
    let (cmds, err) = plan_commands(None, Some("10,20,0"));
    assert_eq!(err, None);
    assert_eq!(cmds, vec![cmd("bg_set_power", vec![s("off"), s("smooth"), Param::Uint16(500)])]);
}

#[test]
fn no_descriptors_sends_nothing() {
    let (cmds, err) = plan_commands(None, None);
    assert_eq!(err, None);
    assert_eq!(cmds, vec![]);
}

#[test]
fn main_parse_error_aborts_before_any_command() {
    let (cmds, err) = plan_commands(Some("abc"), Some("200,50,75"));
    assert_eq!(cmds, vec![]);
    assert_eq!(err, Some(PlanError::Main(MainParseError::InvalidFormat)));
}

#[test]
fn ambient_parse_error_keeps_main_commands() {
    let (cmds, err) = plan_commands(Some("off"), Some("360,0,0"));
    assert_eq!(cmds, vec![cmd("set_power", vec![s("off"), s("smooth"), Param::Uint16(500)])]);
    assert_eq!(err, Some(PlanError::Ambient(HsvParseError::InvalidHue)));
}

#[test]
fn dial_success_connects() {
    assert_eq!(dial_step(0, DIAL_MAX_ATTEMPTS, true), DialStep::Connected);
    assert_eq!(dial_step(49, DIAL_MAX_ATTEMPTS, true), DialStep::Connected);
}

#[test]
fn dial_failure_retries_until_budget_exhausted() {
    // Every attempt fails: all attempts before the last retry, the last
    // gives up, and the dial never connects.
    let mut connected = false;
    let mut gave_up = false;
    let mut attempt: u32 = 0;
    while attempt < DIAL_MAX_ATTEMPTS {
        match dial_step(attempt, DIAL_MAX_ATTEMPTS, false) {
            DialStep::Connected => connected = true,
            DialStep::RetryNext => {}
            DialStep::GiveUp => {
                gave_up = true;
                break;
            }
        }
        attempt += 1;
    }
    assert!(!connected);
    assert!(gave_up);
    assert_eq!(attempt, DIAL_MAX_ATTEMPTS - 1);
}
