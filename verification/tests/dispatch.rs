use remote_control::config::{ActionEntry, Config};
use remote_control::dispatch::{control_handler, log_closing, log_opening, ControlOutcome};
use remote_control::ident::derive_action_id;
use remote_control::page::index_handler;
use remote_control::status::{STATUS_ACCEPTED, STATUS_NOT_FOUND};

fn table(rows: &[(&str, &str)]) -> Config {
    let entries = rows
        .iter()
        .map(|(name, cmd)| ActionEntry { display_name: name.to_string(), cmd: cmd.to_string() })
        .collect();
    Config::new(None, None, None, entries)
}

fn launch(name: &str, cmd: &str) -> ControlOutcome {
    ControlOutcome::Launch { display_name: name.to_string(), cmd: cmd.to_string() }
}

#[test]
fn known_id_launches_its_command() {
    let config = table(&[("Play", "mpc play"), ("Stop", "mpc stop")]);
    let outcome = control_handler(&config, &derive_action_id("mpc stop"));
    assert_eq!(outcome, launch("Stop", "mpc stop"));
    assert_eq!(outcome.status(), 202);
    assert_eq!(outcome.status(), STATUS_ACCEPTED);
}

#[test]
fn every_listed_action_can_be_triggered() {
    let rows = [("Play", "mpc play"), ("Stop", "mpc stop"), ("Next", "mpc next")];
    let config = table(&rows);
    for (name, cmd) in rows {
        assert_eq!(control_handler(&config, &derive_action_id(cmd)), launch(name, cmd));
    }
}

#[test]
fn unknown_id_launches_nothing() {
    let config = table(&[("Play", "mpc play")]);
    let outcome = control_handler(&config, "no-such-action");
    assert_eq!(outcome, ControlOutcome::UnknownAction);
    assert_eq!(outcome.status(), 404);
    assert_eq!(outcome.status(), STATUS_NOT_FOUND);
}

#[test]
fn command_text_is_no_id() {
    let config = table(&[("Reboot", "sudo reboot")]);
    assert_eq!(control_handler(&config, "sudo reboot"), ControlOutcome::UnknownAction);
    assert_eq!(control_handler(&config, "Reboot"), ControlOutcome::UnknownAction);
    assert_eq!(control_handler(&config, ""), ControlOutcome::UnknownAction);
}

#[test]
fn id_must_match_as_a_whole() {
    let config = table(&[("Reboot", "sudo reboot")]);
    let id = derive_action_id("sudo reboot");
    assert_eq!(control_handler(&config, &format!("{}0", id)), ControlOutcome::UnknownAction);
    assert_eq!(control_handler(&config, &format!(" {}", id)), ControlOutcome::UnknownAction);
    assert_eq!(control_handler(&config, &id[1..]), ControlOutcome::UnknownAction);
}

#[test]
fn empty_table_knows_no_id() {
    let config = table(&[]);
    assert_eq!(control_handler(&config, &derive_action_id("true")), ControlOutcome::UnknownAction);
}

#[test]
fn first_of_two_actions_with_one_command_fires() {
    let config = table(&[("First", "true"), ("Between", "false"), ("Second", "true")]);
    assert_eq!(control_handler(&config, &derive_action_id("true")), launch("First", "true"));
}

#[test]
fn reboot_scenario_from_page_to_launch() {
    let config = table(&[("Reboot", "sudo reboot")]);
    let page = index_handler(&config);
    let id = derive_action_id("sudo reboot");
    assert_eq!(page.matches("<button").count(), 1);
    assert!(page.contains(&format!("onclick=\"fetch('control/{}')\">Reboot</button>", id)));
    let outcome = control_handler(&config, &id);
    assert_eq!(outcome.status(), 202);
    assert_eq!(outcome, launch("Reboot", "sudo reboot"));
}

#[test]
fn record_of_a_fired_action() {
    let opening = log_opening("12345");
    let closing = log_closing(&launch("Reboot", "sudo reboot"));
    assert_eq!(opening, "handling                     12345");
    assert_eq!(opening, format!("handling {:>25}", "12345"));
    assert_eq!(closing, Some(" (Reboot)".to_string()));
}

#[test]
fn record_of_an_unknown_id_has_no_end() {
    assert_eq!(log_opening("nope"), format!("handling {:>25}", "nope"));
    assert_eq!(log_closing(&ControlOutcome::UnknownAction), None);
}

#[test]
fn record_keeps_an_id_that_overflows_its_field() {
    let long = "123456789012345678901234567890";
    assert_eq!(log_opening(long), format!("handling {}", long));
    let exact = "1234567890123456789012345";
    assert_eq!(log_opening(exact), format!("handling {}", exact));
}

#[test]
fn record_counts_characters_not_bytes() {
    let line = log_opening("é");
    assert_eq!(line, format!("handling {:>25}", "é"));
    assert_eq!(line.chars().count(), 9 + 25);
}

#[test]
fn record_of_an_action_without_label() {
    assert_eq!(log_closing(&launch("", "true")), Some(" ()".to_string()));
}
