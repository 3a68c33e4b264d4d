use remote_control::ident::{decimal_string, derive_action_id, hash_command, push_decimal};
use std::collections::hash_map::DefaultHasher;
use std::hash::{Hash, Hasher};

fn reference_digest(text: &str) -> u64 {
    let mut hasher = DefaultHasher::new();
    text.hash(&mut hasher);
    hasher.finish()
}

#[test]
fn decimal_of_zero_is_a_single_zero() {
    assert_eq!(decimal_string(0), "0");
}

#[test]
fn decimal_of_single_digits() {
    assert_eq!(decimal_string(1), "1");
    assert_eq!(decimal_string(7), "7");
    assert_eq!(decimal_string(9), "9");
}

#[test]
fn decimal_of_round_numbers_keeps_inner_and_trailing_zeros() {
    assert_eq!(decimal_string(10), "10");
    assert_eq!(decimal_string(100), "100");
    assert_eq!(decimal_string(1005), "1005");
    assert_eq!(decimal_string(120), "120");
}

#[test]
fn decimal_of_largest_value() {
    assert_eq!(decimal_string(u64::MAX), "18446744073709551615");
}

#[test]
fn decimal_agrees_with_the_standard_formatting() {
    let samples: [u64; 8] = [0, 5, 42, 999, 1000, 65535, 4294967296, 9999999999999999999];
    for n in samples {
        assert_eq!(decimal_string(n), format!("{}", n));
    }
}

#[test]
fn push_decimal_appends_behind_what_is_there() {
    let mut out = String::from("port ");
    push_decimal(&mut out, 8080);
    assert_eq!(out, "port 8080");
    push_decimal(&mut out, 0);
    assert_eq!(out, "port 80800");
}

#[test]
fn digest_is_that_of_a_fresh_standard_hasher() {
    assert_eq!(hash_command("sudo reboot"), reference_digest("sudo reboot"));
    assert_eq!(hash_command(""), reference_digest(""));
    assert_eq!(hash_command("echo 'héllo wörld'"), reference_digest("echo 'héllo wörld'"));
}

#[test]
fn digest_depends_on_the_text_that_was_fed() {
    let untouched = DefaultHasher::new().finish();
    assert_ne!(hash_command("ls"), untouched);
    assert_ne!(hash_command("ls"), hash_command("ls -l"));
}

#[test]
fn id_is_the_decimal_digest_of_the_command() {
    assert_eq!(derive_action_id("sudo reboot"), reference_digest("sudo reboot").to_string());
    assert_eq!(derive_action_id("mpc toggle"), format!("{}", reference_digest("mpc toggle")));
}

#[test]
fn identical_commands_share_an_id() {
    let first = derive_action_id("systemctl restart kodi");
    let second = derive_action_id("systemctl restart kodi");
    assert_eq!(first, second);
}

#[test]
fn distinct_commands_get_distinct_ids() {
    let commands = ["sudo reboot", "sudo poweroff", "mpc next", "mpc prev", "", " "];
    for (i, a) in commands.iter().enumerate() {
        for (j, b) in commands.iter().enumerate() {
            if i != j {
                assert_ne!(derive_action_id(a), derive_action_id(b));
            }
        }
    }
}

#[test]
fn id_holds_decimal_digits_only() {
    for cmd in ["sudo reboot", "", "a/b/../c", "echo '{}'"] {
        let id = derive_action_id(cmd);
        assert!(!id.is_empty());
        assert!(id.len() <= 20);
        assert!(id.chars().all(|c| c.is_ascii_digit()));
    }
}
