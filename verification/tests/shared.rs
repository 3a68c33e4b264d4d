use remote_control::config::{ActionEntry, Config};
use remote_control::dispatch::{control_handler, ControlOutcome};
use remote_control::ident::derive_action_id;
use remote_control::page::index_handler;
use std::sync::Arc;
use tokio::runtime::Builder;
use tokio::sync::RwLock;

fn shared_table() -> Arc<RwLock<Config>> {
    let entries = vec![
        ActionEntry { display_name: "Play".to_string(), cmd: "mpc play".to_string() },
        ActionEntry { display_name: "Stop".to_string(), cmd: "mpc stop".to_string() },
    ];
    Arc::new(RwLock::new(Config::new(None, None, Some("Music".to_string()), entries)))
}

#[test]
fn two_triggers_under_read_locks_held_at_once_both_succeed() {
    let runtime = Builder::new_multi_thread().worker_threads(2).build().unwrap();
    runtime.block_on(async {
        let state = shared_table();
        let first = state.read().await;
        let second = state.read().await;
        let play = control_handler(&first, &derive_action_id("mpc play"));
        let stop = control_handler(&second, &derive_action_id("mpc stop"));
        assert_eq!(play.status(), 202);
        assert_eq!(stop.status(), 202);
        assert_eq!(
            play,
            ControlOutcome::Launch { display_name: "Play".to_string(), cmd: "mpc play".to_string() }
        );
        assert_eq!(
            stop,
            ControlOutcome::Launch { display_name: "Stop".to_string(), cmd: "mpc stop".to_string() }
        );
    });
}

#[test]
fn triggers_from_concurrent_tasks_both_succeed() {
    let runtime = Builder::new_multi_thread().worker_threads(2).build().unwrap();
    runtime.block_on(async {
        let state = shared_table();
        let mut tasks = Vec::new();
        for cmd in ["mpc play", "mpc stop", "mpc play", "mpc stop"] {
            let state = Arc::clone(&state);
            tasks.push(tokio::spawn(async move {
                let config = state.read().await;
                (cmd, control_handler(&config, &derive_action_id(cmd)))
            }));
        }
        for task in tasks {
            let (cmd, outcome) = task.await.unwrap();
            assert_eq!(outcome.status(), 202);
            match outcome {
                ControlOutcome::Launch { cmd: launched, .. } => assert_eq!(launched, cmd),
                ControlOutcome::UnknownAction => panic!("a listed action was not found"),
            }
        }
    });
}

#[test]
fn page_and_trigger_read_the_same_table_at_once() {
    let runtime = Builder::new_multi_thread().worker_threads(2).build().unwrap();
    runtime.block_on(async {
        let state = shared_table();
        let reader = state.read().await;
        let page = index_handler(&reader);
        let other = state.read().await;
        let outcome = control_handler(&other, &derive_action_id("mpc stop"));
        assert_eq!(page.matches("<button").count(), 2);
        assert_eq!(outcome.status(), 202);
    });
}
