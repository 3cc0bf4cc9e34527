use stash_feed::backoff::RetryPolicy;
use stash_feed::decode::FeedError;
use stash_feed::dispatch::Delivery;
use stash_feed::model::EventKind;
use stash_feed::poller::{Action, Input, Phase, Poller};
use stash_feed::request::{
    bootstrap_request, feed_request, Request, BOOTSTRAP_ENDPOINT, FEED_ENDPOINT, FETCH_TIMEOUT_SECS,
    MAX_BODY_BYTES,
};

const POLICY: RetryPolicy = RetryPolicy { base_ms: 1000, cap_ms: 8000 };

const BATCH_AT_C0: &str =
    "{\"next_change_id\":\"C1\",\"stashes\":[{\"id\":\"S1\",\"items\":[{\"id\":\"I1\"},{\"id\":\"I2\"}]}]}";

const BATCH_AT_C1: &str =
    "{\"next_change_id\":\"C2\",\"stashes\":[{\"id\":\"S1\",\"items\":[{\"id\":\"I1\"},{\"id\":\"I3\"}]}]}";

fn names(ids: &[&str]) -> Vec<String> {
    ids.iter().map(|s| s.to_string()).collect()
}

fn fetch_at(cursor: &str) -> Action {
    Action::Fetch(Request {
        url: format!("http://www.pathofexile.com/api/public-stash-tabs?id={}", cursor),
        timeout_secs: 30,
        max_body_bytes: 10 * 1024 * 1024,
    })
}

fn response(text: &str) -> Input {
    Input::Response(text.as_bytes().to_vec())
}

fn started() -> Poller {
    Poller::from_bootstrap(b"{\"next_change_id\":\"C0\"}", POLICY).unwrap()
}

#[test]
fn first_batch_adds_the_container() {
    let mut p = started();
    assert_eq!(p.cursor(), "C0");
    assert_eq!(p.phase(), Phase::Idle);
    assert_eq!(p.step(Input::Wake), fetch_at("C0"));
    assert_eq!(p.phase(), Phase::Fetching);
    let action = p.step(response(BATCH_AT_C0));
    assert_eq!(
        action,
        Action::Deliver(vec![
            Delivery::Event {
                kind: EventKind::Add,
                payload: "{\"id\":\"S1\",\"items\":[{\"id\":\"I1\"},{\"id\":\"I2\"}]}".to_string(),
            },
            Delivery::Reload,
        ])
    );
    assert_eq!(p.cursor(), "C1");
    assert_eq!(p.phase(), Phase::Idle);
    assert_eq!(p.engine().container_count(), 1);
    assert_eq!(p.engine().entry_ids("S1"), Some(names(&["I1", "I2"])));
}

#[test]
fn second_batch_adds_and_removes() {
    let mut p = started();
    p.step(Input::Wake);
    p.step(response(BATCH_AT_C0));
    assert_eq!(p.step(Input::Wake), fetch_at("C1"));
    let action = p.step(response(BATCH_AT_C1));
    assert_eq!(
        action,
        Action::Deliver(vec![
            Delivery::Event {
                kind: EventKind::Add,
                payload: "{\"id\":\"S1\",\"items\":[{\"id\":\"I3\"}]}".to_string(),
            },
            Delivery::Event {
                kind: EventKind::Remove,
                payload: "{\"id\":\"S1\",\"items\":[{\"id\":\"I2\"}]}".to_string(),
            },
            Delivery::Reload,
        ])
    );
    assert_eq!(p.cursor(), "C2");
    assert_eq!(p.engine().entry_ids("S1"), Some(names(&["I1", "I3"])));
    assert!(p.engine().holds("S1", "I1"));
    assert!(p.engine().holds("S1", "I3"));
    assert!(!p.engine().holds("S1", "I2"));
}

#[test]
fn truncated_body_keeps_the_cursor_and_retries() {
    let mut p = started();
    p.step(Input::Wake);
    let action = p.step(response("{\"next_change_id\":\"C1\",\"stashes\":[{\"id\":\"S1\",\"ite"));
    assert_eq!(action, Action::Retry { delay_ms: 1000, cause: FeedError::Parse });
    assert_eq!(p.cursor(), "C0");
    assert_eq!(p.phase(), Phase::Idle);
    assert_eq!(p.failures(), 1);
    assert_eq!(p.engine().container_count(), 0);
    assert_eq!(p.step(Input::Wake), fetch_at("C0"));
}

#[test]
fn reload_comes_once_after_all_events() {
    let mut p = started();
    p.step(Input::Wake);
    p.step(response(BATCH_AT_C0));
    p.step(Input::Wake);
    match p.step(response(BATCH_AT_C1)) {
        Action::Deliver(deliveries) => {
            assert_eq!(deliveries.len(), 3);
            assert!(matches!(deliveries[0], Delivery::Event { .. }));
            assert!(matches!(deliveries[1], Delivery::Event { .. }));
            assert_eq!(deliveries[2], Delivery::Reload);
            assert_eq!(deliveries.iter().filter(|d| matches!(d, Delivery::Reload)).count(), 1);
        }
        other => panic!("expected deliveries, got {:?}", other),
    }
}

#[test]
fn batch_without_changes_still_reloads() {
    let mut p = started();
    p.step(Input::Wake);
    p.step(response(BATCH_AT_C0));
    p.step(Input::Wake);
    assert_eq!(p.step(response(BATCH_AT_C0)), Action::Deliver(vec![Delivery::Reload]));
    assert_eq!(p.cursor(), "C1");
}

#[test]
fn bootstrap_without_cursor_fails() {
    assert_eq!(Poller::from_bootstrap(b"{}", POLICY).err(), Some(FeedError::Parse));
    assert_eq!(Poller::from_bootstrap(b"<html>", POLICY).err(), Some(FeedError::Parse));
}

#[test]
fn new_poller_is_idle_at_its_cursor() {
    let p = Poller::new("X".to_string(), POLICY);
    assert_eq!(p.cursor(), "X");
    assert_eq!(p.phase(), Phase::Idle);
    assert_eq!(p.failures(), 0);
    assert_eq!(p.policy(), POLICY);
    assert_eq!(p.engine().container_count(), 0);
}

#[test]
fn no_second_fetch_while_one_is_under_way() {
    let mut p = started();
    assert_eq!(p.step(Input::Wake), fetch_at("C0"));
    assert_eq!(p.step(Input::Wake), Action::Nothing);
    assert_eq!(p.step(Input::Wake), Action::Nothing);
    assert_eq!(p.phase(), Phase::Fetching);
    assert_eq!(p.cursor(), "C0");
}

#[test]
fn completion_without_a_fetch_is_ignored() {
    let mut p = started();
    assert_eq!(p.step(response(BATCH_AT_C0)), Action::Nothing);
    assert_eq!(p.step(Input::Unreachable), Action::Nothing);
    assert_eq!(p.cursor(), "C0");
    assert_eq!(p.phase(), Phase::Idle);
    assert_eq!(p.failures(), 0);
    assert_eq!(p.engine().container_count(), 0);
}

#[test]
fn network_failure_backs_off_and_retries_the_same_cursor() {
    let mut p = started();
    let mut delays = Vec::new();
    for _ in 0..6 {
        assert_eq!(p.step(Input::Wake), fetch_at("C0"));
        match p.step(Input::Unreachable) {
            Action::Retry { delay_ms, cause } => {
                assert_eq!(cause, FeedError::Network);
                delays.push(delay_ms);
            }
            other => panic!("expected a retry, got {:?}", other),
        }
        assert_eq!(p.phase(), Phase::Idle);
    }
    assert_eq!(delays, vec![1000, 2000, 4000, 8000, 8000, 8000]);
    assert_eq!(p.failures(), 6);
    assert_eq!(p.cursor(), "C0");
}

#[test]
fn success_resets_the_backoff() {
    let mut p = started();
    p.step(Input::Wake);
    p.step(Input::Unreachable);
    p.step(Input::Wake);
    p.step(response("garbage"));
    assert_eq!(p.failures(), 2);
    p.step(Input::Wake);
    p.step(response(BATCH_AT_C0));
    assert_eq!(p.failures(), 0);
    p.step(Input::Wake);
    assert_eq!(
        p.step(Input::Unreachable),
        Action::Retry { delay_ms: 1000, cause: FeedError::Network }
    );
    assert_eq!(p.cursor(), "C1");
}

#[test]
fn body_without_next_cursor_is_not_applied() {
    let mut p = started();
    p.step(Input::Wake);
    let action = p.step(response("{\"stashes\":[{\"id\":\"S1\",\"items\":[{\"id\":\"I1\"}]}]}"));
    assert_eq!(action, Action::Retry { delay_ms: 1000, cause: FeedError::Parse });
    assert_eq!(p.cursor(), "C0");
    assert!(!p.engine().is_known("S1"));
}

#[test]
fn body_with_a_malformed_container_is_not_applied_in_part() {
    let mut p = started();
    p.step(Input::Wake);
    let action = p.step(response(
        "{\"next_change_id\":\"C1\",\"stashes\":[{\"id\":\"S1\",\"items\":[]},{\"id\":\"S2\"}]}",
    ));
    assert_eq!(action, Action::Retry { delay_ms: 1000, cause: FeedError::Parse });
    assert_eq!(p.cursor(), "C0");
    assert_eq!(p.engine().container_count(), 0);
}

#[test]
fn delivery_failure_changes_nothing() {
    let mut p = started();
    assert_eq!(p.step(Input::DeliveryFailed), Action::Nothing);
    assert_eq!(p.phase(), Phase::Idle);
    p.step(Input::Wake);
    assert_eq!(p.step(Input::DeliveryFailed), Action::Nothing);
    assert_eq!(p.phase(), Phase::Fetching);
    assert_eq!(p.failures(), 0);
    assert_eq!(p.cursor(), "C0");
    assert!(matches!(p.step(response(BATCH_AT_C0)), Action::Deliver(_)));
}

#[test]
fn shutdown_is_final() {
    let mut p = started();
    p.step(Input::Wake);
    assert_eq!(p.step(Input::Shutdown), Action::Halt);
    assert_eq!(p.phase(), Phase::Stopped);
    assert_eq!(p.step(response(BATCH_AT_C0)), Action::Halt);
    assert_eq!(p.step(Input::Wake), Action::Halt);
    assert_eq!(p.step(Input::Unreachable), Action::Halt);
    assert_eq!(p.step(Input::DeliveryFailed), Action::Halt);
    assert_eq!(p.step(Input::Shutdown), Action::Halt);
    assert_eq!(p.phase(), Phase::Stopped);
    assert_eq!(p.cursor(), "C0");
    assert_eq!(p.engine().container_count(), 0);
    let mut q = started();
    assert_eq!(q.step(Input::Shutdown), Action::Halt);
    assert_eq!(q.phase(), Phase::Stopped);
}

#[test]
fn requests_name_their_endpoints() {
    let r = feed_request("2-3");
    assert_eq!(r.url, "http://www.pathofexile.com/api/public-stash-tabs?id=2-3");
    assert_eq!(r.url, format!("{}?id={}", FEED_ENDPOINT, "2-3"));
    assert_eq!(r.timeout_secs, FETCH_TIMEOUT_SECS);
    assert_eq!(r.max_body_bytes, MAX_BODY_BYTES);
    assert_eq!(feed_request("").url, "http://www.pathofexile.com/api/public-stash-tabs?id=");
    let b = bootstrap_request();
    assert_eq!(b.url, "https://poe.ninja/api/Data/GetStats");
    assert_eq!(b.url, BOOTSTRAP_ENDPOINT);
    assert_eq!(b.timeout_secs, 30);
    assert_eq!(b.max_body_bytes, 10 * 1024 * 1024);
}

#[test]
fn copies_of_inputs_and_actions_equal_what_they_copy() {
    let inputs = vec![
        Input::Wake,
        response(BATCH_AT_C0),
        Input::Unreachable,
        Input::DeliveryFailed,
        Input::Shutdown,
    ];
    assert_eq!(inputs.clone(), inputs);
    let actions = vec![
        fetch_at("C0"),
        Action::Deliver(vec![
            Delivery::Event { kind: EventKind::Remove, payload: "{}".to_string() },
            Delivery::Reload,
        ]),
        Action::Retry { delay_ms: 5, cause: FeedError::Parse },
        Action::Nothing,
        Action::Halt,
    ];
    assert_eq!(actions.clone(), actions);
}
