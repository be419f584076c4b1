use cardputer_rust::link::{JoinStep, WifiJoin, WIFI_MAX_RETRIES};

#[test]
fn joins_on_first_success() {
    let mut j = WifiJoin::new();
    assert_eq!(j.step(), JoinStep::Connect { attempt: 1 });
    j.connect_result(true);
    assert_eq!(j.step(), JoinStep::Connected);
}

#[test]
fn retries_then_lists_access_points_then_offline() {
    let mut j = WifiJoin::new();
    let mut attempts = Vec::new();
    loop {
        match j.step() {
            JoinStep::Connect { attempt } => {
                attempts.push(attempt);
                j.connect_result(false);
            }
            JoinStep::Wait { .. } => j.waited(),
            JoinStep::ListAccessPoints => j.listed(),
            JoinStep::Offline => break,
            JoinStep::Connected => unreachable!(),
        }
    }
    assert_eq!(attempts, (1..=WIFI_MAX_RETRIES).collect::<Vec<_>>());
}

#[test]
fn joins_on_a_later_attempt() {
    let mut j = WifiJoin::new();
    j.connect_result(false);
    assert_eq!(j.step(), JoinStep::Wait { next_attempt: 2 });
    j.waited();
    j.connect_result(false);
    j.waited();
    assert_eq!(j.step(), JoinStep::Connect { attempt: 3 });
    j.connect_result(true);
    assert_eq!(j.step(), JoinStep::Connected);
}

#[test]
fn last_failure_also_pauses() {
    let mut j = WifiJoin::new();
    for attempt in 1..WIFI_MAX_RETRIES {
        j.connect_result(false);
        assert_eq!(j.step(), JoinStep::Wait { next_attempt: attempt + 1 });
        j.waited();
    }
    assert_eq!(j.step(), JoinStep::Connect { attempt: WIFI_MAX_RETRIES });
    j.connect_result(false);
    assert_eq!(j.step(), JoinStep::Wait { next_attempt: WIFI_MAX_RETRIES + 1 });
    j.waited();
    assert_eq!(j.step(), JoinStep::ListAccessPoints);
    j.listed();
    assert_eq!(j.step(), JoinStep::Offline);
}
