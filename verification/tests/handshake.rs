use foundry_judge::client::{
    after_poll, caller_step, make_final_document, make_path_missing_document,
    write_response_if_request_exist, CallerAction, CallerEvent, CallerState, ErrorCode, WaitPolicy,
    Waiting,
};
use foundry_judge::handshake::{request_key, response_key, Handshake};

#[test]
fn keys_are_derived_from_job_key() {
    assert_eq!(request_key("ns:q1"), "ns:q1:request");
    assert_eq!(response_key("ns:q1"), "ns:q1:response");
}

#[test]
fn delivery_needs_an_outstanding_request() {
    let mut h = Handshake::new();
    assert!(!h.deliver_if_outstanding("r".to_string()));
    assert!(!h.request);
    assert!(h.response.is_none());
    h.mark_outstanding();
    assert!(h.request);
    assert!(h.deliver_if_outstanding("r".to_string()));
    assert!(!h.request);
    assert_eq!(h.response.as_deref(), Some("r"));
}

#[test]
fn of_two_racing_deliveries_one_succeeds() {
    let mut h = Handshake::new();
    h.mark_outstanding();
    let first = h.deliver_if_outstanding("one".to_string());
    let second = h.deliver_if_outstanding("two".to_string());
    assert!(first);
    assert!(!second);
    assert_eq!(h.response.as_deref(), Some("one"));
}

#[test]
fn collecting_clears_both_keys() {
    let mut h = Handshake::new();
    h.mark_outstanding();
    assert_eq!(h.collect(), None);
    assert!(h.request);
    h.deliver_if_outstanding("r".to_string());
    assert_eq!(h.collect(), Some("r".to_string()));
    assert!(!h.request);
    assert!(h.response.is_none());
    assert_eq!(h.collect(), None);
}

#[test]
fn late_delivery_after_timeout_is_discarded() {
    let mut h = Handshake::new();
    h.mark_outstanding();
    let w = after_poll(Err(ErrorCode::ProcessNotFinished), true);
    assert!(matches!(w, Waiting::TimedOut));
    h.abandon();
    assert!(!h.deliver_if_outstanding("late".to_string()));
    assert!(!h.request);
    assert!(h.response.is_none());
}

#[test]
fn keys_never_exist_together() {
    let mut h = Handshake::new();
    for round in 0..3 {
        h.mark_outstanding();
        assert!(!(h.request && h.response.is_some()));
        if round == 1 {
            h.abandon();
        }
        h.deliver_if_outstanding(format!("r{}", round));
        assert!(!(h.request && h.response.is_some()));
        h.collect();
        assert!(!(h.request && h.response.is_some()));
    }
}

#[test]
fn wait_goes_on_until_response_or_deadline() {
    assert!(matches!(after_poll(Err(ErrorCode::ProcessNotFinished), false), Waiting::Polling));
    assert!(matches!(after_poll(Ok(String::new()), false), Waiting::Polling));
    assert!(matches!(after_poll(Err(ErrorCode::ProcessNotFinished), true), Waiting::TimedOut));
    assert!(matches!(after_poll(Ok(String::new()), true), Waiting::TimedOut));
    match after_poll(Ok("{}".to_string()), true) {
        Waiting::Delivered(r) => assert_eq!(r, "{}"),
        other => panic!("{:?}", other),
    }
    match after_poll(Ok("{}".to_string()), false) {
        Waiting::Delivered(r) => assert_eq!(r, "{}"),
        other => panic!("{:?}", other),
    }
}

#[test]
fn collect_result_is_mapped() {
    assert_eq!(write_response_if_request_exist(Some("r".to_string())).unwrap(), "r");
    assert!(matches!(write_response_if_request_exist(None), Err(ErrorCode::ProcessNotFinished)));
}

#[test]
fn final_documents() {
    let timeout = make_final_document(None, "job-7", "5.00s");
    assert_eq!(
        timeout.to_text(),
        "{\"code\":-2,\"costTime\":\"5.00s\",\"info\":\"Timeout\",\"jobId\":\"job-7\",\"msg\":\"Timeout\"}"
    );
    let delivered = make_final_document(Some("{\"code\":0,\"info\":\"Complete\"}".to_string()), "job-7", "0.10s");
    assert_eq!(delivered.to_text(), "{\"code\":0,\"costTime\":\"0.10s\",\"info\":\"Complete\"}");
    let bad = make_final_document(Some("oops".to_string()), "job-7", "0.10s");
    assert_eq!(
        bad.to_text(),
        "{\"code\":-1,\"costTime\":\"0.10s\",\"info\":\"Failed\",\"jobId\":\"job-7\",\"msg\":\"Response not json\"}"
    );
    assert_eq!(
        make_path_missing_document("job-7").to_text(),
        "{\"code\":-3,\"info\":\"Failed\",\"jobId\":\"job-7\",\"msg\":\"Path not exist\"}"
    );
}

#[test]
fn wait_outcomes() {
    assert!(Waiting::Polling.outcome().is_none());
    assert_eq!(Waiting::Delivered("r".to_string()).outcome().unwrap().unwrap(), "r");
    assert!(matches!(Waiting::TimedOut.outcome(), Some(Err(ErrorCode::ProcessTimeout))));
}

fn begin(policy: &WaitPolicy) -> CallerState {
    let (state, action) = caller_step(policy, CallerState::Start, CallerEvent::Done);
    assert_eq!(state, CallerState::Marking);
    assert!(matches!(action, CallerAction::Mark));
    let (state, action) = caller_step(policy, state, CallerEvent::Done);
    assert_eq!(state, CallerState::Pushing);
    assert!(matches!(action, CallerAction::Push));
    let (state, action) = caller_step(policy, state, CallerEvent::Done);
    assert_eq!(state, CallerState::Polling);
    assert!(matches!(action, CallerAction::Collect));
    state
}

fn nothing_yet() -> CallerEvent {
    CallerEvent::Collected(Err(ErrorCode::ProcessNotFinished))
}

#[test]
fn caller_marks_then_pushes_then_polls() {
    let policy = WaitPolicy::standard();
    assert_eq!(policy, WaitPolicy { poll_interval_ms: 100 });
    let state = begin(&policy);
    let (state, action) = caller_step(&policy, state, nothing_yet());
    assert_eq!(state, CallerState::Sleeping);
    assert!(matches!(action, CallerAction::Sleep { milliseconds: 100 }));
    let (state, action) = caller_step(&policy, state, CallerEvent::Woke { deadline_passed: false });
    assert_eq!(state, CallerState::Polling);
    assert!(matches!(action, CallerAction::Collect));
    let (state, action) = caller_step(&policy, state, CallerEvent::Collected(Ok("{}".to_string())));
    assert_eq!(state, CallerState::Finished);
    match action {
        CallerAction::Report(response) => assert_eq!(response, "{}"),
        other => panic!("{:?}", other),
    }
    let (state, action) = caller_step(&policy, state, CallerEvent::Done);
    assert_eq!(state, CallerState::Finished);
    assert!(matches!(action, CallerAction::Rest));
}

#[test]
fn caller_gives_up_at_the_deadline() {
    let policy = WaitPolicy { poll_interval_ms: 10 };
    let state = begin(&policy);
    let (state, action) = caller_step(&policy, state, CallerEvent::Collected(Ok(String::new())));
    assert_eq!(state, CallerState::Sleeping);
    assert!(matches!(action, CallerAction::Sleep { milliseconds: 10 }));
    let (state, action) = caller_step(&policy, state, CallerEvent::Woke { deadline_passed: true });
    assert_eq!(state, CallerState::Finished);
    assert!(matches!(action, CallerAction::GiveUp));
}

#[test]
fn caller_waits_as_long_as_the_deadline_allows() {
    let policy = WaitPolicy::standard();
    let mut state = begin(&policy);
    for _ in 0..1000 {
        let (next, action) = caller_step(&policy, state, nothing_yet());
        assert_eq!(next, CallerState::Sleeping);
        assert!(matches!(action, CallerAction::Sleep { milliseconds: 100 }));
        let (next, action) = caller_step(&policy, next, CallerEvent::Woke { deadline_passed: false });
        assert_eq!(next, CallerState::Polling);
        assert!(matches!(action, CallerAction::Collect));
        state = next;
    }
    let (state, action) = caller_step(&policy, state, CallerEvent::Collected(Ok("late but in time".to_string())));
    assert_eq!(state, CallerState::Finished);
    match action {
        CallerAction::Report(response) => assert_eq!(response, "late but in time"),
        other => panic!("{:?}", other),
    }
}

#[test]
fn caller_goes_on_after_an_event_out_of_turn() {
    let policy = WaitPolicy::standard();
    let (state, action) = caller_step(&policy, CallerState::Polling, CallerEvent::Done);
    assert_eq!(state, CallerState::Sleeping);
    assert!(matches!(action, CallerAction::Sleep { milliseconds: 100 }));
    let (state, action) = caller_step(&policy, CallerState::Polling, CallerEvent::Woke { deadline_passed: true });
    assert_eq!(state, CallerState::Sleeping);
    assert!(matches!(action, CallerAction::Sleep { .. }));
    let (state, action) = caller_step(&policy, CallerState::Sleeping, CallerEvent::Done);
    assert_eq!(state, CallerState::Polling);
    assert!(matches!(action, CallerAction::Collect));
    let (state, action) = caller_step(&policy, CallerState::Sleeping, nothing_yet());
    assert_eq!(state, CallerState::Polling);
    assert!(matches!(action, CallerAction::Collect));
}
