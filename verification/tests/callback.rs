use managed_rooms::callback::{
    deliver, emit, emit_contest_result, emit_many, BatchDelivery, CallbackPayload, DeliveryStep, ATTEMPT_TIMEOUT,
    RETRY_DELAYS,
};
use managed_rooms::event::CustomRoomEvent;
use std::time::Duration;

fn host_changed() -> CustomRoomEvent {
    CustomRoomEvent::HostChanged { room_id: "room".into(), host_id: 7 }
}

fn cancelled() -> CustomRoomEvent {
    CustomRoomEvent::RoundCancelled {
        room_id: "room".into(),
        round_id: "round".into(),
        reason: "timeout".into(),
    }
}

#[test]
fn retry_contract_is_stable() {
    assert_eq!(Duration::from_millis(ATTEMPT_TIMEOUT), Duration::from_millis(1500));
    assert_eq!(
        [Duration::from_millis(RETRY_DELAYS[0]), Duration::from_millis(RETRY_DELAYS[1])],
        [Duration::from_millis(250), Duration::from_millis(500)]
    );
    assert_eq!(RETRY_DELAYS.len(), 2);
}

#[test]
fn failing_report_is_tried_three_times() {
    let mut attempts: usize = 0;
    let mut waited: Vec<u64> = Vec::new();
    let delivered = loop {
        let step = deliver(attempts, false);
        attempts += 1;
        match step {
            DeliveryStep::Delivered => break true,
            DeliveryStep::RetryAfter { delay_ms } => waited.push(delay_ms),
            DeliveryStep::GiveUp => break false,
        }
    };
    assert!(!delivered);
    assert_eq!(attempts, 3);
    assert_eq!(waited, vec![250, 500]);
}

#[test]
fn report_that_succeeds_is_not_repeated() {
    assert_eq!(deliver(0, true), DeliveryStep::Delivered);
    assert_eq!(deliver(2, true), DeliveryStep::Delivered);
}

#[test]
fn report_needs_an_address_and_a_token() {
    assert!(emit(None, "token", host_changed()).is_none());
    assert!(emit(Some(" \t "), "token", host_changed()).is_none());
    assert!(emit(Some("http://web"), "  ", host_changed()).is_none());
    assert!(emit_many(None, "token", vec![host_changed()]).is_none());
    assert!(emit_contest_result(Some(""), "token", "{}".into()).is_none());
}

#[test]
fn address_and_token_are_trimmed() {
    let batch = emit(Some(" http://web/hook\n"), "\u{3000}token ", host_changed()).unwrap();
    assert_eq!(batch.url, "http://web/hook");
    assert_eq!(batch.token, "token");
    assert_eq!(batch.task, "custom-room-callback-HOST_CHANGED");
    assert_eq!(batch.payloads.len(), 1);
}

#[test]
fn events_keep_their_order_and_the_first_names_the_task() {
    let timeout = CustomRoomEvent::RoundReadyTimeout {
        room_id: "room".into(),
        round_id: "round".into(),
        ready_ids: vec![1],
    };
    let batch = emit_many(Some("http://web"), "token", vec![timeout, cancelled()]).unwrap();
    let names: Vec<String> = batch.payloads.iter().map(|p| p.name()).collect();
    assert_eq!(names, vec!["ROUND_READY_TIMEOUT", "ROUND_CANCELLED"]);
    assert_eq!(batch.task, "custom-room-callback-ROUND_READY_TIMEOUT");
    let empty = emit_many(Some("http://web"), "token", vec![]).unwrap();
    assert_eq!(empty.task, "custom-room-callback-EMPTY");
    assert!(empty.payloads.is_empty());
}

#[test]
fn contest_result_is_passed_on_as_it_is() {
    let batch = emit_contest_result(Some("http://web"), "token", "{\"a\":1}".into()).unwrap();
    assert_eq!(batch.task, "custom-room-callback-CONTEST_RESULT");
    match &batch.payloads[0] {
        CallbackPayload::ContestResult { json } => assert_eq!(json, "{\"a\":1}"),
        other => panic!("{other:?}"),
    }
}

#[test]
fn every_event_has_its_name() {
    let started = CustomRoomEvent::RoundStarted {
        room_id: "room".into(),
        round_id: "round".into(),
        participant_ids: vec![1, 2],
        spectator_ids: vec![],
        in_phira_ids: vec![3],
        chart: managed_rooms::definition::ManagedChart { id: 1, name: "chart".into() },
    };
    let completed = CustomRoomEvent::RoundCompleted {
        room_id: "room".into(),
        round_id: "round".into(),
        results: "[]".into(),
        aborted_ids: vec![],
    };
    assert_eq!(started.name(), "ROUND_STARTED");
    assert_eq!(started.clone().name(), "ROUND_STARTED");
    assert_eq!(completed.name(), "ROUND_COMPLETED");
    assert_eq!(host_changed().name(), "HOST_CHANGED");
    assert_eq!(cancelled().name(), "ROUND_CANCELLED");
}

#[test]
fn batch_is_delivered_report_by_report() {
    let events = vec![host_changed(), cancelled(), host_changed()];
    let batch = emit_many(Some("http://web"), "token", events).unwrap();
    let mut delivery = BatchDelivery::start(&batch);
    let mut attempts = vec![];
    let mut given_up = vec![];
    while let Some(place) = delivery.current() {
        attempts.push(place);
        // The first report is delivered at the second attempt, the second never, the third at once.
        let success = match place {
            0 => attempts.len() == 2,
            1 => false,
            _ => true,
        };
        if delivery.reply(success) == DeliveryStep::GiveUp {
            given_up.push(place);
        }
    }
    assert_eq!(attempts, vec![0, 0, 1, 1, 1, 2]);
    assert_eq!(given_up, vec![1]);
    assert_eq!(delivery.current(), None);
}

#[test]
fn empty_batch_is_over_at_once() {
    let batch = emit_many(Some("http://web"), "token", vec![]).unwrap();
    assert_eq!(BatchDelivery::start(&batch).current(), None);
}
