//! Events of managed rooms that the web administration is told about.
use crate::definition::{copy_ids, ChartView, ManagedChart};
use vstd::prelude::*;

verus! {

#[derive(Debug)]
pub enum CustomRoomEvent {
    HostChanged { room_id: String, host_id: i32 },
    RoundStarted {
        room_id: String,
        round_id: String,
        participant_ids: Vec<i32>,
        spectator_ids: Vec<i32>,
        in_phira_ids: Vec<i32>,
        chart: ManagedChart,
    },
    RoundReadyTimeout { room_id: String, round_id: String, ready_ids: Vec<i32> },
    /// `results` is a JSON text.
    RoundCompleted { room_id: String, round_id: String, results: String, aborted_ids: Vec<i32> },
    RoundCancelled { room_id: String, round_id: String, reason: String },
}

/// An event, its texts and lists as sequences.
pub enum EventView {
    HostChanged { room_id: Seq<char>, host_id: i32 },
    RoundStarted {
        room_id: Seq<char>,
        round_id: Seq<char>,
        participant_ids: Seq<i32>,
        spectator_ids: Seq<i32>,
        in_phira_ids: Seq<i32>,
        chart: ChartView,
    },
    RoundReadyTimeout { room_id: Seq<char>, round_id: Seq<char>, ready_ids: Seq<i32> },
    RoundCompleted {
        room_id: Seq<char>,
        round_id: Seq<char>,
        results: Seq<char>,
        aborted_ids: Seq<i32>,
    },
    RoundCancelled { room_id: Seq<char>, round_id: Seq<char>, reason: Seq<char> },
}

impl View for CustomRoomEvent {
    type V = EventView;

    open spec fn view(&self) -> EventView {
        match *self {
            CustomRoomEvent::HostChanged { room_id, host_id } => EventView::HostChanged {
                room_id: room_id@,
                host_id,
            },
            CustomRoomEvent::RoundStarted {
                room_id,
                round_id,
                participant_ids,
                spectator_ids,
                in_phira_ids,
                chart,
            } => EventView::RoundStarted {
                room_id: room_id@,
                round_id: round_id@,
                participant_ids: participant_ids@,
                spectator_ids: spectator_ids@,
                in_phira_ids: in_phira_ids@,
                chart: chart@,
            },
            CustomRoomEvent::RoundReadyTimeout { room_id, round_id, ready_ids } =>
                EventView::RoundReadyTimeout {
                room_id: room_id@,
                round_id: round_id@,
                ready_ids: ready_ids@,
            },
            CustomRoomEvent::RoundCompleted { room_id, round_id, results, aborted_ids } =>
                EventView::RoundCompleted {
                room_id: room_id@,
                round_id: round_id@,
                results: results@,
                aborted_ids: aborted_ids@,
            },
            CustomRoomEvent::RoundCancelled { room_id, round_id, reason } =>
                EventView::RoundCancelled {
                room_id: room_id@,
                round_id: round_id@,
                reason: reason@,
            },
        }
    }
}

impl Clone for CustomRoomEvent {
    fn clone(&self) -> (r: Self)
        ensures
            r@ == self@,
    {
        match self {
            CustomRoomEvent::HostChanged { room_id, host_id } => CustomRoomEvent::HostChanged {
                room_id: room_id.clone(),
                host_id: *host_id,
            },
            CustomRoomEvent::RoundStarted {
                room_id,
                round_id,
                participant_ids,
                spectator_ids,
                in_phira_ids,
                chart,
            } => CustomRoomEvent::RoundStarted {
                room_id: room_id.clone(),
                round_id: round_id.clone(),
                participant_ids: copy_ids(participant_ids),
                spectator_ids: copy_ids(spectator_ids),
                in_phira_ids: copy_ids(in_phira_ids),
                chart: chart.clone(),
            },
            CustomRoomEvent::RoundReadyTimeout { room_id, round_id, ready_ids } =>
                CustomRoomEvent::RoundReadyTimeout {
                room_id: room_id.clone(),
                round_id: round_id.clone(),
                ready_ids: copy_ids(ready_ids),
            },
            CustomRoomEvent::RoundCompleted { room_id, round_id, results, aborted_ids } =>
                CustomRoomEvent::RoundCompleted {
                room_id: room_id.clone(),
                round_id: round_id.clone(),
                results: results.clone(),
                aborted_ids: copy_ids(aborted_ids),
            },
            CustomRoomEvent::RoundCancelled { room_id, round_id, reason } =>
                CustomRoomEvent::RoundCancelled {
                room_id: room_id.clone(),
                round_id: round_id.clone(),
                reason: reason.clone(),
            },
        }
    }
}

impl EventView {
    /// The name under which the event is reported.
    pub open spec fn name(self) -> Seq<char> {
        match self {
            EventView::HostChanged { .. } => "HOST_CHANGED"@,
            EventView::RoundStarted { .. } => "ROUND_STARTED"@,
            EventView::RoundReadyTimeout { .. } => "ROUND_READY_TIMEOUT"@,
            EventView::RoundCompleted { .. } => "ROUND_COMPLETED"@,
            EventView::RoundCancelled { .. } => "ROUND_CANCELLED"@,
        }
    }
}

impl CustomRoomEvent {
    /// The name under which the event is reported.
    pub fn name(&self) -> (r: String)
        ensures
            r@ == self@.name(),
    {
        match self {
            CustomRoomEvent::HostChanged { .. } => "HOST_CHANGED".to_string(),
            CustomRoomEvent::RoundStarted { .. } => "ROUND_STARTED".to_string(),
            CustomRoomEvent::RoundReadyTimeout { .. } => "ROUND_READY_TIMEOUT".to_string(),
            CustomRoomEvent::RoundCompleted { .. } => "ROUND_COMPLETED".to_string(),
            CustomRoomEvent::RoundCancelled { .. } => "ROUND_CANCELLED".to_string(),
        }
    }
}

} // verus!
