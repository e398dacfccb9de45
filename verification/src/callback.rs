//! Reports of events to the web administration.
//!
//! A report that fails does not touch the rooms: it is repeated after a while, and given up after
//! the third attempt.
use crate::event::{CustomRoomEvent, EventView};
use crate::text::{join, str_option, trim, trimmed};
use vstd::prelude::*;

verus! {

/// How long one attempt may take, in milliseconds.
pub const ATTEMPT_TIMEOUT: u64 = 1500;

/// How long to wait, in milliseconds, after the first and after the second failed attempt.
pub const RETRY_DELAYS: [u64; 2] = [250, 500];

/// What is reported.
#[derive(Debug)]
pub enum CallbackPayload {
    Event { event: CustomRoomEvent },
    /// The result of a contest, a JSON text.
    ContestResult { json: String },
}

pub enum PayloadView {
    Event { event: EventView },
    ContestResult { json: Seq<char> },
}

impl View for CallbackPayload {
    type V = PayloadView;

    open spec fn view(&self) -> PayloadView {
        match *self {
            CallbackPayload::Event { event } => PayloadView::Event { event: event@ },
            CallbackPayload::ContestResult { json } => PayloadView::ContestResult { json: json@ },
        }
    }
}

impl PayloadView {
    /// The name under which the payload is reported.
    pub open spec fn name(self) -> Seq<char> {
        match self {
            PayloadView::Event { event } => event.name(),
            PayloadView::ContestResult { .. } => "CONTEST_RESULT"@,
        }
    }
}

impl CallbackPayload {
    /// The name under which the payload is reported.
    pub fn name(&self) -> (r: String)
        ensures
            r@ == self@.name(),
    {
        match self {
            CallbackPayload::Event { event } => event.name(),
            CallbackPayload::ContestResult { .. } => "CONTEST_RESULT".to_string(),
        }
    }
}

pub open spec fn payload_list(payloads: Seq<CallbackPayload>) -> Seq<PayloadView> {
    Seq::new(payloads.len(), |i: int| payloads[i]@)
}

/// Reports to one address, to be delivered one after another.
#[derive(Debug)]
pub struct CallbackBatch {
    pub url: String,
    /// The administrator's token, which the receiver expects.
    pub token: String,
    /// The name of the task that delivers.
    pub task: String,
    pub payloads: Vec<CallbackPayload>,
}

pub struct BatchView {
    pub url: Seq<char>,
    pub token: Seq<char>,
    pub task: Seq<char>,
    pub payloads: Seq<PayloadView>,
}

impl View for CallbackBatch {
    type V = BatchView;

    open spec fn view(&self) -> BatchView {
        BatchView {
            url: self.url@,
            token: self.token@,
            task: self.task@,
            payloads: payload_list(self.payloads@),
        }
    }
}

/// The task is named after the first report.
pub open spec fn task_name(payloads: Seq<PayloadView>) -> Seq<char> {
    "custom-room-callback-"@ + if payloads.len() > 0 {
        payloads[0].name()
    } else {
        "EMPTY"@
    }
}

/// The batch for these payloads; none where there is no address or no token, white space aside.
pub open spec fn batch(
    url: Option<Seq<char>>,
    token: Seq<char>,
    payloads: Seq<PayloadView>,
) -> Option<BatchView> {
    if url is Some && trimmed(url->0).len() > 0 && trimmed(token).len() > 0 {
        Some(
            BatchView {
                url: trimmed(url->0),
                token: trimmed(token),
                task: task_name(payloads),
                payloads,
            },
        )
    } else {
        None
    }
}

fn spawn_requests(url: Option<&str>, token: &str, payloads: Vec<CallbackPayload>) -> (r: Option<CallbackBatch>)
    ensures
        r is Some <==> batch(str_option(url), token@, payload_list(payloads@)) is Some,
        r matches Some(b) ==> batch(str_option(url), token@, payload_list(payloads@)) == Some(b@),
{
    let url: &str = match url {
        Some(url) => trim(url),
        None => {
            return None;
        },
    };
    let token: &str = trim(token);
    if url.is_empty() || token.is_empty() {
        return None;
    }
    let name: String = if payloads.len() > 0 {
        payloads[0].name()
    } else {
        "EMPTY".to_string()
    };
    let task: String = join("custom-room-callback-", name.as_str());
    Some(CallbackBatch { url: url.to_string(), token: token.to_string(), task, payloads })
}

/// Reports one event.
pub fn emit(url: Option<&str>, token: &str, event: CustomRoomEvent) -> (r: Option<CallbackBatch>)
    ensures
        ({
            let expected = batch(
                str_option(url),
                token@,
                seq![PayloadView::Event { event: event@ }],
            );
            &&& r is Some <==> expected is Some
            &&& r matches Some(b) ==> expected == Some(b@)
        }),
{
    let mut payloads: Vec<CallbackPayload> = Vec::new();
    let ghost event_view = event@;
    payloads.push(CallbackPayload::Event { event });
    assert(payload_list(payloads@) =~= seq![PayloadView::Event { event: event_view }]);
    spawn_requests(url, token, payloads)
}

pub open spec fn event_payloads(events: Seq<CustomRoomEvent>) -> Seq<PayloadView> {
    Seq::new(events.len(), |i: int| PayloadView::Event { event: events[i]@ })
}

/// Reports events in the order in which they are given: a timeout, for example, before the
/// cancellation that follows from it.
pub fn emit_many(url: Option<&str>, token: &str, events: Vec<CustomRoomEvent>) -> (r: Option<
    CallbackBatch,
>)
    ensures
        ({
            let expected = batch(str_option(url), token@, event_payloads(events@));
            &&& r is Some <==> expected is Some
            &&& r matches Some(b) ==> expected == Some(b@)
        }),
{
    let ghost all = events@;
    let mut payloads: Vec<CallbackPayload> = Vec::new();
    for event in it: events
        invariant
            it.seq() == all,
            payloads@.len() == it.index(),
            forall|i: int|
                0 <= i < payloads@.len() ==> (#[trigger] payloads@[i])@ == event_payloads(all)[i],
    {
        payloads.push(CallbackPayload::Event { event });
    }
    assert(payload_list(payloads@) =~= event_payloads(all));
    spawn_requests(url, token, payloads)
}

/// Reports the result of a contest, a JSON text.
pub fn emit_contest_result(url: Option<&str>, token: &str, json: String) -> (r: Option<
    CallbackBatch,
>)
    ensures
        ({
            let expected = batch(
                str_option(url),
                token@,
                seq![PayloadView::ContestResult { json: json@ }],
            );
            &&& r is Some <==> expected is Some
            &&& r matches Some(b) ==> expected == Some(b@)
        }),
{
    let mut payloads: Vec<CallbackPayload> = Vec::new();
    let ghost json_view = json@;
    payloads.push(CallbackPayload::ContestResult { json });
    assert(payload_list(payloads@) =~= seq![PayloadView::ContestResult { json: json_view }]);
    spawn_requests(url, token, payloads)
}

/// What follows from an attempt to deliver a report.
#[derive(Debug, Clone, Copy, PartialEq, Eq, Structural)]
pub enum DeliveryStep {
    Delivered,
    /// Try again after so many milliseconds.
    RetryAfter { delay_ms: u64 },
    GiveUp,
}

/// What follows from an attempt after `failed` attempts have failed.
pub open spec fn delivery_step(failed: int, success: bool) -> DeliveryStep {
    if success {
        DeliveryStep::Delivered
    } else if failed == 0 {
        DeliveryStep::RetryAfter { delay_ms: 250 }
    } else if failed == 1 {
        DeliveryStep::RetryAfter { delay_ms: 500 }
    } else {
        DeliveryStep::GiveUp
    }
}

/// Decides what follows from an attempt, `failed` attempts having failed before it.
pub fn deliver(failed: usize, success: bool) -> (r: DeliveryStep)
    ensures
        r == delivery_step(failed as int, success),
{
    if success {
        return DeliveryStep::Delivered;
    }
    if failed < RETRY_DELAYS.len() {
        DeliveryStep::RetryAfter { delay_ms: RETRY_DELAYS[failed] }
    } else {
        DeliveryStep::GiveUp
    }
}

/// Whether the report is delivered at last, and after how many attempts, if the attempts end as
/// `results` says and `failed` have failed.
pub open spec fn delivery(failed: int, results: spec_fn(int) -> bool) -> (bool, int)
    decreases 3 - failed,
{
    match delivery_step(failed, results(failed)) {
        DeliveryStep::Delivered => (true, failed + 1),
        DeliveryStep::GiveUp => (false, failed + 1),
        DeliveryStep::RetryAfter { .. } => if 0 <= failed < 3 {
            delivery(failed + 1, results)
        } else {
            (false, failed + 1)
        },
    }
}

/// A report is delivered if one of three attempts succeeds; after that attempt, or after the
/// third, none is made.
pub proof fn delivery_makes_up_to_three_attempts(results: spec_fn(int) -> bool)
    ensures
        delivery(0, results).0 <==> results(0) || results(1) || results(2),
        delivery(0, results).1 == if results(0) {
            1int
        } else if results(1) {
            2
        } else {
            3
        },
{
    reveal_with_fuel(delivery, 4);
}

/// How far the delivery of a batch of `total` reports has come: the report at `place` is due, and
/// `failed` attempts to deliver it have failed.
pub struct DeliveryView {
    pub total: int,
    pub place: int,
    pub failed: int,
}

impl DeliveryView {
    /// The delivery after an attempt. A report that is delivered or given up makes room for the
    /// next one.
    pub open spec fn after(self, success: bool) -> DeliveryView {
        if self.place >= self.total {
            self
        } else {
            match delivery_step(self.failed, success) {
                DeliveryStep::RetryAfter { .. } => DeliveryView { failed: self.failed + 1, ..self },
                _ => DeliveryView { place: self.place + 1, failed: 0, ..self },
            }
        }
    }

    /// The attempts that are made until the delivery is over, each by its report and by how many
    /// attempts for that report came before it, if they end as `results` says.
    pub open spec fn attempts(self, results: spec_fn(int, int) -> bool) -> Seq<(int, int)>
        decreases self.total - self.place, 3 - self.failed,
    {
        if self.place >= self.total || !(0 <= self.failed < 3) {
            Seq::empty()
        } else {
            seq![(self.place, self.failed)] + self.after(
                results(self.place, self.failed),
            ).attempts(results)
        }
    }
}

/// The delivery of a batch that is about to begin.
pub open spec fn delivery_of(total: int) -> DeliveryView {
    DeliveryView { total, place: 0, failed: 0 }
}

/// The delivery of a batch, report by report.
#[derive(Debug)]
pub struct BatchDelivery {
    total: usize,
    place: usize,
    failed: usize,
}

impl View for BatchDelivery {
    type V = DeliveryView;

    closed spec fn view(&self) -> DeliveryView {
        DeliveryView {
            total: self.total as int,
            place: self.place as int,
            failed: self.failed as int,
        }
    }
}

impl BatchDelivery {
    #[verifier::type_invariant]
    spec fn well_formed(self) -> bool {
        self.place <= self.total && self.failed < 3
    }

    /// Begins to deliver a batch.
    pub fn start(batch: &CallbackBatch) -> (r: Self)
        ensures
            r@ == delivery_of(batch@.payloads.len() as int),
    {
        BatchDelivery { total: batch.payloads.len(), place: 0, failed: 0 }
    }

    /// The place of the report that is due; `None` where the delivery is over.
    pub fn current(&self) -> (r: Option<usize>)
        ensures
            r is Some <==> self@.place < self@.total,
            r matches Some(place) ==> place == self@.place,
    {
        if self.place < self.total {
            Some(self.place)
        } else {
            None
        }
    }

    /// Takes the result of the attempt to deliver the report that is due, and says what follows
    /// for it.
    pub fn reply(&mut self, success: bool) -> (r: DeliveryStep)
        ensures
            r == delivery_step(old(self)@.failed, success),
            final(self)@ == old(self)@.after(success),
    {
        proof {
            use_type_invariant(&*self);
        }
        let step: DeliveryStep = deliver(self.failed, success);
        if self.place < self.total {
            match step {
                DeliveryStep::RetryAfter { .. } => {
                    self.failed = self.failed + 1;
                },
                _ => {
                    self.failed = 0;
                    self.place = self.place + 1;
                },
            }
        }
        step
    }
}

/// The attempts for one report, one after another: up to the first that succeeds, and three at
/// most.
pub open spec fn attempts_for(place: int, results: spec_fn(int, int) -> bool) -> Seq<(int, int)> {
    Seq::new(delivery(0, |k: int| results(place, k)).1 as nat, |k: int| (place, k))
}

/// The attempts for the reports from `place` on, report by report.
pub open spec fn attempts_in_order(
    place: int,
    total: int,
    results: spec_fn(int, int) -> bool,
) -> Seq<(int, int)>
    decreases total - place,
{
    if place >= total {
        Seq::empty()
    } else {
        attempts_for(place, results) + attempts_in_order(place + 1, total, results)
    }
}

proof fn lemma_attempts(place: int, total: int, results: spec_fn(int, int) -> bool)
    requires
        0 <= place <= total,
    ensures
        (DeliveryView { total, place, failed: 0 }).attempts(results) == attempts_in_order(
            place,
            total,
            results,
        ),
    decreases total - place,
{
    reveal_with_fuel(delivery, 4);
    let first = DeliveryView { total, place, failed: 0 };
    if place < total {
        lemma_attempts(place + 1, total, results);
        let second = DeliveryView { failed: 1, ..first };
        let third = DeliveryView { failed: 2, ..first };
        let later = DeliveryView { place: place + 1, ..first };
        let rest = later.attempts(results);
        assert(first.attempts(results) == seq![(place, 0int)] + first.after(
            results(place, 0),
        ).attempts(results));
        assert(second.attempts(results) == seq![(place, 1int)] + second.after(
            results(place, 1),
        ).attempts(results));
        assert(third.attempts(results) == seq![(place, 2int)] + rest);
        assert(first.attempts(results) =~= attempts_for(place, results) + rest);
    }
}

/// Every report of a batch is attempted, in the order of the batch. The attempts for one report
/// are over before the first for the next, and a report that is given up does not keep the later
/// ones back.
pub proof fn batch_is_delivered_in_order(total: int, results: spec_fn(int, int) -> bool)
    requires
        0 <= total,
    ensures
        delivery_of(total).attempts(results) == attempts_in_order(0, total, results),
        forall|place: int|
            0 <= place < total ==> 1 <= (#[trigger] attempts_for(place, results)).len() <= 3,
        forall|place: int|
            0 <= place < total ==> (#[trigger] attempts_for(place, results)).last().1 == if results(
                place,
                0,
            ) {
                0int
            } else if results(place, 1) {
                1
            } else {
                2
            },
{
    lemma_attempts(0, total, results);
    reveal_with_fuel(delivery, 4);
}

// ---- what is reported ----

/// Nothing is reported without an address or without a token, white space aside. Else the batch
/// goes to the trimmed address with the trimmed token and holds all payloads, in order.
pub proof fn reports_need_an_address_and_a_token(
    url: Option<Seq<char>>,
    token: Seq<char>,
    payloads: Seq<PayloadView>,
)
    ensures
        url is None ==> batch(url, token, payloads) is None,
        url is Some && trimmed(url->0).len() == 0 ==> batch(url, token, payloads) is None,
        trimmed(token).len() == 0 ==> batch(url, token, payloads) is None,
        url is Some && trimmed(url->0).len() > 0 && trimmed(token).len() > 0 ==> {
            &&& batch(url, token, payloads) is Some
            &&& (batch(url, token, payloads)->0).url == trimmed(url->0)
            &&& (batch(url, token, payloads)->0).token == trimmed(token)
            &&& (batch(url, token, payloads)->0).payloads == payloads
        },
{
}

/// The task that delivers a batch is named after its first report.
pub proof fn tasks_are_named_after_the_first_report(
    url: Option<Seq<char>>,
    token: Seq<char>,
    payloads: Seq<PayloadView>,
)
    requires
        batch(url, token, payloads) is Some,
    ensures
        payloads.len() > 0 ==> (batch(url, token, payloads)->0).task == "custom-room-callback-"@
            + payloads[0].name(),
        payloads.len() == 0 ==> (batch(url, token, payloads)->0).task == "custom-room-callback-"@
            + "EMPTY"@,
{
}

/// Each event is one payload, at its place.
pub proof fn events_are_reported_at_their_place(events: Seq<CustomRoomEvent>, i: int)
    requires
        0 <= i < events.len(),
    ensures
        event_payloads(events).len() == events.len(),
        event_payloads(events)[i] == (PayloadView::Event { event: events[i]@ }),
{
}

/// The name of a report tells what it reports.
pub proof fn report_names_tell_the_payload(payload: PayloadView)
    ensures
        payload matches PayloadView::ContestResult { .. } ==> payload.name() == "CONTEST_RESULT"@,
        payload matches PayloadView::Event { event } ==> {
            &&& event is HostChanged ==> payload.name() == "HOST_CHANGED"@
            &&& event is RoundStarted ==> payload.name() == "ROUND_STARTED"@
            &&& event is RoundReadyTimeout ==> payload.name() == "ROUND_READY_TIMEOUT"@
            &&& event is RoundCompleted ==> payload.name() == "ROUND_COMPLETED"@
            &&& event is RoundCancelled ==> payload.name() == "ROUND_CANCELLED"@
        },
{
}

/// A success is the end of a report. The first failure is followed by a quarter of a second of
/// waiting, the second by twice as much, and the third is the end.
pub proof fn failed_attempts_are_followed_by_longer_waits(failed: int)
    requires
        failed >= 0,
    ensures
        delivery_step(failed, true) is Delivered,
        failed == 0 ==> delivery_step(failed, false) == (DeliveryStep::RetryAfter { delay_ms: 250 }),
        failed == 1 ==> delivery_step(failed, false) == (DeliveryStep::RetryAfter { delay_ms: 500 }),
        failed >= 2 ==> delivery_step(failed, false) is GiveUp,
        delivery_step(0, false)->delay_ms == RETRY_DELAYS[0],
        delivery_step(1, false)->delay_ms == RETRY_DELAYS[1],
        2 * ATTEMPT_TIMEOUT == 3000,
{
}

} // verus!
