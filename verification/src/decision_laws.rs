//! When the operations on managed rooms are begun, and when they are refused.
use crate::definition::{ChartMode, ChartView, DefinitionView, ManagedRoomKind};
use crate::definition_laws::{
    hosted_configuration_ignores_nothing, reserved_configuration_ignores_only_the_expiry,
};
use crate::plan::{outcome, start_of, RunView};
use crate::restart_laws::{
    creation_saves_hosted_rooms, host_and_chart_are_saved_if_possible, saved_after, update_is_saved,
};
use crate::runtime::{
    advances, autostarts, begins_creation, begins_installation, create_decision, create_plan, drawable,
    draws_charts, expires, expiry_wait, host_change_plan, install_plan, is_hosted_room, is_reserved_room,
    leads_to_restoration, next_chart_plan, restores, rooms_with_host, time_left, update_plan,
    update_refusal, wants_draw, with_drawn, CreateDecision, RestorationView, RestoreStep, RoomPhase,
    SnapshotView, AUTOSTART_DELAY_MS, POSTGAME_DELAY_SECONDS,
};
use crate::runtime_laws::pool_chart_keeps_a_definition_settled;
use vstd::prelude::*;

verus! {

// ---- creating ----

/// A room is installed exactly if its definition is accepted, no managed and no open room has its
/// identifier, and the number of open rooms is below the limit, where there is one.
pub proof fn rooms_are_installed_under_free_identifiers(
    rooms: Map<Seq<char>, DefinitionView>,
    open: Seq<Seq<char>>,
    max_rooms: Option<usize>,
    d: DefinitionView,
)
    ensures
        create_decision(rooms, open, max_rooms, d) is Install <==> d.refusal() is None
            && !rooms.contains_key(d.room_id) && !open.contains(d.room_id) && (max_rooms is None
            || open.len() < max_rooms->0),
{
}

/// A definition that is not accepted is refused with its own message, whatever else holds.
pub proof fn bad_definitions_are_refused_first(
    rooms: Map<Seq<char>, DefinitionView>,
    open: Seq<Seq<char>>,
    max_rooms: Option<usize>,
    d: DefinitionView,
)
    requires
        d.refusal() is Some,
    ensures
        create_decision(rooms, open, max_rooms, d) == (CreateDecision::Refused {
            error: d.refusal()->0,
        }),
{
}

/// A managed room is found again by the request for it, though it is open and though the server is
/// full; a request for anything else under its identifier is refused.
pub proof fn managed_rooms_are_found_or_in_the_way(
    rooms: Map<Seq<char>, DefinitionView>,
    open: Seq<Seq<char>>,
    max_rooms: Option<usize>,
    d: DefinitionView,
)
    requires
        d.refusal() is None,
        rooms.contains_key(d.room_id),
    ensures
        ({
            let found = rooms[d.room_id];
            let n = d.normal_form();
            let wanted = if found.kind == ManagedRoomKind::Reserved && n.kind
                == ManagedRoomKind::Reserved {
                n == (DefinitionView { expires_at: n.expires_at, ..found })
            } else {
                n == found
            };
            &&& wanted ==> create_decision(rooms, open, max_rooms, d) is Existing
            &&& !wanted ==> create_decision(rooms, open, max_rooms, d) == (
            CreateDecision::Refused { error: "room-id-occupied"@ })
        }),
{
    let found = rooms[d.room_id];
    let n = d.normal_form();
    hosted_configuration_ignores_nothing(found, n);
    if found.kind == ManagedRoomKind::Reserved && n.kind == ManagedRoomKind::Reserved {
        reserved_configuration_ignores_only_the_expiry(found, n);
    }
}

/// Where no managed room is in the way, an open room under the identifier is, and then the limit.
pub proof fn open_rooms_and_the_limit_are_in_the_way(
    rooms: Map<Seq<char>, DefinitionView>,
    open: Seq<Seq<char>>,
    max_rooms: Option<usize>,
    d: DefinitionView,
)
    requires
        d.refusal() is None,
        !rooms.contains_key(d.room_id),
    ensures
        open.contains(d.room_id) ==> create_decision(rooms, open, max_rooms, d) == (
        CreateDecision::Refused { error: "room-id-occupied"@ }),
        !open.contains(d.room_id) && max_rooms is Some && open.len() >= max_rooms->0
            ==> create_decision(rooms, open, max_rooms, d) == (CreateDecision::Refused {
            error: "rooms-limit-reached"@,
        }),
{
}

/// A chart is drawn exactly where the chart is left to chance and none is set; then the room has
/// the drawn chart, and else the one of its definition. Nothing else is changed.
pub proof fn charts_are_drawn_where_none_is_set(d: DefinitionView, drawn: Option<ChartView>)
    ensures
        d.chart is Some ==> with_drawn(d, drawn) == d,
        d.chart_mode == ChartMode::HostSelect ==> with_drawn(d, drawn) == d,
        d.chart_mode == ChartMode::PoolRandom && d.chart is None ==> with_drawn(d, drawn) == (
        DefinitionView { chart: drawn, ..d }),
        wants_draw(d) <==> d.chart_mode == ChartMode::PoolRandom && d.chart is None,
{
}

/// What is drawn from a pool is one of its charts; from an empty pool nothing is drawn.
pub proof fn drawn_charts_come_from_the_pool(pool: Seq<ChartView>, drawn: Option<ChartView>)
    ensures
        pool.len() == 0 ==> (drawable(pool, drawn) <==> drawn is None),
        pool.len() > 0 ==> (drawable(pool, drawn) <==> drawn is Some && exists|i: int|
            0 <= i < pool.len() && #[trigger] pool[i] == drawn->0),
{
    if pool.len() > 0 && drawn is Some && pool.contains(drawn->0) {
        let i = choose|i: int| 0 <= i < pool.len() && pool[i] == drawn->0;
        assert(pool[i] == drawn->0);
    }
}

/// A creation that is begun follows the plan for the room, with a chart of its pool where one is to
/// be drawn.
pub proof fn creation_follows_its_plan(run: RunView, d: DefinitionView) -> (drawn: Option<ChartView>)
    requires
        begins_creation(run, d),
    ensures
        run.plan == create_plan(d, drawn),
        run.next == 0,
        run.failure is None,
        d.chart_mode == ChartMode::PoolRandom && d.chart is None && d.chart_pool.len() > 0
            ==> drawn is Some && d.chart_pool.contains(drawn->0),
{
    choose|drawn: Option<ChartView>|
        (wants_draw(d) ==> drawable(d.chart_pool, drawn)) && run == start_of(
            #[trigger] create_plan(d, drawn),
        )
}

// ---- restoring ----

/// A record of a hosted room that is accepted, as every saved one in normal form is, is taken up
/// where no open room has its identifier: its room is installed, in normal form, with a chart of
/// its pool where one is to be drawn.
pub proof fn saved_rooms_are_installed_again(
    r: RestoreStep,
    walk: RestorationView,
    open: Seq<Seq<char>>,
)
    requires
        0 <= walk.next < walk.records.len(),
        walk.records[walk.next].refusal() is None,
        walk.records[walk.next].kind == ManagedRoomKind::Hosted,
        !open.contains(walk.records[walk.next].room_id),
        leads_to_restoration(r, walk, open),
    ensures
        r is Install,
        r->Install_room_id@ == walk.records[walk.next].room_id,
        begins_installation((r->run)@, walk.records[walk.next].normal_form()),
{
}

/// A record is passed over if it is not accepted, if it is not of a hosted room, or if an open room
/// has its identifier. Behind the last record the walk is over.
pub proof fn other_records_are_passed_over(
    r: RestoreStep,
    walk: RestorationView,
    open: Seq<Seq<char>>,
)
    requires
        0 <= walk.next,
        leads_to_restoration(r, walk, open),
    ensures
        walk.next >= walk.records.len() <==> r is Done,
        walk.next < walk.records.len() ==> {
            let record = walk.records[walk.next];
            &&& record.refusal() is Some ==> r is Passed
            &&& record.kind == ManagedRoomKind::Reserved ==> r is Passed
            &&& open.contains(record.room_id) ==> r is Passed
            &&& walk.after().next == walk.next + 1
        },
        walk.after().records == walk.records,
{
}

/// An installation that is begun follows the plan for the room, with a chart of its pool where one
/// is to be drawn.
pub proof fn installation_follows_its_plan(run: RunView, d: DefinitionView) -> (drawn: Option<
    ChartView,
>)
    requires
        begins_installation(run, d),
    ensures
        run.plan == install_plan(with_drawn(d, drawn)),
        run.next == 0,
        run.failure is None,
        d.chart_mode == ChartMode::PoolRandom && d.chart is None && d.chart_pool.len() > 0
            ==> drawn is Some && d.chart_pool.contains(drawn->0),
{
    choose|drawn: Option<ChartView>|
        (wants_draw(d) ==> drawable(d.chart_pool, drawn)) && run == start_of(
            #[trigger] install_plan(with_drawn(d, drawn)),
        )
}

/// Whatever the creation, the update, the change of host or the next chart of a hosted room in
/// normal form saves is taken up by the restoration on a server where no open room has its
/// identifier.
pub proof fn whatever_is_saved_is_taken_up_again(
    rooms: Map<Seq<char>, DefinitionView>,
    saved: Map<Seq<char>, DefinitionView>,
    previous: DefinitionView,
    n: DefinitionView,
    drawn: Option<ChartView>,
    answers: spec_fn(int) -> Option<Seq<char>>,
    open: Seq<Seq<char>>,
)
    requires
        n.settled(),
        n.kind == ManagedRoomKind::Hosted,
        !open.contains(n.room_id),
    ensures
        outcome(create_plan(n, drawn), 0, rooms, answers).1 is Ok ==> restores(
            saved_after(create_plan(n, drawn), 0, saved, answers)[n.room_id],
            open,
        ),
        outcome(update_plan(previous, n), 0, rooms, answers).1 is Ok ==> restores(
            saved_after(update_plan(previous, n), 0, saved, answers)[n.room_id],
            open,
        ),
        answers(0) is None ==> restores(
            saved_after(host_change_plan(n), 0, saved, answers)[n.room_id],
            open,
        ),
        forall|chart: ChartView|
            n.chart_pool.contains(chart) && answers(0) is None && answers(1) is None ==> restores(
                #[trigger] saved_after(next_chart_plan(n, chart), 0, saved, answers)[n.room_id],
                open,
            ),
{
    creation_saves_hosted_rooms(rooms, saved, n, drawn, answers);
    update_is_saved(rooms, saved, previous, n, answers);
    reveal_with_fuel(saved_after, 4);
    assert forall|chart: ChartView|
        n.chart_pool.contains(chart) && answers(0) is None && answers(1) is None implies restores(
        #[trigger] saved_after(next_chart_plan(n, chart), 0, saved, answers)[n.room_id],
        open,
    ) by {
        pool_chart_keeps_a_definition_settled(n, chart);
        host_and_chart_are_saved_if_possible(rooms, saved, n, chart, answers);
    }
}

// ---- updating ----

/// An update is begun only while the room selects its chart; in each other phase it is refused.
pub proof fn rooms_are_updated_between_rounds_only(
    rooms: Map<Seq<char>, DefinitionView>,
    d: DefinitionView,
    snapshot: SnapshotView,
)
    requires
        d.refusal() is None,
        d.kind == ManagedRoomKind::Hosted,
        is_hosted_room(rooms, d.room_id),
    ensures
        update_refusal(rooms, d, Some(snapshot)) is None ==> snapshot.phase
            == RoomPhase::SelectingChart,
        snapshot.phase == RoomPhase::WaitingForReady || snapshot.phase == RoomPhase::Playing
            ==> update_refusal(rooms, d, Some(snapshot)) == Some("hosted-room-busy"@),
{
}

/// No update makes a room too small for the users in it; one that leaves them all their place is
/// not refused for its capacity.
pub proof fn updated_rooms_have_place_for_their_users(
    rooms: Map<Seq<char>, DefinitionView>,
    d: DefinitionView,
    snapshot: SnapshotView,
)
    requires
        d.refusal() is None,
        d.kind == ManagedRoomKind::Hosted,
        is_hosted_room(rooms, d.room_id),
        snapshot.phase == RoomPhase::SelectingChart,
    ensures
        snapshot.users.len() > d.max_users ==> update_refusal(rooms, d, Some(snapshot)) == Some(
            "hosted-room-capacity-below-users"@,
        ),
        snapshot.users.len() <= d.max_users ==> update_refusal(rooms, d, Some(snapshot)) is None,
{
}

/// Only hosted rooms that are managed and open are updated, and only to definitions of hosted rooms
/// that are accepted.
pub proof fn only_open_hosted_rooms_are_updated(
    rooms: Map<Seq<char>, DefinitionView>,
    d: DefinitionView,
    snapshot: Option<SnapshotView>,
)
    ensures
        d.refusal() is Some ==> update_refusal(rooms, d, snapshot) == d.refusal(),
        d.refusal() is None && (d.kind == ManagedRoomKind::Reserved || !rooms.contains_key(
            d.room_id,
        ) || rooms[d.room_id].kind == ManagedRoomKind::Reserved || snapshot is None)
            ==> update_refusal(rooms, d, snapshot) == Some("room-not-found"@),
        update_refusal(rooms, d, snapshot) is None ==> d.refusal() is None && d.kind
            == ManagedRoomKind::Hosted && rooms.contains_key(d.room_id) && rooms[d.room_id].kind
            == ManagedRoomKind::Hosted && snapshot is Some,
{
}

/// A change of host changes the host of that room and nothing else.
pub proof fn host_change_changes_the_host_alone(
    rooms: Map<Seq<char>, DefinitionView>,
    room_id: Seq<char>,
    host_id: Option<i32>,
    other: Seq<char>,
)
    requires
        rooms.contains_key(room_id),
    ensures
        ({
            let after = rooms_with_host(rooms, room_id, host_id);
            &&& after.dom() == rooms.dom()
            &&& after[room_id].host_id == host_id
            &&& after[room_id] == (DefinitionView { host_id, ..rooms[room_id] })
            &&& other != room_id ==> after[other] == rooms[other]
        }),
{
    assert(rooms_with_host(rooms, room_id, host_id).dom() =~= rooms.dom());
}

// ---- kinds and timers ----

/// A managed room is either hosted or reserved; a room that is not managed is neither.
pub proof fn managed_rooms_are_hosted_or_reserved(
    rooms: Map<Seq<char>, DefinitionView>,
    room_id: Seq<char>,
)
    ensures
        is_hosted_room(rooms, room_id) <==> rooms.contains_key(room_id) && rooms[room_id].kind
            == ManagedRoomKind::Hosted,
        is_reserved_room(rooms, room_id) <==> rooms.contains_key(room_id) && rooms[room_id].kind
            == ManagedRoomKind::Reserved,
        draws_charts(rooms, room_id) <==> rooms.contains_key(room_id) && rooms[room_id].kind
            == ManagedRoomKind::Hosted && rooms[room_id].chart_mode == ChartMode::PoolRandom,
{
}

/// When the time of a reservation has come, the room goes if it is open and empty, unless a hosted
/// room has its identifier. A room with somebody in it stays, and so does one that is not open.
pub proof fn expired_reservations_go_when_they_are_empty(
    rooms: Map<Seq<char>, DefinitionView>,
    room_id: Seq<char>,
)
    ensures
        !expires(rooms, room_id, None),
        !expires(rooms, room_id, Some(false)),
        rooms.contains_key(room_id) && rooms[room_id].kind == ManagedRoomKind::Reserved ==> expires(
            rooms,
            room_id,
            Some(true),
        ),
        rooms.contains_key(room_id) && rooms[room_id].kind == ManagedRoomKind::Hosted ==> !expires(
            rooms,
            room_id,
            Some(true),
        ),
        !rooms.contains_key(room_id) ==> expires(rooms, room_id, Some(true)),
{
}

/// No room but an open reserved one that selects its chart begins by itself, and it does only if
/// each of its players is there.
pub proof fn only_waiting_reserved_rooms_begin_by_themselves(
    rooms: Map<Seq<char>, DefinitionView>,
    room_id: Seq<char>,
    snapshot: Option<SnapshotView>,
    user_id: i32,
)
    requires
        autostarts(rooms, room_id, snapshot),
    ensures
        rooms.contains_key(room_id),
        rooms[room_id].kind == ManagedRoomKind::Reserved,
        snapshot is Some,
        (snapshot->0).phase == RoomPhase::SelectingChart,
        rooms[room_id].whitelist.contains(user_id) ==> (snapshot->0).users.contains(user_id),
{
    let whitelist = rooms[room_id].whitelist;
    if whitelist.contains(user_id) {
        let i = choose|i: int| 0 <= i < whitelist.len() && whitelist[i] == user_id;
        assert((snapshot->0).users.contains(whitelist[i]));
    }
}

/// The time that is left until an expiry is the difference, wherever it fits; two times that both
/// fit differ as the expiries do.
pub proof fn time_left_is_the_difference(expires_at: i64, now: i64)
    ensures
        i64::MIN <= expires_at - now <= i64::MAX ==> time_left(expires_at, now) == expires_at - now,
        0 <= now <= expires_at ==> now + time_left(expires_at, now) == expires_at,
        expires_at - now > i64::MAX ==> time_left(expires_at, now) == i64::MAX,
        expires_at - now < i64::MIN ==> time_left(expires_at, now) == i64::MIN,
{
}

/// A reserved room begins half a second after its last player has come, and stays a minute after
/// its round.
pub proof fn reserved_rooms_wait_half_a_second_and_a_minute()
    ensures
        2 * AUTOSTART_DELAY_MS == 1000,
        POSTGAME_DELAY_SECONDS == 60,
{
}

/// A time that has not passed is waited for; one that has passed comes out as a wait that is so
/// much shorter than the whole range of 64 bits.
pub proof fn waits_are_as_long_as_the_time_that_is_left(expires_at: i64, now: i64)
    ensures
        0 <= now <= expires_at ==> now + expiry_wait(expires_at, now) == expires_at,
        0 <= expires_at < now ==> now - expires_at + expiry_wait(expires_at, now)
            == 0x1_0000_0000_0000_0000,
        0 <= expiry_wait(expires_at, now) < 0x1_0000_0000_0000_0000,
{
}

/// A chart is drawn for the next round of a hosted room that draws from a pool with charts in it,
/// whatever its present chart is; for no other room.
pub proof fn charts_are_drawn_for_rooms_with_a_pool(
    rooms: Map<Seq<char>, DefinitionView>,
    room_id: Seq<char>,
)
    ensures
        advances(rooms, room_id) <==> rooms.contains_key(room_id) && rooms[room_id].kind
            == ManagedRoomKind::Hosted && rooms[room_id].chart_mode == ChartMode::PoolRandom
            && rooms[room_id].chart_pool.len() > 0,
{
}

} // verus!
