//! What the operations on managed rooms come to: the open rooms, what is saved, and who is told.
use crate::definition::{ChartMode, ChartView, DefinitionView, ManagedRoomKind};
use crate::event::EventView;
use crate::plan::{outcome, CommandView};
use crate::runtime::{
    changes, create_plan, disband_plan, host_change_plan, install_plan, next_chart_plan,
    update_plan, with_drawn,
};
use crate::world::{OpenRoom, World};
use vstd::prelude::*;

verus! {

/// The open room that a definition describes: a hosted room, or one in tournament mode, with the
/// capacity, the host and the chart of the definition.
pub open spec fn describes(d: DefinitionView, room: OpenRoom) -> bool {
    &&& room.hosted <==> d.kind == ManagedRoomKind::Hosted
    &&& room.tournament <==> d.kind == ManagedRoomKind::Reserved
    &&& room.max_users == d.max_users
    &&& room.host_id == d.host_id
    &&& room.chart == d.chart
}

/// `stored` is the agreed definition `n`, but for a drawn chart where the chart is left to chance
/// and none is set.
pub open spec fn stored_for(n: DefinitionView, drawn: Option<ChartView>, stored: DefinitionView) -> bool {
    &&& stored == (DefinitionView { chart: stored.chart, ..n })
    &&& stored.chart == if n.chart_mode == ChartMode::PoolRandom && n.chart is None {
        drawn
    } else {
        n.chart
    }
}

/// A creation that succeeds opens the room that the definition in the registry describes, and
/// changes no other room. A hosted room is saved as it was agreed, and a reserved room is not.
/// Nobody is told.
pub proof fn created_room_is_as_agreed(
    world: World,
    rooms: Map<Seq<char>, DefinitionView>,
    n: DefinitionView,
    drawn: Option<ChartView>,
    answers: spec_fn(int) -> Option<Seq<char>>,
)
    requires
        outcome(create_plan(n, drawn), 0, rooms, answers).1 is Ok,
    ensures
        ({
            let after = world.after_plan(create_plan(n, drawn), 0, answers);
            let then_rooms = outcome(create_plan(n, drawn), 0, rooms, answers).0;
            let stored = then_rooms[n.room_id];
            &&& then_rooms == rooms.insert(n.room_id, stored)
            &&& stored_for(n, drawn, stored)
            &&& after.rooms.contains_key(n.room_id)
            &&& describes(stored, after.rooms[n.room_id])
            &&& after.rooms == world.rooms.insert(n.room_id, after.rooms[n.room_id])
            &&& n.kind == ManagedRoomKind::Hosted ==> after.saved == world.saved.insert(
                n.room_id,
                n,
            )
            &&& n.kind == ManagedRoomKind::Reserved ==> after.saved == world.saved
            &&& after.told == world.told
            &&& after.events == world.events
            &&& after.messages == world.messages
        }),
{
    reveal_with_fuel(outcome, 7);
    reveal_with_fuel(World::after_plan, 7);
    let plan = create_plan(n, drawn);
    let after = world.after_plan(plan, 0, answers);
    assert(after.rooms =~= world.rooms.insert(n.room_id, after.rooms[n.room_id]));
}

/// A reserved room that is created is looked after again at its expiry; a hosted room has no
/// timer.
pub proof fn created_reserved_room_gets_its_timer(
    world: World,
    n: DefinitionView,
    drawn: Option<ChartView>,
    answers: spec_fn(int) -> Option<Seq<char>>,
)
    requires
        forall|i: int| #[trigger] answers(i) is None,
    ensures
        ({
            let timers = world.after_plan(create_plan(n, drawn), 0, answers).timers;
            &&& n.kind == ManagedRoomKind::Reserved && n.expires_at is Some ==> timers
                == world.timers.push((n.room_id, n.expires_at->0))
            &&& n.kind == ManagedRoomKind::Hosted ==> timers == world.timers
        }),
{
    reveal_with_fuel(World::after_plan, 7);
}

/// A creation that fails leaves the server and the registry as they were.
pub proof fn failed_creation_leaves_the_server_as_it_was(
    world: World,
    rooms: Map<Seq<char>, DefinitionView>,
    n: DefinitionView,
    drawn: Option<ChartView>,
    answers: spec_fn(int) -> Option<Seq<char>>,
)
    requires
        !world.rooms.contains_key(n.room_id),
        !rooms.contains_key(n.room_id),
        outcome(create_plan(n, drawn), 0, rooms, answers).1 is Err,
    ensures
        world.after_plan(create_plan(n, drawn), 0, answers) == world,
        outcome(create_plan(n, drawn), 0, rooms, answers).0 == rooms,
{
    reveal_with_fuel(outcome, 7);
    reveal_with_fuel(World::after_plan, 7);
    reveal_with_fuel(World::performed_all, 3);
    let plan = create_plan(n, drawn);
    let after = world.after_plan(plan, 0, answers);
    assert(after.rooms =~= world.rooms);
    assert(after =~= world);
    assert(outcome(plan, 0, rooms, answers).0 =~= rooms);
}

/// A restoration that succeeds opens the room that the definition in the registry describes, and
/// does nothing else. One that fails leaves the server as it was.
pub proof fn restored_room_is_as_agreed(
    world: World,
    rooms: Map<Seq<char>, DefinitionView>,
    n: DefinitionView,
    drawn: Option<ChartView>,
    answers: spec_fn(int) -> Option<Seq<char>>,
)
    requires
        !world.rooms.contains_key(n.room_id),
    ensures
        ({
            let plan = install_plan(with_drawn(n, drawn));
            let after = world.after_plan(plan, 0, answers);
            let (then_rooms, result) = outcome(plan, 0, rooms, answers);
            let stored = then_rooms[n.room_id];
            &&& result is Ok ==> {
                &&& then_rooms == rooms.insert(n.room_id, stored)
                &&& stored_for(n, drawn, stored)
                &&& describes(stored, after.rooms[n.room_id])
                &&& after == (World {
                    rooms: world.rooms.insert(n.room_id, after.rooms[n.room_id]),
                    ..world
                })
            }
            &&& result is Err ==> after == world
        }),
{
    reveal_with_fuel(outcome, 7);
    reveal_with_fuel(World::after_plan, 7);
    reveal_with_fuel(World::performed_all, 3);
    let plan = install_plan(with_drawn(n, drawn));
    let after = world.after_plan(plan, 0, answers);
    if outcome(plan, 0, rooms, answers).1 is Ok {
        assert(after.rooms =~= world.rooms.insert(n.room_id, after.rooms[n.room_id]));
    } else {
        assert(after.rooms =~= world.rooms);
        assert(after =~= world);
    }
}

/// The report of a change of host: there is one where the room has a host.
pub open spec fn host_report(room_id: Seq<char>, host_id: Option<i32>) -> Seq<EventView> {
    if host_id is Some {
        seq![EventView::HostChanged { room_id, host_id: host_id->0 }]
    } else {
        Seq::empty()
    }
}

/// An update that succeeds leaves the open room as the new definition describes it, saves the new
/// definition, puts it into the registry and tells the listeners. Another host is reported.
/// Nothing else changes.
pub proof fn updated_room_is_as_agreed(
    world: World,
    rooms: Map<Seq<char>, DefinitionView>,
    previous: DefinitionView,
    n: DefinitionView,
    answers: spec_fn(int) -> Option<Seq<char>>,
)
    requires
        previous.room_id == n.room_id,
        previous.kind == n.kind,
        world.rooms.contains_key(n.room_id),
        describes(previous, world.rooms[n.room_id]),
        forall|i: int| #[trigger] answers(i) is None,
    ensures
        ({
            let after = world.after_plan(update_plan(previous, n), 0, answers);
            &&& outcome(update_plan(previous, n), 0, rooms, answers) == (
                rooms.insert(n.room_id, n),
                Ok::<(), Seq<char>>(()),
            )
            &&& describes(n, after.rooms[n.room_id])
            &&& after == (World {
                rooms: world.rooms.insert(n.room_id, after.rooms[n.room_id]),
                saved: world.saved.insert(n.room_id, n),
                events: world.events + if previous.host_id != n.host_id {
                    host_report(n.room_id, n.host_id)
                } else {
                    Seq::empty()
                },
                messages: world.messages.push((n.room_id, "updated"@)),
                ..world
            })
        }),
{
    reveal_with_fuel(outcome, 8);
    reveal_with_fuel(World::after_plan, 8);
    let plan = update_plan(previous, n);
    assert(changes(previous, n).len() <= 3);
    let after = world.after_plan(plan, 0, answers);
    assert(after.rooms =~= world.rooms.insert(n.room_id, after.rooms[n.room_id]));
    assert(world.events + Seq::<EventView>::empty() =~= world.events);
    assert(after.events =~= world.events + if previous.host_id != n.host_id {
        host_report(n.room_id, n.host_id)
    } else {
        Seq::empty()
    });
}

/// The two servers differ at most in their open rooms.
pub open spec fn same_but_for_rooms(a: World, b: World) -> bool {
    &&& a.saved == b.saved
    &&& a.told == b.told
    &&& a.timers == b.timers
    &&& a.events == b.events
    &&& a.messages == b.messages
}

/// The command changes a setting of an open room.
spec fn sets_a_room(command: CommandView) -> bool {
    command is SetHost || command is SetChart || command is ClearChart || command is SetMaxUsers
}

proof fn lemma_settings_only(world: World, commands: Seq<CommandView>)
    requires
        forall|i: int| 0 <= i < commands.len() ==> sets_a_room(#[trigger] commands[i]),
    ensures
        same_but_for_rooms(world.performed_all(commands), world),
    decreases commands.len(),
{
    if commands.len() > 0 {
        assert(sets_a_room(commands[0]));
        lemma_settings_only(world.performed(commands[0]), commands.drop_first());
    }
}

/// The steps of an update up to and with the saving, one by one.
proof fn lemma_failed_update(
    world: World,
    rooms: Map<Seq<char>, DefinitionView>,
    previous: DefinitionView,
    n: DefinitionView,
    from: int,
    answers: spec_fn(int) -> Option<Seq<char>>,
)
    requires
        0 <= from <= changes(previous, n).len() + 1,
        outcome(update_plan(previous, n), from, rooms, answers).1 is Err,
    ensures
        from <= changes(previous, n).len(),
        outcome(update_plan(previous, n), from, rooms, answers).0 == rooms,
        same_but_for_rooms(world.after_plan(update_plan(previous, n), from, answers), world),
    decreases changes(previous, n).len() + 1 - from,
{
    let plan = update_plan(previous, n);
    let count = changes(previous, n).len() as int;
    if from < count {
        assert(plan[from].command == changes(previous, n)[from]);
        assert(sets_a_room(plan[from].command));
        if answers(from) is None {
            lemma_failed_update(
                world.performed(plan[from].command),
                rooms,
                previous,
                n,
                from + 1,
                answers,
            );
        } else {
            lemma_settings_only(world, Seq::empty());
        }
    } else if from == count {
        assert(plan[from].command == CommandView::SaveDefinition { definition: n });
        if answers(from) is None {
            reveal_with_fuel(outcome, 4);
        } else {
            lemma_settings_only(world, changes(n, previous));
        }
    } else {
        reveal_with_fuel(outcome, 4);
    }
}

/// An update that fails is not put into the registry, not saved, not reported, and nobody is told.
pub proof fn failed_update_is_kept_quiet(
    world: World,
    rooms: Map<Seq<char>, DefinitionView>,
    previous: DefinitionView,
    n: DefinitionView,
    answers: spec_fn(int) -> Option<Seq<char>>,
)
    requires
        outcome(update_plan(previous, n), 0, rooms, answers).1 is Err,
    ensures
        outcome(update_plan(previous, n), 0, rooms, answers).0 == rooms,
        same_but_for_rooms(world.after_plan(update_plan(previous, n), 0, answers), world),
{
    lemma_failed_update(world, rooms, previous, n, 0, answers);
}

/// An update whose changes are carried out and which then cannot be saved leaves the whole server
/// as it was.
pub proof fn update_that_cannot_be_saved_leaves_the_server_as_it_was(
    world: World,
    previous: DefinitionView,
    n: DefinitionView,
    answers: spec_fn(int) -> Option<Seq<char>>,
)
    requires
        previous.room_id == n.room_id,
        world.rooms.contains_key(n.room_id),
        describes(previous, world.rooms[n.room_id]),
        forall|i: int| 0 <= i < changes(previous, n).len() ==> #[trigger] answers(i) is None,
        answers(changes(previous, n).len() as int) is Some,
    ensures
        world.after_plan(update_plan(previous, n), 0, answers) == world,
{
    reveal_with_fuel(World::after_plan, 8);
    reveal_with_fuel(World::performed_all, 4);
    let plan = update_plan(previous, n);
    assert(changes(previous, n).len() <= 3);
    assert(changes(n, previous).len() <= 3);
    let after = world.after_plan(plan, 0, answers);
    assert(after.rooms =~= world.rooms);
    assert(after =~= world);
}

/// A change of host that has happened in a room is saved, reported and told, and nothing else is
/// done. If it cannot be saved, it is reported and told all the same.
pub proof fn host_change_is_saved_and_told(
    world: World,
    d: DefinitionView,
    answers: spec_fn(int) -> Option<Seq<char>>,
)
    requires
        forall|i: int| i > 0 ==> #[trigger] answers(i) is None,
    ensures
        world.after_plan(host_change_plan(d), 0, answers) == (World {
            saved: if answers(0) is None {
                world.saved.insert(d.room_id, d)
            } else {
                world.saved
            },
            events: world.events + host_report(d.room_id, d.host_id),
            messages: world.messages.push((d.room_id, "host_changed"@)),
            ..world
        }),
{
    reveal_with_fuel(World::after_plan, 5);
    let plan = host_change_plan(d);
    let after = world.after_plan(plan, 0, answers);
    assert(after.events =~= world.events + host_report(d.room_id, d.host_id));
}

/// A room that is disbanded is told so while it is open, and then it is neither open nor managed
/// nor, if it was hosted, saved. The listeners are told. No other room changes.
pub proof fn disbanded_room_is_gone(
    world: World,
    rooms: Map<Seq<char>, DefinitionView>,
    room_id: Seq<char>,
    hosted: bool,
    answers: spec_fn(int) -> Option<Seq<char>>,
)
    requires
        world.rooms.contains_key(room_id),
        forall|i: int| #[trigger] answers(i) is None,
    ensures
        outcome(disband_plan(room_id, hosted), 0, rooms, answers) == (
            rooms.remove(room_id),
            Ok::<(), Seq<char>>(()),
        ),
        world.after_plan(disband_plan(room_id, hosted), 0, answers) == (World {
            rooms: world.rooms.remove(room_id),
            saved: if hosted {
                world.saved.remove(room_id)
            } else {
                world.saved
            },
            told: world.told.push(room_id),
            messages: world.messages.push((room_id, "disbanded"@)),
            ..world
        }),
{
    reveal_with_fuel(outcome, 6);
    reveal_with_fuel(World::after_plan, 6);
}

/// A room that cannot be told that it closes is disbanded all the same. If it cannot be taken away,
/// it stays, open, managed and saved. If a hosted room is taken away and cannot be deleted, that
/// is the error. The listeners are told only of success.
pub proof fn disbanding_that_fails_is_not_told(
    world: World,
    rooms: Map<Seq<char>, DefinitionView>,
    room_id: Seq<char>,
    hosted: bool,
    answers: spec_fn(int) -> Option<Seq<char>>,
)
    ensures
        ({
            let plan = disband_plan(room_id, hosted);
            let after = world.after_plan(plan, 0, answers);
            let (then_rooms, result) = outcome(plan, 0, rooms, answers);
            &&& result is Ok <==> answers(1) is None && (hosted ==> answers(2) is None)
            &&& answers(1) is Some ==> result == Err::<(), _>(""@ + answers(1)->0) && then_rooms
                == rooms && after.rooms == world.rooms && after.saved == world.saved
            &&& answers(1) is None && hosted && answers(2) is Some ==> result == Err::<(), _>(
                "delete-hosted-room-failed: "@ + answers(2)->0,
            ) && after.saved == world.saved
            &&& answers(1) is None ==> then_rooms == rooms.remove(room_id) && after.rooms
                == world.rooms.remove(room_id)
            &&& result is Err ==> after.messages == world.messages
            &&& after.events == world.events
        }),
{
    reveal_with_fuel(outcome, 6);
    reveal_with_fuel(World::after_plan, 6);
    reveal_with_fuel(World::performed_all, 2);
}

/// The chart of the next round is set in the open room, put into the registry, saved and told. If
/// it cannot be set, nothing happens.
pub proof fn next_chart_is_set_saved_and_told(
    world: World,
    rooms: Map<Seq<char>, DefinitionView>,
    d: DefinitionView,
    chart: ChartView,
    answers: spec_fn(int) -> Option<Seq<char>>,
)
    requires
        world.rooms.contains_key(d.room_id),
        forall|i: int| i > 0 ==> #[trigger] answers(i) is None,
    ensures
        ({
            let plan = next_chart_plan(d, chart);
            let after = world.after_plan(plan, 0, answers);
            let next = DefinitionView { chart: Some(chart), ..d };
            &&& answers(0) is None ==> outcome(plan, 0, rooms, answers) == (
                rooms.insert(d.room_id, next),
                Ok::<(), Seq<char>>(()),
            ) && after == (World {
                rooms: world.rooms.insert(
                    d.room_id,
                    OpenRoom { chart: Some(chart), ..world.rooms[d.room_id] },
                ),
                saved: world.saved.insert(d.room_id, next),
                messages: world.messages.push((d.room_id, "chart_selected"@)),
                ..world
            })
            &&& answers(0) is Some ==> after == world && outcome(plan, 0, rooms, answers) == (
                rooms,
                Err::<(), Seq<char>>(""@ + answers(0)->0),
            )
        }),
{
    reveal_with_fuel(outcome, 5);
    reveal_with_fuel(World::after_plan, 5);
    reveal_with_fuel(World::performed_all, 2);
}

/// A creation fails with the error of the command that failed; if it is the saving, the error says
/// so.
pub proof fn creation_fails_with_the_error_of_its_command(
    rooms: Map<Seq<char>, DefinitionView>,
    n: DefinitionView,
    drawn: Option<ChartView>,
    answers: spec_fn(int) -> Option<Seq<char>>,
    k: int,
)
    requires
        0 <= k < create_plan(n, drawn).len(),
        answers(k) is Some,
        forall|i: int| 0 <= i < k ==> #[trigger] answers(i) is None,
    ensures
        ({
            let plan = create_plan(n, drawn);
            let result = outcome(plan, 0, rooms, answers).1;
            &&& plan[k].command is SaveDefinition ==> result == Err::<(), Seq<char>>(
                "persist-hosted-room-failed: "@ + answers(k)->0,
            )
            &&& plan[k].command is ScheduleExpiry ==> result is Ok
            &&& !(plan[k].command is SaveDefinition) && !(plan[k].command is ScheduleExpiry)
                ==> result == Err::<(), Seq<char>>(answers(k)->0)
        }),
{
    reveal_with_fuel(outcome, 7);
    reveal_strlit("");
    assert(""@ + answers(k)->0 =~= answers(k)->0);
}

/// An update fails with the error of the command that failed; if it is the saving, the error says
/// so. What follows the saving cannot make it fail.
pub proof fn update_fails_with_the_error_of_its_command(
    rooms: Map<Seq<char>, DefinitionView>,
    previous: DefinitionView,
    n: DefinitionView,
    answers: spec_fn(int) -> Option<Seq<char>>,
    k: int,
)
    requires
        0 <= k < update_plan(previous, n).len(),
        answers(k) is Some,
        forall|i: int| 0 <= i < k ==> #[trigger] answers(i) is None,
    ensures
        ({
            let count = changes(previous, n).len();
            let result = outcome(update_plan(previous, n), 0, rooms, answers).1;
            &&& k < count ==> result == Err::<(), Seq<char>>(answers(k)->0)
            &&& k == count ==> result == Err::<(), Seq<char>>(
                "persist-hosted-room-failed: "@ + answers(k)->0,
            )
            &&& k > count ==> result is Ok
        }),
{
    reveal_with_fuel(outcome, 8);
    reveal_strlit("");
    assert(""@ + answers(k)->0 =~= answers(k)->0);
    assert(changes(previous, n).len() <= 3);
}

} // verus!
