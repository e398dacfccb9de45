//! What holds of the operations on managed rooms, however the server answers.
use crate::definition::{merged_pool, ChartView, DefinitionView};
use crate::definition_laws::{
    merged_pool_keeps_the_first_of_each, normal_form_is_settled, normalized_chart_is_stable,
    settled_definitions_are_orderly, taken_from,
};
use crate::ids::{distinct_counts_members, distinct_keeps_ascending};
use crate::plan::{carried_out, outcome, CommandView};
use crate::registry::keyed_by_room_id;
use crate::runtime::{
    autostarts, changes, create_decision, create_plan, disband_plan, drawable, expires,
    host_change_plan, install_plan, is_hosted_room, is_reserved_room, next_chart_plan,
    persist_prefix, update_plan, update_refusal, wants_draw, with_drawn, SnapshotView,
};
use vstd::prelude::*;

verus! {

/// Every managed room stands under its identifier, with a definition that is accepted and in
/// normal form.
pub open spec fn orderly(rooms: Map<Seq<char>, DefinitionView>) -> bool {
    &&& keyed_by_room_id(rooms)
    &&& forall|id: Seq<char>| #[trigger] rooms.contains_key(id) ==> rooms[id].settled()
}

/// A hosted room in normal form stays so when its chart becomes one of its pool.
pub proof fn pool_chart_keeps_a_definition_settled(d: DefinitionView, chart: ChartView)
    requires
        d.settled(),
        d.is_hosted(),
        d.chart_pool.contains(chart),
    ensures
        (DefinitionView { chart: Some(chart), ..d }).settled(),
{
    let next = DefinitionView { chart: Some(chart), ..d };
    let k = choose|k: int| 0 <= k < d.chart_pool.len() && d.chart_pool[k] == chart;
    assert(d.normal_form().chart_pool == d.chart_pool);
    assert(d.chart_pool == merged_pool(d.chart_pool));
    merged_pool_keeps_the_first_of_each(d.chart_pool);
    assert(taken_from(d.chart_pool, merged_pool(d.chart_pool)[k]));
    let at = choose|at: int|
        0 <= at < d.chart_pool.len() && chart == (#[trigger] d.chart_pool[at]).normalized();
    normalized_chart_is_stable(d.chart_pool[at]);
    assert(next.charts_ok());
    assert(next.host_ok());
    assert(next.normal_form() =~= next) by {
        assert(d.normal_form() == d);
        assert(next.normal_form().whitelist == d.normal_form().whitelist);
    }
}

proof fn lemma_drawn_is_settled(d: DefinitionView, drawn: Option<ChartView>)
    requires
        d.settled(),
        wants_draw(d) ==> drawable(d.chart_pool, drawn),
    ensures
        with_drawn(d, drawn).settled(),
        with_drawn(d, drawn).room_id == d.room_id,
{
    settled_definitions_are_orderly(d);
    if wants_draw(d) {
        pool_chart_keeps_a_definition_settled(d, drawn->0);
    }
}

/// The creation of a room changes the registry only if it succeeds, and then by this room alone.
/// If it fails after the room was opened, the last thing done is to take the room away again.
pub proof fn creation_succeeds_or_leaves_no_trace(
    rooms: Map<Seq<char>, DefinitionView>,
    n: DefinitionView,
    drawn: Option<ChartView>,
    answers: spec_fn(int) -> Option<Seq<char>>,
)
    requires
        !rooms.contains_key(n.room_id),
    ensures
        ({
            let (then_rooms, result) = outcome(create_plan(n, drawn), 0, rooms, answers);
            let commands = carried_out(create_plan(n, drawn), 0, answers);
            let installed = with_drawn(n, drawn);
            &&& result is Ok ==> then_rooms == rooms.insert(n.room_id, installed)
            &&& result is Err ==> then_rooms == rooms
            &&& result is Err && answers(0) is None ==> commands.last()
                == (CommandView::RemoveRoom { room_id: n.room_id })
        }),
{
    reveal_with_fuel(outcome, 7);
    reveal_with_fuel(carried_out, 7);
    let installed = with_drawn(n, drawn);
    assert(rooms.remove(n.room_id) =~= rooms);
    assert(rooms.insert(n.room_id, installed).remove(n.room_id) =~= rooms);
}

/// A creation that is admitted, whatever is drawn and answered, keeps the registry orderly.
pub proof fn creation_keeps_the_registry_orderly(
    rooms: Map<Seq<char>, DefinitionView>,
    open: Seq<Seq<char>>,
    max_rooms: Option<usize>,
    d: DefinitionView,
    drawn: Option<ChartView>,
    answers: spec_fn(int) -> Option<Seq<char>>,
)
    requires
        orderly(rooms),
        create_decision(rooms, open, max_rooms, d) is Install,
        wants_draw(d.normal_form()) ==> drawable(d.normal_form().chart_pool, drawn),
    ensures
        orderly(outcome(create_plan(d.normal_form(), drawn), 0, rooms, answers).0),
{
    let n = d.normal_form();
    normal_form_is_settled(d);
    lemma_drawn_is_settled(n, drawn);
    creation_succeeds_or_leaves_no_trace(rooms, n, drawn, answers);
}

/// A request that asks again for a room that was created finds it: no second room is made. A
/// reserved room may ask for a later expiry. A hosted room must not have had its first chart
/// drawn.
pub proof fn repeated_creation_finds_the_room(
    rooms: Map<Seq<char>, DefinitionView>,
    open: Seq<Seq<char>>,
    max_rooms: Option<usize>,
    first: DefinitionView,
    again: DefinitionView,
    drawn: Option<ChartView>,
    answers: spec_fn(int) -> Option<Seq<char>>,
)
    requires
        !rooms.contains_key(first.room_id),
        again.refusal() is None,
        again.room_id == first.room_id,
        first.normal_form().same_configuration(again.normal_form()),
        !wants_draw(first.normal_form()),
        outcome(create_plan(first.normal_form(), drawn), 0, rooms, answers).1 is Ok,
    ensures
        create_decision(
            outcome(create_plan(first.normal_form(), drawn), 0, rooms, answers).0,
            open,
            max_rooms,
            again,
        ) is Existing,
{
    creation_succeeds_or_leaves_no_trace(rooms, first.normal_form(), drawn, answers);
}

/// A hosted room that was created has been saved, and what was saved brings back the same
/// definition: the record is accepted, is of a hosted room, and is in normal form already.
pub proof fn created_hosted_room_can_be_restored(
    rooms: Map<Seq<char>, DefinitionView>,
    d: DefinitionView,
    drawn: Option<ChartView>,
    answers: spec_fn(int) -> Option<Seq<char>>,
)
    requires
        d.refusal() is None,
        d.is_hosted(),
        outcome(create_plan(d.normal_form(), drawn), 0, rooms, answers).1 is Ok,
    ensures
        carried_out(create_plan(d.normal_form(), drawn), 0, answers).contains(
            CommandView::SaveDefinition { definition: d.normal_form() },
        ),
        d.normal_form().settled(),
        d.normal_form().is_hosted(),
{
    let n = d.normal_form();
    normal_form_is_settled(d);
    reveal_with_fuel(outcome, 7);
    reveal_with_fuel(carried_out, 7);
    let plan = create_plan(n, drawn);
    let commands = carried_out(plan, 0, answers);
    assert(commands.len() == plan.len());
    assert(commands.last() == CommandView::SaveDefinition { definition: n });
}

/// Restoring a room puts it into the registry or leaves the registry without it; the other rooms
/// stay as they are.
pub proof fn restoring_concerns_one_room(
    rooms: Map<Seq<char>, DefinitionView>,
    n: DefinitionView,
    drawn: Option<ChartView>,
    answers: spec_fn(int) -> Option<Seq<char>>,
)
    ensures
        ({
            let (then_rooms, result) = outcome(
                install_plan(with_drawn(n, drawn)),
                0,
                rooms,
                answers,
            );
            &&& result is Ok ==> then_rooms == rooms.insert(n.room_id, with_drawn(n, drawn))
            &&& result is Err && answers(0) is None ==> then_rooms == rooms.remove(n.room_id)
            &&& answers(0) is Some ==> then_rooms == rooms
        }),
{
    reveal_with_fuel(outcome, 7);
}

// ---- the settings of an open room ----

/// What the commands of an update set in an open room.
pub struct Settings {
    pub host_id: Option<i32>,
    pub chart: Option<ChartView>,
    pub max_users: usize,
}

pub open spec fn settings_of(d: DefinitionView) -> Settings {
    Settings { host_id: d.host_id, chart: d.chart, max_users: d.max_users }
}

/// The settings of the room `room_id` after a command that is carried out.
pub open spec fn after_command(
    settings: Settings,
    room_id: Seq<char>,
    command: CommandView,
) -> Settings {
    match command {
        CommandView::SetHost { room_id: id, host_id } if id == room_id => Settings {
            host_id,
            ..settings
        },
        CommandView::SetChart { room_id: id, chart } if id == room_id => Settings {
            chart: Some(chart),
            ..settings
        },
        CommandView::ClearChart { room_id: id } if id == room_id => Settings {
            chart: None,
            ..settings
        },
        CommandView::SetMaxUsers { room_id: id, max_users } if id == room_id => Settings {
            max_users,
            ..settings
        },
        _ => settings,
    }
}

/// The settings of the room `room_id` after commands that are carried out one after another.
pub open spec fn after_commands(
    settings: Settings,
    room_id: Seq<char>,
    commands: Seq<CommandView>,
) -> Settings
    decreases commands.len(),
{
    if commands.len() == 0 {
        settings
    } else {
        after_command(
            after_commands(settings, room_id, commands.drop_last()),
            room_id,
            commands.last(),
        )
    }
}

/// The changes between two definitions take the room from the settings of the one to those of
/// the other; the changes in the other direction take it back.
pub proof fn changes_lead_from_one_definition_to_the_other(from: DefinitionView, to: DefinitionView)
    requires
        from.room_id == to.room_id,
    ensures
        after_commands(settings_of(from), to.room_id, changes(from, to)) == settings_of(to),
        after_commands(
            after_commands(settings_of(from), to.room_id, changes(from, to)),
            to.room_id,
            changes(to, from),
        ) == settings_of(from),
{
    lemma_changes(from, to);
    lemma_changes(to, from);
}

proof fn lemma_changes(from: DefinitionView, to: DefinitionView)
    ensures
        after_commands(settings_of(from), to.room_id, changes(from, to)) == settings_of(to),
{
    reveal_with_fuel(after_commands, 4);
    let commands = changes(from, to);
    assert(commands.len() <= 3);
}

/// An update changes the registry only if it succeeds, and then by this room alone.
pub proof fn update_succeeds_or_keeps_the_registry(
    rooms: Map<Seq<char>, DefinitionView>,
    previous: DefinitionView,
    n: DefinitionView,
    answers: spec_fn(int) -> Option<Seq<char>>,
)
    ensures
        ({
            let (then_rooms, result) = outcome(update_plan(previous, n), 0, rooms, answers);
            &&& result is Ok ==> then_rooms == rooms.insert(n.room_id, n)
            &&& result is Err ==> then_rooms == rooms
        }),
{
    reveal_with_fuel(outcome, 8);
    assert(changes(previous, n).len() <= 3);
}

/// An update that is admitted keeps the registry orderly.
pub proof fn update_keeps_the_registry_orderly(
    rooms: Map<Seq<char>, DefinitionView>,
    d: DefinitionView,
    snapshot: Option<SnapshotView>,
    answers: spec_fn(int) -> Option<Seq<char>>,
)
    requires
        orderly(rooms),
        update_refusal(rooms, d, snapshot) is None,
    ensures
        orderly(outcome(update_plan(rooms[d.room_id], d.normal_form()), 0, rooms, answers).0),
{
    normal_form_is_settled(d);
    update_succeeds_or_keeps_the_registry(rooms, rooms[d.room_id], d.normal_form(), answers);
}

/// The answers to an update whose changes are carried out and which then cannot be saved.
pub open spec fn only_saving_fails(
    previous: DefinitionView,
    n: DefinitionView,
    answers: spec_fn(int) -> Option<Seq<char>>,
) -> bool {
    &&& forall|i: int| 0 <= i < changes(previous, n).len() ==> #[trigger] answers(i) is None
    &&& answers(changes(previous, n).len() as int) is Some
}

/// If an update cannot be saved, it fails, the registry keeps the old definition, and the room
/// is left with the settings that it had.
pub proof fn update_that_cannot_be_saved_is_taken_back(
    rooms: Map<Seq<char>, DefinitionView>,
    previous: DefinitionView,
    n: DefinitionView,
    answers: spec_fn(int) -> Option<Seq<char>>,
)
    requires
        previous.room_id == n.room_id,
        only_saving_fails(previous, n, answers),
    ensures
        outcome(update_plan(previous, n), 0, rooms, answers) == (
            rooms,
            Err::<(), Seq<char>>(
                persist_prefix() + answers(changes(previous, n).len() as int)->0,
            ),
        ),
        after_commands(
            settings_of(previous),
            n.room_id,
            carried_out(update_plan(previous, n), 0, answers),
        ) == settings_of(previous),
{
    reveal_with_fuel(outcome, 8);
    reveal_with_fuel(carried_out, 8);
    let plan = update_plan(previous, n);
    let forth = changes(previous, n);
    let back = changes(n, previous);
    let save = CommandView::SaveDefinition { definition: n };
    assert(forth.len() <= 3);
    let commands = carried_out(plan, 0, answers);
    assert(commands =~= forth + seq![save] + back);
    changes_lead_from_one_definition_to_the_other(previous, n);
    lemma_after_more(settings_of(previous), n.room_id, forth, seq![save]);
    lemma_after_more(settings_of(previous), n.room_id, forth + seq![save], back);
    reveal_with_fuel(after_commands, 2);
    assert(after_commands(settings_of(n), n.room_id, seq![save]) == settings_of(n)) by {
        assert(seq![save].drop_last() =~= Seq::empty());
    }
}

proof fn lemma_after_more(
    settings: Settings,
    room_id: Seq<char>,
    first: Seq<CommandView>,
    more: Seq<CommandView>,
)
    ensures
        after_commands(settings, room_id, first + more) == after_commands(
            after_commands(settings, room_id, first),
            room_id,
            more,
        ),
    decreases more.len(),
{
    if more.len() == 0 {
        assert(first + more =~= first);
    } else {
        lemma_after_more(settings, room_id, first, more.drop_last());
        assert((first + more).drop_last() =~= first + more.drop_last());
        assert((first + more).last() == more.last());
    }
}

/// An update that succeeds leaves the room with the settings of the new definition.
pub proof fn update_that_succeeds_sets_the_room(
    rooms: Map<Seq<char>, DefinitionView>,
    previous: DefinitionView,
    n: DefinitionView,
    answers: spec_fn(int) -> Option<Seq<char>>,
)
    requires
        previous.room_id == n.room_id,
        outcome(update_plan(previous, n), 0, rooms, answers).1 is Ok,
    ensures
        after_commands(
            settings_of(previous),
            n.room_id,
            carried_out(update_plan(previous, n), 0, answers),
        ) == settings_of(n),
{
    reveal_with_fuel(outcome, 8);
    reveal_with_fuel(carried_out, 8);
    let plan = update_plan(previous, n);
    let forth = changes(previous, n);
    assert(forth.len() <= 3);
    let commands = carried_out(plan, 0, answers);
    let rest = commands.skip(forth.len() as int);
    assert(commands.len() == plan.len());
    assert(forall|i: int| 0 <= i < plan.len() ==> #[trigger] commands[i] == plan[i].command);
    assert(commands =~= forth + rest);
    lemma_changes(previous, n);
    lemma_after_more(settings_of(previous), n.room_id, forth, rest);
    assert forall|i: int| 0 <= i < rest.len() implies after_command(
        settings_of(n),
        n.room_id,
        #[trigger] rest[i],
    ) == settings_of(n) by {
        assert(rest[i] == plan[forth.len() + i].command);
    }
    lemma_idle(settings_of(n), n.room_id, rest);
}

proof fn lemma_idle(settings: Settings, room_id: Seq<char>, commands: Seq<CommandView>)
    requires
        forall|i: int|
            0 <= i < commands.len() ==> after_command(settings, room_id, #[trigger] commands[i])
                == settings,
    ensures
        after_commands(settings, room_id, commands) == settings,
    decreases commands.len(),
{
    if commands.len() > 0 {
        lemma_idle(settings, room_id, commands.drop_last());
        assert(commands.last() == commands[commands.len() - 1]);
    }
}

// ---- the other operations ----

/// A change of host keeps the registry orderly, if the new host may be the host of the room. The
/// commands that follow do not touch the registry.
pub proof fn host_change_keeps_the_registry_orderly(
    rooms: Map<Seq<char>, DefinitionView>,
    room_id: Seq<char>,
    host_id: Option<i32>,
    answers: spec_fn(int) -> Option<Seq<char>>,
)
    requires
        orderly(rooms),
        is_hosted_room(rooms, room_id),
        (DefinitionView { host_id, ..rooms[room_id] }).host_ok(),
    ensures
        ({
            let changed = DefinitionView { host_id, ..rooms[room_id] };
            let then_rooms = rooms.insert(room_id, changed);
            &&& orderly(then_rooms)
            &&& outcome(host_change_plan(changed), 0, then_rooms, answers) == (
                then_rooms,
                Ok::<(), Seq<char>>(()),
            )
        }),
{
    let d = rooms[room_id];
    let changed = DefinitionView { host_id, ..d };
    assert(changed.settled()) by {
        assert(d.settled());
        assert(d.normal_form() == d);
        assert(changed.normal_form() =~= changed) by {
            assert(changed.normal_form().whitelist == d.normal_form().whitelist);
            assert(changed.normal_form().chart == d.normal_form().chart);
            assert(changed.normal_form().chart_pool == d.normal_form().chart_pool);
            assert(changed.normal_form().expires_at == d.normal_form().expires_at);
        }
    }
    reveal_with_fuel(outcome, 5);
}

/// Once a disbanded room is taken away, it is managed no more, whatever else fails; the other
/// rooms stay as they are. If everything succeeds, a hosted room is not restored any more either.
pub proof fn disbanded_room_is_forgotten(
    rooms: Map<Seq<char>, DefinitionView>,
    room_id: Seq<char>,
    answers: spec_fn(int) -> Option<Seq<char>>,
)
    ensures
        ({
            let hosted = is_hosted_room(rooms, room_id);
            let plan = disband_plan(room_id, hosted);
            let (then_rooms, result) = outcome(plan, 0, rooms, answers);
            &&& then_rooms == if answers(1) is None {
                rooms.remove(room_id)
            } else {
                rooms
            }
            &&& result is Ok ==> answers(1) is None
            &&& result is Ok && hosted ==> carried_out(plan, 0, answers).contains(
                CommandView::DeleteDefinition { room_id },
            )
        }),
{
    reveal_with_fuel(outcome, 6);
    reveal_with_fuel(carried_out, 6);
    let hosted = is_hosted_room(rooms, room_id);
    let plan = disband_plan(room_id, hosted);
    let commands = carried_out(plan, 0, answers);
    if hosted && outcome(plan, 0, rooms, answers).1 is Ok {
        assert(commands[2] == CommandView::DeleteDefinition { room_id });
    }
}

/// Disbanding keeps the registry orderly.
pub proof fn disbanding_keeps_the_registry_orderly(
    rooms: Map<Seq<char>, DefinitionView>,
    room_id: Seq<char>,
    answers: spec_fn(int) -> Option<Seq<char>>,
)
    requires
        orderly(rooms),
    ensures
        orderly(
            outcome(disband_plan(room_id, is_hosted_room(rooms, room_id)), 0, rooms, answers).0,
        ),
{
    disbanded_room_is_forgotten(rooms, room_id, answers);
}

/// To go on to the next chart of the pool keeps the registry orderly. If the chart cannot be set
/// in the room, the registry stays as it is.
pub proof fn next_chart_keeps_the_registry_orderly(
    rooms: Map<Seq<char>, DefinitionView>,
    room_id: Seq<char>,
    chart: ChartView,
    answers: spec_fn(int) -> Option<Seq<char>>,
)
    requires
        orderly(rooms),
        is_hosted_room(rooms, room_id),
        rooms[room_id].chart_pool.contains(chart),
    ensures
        ({
            let (then_rooms, result) = outcome(
                next_chart_plan(rooms[room_id], chart),
                0,
                rooms,
                answers,
            );
            &&& orderly(then_rooms)
            &&& result is Err ==> then_rooms == rooms
            &&& result is Ok ==> then_rooms == rooms.insert(
                room_id,
                DefinitionView { chart: Some(chart), ..rooms[room_id] },
            )
        }),
{
    pool_chart_keeps_a_definition_settled(rooms[room_id], chart);
    reveal_with_fuel(outcome, 5);
}

/// Restoring a record that is accepted keeps the registry orderly.
pub proof fn restoring_keeps_the_registry_orderly(
    rooms: Map<Seq<char>, DefinitionView>,
    record: DefinitionView,
    drawn: Option<ChartView>,
    answers: spec_fn(int) -> Option<Seq<char>>,
)
    requires
        orderly(rooms),
        record.refusal() is None,
        wants_draw(record.normal_form()) ==> drawable(record.normal_form().chart_pool, drawn),
    ensures
        orderly(
            outcome(install_plan(with_drawn(record.normal_form(), drawn)), 0, rooms, answers).0,
        ),
{
    let n = record.normal_form();
    normal_form_is_settled(record);
    lemma_drawn_is_settled(n, drawn);
    restoring_concerns_one_room(rooms, n, drawn, answers);
    assert(with_drawn(n, drawn).settled());
}

/// A hosted room is kept while it is empty: none of the timers of reserved rooms disbands or
/// starts it.
pub proof fn timers_leave_hosted_rooms_alone(
    rooms: Map<Seq<char>, DefinitionView>,
    room_id: Seq<char>,
    empty: Option<bool>,
    snapshot: Option<SnapshotView>,
)
    requires
        is_hosted_room(rooms, room_id),
    ensures
        !expires(rooms, room_id, empty),
        !is_reserved_room(rooms, room_id),
        !autostarts(rooms, room_id, snapshot),
{
}

/// A reserved room begins by itself exactly when it waits for its round and the users in it are
/// the players on its whitelist, no more and no less.
pub proof fn autostart_waits_for_exactly_the_whitelist(
    rooms: Map<Seq<char>, DefinitionView>,
    room_id: Seq<char>,
    snapshot: SnapshotView,
)
    requires
        orderly(rooms),
        crate::runtime::is_reserved_room(rooms, room_id),
        snapshot.phase == crate::runtime::RoomPhase::SelectingChart,
    ensures
        autostarts(rooms, room_id, Some(snapshot)) <==> snapshot.users.to_set()
            == rooms[room_id].whitelist.to_set(),
{
    let whitelist = rooms[room_id].whitelist;
    let wanted = whitelist.to_set();
    let present = snapshot.users.to_set();
    settled_definitions_are_orderly(rooms[room_id]);
    distinct_keeps_ascending(whitelist);
    distinct_counts_members(whitelist);
    assert(wanted.len() == whitelist.len());
    if autostarts(rooms, room_id, Some(snapshot)) {
        assert(wanted.subset_of(present)) by {
            assert forall|x: i32| wanted.contains(x) implies present.contains(x) by {
                let i = choose|i: int| 0 <= i < whitelist.len() && whitelist[i] == x;
                assert(snapshot.users.contains(whitelist[i]));
            }
        }
        vstd::set_lib::lemma_subset_equality(wanted, present);
    }
    if present == wanted {
        assert forall|i: int| 0 <= i < whitelist.len() implies snapshot.users.contains(
            #[trigger] whitelist[i],
        ) by {
            assert(wanted.contains(whitelist[i]));
        }
    }
}

} // verus!
