//! What is kept of the rooms for the next start of the server, and what comes back then.
use crate::definition::{ChartView, DefinitionView, ManagedRoomDefinition};
use crate::persistence::readable;
use crate::plan::{outcome, CommandView, OnFailureView, StepView};
use crate::runtime::{
    changes, create_plan, disband_plan, drawable, host_change_plan, install_plan, is_hosted_room,
    next_chart_plan, restores, update_plan, wants_draw, with_drawn, RestorationView,
};
use crate::runtime_laws::{
    orderly, pool_chart_keeps_a_definition_settled, restoring_concerns_one_room,
    restoring_keeps_the_registry_orderly,
};
use vstd::prelude::*;

verus! {

/// The saved definitions after a command that was answered with `answer`.
pub open spec fn saved_by(
    command: CommandView,
    answer: Option<Seq<char>>,
    saved: Map<Seq<char>, DefinitionView>,
) -> Map<Seq<char>, DefinitionView> {
    match (command, answer) {
        (CommandView::SaveDefinition { definition }, None) => saved.insert(
            definition.room_id,
            definition,
        ),
        (CommandView::DeleteDefinition { room_id }, None) => saved.remove(room_id),
        _ => saved,
    }
}

/// The saved definitions at the end of a plan, from the step `from` on, if the steps are answered
/// as `answers` says. The commands that undo an operation need not be looked at, as
/// `undoing_keeps_what_is_saved` shows.
pub open spec fn saved_after(
    plan: Seq<StepView>,
    from: int,
    saved: Map<Seq<char>, DefinitionView>,
    answers: spec_fn(int) -> Option<Seq<char>>,
) -> Map<Seq<char>, DefinitionView>
    decreases plan.len() - from,
{
    if from >= plan.len() {
        saved
    } else {
        let then_saved = saved_by(plan[from].command, answers(from), saved);
        match (answers(from), plan[from].on_failure) {
            (Some(_), OnFailureView::Abort { .. }) => then_saved,
            _ => saved_after(plan, from + 1, then_saved, answers),
        }
    }
}

/// Whatever it is answered, no command that undoes the plan changes what is saved.
pub open spec fn undoes_without_saving(plan: Seq<StepView>) -> bool {
    forall|i: int, k: int, answer: Option<Seq<char>>, saved: Map<Seq<char>, DefinitionView>|
        0 <= i < plan.len() && 0 <= k < undo_of(plan[i]).len() ==> #[trigger] saved_by(
            #[trigger] undo_of(plan[i])[k],
            answer,
            saved,
        ) == saved
}

/// The commands that undo an operation in which the step fails.
pub open spec fn undo_of(step: StepView) -> Seq<CommandView> {
    match step.on_failure {
        OnFailureView::Ignore => Seq::empty(),
        OnFailureView::Abort { undo, .. } => undo,
    }
}

/// To undo an operation neither saves nor deletes a definition, in none of the plans.
pub proof fn undoing_keeps_what_is_saved(
    d: DefinitionView,
    previous: DefinitionView,
    drawn: Option<ChartView>,
    chart: ChartView,
    room_id: Seq<char>,
    hosted: bool,
)
    ensures
        undoes_without_saving(create_plan(d, drawn)),
        undoes_without_saving(install_plan(with_drawn(d, drawn))),
        undoes_without_saving(update_plan(previous, d)),
        undoes_without_saving(host_change_plan(d)),
        undoes_without_saving(next_chart_plan(d, chart)),
        undoes_without_saving(disband_plan(room_id, hosted)),
{
    assert(changes(d, previous).len() <= 3);
}

/// A hosted room that is created is saved, as it was agreed. A creation that fails saves nothing,
/// and a reserved room is never saved.
pub proof fn creation_saves_hosted_rooms(
    rooms: Map<Seq<char>, DefinitionView>,
    saved: Map<Seq<char>, DefinitionView>,
    n: DefinitionView,
    drawn: Option<ChartView>,
    answers: spec_fn(int) -> Option<Seq<char>>,
)
    ensures
        saved_after(create_plan(n, drawn), 0, saved, answers) == if n.is_hosted() && outcome(
            create_plan(n, drawn),
            0,
            rooms,
            answers,
        ).1 is Ok {
            saved.insert(n.room_id, n)
        } else {
            saved
        },
{
    reveal_with_fuel(outcome, 7);
    reveal_with_fuel(saved_after, 7);
}

/// An update that succeeds is saved; one that fails saves nothing.
pub proof fn update_is_saved(
    rooms: Map<Seq<char>, DefinitionView>,
    saved: Map<Seq<char>, DefinitionView>,
    previous: DefinitionView,
    n: DefinitionView,
    answers: spec_fn(int) -> Option<Seq<char>>,
)
    ensures
        saved_after(update_plan(previous, n), 0, saved, answers) == if outcome(
            update_plan(previous, n),
            0,
            rooms,
            answers,
        ).1 is Ok {
            saved.insert(n.room_id, n)
        } else {
            saved
        },
{
    reveal_with_fuel(outcome, 8);
    reveal_with_fuel(saved_after, 8);
    assert(changes(previous, n).len() <= 3);
}

/// A change of host and a drawn chart are saved if that is possible; if not, the operation
/// succeeds all the same.
pub proof fn host_and_chart_are_saved_if_possible(
    rooms: Map<Seq<char>, DefinitionView>,
    saved: Map<Seq<char>, DefinitionView>,
    d: DefinitionView,
    chart: ChartView,
    answers: spec_fn(int) -> Option<Seq<char>>,
)
    ensures
        saved_after(host_change_plan(d), 0, saved, answers) == if answers(0) is None {
            saved.insert(d.room_id, d)
        } else {
            saved
        },
        outcome(host_change_plan(d), 0, rooms, answers).1 is Ok,
        saved_after(next_chart_plan(d, chart), 0, saved, answers) == if answers(0) is None
            && answers(1) is None {
            saved.insert(d.room_id, DefinitionView { chart: Some(chart), ..d })
        } else {
            saved
        },
        outcome(next_chart_plan(d, chart), 0, rooms, answers).1 is Ok <==> answers(0) is None,
{
    reveal_with_fuel(outcome, 4);
    reveal_with_fuel(saved_after, 4);
}

/// A hosted room that is disbanded is not kept. If the attempt fails, it is kept.
pub proof fn disbanded_hosted_room_is_not_kept(
    rooms: Map<Seq<char>, DefinitionView>,
    saved: Map<Seq<char>, DefinitionView>,
    room_id: Seq<char>,
    answers: spec_fn(int) -> Option<Seq<char>>,
)
    ensures
        ({
            let hosted = is_hosted_room(rooms, room_id);
            let plan = disband_plan(room_id, hosted);
            saved_after(plan, 0, saved, answers) == if hosted && outcome(
                plan,
                0,
                rooms,
                answers,
            ).1 is Ok {
                saved.remove(room_id)
            } else {
                saved
            }
        }),
{
    reveal_with_fuel(outcome, 6);
    reveal_with_fuel(saved_after, 6);
}

/// The room that an empty server has after restoring a saved definition in normal form, if every
/// command succeeds: the saved one, with a drawn chart where one is wanted.
pub open spec fn brings_back(record: DefinitionView, d: DefinitionView) -> bool {
    &&& record.refusal() is None
    &&& record.is_hosted()
    &&& forall|drawn: Option<ChartView>|
        outcome(
            #[trigger] install_plan(with_drawn(record.normal_form(), drawn)),
            0,
            Map::empty(),
            |i: int| None,
        ).0 == Map::<Seq<char>, DefinitionView>::empty().insert(d.room_id, with_drawn(d, drawn))
}

proof fn lemma_brings_back(d: DefinitionView)
    requires
        d.settled(),
        d.is_hosted(),
    ensures
        brings_back(d, d),
{
    let answers = |i: int| None::<Seq<char>>;
    assert forall|drawn: Option<ChartView>|
        outcome(
            #[trigger] install_plan(with_drawn(d.normal_form(), drawn)),
            0,
            Map::empty(),
            |i: int| None,
        ).0 == Map::<Seq<char>, DefinitionView>::empty().insert(d.room_id, with_drawn(d, drawn)) by {
        let plan = install_plan(with_drawn(d, drawn));
        let rooms = Map::<Seq<char>, DefinitionView>::empty();
        restoring_concerns_one_room(rooms, d, drawn, answers);
        reveal_with_fuel(outcome, 7);
        assert(outcome(plan, 0, rooms, answers).1 is Ok);
        assert(answers =~= (|i: int| None));
    }
}

/// A hosted room survives a restart. What was saved when it was created or last updated, or when
/// its host last changed, brings back the agreed definition.
pub proof fn hosted_room_survives_a_restart(
    rooms: Map<Seq<char>, DefinitionView>,
    saved: Map<Seq<char>, DefinitionView>,
    previous: DefinitionView,
    n: DefinitionView,
    drawn: Option<ChartView>,
    answers: spec_fn(int) -> Option<Seq<char>>,
)
    requires
        n.settled(),
        n.is_hosted(),
    ensures
        outcome(create_plan(n, drawn), 0, rooms, answers).1 is Ok ==> brings_back(
            saved_after(create_plan(n, drawn), 0, saved, answers)[n.room_id],
            n,
        ),
        outcome(update_plan(previous, n), 0, rooms, answers).1 is Ok ==> brings_back(
            saved_after(update_plan(previous, n), 0, saved, answers)[n.room_id],
            n,
        ),
        answers(0) is None ==> brings_back(
            saved_after(host_change_plan(n), 0, saved, answers)[n.room_id],
            n,
        ),
{
    creation_saves_hosted_rooms(rooms, saved, n, drawn, answers);
    update_is_saved(rooms, saved, previous, n, answers);
    reveal_with_fuel(saved_after, 4);
    lemma_brings_back(n);
}

/// The chart that was drawn for the next round survives a restart, once it is set and saved.
pub proof fn drawn_chart_survives_a_restart(
    saved: Map<Seq<char>, DefinitionView>,
    d: DefinitionView,
    chart: ChartView,
    answers: spec_fn(int) -> Option<Seq<char>>,
)
    requires
        d.settled(),
        d.is_hosted(),
        d.chart_pool.contains(chart),
        answers(0) is None,
        answers(1) is None,
    ensures
        brings_back(
            saved_after(next_chart_plan(d, chart), 0, saved, answers)[d.room_id],
            DefinitionView { chart: Some(chart), ..d },
        ),
{
    reveal_with_fuel(saved_after, 4);
    pool_chart_keeps_a_definition_settled(d, chart);
    lemma_brings_back(DefinitionView { chart: Some(chart), ..d });
}

/// A change of host is taken over as it is. If the new host may not be the host of the room, what
/// is saved is a record that restoring refuses, whatever rooms are open: the room does not come
/// back.
pub proof fn host_that_may_not_be_host_is_not_restored(
    saved: Map<Seq<char>, DefinitionView>,
    d: DefinitionView,
    host_id: Option<i32>,
    answers: spec_fn(int) -> Option<Seq<char>>,
    open: Seq<Seq<char>>,
)
    requires
        !(DefinitionView { host_id, ..d }).host_ok(),
        answers(0) is None,
    ensures
        !restores(
            saved_after(
                host_change_plan(DefinitionView { host_id, ..d }),
                0,
                saved,
                answers,
            )[d.room_id],
            open,
        ),
{
    reveal_with_fuel(saved_after, 4);
}

// ---- restoring all records ----

/// The managed rooms at the end of a walk over the saved records. For the record at place `i`,
/// `opens(i)` are the open rooms when it is taken up, `draws(i)` is the chart drawn for it, and
/// `answers(i, k)` is the answer to step `k` of its installation.
pub open spec fn restored(
    walk: RestorationView,
    rooms: Map<Seq<char>, DefinitionView>,
    opens: spec_fn(int) -> Seq<Seq<char>>,
    draws: spec_fn(int) -> Option<ChartView>,
    answers: spec_fn(int, int) -> Option<Seq<char>>,
) -> Map<Seq<char>, DefinitionView>
    decreases walk.records.len() - walk.next,
{
    if walk.next >= walk.records.len() {
        rooms
    } else {
        let i = walk.next;
        let record = walk.records[i];
        let then_rooms = if restores(record, opens(i)) {
            outcome(
                install_plan(with_drawn(record.normal_form(), draws(i))),
                0,
                rooms,
                |k: int| answers(i, k),
            ).0
        } else {
            rooms
        };
        restored(walk.after(), then_rooms, opens, draws, answers)
    }
}

/// The installation of a room succeeds.
pub open spec fn installs(installed: DefinitionView, answers: spec_fn(int) -> Option<Seq<char>>) -> bool {
    outcome(install_plan(installed), 0, Map::empty(), answers).1 is Ok
}

/// Two registries say the same of a room.
pub open spec fn agree_on(
    a: Map<Seq<char>, DefinitionView>,
    b: Map<Seq<char>, DefinitionView>,
    room_id: Seq<char>,
) -> bool {
    &&& a.contains_key(room_id) <==> b.contains_key(room_id)
    &&& a.contains_key(room_id) ==> a[room_id] == b[room_id]
}

/// No record but the one at place `i` brings back its room.
pub open spec fn only_record_for_its_room(
    records: Seq<DefinitionView>,
    from: int,
    opens: spec_fn(int) -> Seq<Seq<char>>,
    i: int,
) -> bool {
    forall|j: int|
        from <= j < records.len() && j != i && (#[trigger] records[j]).room_id == records[i].room_id
            ==> !restores(records[j], opens(j))
}

/// No record brings back the room.
pub open spec fn not_restored(
    records: Seq<DefinitionView>,
    from: int,
    opens: spec_fn(int) -> Seq<Seq<char>>,
    room_id: Seq<char>,
) -> bool {
    forall|j: int|
        from <= j < records.len() && (#[trigger] records[j]).room_id == room_id ==> !restores(
            records[j],
            opens(j),
        )
}

/// What `end` says of the room of `record`, after a walk that began with `rooms`: the room is
/// managed, in normal form, exactly as the installation of this record has ended.
pub open spec fn ends_as_installed(
    end: Map<Seq<char>, DefinitionView>,
    rooms: Map<Seq<char>, DefinitionView>,
    record: DefinitionView,
    drawn: Option<ChartView>,
    answers: spec_fn(int) -> Option<Seq<char>>,
) -> bool {
    let installed = with_drawn(record.normal_form(), drawn);
    if installs(installed, answers) {
        end.contains_key(record.room_id) && end[record.room_id] == installed
    } else if answers(0) is None {
        !end.contains_key(record.room_id)
    } else {
        agree_on(end, rooms, record.room_id)
    }
}

proof fn lemma_result_without_rooms(
    plan: Seq<StepView>,
    from: int,
    a: Map<Seq<char>, DefinitionView>,
    b: Map<Seq<char>, DefinitionView>,
    answers: spec_fn(int) -> Option<Seq<char>>,
)
    ensures
        outcome(plan, from, a, answers).1 == outcome(plan, from, b, answers).1,
    decreases plan.len() - from,
{
    if from < plan.len() {
        lemma_result_without_rooms(
            plan,
            from + 1,
            plan[from].then_do.on(a),
            plan[from].then_do.on(b),
            answers,
        );
    }
}

proof fn lemma_restored(
    walk: RestorationView,
    rooms: Map<Seq<char>, DefinitionView>,
    opens: spec_fn(int) -> Seq<Seq<char>>,
    draws: spec_fn(int) -> Option<ChartView>,
    answers: spec_fn(int, int) -> Option<Seq<char>>,
)
    requires
        0 <= walk.next <= walk.records.len(),
    ensures
        forall|i: int|
            #![trigger walk.records[i]]
            walk.next <= i < walk.records.len() && restores(walk.records[i], opens(i))
                && only_record_for_its_room(walk.records, walk.next, opens, i)
                ==> ends_as_installed(
                restored(walk, rooms, opens, draws, answers),
                rooms,
                walk.records[i],
                draws(i),
                |k: int| answers(i, k),
            ),
        forall|room_id: Seq<char>| #[trigger]
            not_restored(walk.records, walk.next, opens, room_id) ==> agree_on(
                restored(walk, rooms, opens, draws, answers),
                rooms,
                room_id,
            ),
    decreases walk.records.len() - walk.next,
{
    let end = restored(walk, rooms, opens, draws, answers);
    if walk.next < walk.records.len() {
        let at = walk.next;
        let record = walk.records[at];
        let n = record.normal_form();
        let heard = |k: int| answers(at, k);
        let plan = install_plan(with_drawn(n, draws(at)));
        let then_rooms = if restores(record, opens(at)) {
            outcome(plan, 0, rooms, heard).0
        } else {
            rooms
        };
        restoring_concerns_one_room(rooms, n, draws(at), heard);
        lemma_result_without_rooms(plan, 0, rooms, Map::empty(), heard);
        lemma_restored(walk.after(), then_rooms, opens, draws, answers);
        assert forall|i: int|
            #![trigger walk.records[i]]
            walk.next <= i < walk.records.len() && restores(walk.records[i], opens(i))
                && only_record_for_its_room(
                walk.records,
                walk.next,
                opens,
                i,
            ) implies ends_as_installed(
            end,
            rooms,
            walk.records[i],
            draws(i),
            |k: int| answers(i, k),
        ) by {
            if i == at {
                assert(not_restored(walk.records, at + 1, opens, record.room_id));
                assert(heard =~= (|k: int| answers(i, k)));
                assert(agree_on(end, then_rooms, record.room_id));
            } else {
                assert(only_record_for_its_room(walk.records, at + 1, opens, i));
                if record.room_id == walk.records[i].room_id {
                    assert(!restores(walk.records[at], opens(at)));
                }
                assert(agree_on(then_rooms, rooms, walk.records[i].room_id));
                assert(walk.after().records[i] == walk.records[i]);
            }
        }
        assert forall|room_id: Seq<char>| #[trigger]
            not_restored(walk.records, walk.next, opens, room_id) implies agree_on(
            end,
            rooms,
            room_id,
        ) by {
            assert(not_restored(walk.records, at + 1, opens, room_id));
            if record.room_id == room_id {
                assert(!restores(walk.records[at], opens(at)));
            }
            assert(agree_on(then_rooms, rooms, room_id));
        }
    }
}

/// Each saved record is restored by itself. A record that brings its room back, and is the only
/// one to do so, ends as its own installation ends, whatever became of the records before and
/// behind it. A room that no record brings back stays as it was.
pub proof fn records_are_restored_one_by_one(
    records: Seq<DefinitionView>,
    rooms: Map<Seq<char>, DefinitionView>,
    opens: spec_fn(int) -> Seq<Seq<char>>,
    draws: spec_fn(int) -> Option<ChartView>,
    answers: spec_fn(int, int) -> Option<Seq<char>>,
)
    ensures
        ({
            let end = restored(RestorationView { records, next: 0 }, rooms, opens, draws, answers);
            &&& forall|i: int|
                #![trigger records[i]]
                0 <= i < records.len() && restores(records[i], opens(i))
                    && only_record_for_its_room(records, 0, opens, i) ==> ends_as_installed(
                    end,
                    rooms,
                    records[i],
                    draws(i),
                    |k: int| answers(i, k),
                )
            &&& forall|room_id: Seq<char>| #[trigger]
                not_restored(records, 0, opens, room_id) ==> agree_on(end, rooms, room_id)
        }),
{
    lemma_restored(RestorationView { records, next: 0 }, rooms, opens, draws, answers);
}

/// The restoration of all records keeps the registry orderly.
pub proof fn restoration_keeps_the_registry_orderly(
    walk: RestorationView,
    rooms: Map<Seq<char>, DefinitionView>,
    opens: spec_fn(int) -> Seq<Seq<char>>,
    draws: spec_fn(int) -> Option<ChartView>,
    answers: spec_fn(int, int) -> Option<Seq<char>>,
)
    requires
        orderly(rooms),
        0 <= walk.next,
        forall|i: int|
            #![trigger walk.records[i]]
            0 <= i < walk.records.len() && wants_draw(walk.records[i].normal_form()) ==> drawable(
                walk.records[i].normal_form().chart_pool,
                draws(i),
            ),
    ensures
        orderly(restored(walk, rooms, opens, draws, answers)),
    decreases walk.records.len() - walk.next,
{
    if walk.next < walk.records.len() {
        let at = walk.next;
        let record = walk.records[at];
        let heard = |k: int| answers(at, k);
        let then_rooms = if restores(record, opens(at)) {
            restoring_keeps_the_registry_orderly(rooms, record, draws(at), heard);
            outcome(install_plan(with_drawn(record.normal_form(), draws(at))), 0, rooms, heard).0
        } else {
            rooms
        };
        restoration_keeps_the_registry_orderly(walk.after(), then_rooms, opens, draws, answers);
    }
}

// ---- saving and loading ----

/// One of the records is read as `d`.
pub open spec fn is_record(records: Seq<Option<ManagedRoomDefinition>>, d: DefinitionView) -> bool {
    exists|i: int|
        0 <= i < records.len() && (#[trigger] records[i]) is Some && (records[i]->0)@ == d
}

/// `records` are the records that are read while `saved` is saved: one for each saved definition,
/// and besides them only such as cannot be read.
pub open spec fn reads(
    saved: Map<Seq<char>, DefinitionView>,
    records: Seq<Option<ManagedRoomDefinition>>,
) -> bool {
    &&& forall|i: int|
        0 <= i < records.len() && (#[trigger] records[i]) is Some ==> saved.contains_key(
            (records[i]->0)@.room_id,
        ) && saved[(records[i]->0)@.room_id] == (records[i]->0)@
    &&& forall|room_id: Seq<char>| #[trigger]
        saved.contains_key(room_id) ==> is_record(records, saved[room_id])
    &&& forall|i: int, j: int|
        0 <= i < j < records.len() && (#[trigger] records[i]) is Some && (
        #[trigger] records[j]) is Some ==> (records[i]->0)@.room_id != (records[j]->0)@.room_id
}

/// Of the room, the list holds exactly the definition `d`.
pub open spec fn holds_once(list: Seq<DefinitionView>, d: DefinitionView) -> bool {
    exists|i: int|
        0 <= i < list.len() && (#[trigger] list[i]) == d && forall|j: int|
            0 <= j < list.len() && (#[trigger] list[j]).room_id == d.room_id ==> j == i
}

/// Of the room, the list holds nothing.
pub open spec fn holds_none(list: Seq<DefinitionView>, room_id: Seq<char>) -> bool {
    forall|i: int| 0 <= i < list.len() ==> (#[trigger] list[i]).room_id != room_id
}

/// The saved definitions after a history of commands, each with its answer.
pub open spec fn saved_through(
    history: Seq<(CommandView, Option<Seq<char>>)>,
    saved: Map<Seq<char>, DefinitionView>,
) -> Map<Seq<char>, DefinitionView>
    decreases history.len(),
{
    if history.len() == 0 {
        saved
    } else {
        saved_by(
            history.last().0,
            history.last().1,
            saved_through(history.drop_last(), saved),
        )
    }
}

/// The command saves or deletes the definition of the room.
pub open spec fn concerns_saved(command: CommandView, room_id: Seq<char>) -> bool {
    match command {
        CommandView::SaveDefinition { definition } => definition.room_id == room_id,
        CommandView::DeleteDefinition { room_id: deleted } => deleted == room_id,
        _ => false,
    }
}

proof fn lemma_readable(records: Seq<Option<ManagedRoomDefinition>>)
    requires
        forall|i: int, j: int|
            0 <= i < j < records.len() && (#[trigger] records[i]) is Some && (
            #[trigger] records[j]) is Some ==> (records[i]->0)@.room_id != (records[j]->0)@.room_id,
    ensures
        forall|k: int|
            0 <= k < readable(records).len() ==> is_record(
                records,
                #[trigger] readable(records)[k],
            ),
        forall|i: int|
            0 <= i < records.len() && (#[trigger] records[i]) is Some ==> holds_once(
                readable(records),
                (records[i]->0)@,
            ),
    decreases records.len(),
{
    if records.len() > 0 {
        let front = records.drop_last();
        let list = readable(records);
        let before = readable(front);
        lemma_readable(front);
        assert forall|k: int| 0 <= k < list.len() implies is_record(records, #[trigger] list[k]) by {
            if k < before.len() {
                assert(is_record(front, before[k]));
                let i = choose|i: int|
                    0 <= i < front.len() && (#[trigger] front[i]) is Some && (front[i]->0)@
                        == before[k];
                assert(records[i] == front[i]);
            } else {
                assert(records[records.len() - 1] is Some);
            }
        }
        assert forall|i: int| 0 <= i < records.len() && (#[trigger] records[i]) is Some implies holds_once(
            list,
            (records[i]->0)@,
        ) by {
            let d = (records[i]->0)@;
            let at = if i < front.len() {
                assert(front[i] == records[i]);
                choose|at: int|
                    0 <= at < before.len() && (#[trigger] before[at]) == d && forall|j: int|
                        0 <= j < before.len() && (#[trigger] before[j]).room_id == d.room_id ==> j
                            == at
            } else {
                before.len() as int
            };
            assert(list[at] == d);
            assert forall|j: int| 0 <= j < list.len() && (#[trigger] list[j]).room_id
                == d.room_id implies j == at by {
                if j < before.len() {
                    assert(before[j] == list[j]);
                    assert(is_record(front, before[j]));
                    let m = choose|m: int|
                        0 <= m < front.len() && (#[trigger] front[m]) is Some && (front[m]->0)@
                            == before[j];
                    assert(records[m] == front[m]);
                } else {
                    assert(records[records.len() - 1] is Some);
                }
            }
        }
    }
}

proof fn lemma_saved_through(
    history: Seq<(CommandView, Option<Seq<char>>)>,
    saved: Map<Seq<char>, DefinitionView>,
    room_id: Seq<char>,
)
    requires
        forall|i: int|
            0 <= i < history.len() ==> !concerns_saved((#[trigger] history[i]).0, room_id),
    ensures
        agree_on(saved_through(history, saved), saved, room_id),
    decreases history.len(),
{
    if history.len() > 0 {
        let front = history.drop_last();
        assert forall|i: int| 0 <= i < front.len() implies !concerns_saved(
            (#[trigger] front[i]).0,
            room_id,
        ) by {
            assert(front[i] == history[i]);
        }
        lemma_saved_through(front, saved, room_id);
        assert(!concerns_saved(history[history.len() - 1].0, room_id));
    }
}

/// What was saved is loaded. After a definition has been saved, whatever was saved or deleted
/// before, and as long as nothing else is done to its room, the loaded list holds exactly this
/// definition of the room.
pub proof fn saved_definition_is_loaded(
    saved: Map<Seq<char>, DefinitionView>,
    d: DefinitionView,
    later: Seq<(CommandView, Option<Seq<char>>)>,
    records: Seq<Option<ManagedRoomDefinition>>,
)
    requires
        forall|i: int|
            0 <= i < later.len() ==> !concerns_saved((#[trigger] later[i]).0, d.room_id),
        reads(
            saved_through(
                later,
                saved_by(CommandView::SaveDefinition { definition: d }, None, saved),
            ),
            records,
        ),
    ensures
        holds_once(readable(records), d),
{
    let first = saved_by(CommandView::SaveDefinition { definition: d }, None, saved);
    lemma_saved_through(later, first, d.room_id);
    let now = saved_through(later, first);
    assert(now.contains_key(d.room_id));
    let i = choose|i: int|
        0 <= i < records.len() && (#[trigger] records[i]) is Some && (records[i]->0)@
            == now[d.room_id];
    lemma_readable(records);
    assert(holds_once(readable(records), (records[i]->0)@));
}

/// What was deleted is not loaded. After the definition of a room has been deleted, and as long
/// as nothing else is done to the room, the loaded list holds none of it.
pub proof fn deleted_definition_is_not_loaded(
    saved: Map<Seq<char>, DefinitionView>,
    room_id: Seq<char>,
    later: Seq<(CommandView, Option<Seq<char>>)>,
    records: Seq<Option<ManagedRoomDefinition>>,
)
    requires
        forall|i: int|
            0 <= i < later.len() ==> !concerns_saved((#[trigger] later[i]).0, room_id),
        reads(
            saved_through(later, saved_by(CommandView::DeleteDefinition { room_id }, None, saved)),
            records,
        ),
    ensures
        holds_none(readable(records), room_id),
{
    let first = saved_by(CommandView::DeleteDefinition { room_id }, None, saved);
    lemma_saved_through(later, first, room_id);
    let now = saved_through(later, first);
    lemma_readable(records);
    assert forall|k: int| 0 <= k < readable(records).len() implies (
    #[trigger] readable(records)[k]).room_id != room_id by {
        assert(is_record(records, readable(records)[k]));
        let i = choose|i: int|
            0 <= i < records.len() && (#[trigger] records[i]) is Some && (records[i]->0)@
                == readable(records)[k];
        assert(now.contains_key((records[i]->0)@.room_id));
    }
}

} // verus!
