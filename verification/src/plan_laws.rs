//! What holds of every plan, whatever its commands are.
use crate::definition::DefinitionView;
use crate::plan::{carried_out, outcome, EffectView, OnFailureView, RunView, StepView};
use vstd::prelude::*;

verus! {

/// To store a definition makes it the one of its room; to forget a room leaves it without one; the
/// other rooms stay as they are.
pub proof fn effects_concern_one_room(
    effect: EffectView,
    rooms: Map<Seq<char>, DefinitionView>,
    other: Seq<char>,
)
    ensures
        effect matches EffectView::Store { definition } ==> {
            &&& effect.on(rooms).contains_key(definition.room_id)
            &&& effect.on(rooms)[definition.room_id] == definition
            &&& other != definition.room_id ==> (effect.on(rooms).contains_key(other)
                <==> rooms.contains_key(other)) && effect.on(rooms)[other] == rooms[other]
        },
        effect matches EffectView::Forget { room_id } ==> {
            &&& !effect.on(rooms).contains_key(room_id)
            &&& other != room_id && rooms.contains_key(other) ==> effect.on(rooms).contains_key(
                other,
            ) && effect.on(rooms)[other] == rooms[other]
            &&& !rooms.contains_key(other) ==> !effect.on(rooms).contains_key(other)
        },
        effect is Nothing ==> effect.on(rooms) == rooms,
{
}

/// The step fails, and its failure matters.
pub open spec fn fails_at(plan: Seq<StepView>, answers: spec_fn(int) -> Option<Seq<char>>, i: int) -> bool {
    answers(i) is Some && plan[i].on_failure is Abort
}

/// The managed rooms after the first `count` steps.
pub open spec fn rooms_after_steps(
    plan: Seq<StepView>,
    count: int,
    rooms: Map<Seq<char>, DefinitionView>,
) -> Map<Seq<char>, DefinitionView>
    decreases count,
{
    if count <= 0 {
        rooms
    } else {
        plan[count - 1].then_do.on(rooms_after_steps(plan, count - 1, rooms))
    }
}

proof fn lemma_from(
    plan: Seq<StepView>,
    from: int,
    count: int,
    rooms: Map<Seq<char>, DefinitionView>,
    answers: spec_fn(int) -> Option<Seq<char>>,
)
    requires
        0 <= from <= count <= plan.len(),
        forall|i: int| 0 <= i < count ==> !#[trigger] fails_at(plan, answers, i),
    ensures
        outcome(plan, from, rooms_after_steps(plan, from, rooms), answers) == outcome(
            plan,
            count,
            rooms_after_steps(plan, count, rooms),
            answers,
        ),
        carried_out(plan, from, answers) == Seq::new(
            (count - from) as nat,
            |i: int| plan[from + i].command,
        ) + carried_out(plan, count, answers),
    decreases count - from,
{
    let commands = Seq::new((count - from) as nat, |i: int| plan[from + i].command);
    if from < count {
        assert(!fails_at(plan, answers, from));
        lemma_from(plan, from + 1, count, rooms, answers);
        let rest = Seq::new((count - (from + 1)) as nat, |i: int| plan[(from + 1) + i].command);
        assert(commands =~= seq![plan[from].command] + rest);
        assert(carried_out(plan, from, answers) =~= commands + carried_out(plan, count, answers));
    } else {
        assert(commands + carried_out(plan, count, answers) =~= carried_out(plan, count, answers));
    }
}

/// A plan in which no failure matters is carried out to its end, command by command, and succeeds.
pub proof fn plan_without_failures_is_carried_out(
    plan: Seq<StepView>,
    rooms: Map<Seq<char>, DefinitionView>,
    answers: spec_fn(int) -> Option<Seq<char>>,
)
    requires
        forall|i: int| 0 <= i < plan.len() ==> !#[trigger] fails_at(plan, answers, i),
    ensures
        carried_out(plan, 0, answers).len() == plan.len(),
        forall|i: int|
            0 <= i < plan.len() ==> #[trigger] carried_out(plan, 0, answers)[i] == plan[i].command,
        outcome(plan, 0, rooms, answers) == (
            rooms_after_steps(plan, plan.len() as int, rooms),
            Ok::<(), Seq<char>>(()),
        ),
{
    lemma_from(plan, 0, plan.len() as int, rooms, answers);
}

/// The first failure that matters ends a plan: nothing behind it is carried out but the commands
/// that undo the operation, all of them and in their order. The error stands behind its prefix.
pub proof fn plan_ends_with_the_first_failure_that_matters(
    plan: Seq<StepView>,
    rooms: Map<Seq<char>, DefinitionView>,
    answers: spec_fn(int) -> Option<Seq<char>>,
    k: int,
)
    requires
        0 <= k < plan.len(),
        fails_at(plan, answers, k),
        forall|i: int| 0 <= i < k ==> !#[trigger] fails_at(plan, answers, i),
    ensures
        plan[k].on_failure matches OnFailureView::Abort { prefix, undo, effect } && {
            let commands = carried_out(plan, 0, answers);
            &&& commands.len() == k + 1 + undo.len()
            &&& forall|i: int| 0 <= i <= k ==> #[trigger] commands[i] == plan[i].command
            &&& commands.skip(k + 1) == undo
            &&& outcome(plan, 0, rooms, answers).1 == Err::<(), Seq<char>>(prefix + answers(k)->0)
            &&& outcome(plan, 0, rooms, answers).0 == effect.on(rooms_after_steps(plan, k, rooms))
        },
{
    lemma_from(plan, 0, k, rooms, answers);
    let commands = carried_out(plan, 0, answers);
    if let OnFailureView::Abort { prefix, undo, effect } = plan[k].on_failure {
        assert(commands.skip(k + 1) =~= undo);
    }
}

/// A run asks for the commands of its plan one by one. Success, and a failure that is ignored, lead
/// to the next; a failure that matters leads to the undoing, which no answer stops.
pub proof fn run_takes_one_command_at_a_time(run: RunView, answer: Option<Seq<char>>)
    ensures
        run.failure is None && run.next < run.plan.len() ==> run.current() == Some(
            run.plan[run.next].command,
        ),
        run.failure is None && run.next >= run.plan.len() ==> run.current() is None
            && run.result() is Ok && run.after(answer) == run,
        run.failure is None && run.next < run.plan.len() && (answer is None
            || run.plan[run.next].on_failure is Ignore) ==> run.after(answer) == (RunView {
            next: run.next + 1,
            ..run
        }),
        run.failure is None && run.next < run.plan.len() && answer is Some
            && run.plan[run.next].on_failure is Abort ==> run.after(answer).next == run.next
            && run.after(answer).undone == 0 && run.after(answer).result() == Err::<(), Seq<char>>(
            run.plan[run.next].on_failure->prefix + answer->0,
        ),
        run.failure is Some && run.plan[run.next].on_failure is Abort ==> {
            let undo = run.plan[run.next].on_failure->undo;
            &&& run.undone < undo.len() ==> run.current() == Some(undo[run.undone]) && run.after(
                answer,
            ) == (RunView { undone: run.undone + 1, ..run })
            &&& run.undone >= undo.len() ==> run.current() is None && run.after(answer) == run
            &&& run.result() is Err
        },
{
}

} // verus!
