//! Plans: what an operation has the server do, in which order, and what becomes of a failure.
//!
//! A plan is a list of commands. A [`Run`] walks through it: it names the command that is due,
//! takes the answer to it, and keeps the registry of managed rooms in step.
use crate::definition::{DefinitionView, ManagedChart, ManagedRoomDefinition, ChartView};
use crate::event::{CustomRoomEvent, EventView};
use crate::registry::RoomRegistry;
use crate::text::{join, text_option};
use vstd::prelude::*;

verus! {

/// Something that the server around the registry does.
#[derive(Debug)]
pub enum RoomCommand {
    /// Open a room without users.
    CreateRoom { room_id: String, hosted: bool, max_users: usize },
    /// Put the room into tournament mode.
    SetTournament { room_id: String },
    SetChart { room_id: String, chart: ManagedChart },
    ClearChart { room_id: String },
    SetHost { room_id: String, host_id: Option<i32> },
    SetMaxUsers { room_id: String, max_users: usize },
    /// Tell the room that it closes.
    CloseRoom { room_id: String },
    /// Take the room out of the open rooms.
    RemoveRoom { room_id: String },
    /// Keep the definition for the next start of the server.
    SaveDefinition { definition: ManagedRoomDefinition },
    /// Do not keep the definition for the next start of the server any more.
    DeleteDefinition { room_id: String },
    /// Come back to the room at `expires_at`, in milliseconds.
    ScheduleExpiry { room_id: String, expires_at: i64 },
    /// Report the event to the web administration.
    Emit { event: CustomRoomEvent },
    /// Tell the listeners of the administration interface what was done to the room.
    Publish { room_id: String, action: String },
}

/// A command, its texts as sequences.
pub enum CommandView {
    CreateRoom { room_id: Seq<char>, hosted: bool, max_users: usize },
    SetTournament { room_id: Seq<char> },
    SetChart { room_id: Seq<char>, chart: ChartView },
    ClearChart { room_id: Seq<char> },
    SetHost { room_id: Seq<char>, host_id: Option<i32> },
    SetMaxUsers { room_id: Seq<char>, max_users: usize },
    CloseRoom { room_id: Seq<char> },
    RemoveRoom { room_id: Seq<char> },
    SaveDefinition { definition: DefinitionView },
    DeleteDefinition { room_id: Seq<char> },
    ScheduleExpiry { room_id: Seq<char>, expires_at: i64 },
    Emit { event: EventView },
    Publish { room_id: Seq<char>, action: Seq<char> },
}

impl View for RoomCommand {
    type V = CommandView;

    open spec fn view(&self) -> CommandView {
        match *self {
            RoomCommand::CreateRoom { room_id, hosted, max_users } => CommandView::CreateRoom {
                room_id: room_id@,
                hosted,
                max_users,
            },
            RoomCommand::SetTournament { room_id } => CommandView::SetTournament {
                room_id: room_id@,
            },
            RoomCommand::SetChart { room_id, chart } => CommandView::SetChart {
                room_id: room_id@,
                chart: chart@,
            },
            RoomCommand::ClearChart { room_id } => CommandView::ClearChart { room_id: room_id@ },
            RoomCommand::SetHost { room_id, host_id } => CommandView::SetHost {
                room_id: room_id@,
                host_id,
            },
            RoomCommand::SetMaxUsers { room_id, max_users } => CommandView::SetMaxUsers {
                room_id: room_id@,
                max_users,
            },
            RoomCommand::CloseRoom { room_id } => CommandView::CloseRoom { room_id: room_id@ },
            RoomCommand::RemoveRoom { room_id } => CommandView::RemoveRoom { room_id: room_id@ },
            RoomCommand::SaveDefinition { definition } => CommandView::SaveDefinition {
                definition: definition@,
            },
            RoomCommand::DeleteDefinition { room_id } => CommandView::DeleteDefinition {
                room_id: room_id@,
            },
            RoomCommand::ScheduleExpiry { room_id, expires_at } => CommandView::ScheduleExpiry {
                room_id: room_id@,
                expires_at,
            },
            RoomCommand::Emit { event } => CommandView::Emit { event: event@ },
            RoomCommand::Publish { room_id, action } => CommandView::Publish {
                room_id: room_id@,
                action: action@,
            },
        }
    }
}

pub open spec fn command_list(commands: Seq<RoomCommand>) -> Seq<CommandView> {
    Seq::new(commands.len(), |i: int| commands[i]@)
}

/// What happens in the registry once a command is done.
#[derive(Debug)]
pub enum Effect {
    Nothing,
    Store { definition: ManagedRoomDefinition },
    Forget { room_id: String },
}

pub enum EffectView {
    Nothing,
    Store { definition: DefinitionView },
    Forget { room_id: Seq<char> },
}

impl View for Effect {
    type V = EffectView;

    open spec fn view(&self) -> EffectView {
        match *self {
            Effect::Nothing => EffectView::Nothing,
            Effect::Store { definition } => EffectView::Store { definition: definition@ },
            Effect::Forget { room_id } => EffectView::Forget { room_id: room_id@ },
        }
    }
}

impl EffectView {
    /// The managed rooms after the effect.
    pub open spec fn on(self, rooms: Map<Seq<char>, DefinitionView>) -> Map<
        Seq<char>,
        DefinitionView,
    > {
        match self {
            EffectView::Nothing => rooms,
            EffectView::Store { definition } => rooms.insert(definition.room_id, definition),
            EffectView::Forget { room_id } => rooms.remove(room_id),
        }
    }
}

impl Effect {
    fn apply(&self, registry: &mut RoomRegistry)
        ensures
            final(registry)@ == self@.on(old(registry)@),
    {
        match self {
            Effect::Nothing => {},
            Effect::Store { definition } => {
                registry.insert(definition.clone());
            },
            Effect::Forget { room_id } => {
                registry.remove(room_id.as_str());
            },
        }
    }
}

/// What a failed command means for the operation.
#[derive(Debug)]
pub enum OnFailure {
    /// Nothing: the operation goes on.
    Ignore,
    /// The operation fails with the error, put behind `prefix`. First `effect` happens in the
    /// registry and the commands in `undo` are carried out, whatever they are answered.
    Abort { prefix: String, undo: Vec<RoomCommand>, effect: Effect },
}

pub enum OnFailureView {
    Ignore,
    Abort { prefix: Seq<char>, undo: Seq<CommandView>, effect: EffectView },
}

impl View for OnFailure {
    type V = OnFailureView;

    open spec fn view(&self) -> OnFailureView {
        match *self {
            OnFailure::Ignore => OnFailureView::Ignore,
            OnFailure::Abort { prefix, undo, effect } => OnFailureView::Abort {
                prefix: prefix@,
                undo: command_list(undo@),
                effect: effect@,
            },
        }
    }
}

/// One step of a plan: a command, and what follows from the answer to it.
#[derive(Debug)]
pub struct PlanStep {
    pub command: RoomCommand,
    pub on_failure: OnFailure,
    /// What happens in the registry when the operation goes on.
    pub then_do: Effect,
}

pub struct StepView {
    pub command: CommandView,
    pub on_failure: OnFailureView,
    pub then_do: EffectView,
}

impl View for PlanStep {
    type V = StepView;

    open spec fn view(&self) -> StepView {
        StepView {
            command: self.command@,
            on_failure: self.on_failure@,
            then_do: self.then_do@,
        }
    }
}

pub open spec fn plan_view(plan: Seq<PlanStep>) -> Seq<StepView> {
    Seq::new(plan.len(), |i: int| plan[i]@)
}

/// The state of an operation: how far it has come in its plan, and with which error it fails, if
/// a command has made it fail.
pub struct RunView {
    pub plan: Seq<StepView>,
    pub next: int,
    pub failure: Option<Seq<char>>,
    /// How many commands were carried out to undo the operation.
    pub undone: int,
}

/// The run that is about to begin with a plan.
pub open spec fn start_of(plan: Seq<StepView>) -> RunView {
    RunView { plan, next: 0, failure: None, undone: 0 }
}

impl RunView {
    /// The commands that undo the operation after a failure at the present step.
    pub open spec fn undo(self) -> Seq<CommandView> {
        match self.plan[self.next].on_failure {
            OnFailureView::Ignore => Seq::empty(),
            OnFailureView::Abort { undo, .. } => undo,
        }
    }

    /// The command that is due; none where the operation is over.
    pub open spec fn current(self) -> Option<CommandView> {
        match self.failure {
            None => if self.next < self.plan.len() {
                Some(self.plan[self.next].command)
            } else {
                None
            },
            Some(_) => if self.undone < self.undo().len() {
                Some(self.undo()[self.undone])
            } else {
                None
            },
        }
    }

    /// How the operation ends, once it is over.
    pub open spec fn result(self) -> Result<(), Seq<char>> {
        match self.failure {
            None => Ok(()),
            Some(error) => Err(error),
        }
    }

    /// The run after the answer to the command that is due: `None` where it was carried out, else
    /// the error.
    pub open spec fn after(self, answer: Option<Seq<char>>) -> RunView {
        if self.current() is None {
            self
        } else if self.failure is Some {
            RunView { undone: self.undone + 1, ..self }
        } else {
            match (answer, self.plan[self.next].on_failure) {
                (Some(error), OnFailureView::Abort { prefix, .. }) => RunView {
                    failure: Some(prefix + error),
                    undone: 0,
                    ..self
                },
                _ => RunView { next: self.next + 1, ..self },
            }
        }
    }

    /// The managed rooms after the answer to the command that is due.
    pub open spec fn rooms_after(
        self,
        answer: Option<Seq<char>>,
        rooms: Map<Seq<char>, DefinitionView>,
    ) -> Map<Seq<char>, DefinitionView> {
        if self.current() is None || self.failure is Some {
            rooms
        } else {
            match (answer, self.plan[self.next].on_failure) {
                (Some(_), OnFailureView::Abort { effect, .. }) => effect.on(rooms),
                _ => self.plan[self.next].then_do.on(rooms),
            }
        }
    }
}

/// How a plan ends from the step `from` on, and the managed rooms at its end, if the steps are
/// answered as `answers` says.
pub open spec fn outcome(
    plan: Seq<StepView>,
    from: int,
    rooms: Map<Seq<char>, DefinitionView>,
    answers: spec_fn(int) -> Option<Seq<char>>,
) -> (Map<Seq<char>, DefinitionView>, Result<(), Seq<char>>)
    decreases plan.len() - from,
{
    if from >= plan.len() {
        (rooms, Ok(()))
    } else {
        match (answers(from), plan[from].on_failure) {
            (Some(error), OnFailureView::Abort { prefix, effect, .. }) => (
                effect.on(rooms),
                Err(prefix + error),
            ),
            _ => outcome(plan, from + 1, plan[from].then_do.on(rooms), answers),
        }
    }
}

/// The commands that are carried out from the step `from` on, those that undo included.
pub open spec fn carried_out(
    plan: Seq<StepView>,
    from: int,
    answers: spec_fn(int) -> Option<Seq<char>>,
) -> Seq<CommandView>
    decreases plan.len() - from,
{
    if from >= plan.len() {
        Seq::empty()
    } else {
        seq![plan[from].command] + match (answers(from), plan[from].on_failure) {
            (Some(_), OnFailureView::Abort { undo, .. }) => undo,
            _ => carried_out(plan, from + 1, answers),
        }
    }
}

impl RunView {
    /// The run at its end, the managed rooms then, and the commands that were due on the way, if
    /// the steps of the plan are answered as `answers` says.
    pub open spec fn to_end(
        self,
        rooms: Map<Seq<char>, DefinitionView>,
        answers: spec_fn(int) -> Option<Seq<char>>,
    ) -> (RunView, Map<Seq<char>, DefinitionView>, Seq<CommandView>)
        decreases
                if self.failure is None {
                    self.plan.len() - self.next + 1
                } else {
                    0
                },
                if self.failure is None {
                    0
                } else {
                    self.undo().len() - self.undone
                },
    {
        match self.current() {
            None => (self, rooms, Seq::empty()),
            Some(command) => {
                let answer = answers(self.next);
                let (end, then_rooms, commands) = self.after(answer).to_end(
                    self.rooms_after(answer, rooms),
                    answers,
                );
                (end, then_rooms, seq![command] + commands)
            },
        }
    }
}

proof fn lemma_undo_to_end(
    run: RunView,
    rooms: Map<Seq<char>, DefinitionView>,
    answers: spec_fn(int) -> Option<Seq<char>>,
)
    requires
        run.failure is Some,
        0 <= run.undone <= run.undo().len(),
    ensures
        ({
            let (end, then_rooms, commands) = run.to_end(rooms, answers);
            &&& end.current() is None
            &&& end.failure == run.failure
            &&& then_rooms == rooms
            &&& commands == run.undo().skip(run.undone)
        }),
    decreases run.undo().len() - run.undone,
{
    if run.undone < run.undo().len() {
        let answer = answers(run.next);
        let next = run.after(answer);
        lemma_undo_to_end(next, rooms, answers);
        assert(seq![run.undo()[run.undone]] + run.undo().skip(run.undone + 1) =~= run.undo().skip(
            run.undone,
        ));
    } else {
        assert(run.undo().skip(run.undone) =~= Seq::empty());
    }
}

proof fn lemma_run_to_end(
    run: RunView,
    rooms: Map<Seq<char>, DefinitionView>,
    answers: spec_fn(int) -> Option<Seq<char>>,
)
    requires
        run.failure is None,
        run.undone == 0,
        run.next <= run.plan.len(),
    ensures
        ({
            let (end, then_rooms, commands) = run.to_end(rooms, answers);
            &&& end.current() is None
            &&& (then_rooms, end.result()) == outcome(run.plan, run.next, rooms, answers)
            &&& commands == carried_out(run.plan, run.next, answers)
        }),
    decreases run.plan.len() - run.next,
{
    if run.next < run.plan.len() {
        let answer = answers(run.next);
        let next = run.after(answer);
        let then_rooms = run.rooms_after(answer, rooms);
        if next.failure is Some {
            lemma_undo_to_end(next, then_rooms, answers);
            assert(next.undo().skip(0) =~= next.undo());
        } else {
            lemma_run_to_end(next, then_rooms, answers);
        }
    }
}

/// A run that begins with a plan comes to an end. It ends as the plan says, leaves the managed
/// rooms that the plan leaves, and has the commands of the plan carried out, in order.
pub proof fn run_follows_its_plan(
    plan: Seq<StepView>,
    rooms: Map<Seq<char>, DefinitionView>,
    answers: spec_fn(int) -> Option<Seq<char>>,
)
    ensures
        ({
            let (end, then_rooms, commands) = start_of(plan).to_end(rooms, answers);
            &&& end.current() is None
            &&& (then_rooms, end.result()) == outcome(plan, 0, rooms, answers)
            &&& commands == carried_out(plan, 0, answers)
        }),
{
    lemma_run_to_end(start_of(plan), rooms, answers);
}

/// An operation under way.
#[derive(Debug)]
pub struct Run {
    plan: Vec<PlanStep>,
    next: usize,
    failure: Option<String>,
    undone: usize,
}

/// The answer to a command as an optional error.
pub open spec fn error_of(answer: Result<(), String>) -> Option<Seq<char>> {
    match answer {
        Ok(_) => None,
        Err(e) => Some(e@),
    }
}

impl View for Run {
    type V = RunView;

    closed spec fn view(&self) -> RunView {
        RunView {
            plan: plan_view(self.plan@),
            next: self.next as int,
            failure: text_option(self.failure),
            undone: self.undone as int,
        }
    }
}

impl Run {
    #[verifier::type_invariant]
    spec fn well_formed(self) -> bool {
        &&& self.next <= self.plan@.len()
        &&& self.failure is Some ==> {
            &&& self.next < self.plan@.len()
            &&& self.plan@[self.next as int].on_failure matches OnFailure::Abort { undo, .. }
            &&& self.undone <= undo@.len()
        }
    }

    /// Begins with a plan.
    pub fn start(plan: Vec<PlanStep>) -> (r: Self)
        ensures
            r@ == start_of(plan_view(plan@)),
    {
        Run { plan, next: 0, failure: None, undone: 0 }
    }

    /// The command that is due; `None` where the operation is over.
    pub fn current(&self) -> (r: Option<&RoomCommand>)
        ensures
            r is Some <==> self@.current() is Some,
            r matches Some(command) ==> self@.current() == Some(command@),
    {
        proof {
            use_type_invariant(self);
        }
        if self.failure.is_none() {
            if self.next < self.plan.len() {
                return Some(&self.plan[self.next].command);
            }
            return None;
        }
        match &self.plan[self.next].on_failure {
            OnFailure::Ignore => None,
            OnFailure::Abort { undo, .. } => {
                if self.undone < undo.len() {
                    Some(&undo[self.undone])
                } else {
                    None
                }
            },
        }
    }

    /// How the operation ended; `None` while a command is due.
    pub fn result(&self) -> (r: Option<Result<(), String>>)
        ensures
            r is Some <==> self@.current() is None,
            r matches Some(Ok(_)) ==> self@.result() is Ok,
            r matches Some(Err(e)) ==> self@.result() == Err::<(), _>(e@),
    {
        if self.current().is_some() {
            return None;
        }
        match &self.failure {
            None => Some(Ok(())),
            Some(error) => Some(Err(error.clone())),
        }
    }

    /// Takes the answer to the command that is due. A run that is over stays as it is.
    pub fn reply(&mut self, registry: &mut RoomRegistry, answer: Result<(), String>)
        ensures
            final(self)@ == old(self)@.after(error_of(answer)),
            final(registry)@ == old(self)@.rooms_after(error_of(answer), old(registry)@),
    {
        proof {
            use_type_invariant(&*self);
        }
        if self.current().is_none() {
            return;
        }
        if self.failure.is_some() {
            proof {
                let undo = self.plan@[self.next as int].on_failure->undo;
                assert(self.undone < undo.len());
            }
            self.undone = self.undone + 1;
            return;
        }
        if let Err(error) = &answer {
            if let OnFailure::Abort { prefix, effect, .. } = &self.plan[self.next].on_failure {
                effect.apply(registry);
                let failure: String = join(prefix.as_str(), error.as_str());
                self.undone = 0;
                self.failure = Some(failure);
                return;
            }
        }
        assert(self.next < self.plan.len());
        self.plan[self.next].then_do.apply(registry);
        self.next = self.next + 1;
    }
}

} // verus!
