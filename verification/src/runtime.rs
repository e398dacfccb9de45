//! The operations on managed rooms: who may do what, and the plan that carries it out.
use crate::definition::{
    chart_option, same_chart_option, ChartMode, ChartView, DefinitionView, ManagedChart,
    ManagedRoomDefinition,
};
use crate::event::{CustomRoomEvent, EventView};
use crate::ids::{distinct_counts_members, distinct_ids, has_id};
use crate::json::{json_has_string, json_object_text, object_text};
use crate::plan::{
    command_list, plan_view, start_of, CommandView, Effect, EffectView, OnFailure, OnFailureView,
    PlanStep, RoomCommand, Run, RunView, StepView,
};
use crate::persistence::definition_list;
use crate::registry::RoomRegistry;
use crate::room_id::{is_room_id, room_id_ok};
use crate::text::same_text;
use rand::RngExt;
use vstd::prelude::*;

verus! {

/// What an open room is doing.
#[derive(Debug, Clone, Copy, PartialEq, Eq, Structural)]
pub enum RoomPhase {
    SelectingChart,
    WaitingForReady,
    Playing,
}

/// An open room at one moment.
#[derive(Debug)]
pub struct RoomSnapshot {
    pub phase: RoomPhase,
    pub users: Vec<i32>,
    pub monitors: Vec<i32>,
}

pub struct SnapshotView {
    pub phase: RoomPhase,
    pub users: Seq<i32>,
    pub monitors: Seq<i32>,
}

impl View for RoomSnapshot {
    type V = SnapshotView;

    open spec fn view(&self) -> SnapshotView {
        SnapshotView { phase: self.phase, users: self.users@, monitors: self.monitors@ }
    }
}

pub open spec fn snapshot_option(snapshot: Option<&RoomSnapshot>) -> Option<SnapshotView> {
    match snapshot {
        Some(s) => Some(s@),
        None => None,
    }
}

/// Whether a creation made a room or found the one that it asks for.
#[derive(Debug, Clone, Copy, PartialEq, Eq, Structural)]
pub enum CreateOutcome {
    Created,
    Existing,
}

/// The identifiers of the open rooms.
pub open spec fn names(open: Seq<String>) -> Seq<Seq<char>> {
    Seq::new(open.len(), |i: int| open[i]@)
}

/// Whether the room is open.
pub(crate) fn is_open(open: &Vec<String>, room_id: &str) -> (r: bool)
    ensures
        r == names(open@).contains(room_id@),
{
    let mut i: usize = 0;
    while i < open.len()
        invariant
            i <= open@.len(),
            forall|j: int| 0 <= j < i ==> #[trigger] names(open@)[j] != room_id@,
        decreases open@.len() - i,
    {
        if same_text(open[i].as_str(), room_id) {
            assert(names(open@)[i as int] == room_id@);
            return true;
        }
        assert(names(open@)[i as int] == open@[i as int]@);
        i = i + 1;
    }
    false
}

// ---- drawing a chart ----

/// Calls `random_range` on `rand::rng()`, the thread's random number generator. Whatever number
/// comes out, it lies in the range `0..n`.
#[verifier::external_body]
fn random_index(n: usize) -> (r: usize)
    requires
        n > 0,
    ensures
        r < n,
{
    rand::rng().random_range(0..n)
}

/// `drawn` can be drawn from the pool: one of its charts, or none where the pool is empty.
pub open spec fn drawable(pool: Seq<ChartView>, drawn: Option<ChartView>) -> bool {
    match drawn {
        Some(chart) => pool.contains(chart),
        None => pool.len() == 0,
    }
}

/// The chart at a place in the room's pool.
pub fn pool_chart_at(definition: &ManagedRoomDefinition, index: usize) -> (r: Option<ManagedChart>)
    ensures
        r is Some <==> index < definition@.chart_pool.len(),
        r matches Some(chart) ==> chart@ == definition@.chart_pool[index as int],
{
    if index < definition.chart_pool.len() {
        Some(definition.chart_pool[index].clone())
    } else {
        None
    }
}

/// Draws a chart from the room's pool. Which one it is, is left to chance.
pub fn choose_pool_chart(definition: &ManagedRoomDefinition) -> (r: Option<ManagedChart>)
    ensures
        drawable(definition@.chart_pool, chart_option(r)),
{
    if definition.chart_pool.is_empty() {
        return None;
    }
    let index: usize = random_index(definition.chart_pool.len());
    assert(definition@.chart_pool.contains(definition@.chart_pool[index as int]));
    pool_chart_at(definition, index)
}

// ---- building plans ----

/// A step whose failure does not matter.
pub open spec fn lenient(command: CommandView) -> StepView {
    StepView { command, on_failure: OnFailureView::Ignore, then_do: EffectView::Nothing }
}

/// A step whose failure ends the operation, with nothing to undo.
pub open spec fn strict(command: CommandView, prefix: Seq<char>, then_do: EffectView) -> StepView {
    StepView {
        command,
        on_failure: OnFailureView::Abort {
            prefix,
            undo: Seq::empty(),
            effect: EffectView::Nothing,
        },
        then_do,
    }
}

fn lenient_step(command: RoomCommand) -> (r: PlanStep)
    ensures
        r@ == lenient(command@),
{
    PlanStep { command, on_failure: OnFailure::Ignore, then_do: Effect::Nothing }
}

fn strict_step(command: RoomCommand, prefix: &str, then_do: Effect) -> (r: PlanStep)
    ensures
        r@ == strict(command@, prefix@, then_do@),
{
    let undo: Vec<RoomCommand> = Vec::new();
    let r = PlanStep {
        command,
        on_failure: OnFailure::Abort {
            prefix: prefix.to_string(),
            undo,
            effect: Effect::Nothing,
        },
        then_do,
    };
    assert(command_list(undo@) =~= Seq::empty());
    r
}

pub open spec fn persist_prefix() -> Seq<char> {
    "persist-hosted-room-failed: "@
}

pub open spec fn delete_prefix() -> Seq<char> {
    "delete-hosted-room-failed: "@
}

// ---- creating and restoring ----

/// The chart is left to chance, and none is set yet.
pub open spec fn wants_draw(d: DefinitionView) -> bool {
    d.chart_mode == ChartMode::PoolRandom && d.chart is None
}

/// The definition that is installed: with the drawn chart, where one is wanted.
pub open spec fn with_drawn(d: DefinitionView, drawn: Option<ChartView>) -> DefinitionView {
    if wants_draw(d) {
        DefinitionView { chart: drawn, ..d }
    } else {
        d
    }
}

/// A step of an installation after the room has been opened: its failure closes the room again.
pub open spec fn installing(command: CommandView, prefix: Seq<char>, room_id: Seq<char>, then_do: EffectView) -> StepView {
    StepView {
        command,
        on_failure: OnFailureView::Abort {
            prefix,
            undo: seq![CommandView::RemoveRoom { room_id }],
            effect: EffectView::Forget { room_id },
        },
        then_do,
    }
}

/// Opens the room, sets it up, and then puts it into the registry.
pub open spec fn install_plan(installed: DefinitionView) -> Seq<StepView> {
    let id = installed.room_id;
    let nothing = EffectView::Nothing;
    seq![
        strict(
            CommandView::CreateRoom {
                room_id: id,
                hosted: installed.is_hosted(),
                max_users: installed.max_users,
            },
            ""@,
            nothing,
        ),
    ] + (if installed.is_hosted() {
        Seq::empty()
    } else {
        seq![installing(CommandView::SetTournament { room_id: id }, ""@, id, nothing)]
    }) + (match installed.chart {
        Some(chart) => seq![
            installing(CommandView::SetChart { room_id: id, chart }, ""@, id, nothing),
        ],
        None => Seq::empty(),
    }) + seq![
        installing(
            CommandView::SetHost { room_id: id, host_id: installed.host_id },
            ""@,
            id,
            EffectView::Store { definition: installed },
        ),
    ]
}

/// After the installation a hosted room is saved, and a reserved one gets its timer. What is
/// saved is the definition as it was agreed, without a drawn chart.
pub open spec fn create_plan(d: DefinitionView, drawn: Option<ChartView>) -> Seq<StepView> {
    install_plan(with_drawn(d, drawn)) + (if d.is_hosted() {
        seq![
            installing(
                CommandView::SaveDefinition { definition: d },
                persist_prefix(),
                d.room_id,
                EffectView::Nothing,
            ),
        ]
    } else {
        match d.expires_at {
            Some(expires_at) => seq![
                lenient(CommandView::ScheduleExpiry { room_id: d.room_id, expires_at }),
            ],
            None => Seq::empty(),
        }
    })
}

fn installing_step(command: RoomCommand, prefix: &str, room_id: &String, then_do: Effect) -> (r: PlanStep)
    ensures
        r@ == installing(command@, prefix@, room_id@, then_do@),
{
    let mut undo: Vec<RoomCommand> = Vec::new();
    undo.push(RoomCommand::RemoveRoom { room_id: room_id.clone() });
    assert(command_list(undo@) =~= seq![CommandView::RemoveRoom { room_id: room_id@ }]);
    PlanStep {
        command,
        on_failure: OnFailure::Abort {
            prefix: prefix.to_string(),
            undo,
            effect: Effect::Forget { room_id: room_id.clone() },
        },
        then_do,
    }
}

/// The plan that opens a room, sets it up and puts it into the registry. `drawn` is the chart to
/// begin with where the chart is left to chance and none is set yet.
pub fn install_definition(definition: &ManagedRoomDefinition, drawn: Option<ManagedChart>) -> (r: Vec<PlanStep>)
    ensures
        plan_view(r@) == install_plan(with_drawn(definition@, chart_option(drawn))),
{
    let mut installed: ManagedRoomDefinition = definition.clone();
    if installed.chart_mode == ChartMode::PoolRandom && installed.chart.is_none() {
        installed.chart = drawn;
    }
    let ghost d = installed@;
    assert(d =~= with_drawn(definition@, chart_option(drawn)));
    let id: String = installed.room_id.clone();
    let mut plan: Vec<PlanStep> = Vec::new();
    plan.push(
        strict_step(
            RoomCommand::CreateRoom {
                room_id: id.clone(),
                hosted: installed.is_hosted(),
                max_users: installed.max_users,
            },
            "",
            Effect::Nothing,
        ),
    );
    if !installed.is_hosted() {
        plan.push(
            installing_step(
                RoomCommand::SetTournament { room_id: id.clone() },
                "",
                &id,
                Effect::Nothing,
            ),
        );
    }
    match &installed.chart {
        Some(chart) => {
            plan.push(
                installing_step(
                    RoomCommand::SetChart { room_id: id.clone(), chart: chart.clone() },
                    "",
                    &id,
                    Effect::Nothing,
                ),
            );
        },
        None => {},
    }
    let host_id: Option<i32> = installed.host_id;
    plan.push(
        installing_step(
            RoomCommand::SetHost { room_id: id.clone(), host_id },
            "",
            &id,
            Effect::Store { definition: installed },
        ),
    );
    assert(plan_view(plan@) =~= install_plan(d));
    plan
}

/// What is decided about the creation of a room.
pub enum CreateDecision {
    Refused { error: Seq<char> },
    Existing,
    Install,
}

/// A definition that is not accepted is refused. A managed room under the same identifier is
/// the wanted one if it has the same configuration; else the identifier is taken, as it is by any
/// other open room. The number of open rooms may be limited.
pub open spec fn create_decision(
    rooms: Map<Seq<char>, DefinitionView>,
    open: Seq<Seq<char>>,
    max_rooms: Option<usize>,
    d: DefinitionView,
) -> CreateDecision {
    let n = d.normal_form();
    if d.refusal() is Some {
        CreateDecision::Refused { error: d.refusal()->0 }
    } else if rooms.contains_key(d.room_id) && rooms[d.room_id].same_configuration(n) {
        CreateDecision::Existing
    } else if rooms.contains_key(d.room_id) || open.contains(d.room_id) {
        CreateDecision::Refused { error: "room-id-occupied"@ }
    } else if max_rooms is Some && open.len() >= max_rooms->0 {
        CreateDecision::Refused { error: "rooms-limit-reached"@ }
    } else {
        CreateDecision::Install
    }
}

/// What is decided about the creation of a room; with the accepted definition, in normal form,
/// where it is to be installed.
#[derive(Debug)]
pub enum Admission {
    Refused { error: String },
    Existing,
    Install { definition: ManagedRoomDefinition },
}

/// Decides about the creation of a room.
pub fn admit_creation(
    registry: &RoomRegistry,
    open: &Vec<String>,
    max_rooms: Option<usize>,
    definition: ManagedRoomDefinition,
) -> (r: Admission)
    ensures
        match create_decision(registry@, names(open@), max_rooms, definition@) {
            CreateDecision::Refused { error } => r matches Admission::Refused { error: e } && e@
                == error,
            CreateDecision::Existing => r is Existing,
            CreateDecision::Install => r matches Admission::Install { definition: n } && n@
                == definition@.normal_form(),
        },
{
    let definition: ManagedRoomDefinition = match definition.validate_and_normalize() {
        Ok(n) => n,
        Err(error) => {
            return Admission::Refused { error };
        },
    };
    if let Some(existing) = registry.get(definition.room_id.as_str()) {
        if existing.same_configuration(&definition) {
            return Admission::Existing;
        }
        return Admission::Refused { error: "room-id-occupied".to_string() };
    }
    if is_open(open, definition.room_id.as_str()) {
        return Admission::Refused { error: "room-id-occupied".to_string() };
    }
    if let Some(limit) = max_rooms {
        if open.len() >= limit {
            return Admission::Refused { error: "rooms-limit-reached".to_string() };
        }
    }
    Admission::Install { definition }
}

/// Begins the creation of an admitted room, with the chart that was drawn for it.
pub fn begin_creation(definition: ManagedRoomDefinition, drawn: Option<ManagedChart>) -> (r: Run)
    ensures
        r@ == start_of(create_plan(definition@, chart_option(drawn))),
{
    let ghost drawn_view = chart_option(drawn);
    let mut plan: Vec<PlanStep> = install_definition(&definition, drawn);
    if definition.is_hosted() {
        let id: String = definition.room_id.clone();
        let ghost d = definition@;
        plan.push(
            installing_step(
                RoomCommand::SaveDefinition { definition },
                "persist-hosted-room-failed: ",
                &id,
                Effect::Nothing,
            ),
        );
        assert(plan_view(plan@) =~= create_plan(d, drawn_view));
    } else {
        if let Some(expires_at) = definition.expires_at {
            plan.push(
                lenient_step(
                    RoomCommand::ScheduleExpiry { room_id: definition.room_id.clone(), expires_at },
                ),
            );
        }
        assert(plan_view(plan@) =~= create_plan(definition@, drawn_view));
    }
    Run::start(plan)
}

/// Draws a chart for an installation that wants one.
fn draw_if_wanted(definition: &ManagedRoomDefinition) -> (r: Option<ManagedChart>)
    ensures
        wants_draw(definition@) ==> drawable(definition@.chart_pool, chart_option(r)),
{
    if definition.chart_mode == ChartMode::PoolRandom && definition.chart.is_none() {
        choose_pool_chart(definition)
    } else {
        None
    }
}

/// The creation of a room: over before it began, or under way.
#[derive(Debug)]
pub enum Creation {
    Refused { error: String },
    Existing,
    Started { run: Run },
}

/// The run creates the room `d`, with a chart out of its pool where one is wanted.
pub open spec fn begins_creation(run: RunView, d: DefinitionView) -> bool {
    exists|drawn: Option<ChartView>|
        (wants_draw(d) ==> drawable(d.chart_pool, drawn)) && run == start_of(
            #[trigger] create_plan(d, drawn),
        )
}

/// Creates a room: decides about it, draws a chart where one is wanted, and begins.
pub fn create(
    registry: &RoomRegistry,
    open: &Vec<String>,
    max_rooms: Option<usize>,
    definition: ManagedRoomDefinition,
) -> (r: Creation)
    ensures
        match create_decision(registry@, names(open@), max_rooms, definition@) {
            CreateDecision::Refused { error } => r matches Creation::Refused { error: e } && e@
                == error,
            CreateDecision::Existing => r is Existing,
            CreateDecision::Install => r matches Creation::Started { run } && begins_creation(
                run@,
                definition@.normal_form(),
            ),
        },
{
    match admit_creation(registry, open, max_rooms, definition) {
        Admission::Refused { error } => Creation::Refused { error },
        Admission::Existing => Creation::Existing,
        Admission::Install { definition: n } => {
            let drawn: Option<ManagedChart> = draw_if_wanted(&n);
            let ghost drawn_view = chart_option(drawn);
            let run: Run = begin_creation(n, drawn);
            assert(run@ == start_of(create_plan(definition@.normal_form(), drawn_view)));
            Creation::Started { run }
        },
    }
}

/// A saved record brings its room back: it is accepted, is of a hosted room, and no open room has
/// its identifier.
pub open spec fn restores(record: DefinitionView, open: Seq<Seq<char>>) -> bool {
    &&& record.refusal() is None
    &&& record.is_hosted()
    &&& !open.contains(record.room_id)
}

/// The run installs the room `d`, with a chart out of its pool where one is wanted.
pub open spec fn begins_installation(run: RunView, d: DefinitionView) -> bool {
    exists|drawn: Option<ChartView>|
        (wants_draw(d) ==> drawable(d.chart_pool, drawn)) && run == start_of(
            #[trigger] install_plan(with_drawn(d, drawn)),
        )
}

/// The definition that a saved record brings back, if it does.
pub fn restorable(record: ManagedRoomDefinition, open: &Vec<String>) -> (r: Option<ManagedRoomDefinition>)
    ensures
        r is Some <==> restores(record@, names(open@)),
        r matches Some(definition) ==> definition@ == record@.normal_form(),
{
    match record.validate_and_normalize() {
        Ok(definition) => {
            if !definition.is_hosted() || is_open(open, definition.room_id.as_str()) {
                None
            } else {
                Some(definition)
            }
        },
        Err(_) => None,
    }
}

/// Begins to install the room of a saved record, if the record brings it back.
pub fn restore_room(record: ManagedRoomDefinition, open: &Vec<String>) -> (r: Option<Run>)
    ensures
        r is Some <==> restores(record@, names(open@)),
        r matches Some(run) ==> begins_installation(run@, record@.normal_form()),
{
    match restorable(record, open) {
        Some(definition) => {
            let drawn: Option<ManagedChart> = draw_if_wanted(&definition);
            let ghost drawn_view = chart_option(drawn);
            let plan: Vec<PlanStep> = install_definition(&definition, drawn);
            let run: Run = Run::start(plan);
            assert(run@ == start_of(install_plan(with_drawn(record@.normal_form(), drawn_view))));
            Some(run)
        },
        None => None,
    }
}

/// A walk over the saved records: the next one is the record at `next`.
pub struct RestorationView {
    pub records: Seq<DefinitionView>,
    pub next: int,
}

impl RestorationView {
    /// The walk behind the next record; at the end it stays where it is.
    pub open spec fn after(self) -> RestorationView {
        if self.next < self.records.len() {
            RestorationView { next: self.next + 1, ..self }
        } else {
            self
        }
    }
}

/// The restoration of the saved rooms after a start of the server, record by record.
#[derive(Debug)]
pub struct Restoration {
    records: Vec<ManagedRoomDefinition>,
    next: usize,
}

impl View for Restoration {
    type V = RestorationView;

    closed spec fn view(&self) -> RestorationView {
        RestorationView { records: definition_list(self.records@), next: self.next as int }
    }
}

/// What becomes of the next saved record.
#[derive(Debug)]
pub enum RestoreStep {
    /// There is none.
    Done,
    /// It does not bring its room back.
    Passed { room_id: String },
    /// Its room is being installed.
    Install { room_id: String, run: Run },
}

/// `r` is what becomes of the next record of a walk.
pub open spec fn leads_to_restoration(
    r: RestoreStep,
    walk: RestorationView,
    open: Seq<Seq<char>>,
) -> bool {
    if walk.next >= walk.records.len() {
        r is Done
    } else {
        let record = walk.records[walk.next];
        if restores(record, open) {
            r matches RestoreStep::Install { room_id, run } && room_id@ == record.room_id
                && begins_installation(run@, record.normal_form())
        } else {
            r matches RestoreStep::Passed { room_id } && room_id@ == record.room_id
        }
    }
}

/// Begins to restore the saved rooms. If they could not be loaded, that is the error, and nothing
/// is restored.
pub fn restore_hosted_rooms(loaded: Result<Vec<ManagedRoomDefinition>, String>) -> (r: Result<
    Restoration,
    String,
>)
    ensures
        match loaded {
            Ok(records) => r matches Ok(walk) && walk@ == (RestorationView {
                records: definition_list(records@),
                next: 0,
            }),
            Err(error) => r matches Err(e) && e@ == error@,
        },
{
    match loaded {
        Ok(records) => Ok(Restoration { records, next: 0 }),
        Err(error) => Err(error),
    }
}

impl Restoration {
    #[verifier::type_invariant]
    spec fn well_formed(self) -> bool {
        self.next <= self.records@.len()
    }

    /// Takes up the next record, while the rooms in `open` are open. Whatever becomes of it, the
    /// walk goes on behind it.
    pub fn restore_next(&mut self, open: &Vec<String>) -> (r: RestoreStep)
        ensures
            final(self)@ == old(self)@.after(),
            leads_to_restoration(r, old(self)@, names(open@)),
    {
        proof {
            use_type_invariant(&*self);
        }
        if self.next >= self.records.len() {
            return RestoreStep::Done;
        }
        let record: ManagedRoomDefinition = self.records[self.next].clone();
        self.next = self.next + 1;
        let room_id: String = record.room_id.clone();
        match restore_room(record, open) {
            Some(run) => RestoreStep::Install { room_id, run },
            None => RestoreStep::Passed { room_id },
        }
    }
}

// ---- updating ----

/// Why the update of a hosted room is refused; `None` where it is not. The room must be a hosted
/// one that is open, must be between two rounds, and must have place for the users in it.
pub open spec fn update_refusal(
    rooms: Map<Seq<char>, DefinitionView>,
    d: DefinitionView,
    snapshot: Option<SnapshotView>,
) -> Option<Seq<char>> {
    if d.refusal() is Some {
        d.refusal()
    } else if !d.is_hosted() || !rooms.contains_key(d.room_id) || !rooms[d.room_id].is_hosted()
        || snapshot is None {
        Some("room-not-found"@)
    } else if snapshot->0.phase != RoomPhase::SelectingChart {
        Some("hosted-room-busy"@)
    } else if d.max_users < snapshot->0.users.len() {
        Some("hosted-room-capacity-below-users"@)
    } else {
        None
    }
}

/// The commands that take an open room from one definition to another.
pub open spec fn changes(from: DefinitionView, to: DefinitionView) -> Seq<CommandView> {
    let id = to.room_id;
    (if from.host_id != to.host_id {
        seq![CommandView::SetHost { room_id: id, host_id: to.host_id }]
    } else {
        Seq::empty()
    }) + (if from.chart != to.chart {
        seq![
            match to.chart {
                Some(chart) => CommandView::SetChart { room_id: id, chart },
                None => CommandView::ClearChart { room_id: id },
            },
        ]
    } else {
        Seq::empty()
    }) + (if from.max_users != to.max_users {
        seq![CommandView::SetMaxUsers { room_id: id, max_users: to.max_users }]
    } else {
        Seq::empty()
    })
}

/// The strict steps for a list of commands.
pub open spec fn strictly(commands: Seq<CommandView>) -> Seq<StepView> {
    Seq::new(commands.len(), |i: int| strict(commands[i], ""@, EffectView::Nothing))
}

pub open spec fn host_event(room_id: Seq<char>, host_id: Option<i32>) -> Seq<StepView> {
    match host_id {
        Some(host_id) => seq![
            lenient(
                CommandView::Emit { event: EventView::HostChanged { room_id, host_id } },
            ),
        ],
        None => Seq::empty(),
    }
}

/// The open room is changed, the new definition is saved, and only then does it stand in the
/// registry and is it announced. If it cannot be saved, the open room is changed back.
pub open spec fn update_plan(previous: DefinitionView, d: DefinitionView) -> Seq<StepView> {
    strictly(changes(previous, d)) + seq![
        StepView {
            command: CommandView::SaveDefinition { definition: d },
            on_failure: OnFailureView::Abort {
                prefix: persist_prefix(),
                undo: changes(d, previous),
                effect: EffectView::Nothing,
            },
            then_do: EffectView::Store { definition: d },
        },
    ] + (if previous.host_id != d.host_id {
        host_event(d.room_id, d.host_id)
    } else {
        Seq::empty()
    }) + seq![lenient(CommandView::Publish { room_id: d.room_id, action: "updated"@ })]
}

fn change_commands(from: &ManagedRoomDefinition, to: &ManagedRoomDefinition) -> (r: Vec<RoomCommand>)
    ensures
        command_list(r@) == changes(from@, to@),
{
    let mut r: Vec<RoomCommand> = Vec::new();
    if from.host_id != to.host_id {
        r.push(RoomCommand::SetHost { room_id: to.room_id.clone(), host_id: to.host_id });
    }
    if !same_chart_option(&from.chart, &to.chart) {
        match &to.chart {
            Some(chart) => {
                r.push(
                    RoomCommand::SetChart { room_id: to.room_id.clone(), chart: chart.clone() },
                );
            },
            None => {
                r.push(RoomCommand::ClearChart { room_id: to.room_id.clone() });
            },
        }
    }
    if from.max_users != to.max_users {
        r.push(RoomCommand::SetMaxUsers { room_id: to.room_id.clone(), max_users: to.max_users });
    }
    assert(command_list(r@) =~= changes(from@, to@));
    r
}

fn strict_steps(commands: Vec<RoomCommand>) -> (r: Vec<PlanStep>)
    ensures
        plan_view(r@) == strictly(command_list(commands@)),
{
    let ghost all = commands@;
    let mut r: Vec<PlanStep> = Vec::new();
    for command in it: commands
        invariant
            it.seq() == all,
            r@.len() == it.index(),
            forall|i: int|
                0 <= i < r@.len() ==> (#[trigger] r@[i])@ == strictly(command_list(all))[i],
    {
        r.push(strict_step(command, "", Effect::Nothing));
    }
    assert(plan_view(r@) =~= strictly(command_list(all)));
    r
}

fn push_host_event(plan: &mut Vec<PlanStep>, room_id: &String, host_id: Option<i32>)
    ensures
        plan_view(final(plan)@) == plan_view(old(plan)@) + host_event(room_id@, host_id),
{
    if let Some(host_id) = host_id {
        plan.push(
            lenient_step(
                RoomCommand::Emit {
                    event: CustomRoomEvent::HostChanged { room_id: room_id.clone(), host_id },
                },
            ),
        );
    }
    assert(plan_view(plan@) =~= plan_view(old(plan)@) + host_event(room_id@, host_id));
}

fn push_publish(plan: &mut Vec<PlanStep>, room_id: &str, action: &str)
    ensures
        plan_view(final(plan)@) == plan_view(old(plan)@).push(
            lenient(CommandView::Publish { room_id: room_id@, action: action@ }),
        ),
{
    plan.push(
        lenient_step(
            RoomCommand::Publish { room_id: room_id.to_string(), action: action.to_string() },
        ),
    );
    assert(plan_view(plan@) =~= plan_view(old(plan)@).push(
        lenient(CommandView::Publish { room_id: room_id@, action: action@ }),
    ));
}

/// Begins the update of a hosted room, and gives the definition that it will have.
pub fn update_hosted(
    registry: &RoomRegistry,
    definition: ManagedRoomDefinition,
    snapshot: Option<&RoomSnapshot>,
) -> (r: Result<(Run, ManagedRoomDefinition), String>)
    ensures
        r is Ok <==> update_refusal(registry@, definition@, snapshot_option(snapshot)) is None,
        r matches Err(e) ==> update_refusal(registry@, definition@, snapshot_option(snapshot))
            == Some(e@),
        r matches Ok((run, updated)) ==> updated@ == definition@.normal_form() && run@ == start_of(
            update_plan(registry@[definition@.room_id], definition@.normal_form()),
        ),
{
    let definition: ManagedRoomDefinition = definition.validate_and_normalize()?;
    if !definition.is_hosted() {
        return Err("room-not-found".to_string());
    }
    let previous: &ManagedRoomDefinition = match registry.get(definition.room_id.as_str()) {
        Some(previous) => previous,
        None => {
            return Err("room-not-found".to_string());
        },
    };
    if !previous.is_hosted() {
        return Err("room-not-found".to_string());
    }
    let snapshot: &RoomSnapshot = match snapshot {
        Some(snapshot) => snapshot,
        None => {
            return Err("room-not-found".to_string());
        },
    };
    if snapshot.phase != RoomPhase::SelectingChart {
        return Err("hosted-room-busy".to_string());
    }
    if definition.max_users < snapshot.users.len() {
        return Err("hosted-room-capacity-below-users".to_string());
    }
    let ghost p = previous@;
    let ghost d = definition@;
    let mut plan: Vec<PlanStep> = strict_steps(change_commands(previous, &definition));
    plan.push(
        PlanStep {
            command: RoomCommand::SaveDefinition { definition: definition.clone() },
            on_failure: OnFailure::Abort {
                prefix: "persist-hosted-room-failed: ".to_string(),
                undo: change_commands(&definition, previous),
                effect: Effect::Nothing,
            },
            then_do: Effect::Store { definition: definition.clone() },
        },
    );
    if previous.host_id != definition.host_id {
        push_host_event(&mut plan, &definition.room_id, definition.host_id);
    }
    push_publish(&mut plan, definition.room_id.as_str(), "updated");
    assert(plan_view(plan@) =~= update_plan(p, d));
    Ok((Run::start(plan), definition))
}

// ---- the host changes in the room itself ----

/// The changed definition is saved, if that is possible, and announced.
pub open spec fn host_change_plan(d: DefinitionView) -> Seq<StepView> {
    seq![lenient(CommandView::SaveDefinition { definition: d })] + host_event(d.room_id, d.host_id)
        + seq![lenient(CommandView::Publish { room_id: d.room_id, action: "host_changed"@ })]
}

/// The managed rooms after a change of host in one of them.
pub open spec fn rooms_with_host(
    rooms: Map<Seq<char>, DefinitionView>,
    room_id: Seq<char>,
    host_id: Option<i32>,
) -> Map<Seq<char>, DefinitionView> {
    rooms.insert(room_id, DefinitionView { host_id, ..rooms[room_id] })
}

/// Takes over a change of host that has happened in a hosted room. Other rooms are not concerned.
pub fn persist_host_change(
    registry: &mut RoomRegistry,
    room_id: &str,
    host_id: Option<i32>,
) -> (r: Option<Run>)
    ensures
        r is Some <==> old(registry)@.contains_key(room_id@) && old(
            registry,
        )@[room_id@].is_hosted(),
        r is None ==> final(registry)@ == old(registry)@,
        r matches Some(run) ==> ({
            let changed = DefinitionView { host_id, ..old(registry)@[room_id@] };
            &&& final(registry)@ == rooms_with_host(old(registry)@, room_id@, host_id)
            &&& final(registry)@ == old(registry)@.insert(room_id@, changed)
            &&& run@ == start_of(host_change_plan(changed))
        }),
{
    let mut definition: ManagedRoomDefinition = match registry.get(room_id) {
        Some(definition) => definition.clone(),
        None => {
            return None;
        },
    };
    if !definition.is_hosted() {
        return None;
    }
    let ghost before = definition@;
    definition.host_id = host_id;
    let ghost changed = definition@;
    assert(changed =~= DefinitionView { host_id, ..before });
    registry.insert(definition.clone());
    let mut plan: Vec<PlanStep> = Vec::new();
    let id: String = definition.room_id.clone();
    plan.push(lenient_step(RoomCommand::SaveDefinition { definition }));
    push_host_event(&mut plan, &id, host_id);
    push_publish(&mut plan, id.as_str(), "host_changed");
    assert(plan_view(plan@) =~= host_change_plan(changed));
    Some(Run::start(plan))
}

// ---- disbanding ----

/// The room is closed and forgotten; a hosted one is not restored any more either.
pub open spec fn disband_plan(room_id: Seq<char>, hosted: bool) -> Seq<StepView> {
    seq![
        lenient(CommandView::CloseRoom { room_id }),
        strict(CommandView::RemoveRoom { room_id }, ""@, EffectView::Forget { room_id }),
    ] + (if hosted {
        seq![
            strict(CommandView::DeleteDefinition { room_id }, delete_prefix(), EffectView::Nothing),
        ]
    } else {
        Seq::empty()
    }) + seq![lenient(CommandView::Publish { room_id, action: "disbanded"@ })]
}

/// The room is managed, and is a hosted one.
pub open spec fn is_hosted_room(rooms: Map<Seq<char>, DefinitionView>, room_id: Seq<char>) -> bool {
    rooms.contains_key(room_id) && rooms[room_id].is_hosted()
}

/// The room is managed, and is a reserved one.
pub open spec fn is_reserved_room(rooms: Map<Seq<char>, DefinitionView>, room_id: Seq<char>) -> bool {
    rooms.contains_key(room_id) && !rooms[room_id].is_hosted()
}

/// Begins to disband an open room, managed or not.
pub fn disband(registry: &RoomRegistry, open: &Vec<String>, room_id: &str) -> (r: Result<Run, String>)
    ensures
        r is Ok <==> names(open@).contains(room_id@),
        r matches Err(e) ==> e@ == "room-not-found"@,
        r matches Ok(run) ==> run@ == start_of(
            disband_plan(room_id@, is_hosted_room(registry@, room_id@)),
        ),
{
    let hosted: bool = match registry.get(room_id) {
        Some(definition) => definition.is_hosted(),
        None => false,
    };
    if !is_open(open, room_id) {
        return Err("room-not-found".to_string());
    }
    let mut plan: Vec<PlanStep> = Vec::new();
    plan.push(lenient_step(RoomCommand::CloseRoom { room_id: room_id.to_string() }));
    plan.push(
        strict_step(
            RoomCommand::RemoveRoom { room_id: room_id.to_string() },
            "",
            Effect::Forget { room_id: room_id.to_string() },
        ),
    );
    if hosted {
        plan.push(
            strict_step(
                RoomCommand::DeleteDefinition { room_id: room_id.to_string() },
                "delete-hosted-room-failed: ",
                Effect::Nothing,
            ),
        );
    }
    push_publish(&mut plan, room_id, "disbanded");
    assert(plan_view(plan@) =~= disband_plan(room_id@, hosted));
    Ok(Run::start(plan))
}

/// Whether a room can be taken out of the open rooms: its identifier must be one.
pub fn remove_runtime_room(room_id: &str) -> (r: Result<(), String>)
    ensures
        r is Ok <==> room_id_ok(room_id@),
        r matches Err(e) ==> e@ == "invalid room_id"@,
{
    if is_room_id(room_id) {
        Ok(())
    } else {
        Err("invalid room_id".to_string())
    }
}

// ---- announcing ----

/// A message to the listeners of the administration interface.
#[derive(Debug, PartialEq, Eq)]
pub struct SseEvent {
    pub event: String,
    /// A JSON text.
    pub data: String,
}

/// The message that tells what was done to a room: a JSON object that names the room and the
/// action.
pub fn publish_managed_update(room_id: &str, action: &str) -> (r: SseEvent)
    ensures
        r.event@ == "managed_room_update"@,
        r.data@ == json_object_text("roomId"@, room_id@, "action"@, action@),
        json_has_string(r.data@, "roomId"@, room_id@),
        json_has_string(r.data@, "action"@, action@),
{
    proof {
        reveal_strlit("roomId");
        reveal_strlit("action");
        assert("roomId"@[0] != "action"@[0]);
    }
    SseEvent {
        event: "managed_room_update".to_string(),
        data: object_text("roomId", room_id, "action", action),
    }
}

// ---- timers ----

/// How long a room waits, in milliseconds, before it begins by itself once the last of its
/// players has come: the players' devices need the time to show the room.
pub const AUTOSTART_DELAY_MS: u64 = 500;

/// How long a reserved room stays, in seconds, after its round.
pub const POSTGAME_DELAY_SECONDS: u64 = 60;

/// `expires_at - now`, held within the range of the type.
pub open spec fn time_left(expires_at: i64, now: i64) -> int {
    let left = expires_at - now;
    if left > i64::MAX {
        i64::MAX as int
    } else if left < i64::MIN {
        i64::MIN as int
    } else {
        left
    }
}

/// The time that is left as an unsigned number of 64 bits.
pub open spec fn expiry_wait(expires_at: i64, now: i64) -> int {
    time_left(expires_at, now) % 0x1_0000_0000_0000_0000
}

/// How long to wait, in milliseconds, until a reserved room may expire. A time that has passed
/// wraps around, so that the room is left alone.
pub fn expiry_delay_ms(expires_at: i64, now: i64) -> (r: u64)
    ensures
        r == expiry_wait(expires_at, now),
        time_left(expires_at, now) >= 0 ==> r == time_left(expires_at, now),
        time_left(expires_at, now) < 0 ==> r == time_left(expires_at, now) + 0x1_0000_0000_0000_0000,
{
    let left: i128 = expires_at as i128 - now as i128;
    let left: i64 = if left > i64::MAX as i128 {
        i64::MAX
    } else if left < i64::MIN as i128 {
        i64::MIN
    } else {
        left as i64
    };
    if left >= 0 {
        left as u64
    } else {
        (left as i128 + 0x1_0000_0000_0000_0000) as u64
    }
}

/// The room is disbanded when the time of a reservation has come: it is open, and nobody is in it.
/// A hosted room that has taken the identifier meanwhile stays, as it does whenever it is empty.
/// `empty` is `None` where the room is not open.
pub open spec fn expires(
    rooms: Map<Seq<char>, DefinitionView>,
    room_id: Seq<char>,
    empty: Option<bool>,
) -> bool {
    empty == Some(true) && !is_hosted_room(rooms, room_id)
}

/// Whether the room is disbanded when the time of a reservation has come.
pub fn schedule_reserved_expiry(registry: &RoomRegistry, room_id: &str, empty: Option<bool>) -> (r:
    bool)
    ensures
        r == expires(registry@, room_id@, empty),
{
    let hosted: bool = match registry.get(room_id) {
        Some(definition) => definition.is_hosted(),
        None => false,
    };
    match empty {
        Some(empty) => empty && !hosted,
        None => false,
    }
}

/// The room waits for its round, and exactly the players on its whitelist are there.
pub open spec fn autostarts(
    rooms: Map<Seq<char>, DefinitionView>,
    room_id: Seq<char>,
    snapshot: Option<SnapshotView>,
) -> bool {
    &&& is_reserved_room(rooms, room_id)
    &&& snapshot is Some
    &&& snapshot->0.phase == RoomPhase::SelectingChart
    &&& forall|i: int|
        0 <= i < rooms[room_id].whitelist.len() ==> snapshot->0.users.contains(
            #[trigger] rooms[room_id].whitelist[i],
        )
    &&& snapshot->0.users.to_set().len() == rooms[room_id].whitelist.len()
}

fn has_ids(ids: &Vec<i32>, wanted: &Vec<i32>) -> (r: bool)
    ensures
        r == forall|i: int| 0 <= i < wanted@.len() ==> ids@.contains(#[trigger] wanted@[i]),
{
    let mut i: usize = 0;
    while i < wanted.len()
        invariant
            i <= wanted@.len(),
            forall|j: int| 0 <= j < i ==> ids@.contains(#[trigger] wanted@[j]),
        decreases wanted@.len() - i,
    {
        if !has_id(ids, wanted[i]) {
            assert(!ids@.contains(wanted@[i as int]));
            return false;
        }
        i = i + 1;
    }
    true
}

/// Whether a reserved room goes into its ready phase by itself.
pub fn schedule_reserved_autostart(
    registry: &RoomRegistry,
    room_id: &str,
    snapshot: Option<&RoomSnapshot>,
) -> (r: bool)
    ensures
        r == autostarts(registry@, room_id@, snapshot_option(snapshot)),
{
    let definition: &ManagedRoomDefinition = match registry.get(room_id) {
        Some(definition) => definition,
        None => {
            return false;
        },
    };
    if definition.is_hosted() {
        return false;
    }
    match snapshot {
        Some(snapshot) => {
            proof {
                distinct_counts_members(snapshot.users@);
            }
            snapshot.phase == RoomPhase::SelectingChart && has_ids(
                &snapshot.users,
                &definition.whitelist,
            ) && distinct_ids(&snapshot.users).len() == definition.whitelist.len()
        },
        None => false,
    }
}

/// Whether the room is disbanded after its round: a reserved one is.
pub fn schedule_reserved_postgame(registry: &RoomRegistry, room_id: &str) -> (r: bool)
    ensures
        r == is_reserved_room(registry@, room_id@),
{
    match registry.get(room_id) {
        Some(definition) => !definition.is_hosted(),
        None => false,
    }
}

// ---- the next chart of a pool ----

/// The chart of the next round is set in the room; then the definition has it too.
pub open spec fn next_chart_plan(d: DefinitionView, chart: ChartView) -> Seq<StepView> {
    let next = DefinitionView { chart: Some(chart), ..d };
    seq![
        strict(
            CommandView::SetChart { room_id: d.room_id, chart },
            ""@,
            EffectView::Store { definition: next },
        ),
        lenient(CommandView::SaveDefinition { definition: next }),
        lenient(CommandView::Publish { room_id: d.room_id, action: "chart_selected"@ }),
    ]
}

/// The room is hosted and draws its charts from its pool.
pub open spec fn draws_charts(rooms: Map<Seq<char>, DefinitionView>, room_id: Seq<char>) -> bool {
    is_hosted_room(rooms, room_id) && rooms[room_id].chart_mode == ChartMode::PoolRandom
}

/// A chart is drawn for the next round: the room draws its charts, and there are some to draw.
pub open spec fn advances(rooms: Map<Seq<char>, DefinitionView>, room_id: Seq<char>) -> bool {
    draws_charts(rooms, room_id) && rooms[room_id].chart_pool.len() > 0
}

/// Begins to set a drawn chart.
pub fn begin_next_chart(definition: &ManagedRoomDefinition, chart: ManagedChart) -> (r: Run)
    ensures
        r@ == start_of(next_chart_plan(definition@, chart@)),
{
    let mut next: ManagedRoomDefinition = definition.clone();
    let id: String = next.room_id.clone();
    next.chart = Some(chart.clone());
    let ghost next_view = DefinitionView { chart: Some(chart@), ..definition@ };
    assert(next@ =~= next_view);
    let mut plan: Vec<PlanStep> = Vec::new();
    plan.push(
        strict_step(
            RoomCommand::SetChart { room_id: id.clone(), chart },
            "",
            Effect::Store { definition: next.clone() },
        ),
    );
    plan.push(lenient_step(RoomCommand::SaveDefinition { definition: next }));
    push_publish(&mut plan, id.as_str(), "chart_selected");
    assert(plan_view(plan@) =~= next_chart_plan(definition@, chart@));
    Run::start(plan)
}

/// Draws the chart of the next round in a room that draws its charts from its pool.
pub fn advance_pool_after_round(registry: &RoomRegistry, room_id: &str) -> (r: Option<Run>)
    ensures
        r is Some <==> advances(registry@, room_id@),
        r is Some <==> draws_charts(registry@, room_id@) && registry@[room_id@].chart_pool.len()
            > 0,
        r matches Some(run) ==> exists|chart: ChartView|
            registry@[room_id@].chart_pool.contains(chart) && run@ == start_of(
                #[trigger] next_chart_plan(registry@[room_id@], chart),
            ),
{
    let definition: &ManagedRoomDefinition = match registry.get(room_id) {
        Some(definition) => definition,
        None => {
            return None;
        },
    };
    if !definition.is_hosted() || definition.chart_mode != ChartMode::PoolRandom {
        return None;
    }
    match choose_pool_chart(definition) {
        Some(chart) => {
            let run: Run = begin_next_chart(definition, chart);
            assert(run@ == start_of(next_chart_plan(registry@[room_id@], chart@)));
            Some(run)
        },
        None => None,
    }
}

} // verus!
