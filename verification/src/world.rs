//! A picture of the server around the registry: what each command does to it.
//!
//! The laws in `world_laws` say what the operations on managed rooms come to in this picture.
use crate::definition::{ChartView, DefinitionView};
use crate::event::EventView;
use crate::plan::{CommandView, OnFailureView, StepView};
use vstd::prelude::*;

verus! {

/// A room that is open.
pub struct OpenRoom {
    pub hosted: bool,
    pub tournament: bool,
    pub max_users: usize,
    pub host_id: Option<i32>,
    pub chart: Option<ChartView>,
}

/// The server: its open rooms, the definitions that it has saved, and what it has done to the
/// outside, in order.
#[verifier::ext_equal]
pub struct World {
    pub rooms: Map<Seq<char>, OpenRoom>,
    pub saved: Map<Seq<char>, DefinitionView>,
    /// The rooms that were told, while they were open, that they close.
    pub told: Seq<Seq<char>>,
    /// The rooms that are looked after again, and when.
    pub timers: Seq<(Seq<char>, i64)>,
    /// The events that were reported to the web administration.
    pub events: Seq<EventView>,
    /// What the listeners were told: the room, and what was done to it.
    pub messages: Seq<(Seq<char>, Seq<char>)>,
}

impl World {
    /// The server with another state of an open room; a room that is not open stays so.
    pub open spec fn with_room(self, room_id: Seq<char>, room: OpenRoom) -> World {
        if self.rooms.contains_key(room_id) {
            World { rooms: self.rooms.insert(room_id, room), ..self }
        } else {
            self
        }
    }

    /// The server after a command has been carried out.
    pub open spec fn performed(self, command: CommandView) -> World {
        match command {
            CommandView::CreateRoom { room_id, hosted, max_users } => World {
                rooms: self.rooms.insert(
                    room_id,
                    OpenRoom { hosted, tournament: false, max_users, host_id: None, chart: None },
                ),
                ..self
            },
            CommandView::SetTournament { room_id } => self.with_room(
                room_id,
                OpenRoom { tournament: true, ..self.rooms[room_id] },
            ),
            CommandView::SetChart { room_id, chart } => self.with_room(
                room_id,
                OpenRoom { chart: Some(chart), ..self.rooms[room_id] },
            ),
            CommandView::ClearChart { room_id } => self.with_room(
                room_id,
                OpenRoom { chart: None, ..self.rooms[room_id] },
            ),
            CommandView::SetHost { room_id, host_id } => self.with_room(
                room_id,
                OpenRoom { host_id, ..self.rooms[room_id] },
            ),
            CommandView::SetMaxUsers { room_id, max_users } => self.with_room(
                room_id,
                OpenRoom { max_users, ..self.rooms[room_id] },
            ),
            CommandView::CloseRoom { room_id } => if self.rooms.contains_key(room_id) {
                World { told: self.told.push(room_id), ..self }
            } else {
                self
            },
            CommandView::RemoveRoom { room_id } => World {
                rooms: self.rooms.remove(room_id),
                ..self
            },
            CommandView::SaveDefinition { definition } => World {
                saved: self.saved.insert(definition.room_id, definition),
                ..self
            },
            CommandView::DeleteDefinition { room_id } => World {
                saved: self.saved.remove(room_id),
                ..self
            },
            CommandView::ScheduleExpiry { room_id, expires_at } => World {
                timers: self.timers.push((room_id, expires_at)),
                ..self
            },
            CommandView::Emit { event } => World { events: self.events.push(event), ..self },
            CommandView::Publish { room_id, action } => World {
                messages: self.messages.push((room_id, action)),
                ..self
            },
        }
    }

    /// The server after commands have been carried out one after another.
    pub open spec fn performed_all(self, commands: Seq<CommandView>) -> World
        decreases commands.len(),
    {
        if commands.len() == 0 {
            self
        } else {
            self.performed(commands.first()).performed_all(commands.drop_first())
        }
    }

    /// The server at the end of a plan, from the step `from` on, if the steps are answered as
    /// `answers` says. A command that is answered with an error has done nothing; the commands that
    /// undo the operation are carried out.
    pub open spec fn after_plan(
        self,
        plan: Seq<StepView>,
        from: int,
        answers: spec_fn(int) -> Option<Seq<char>>,
    ) -> World
        decreases plan.len() - from,
    {
        if from >= plan.len() {
            self
        } else {
            match (answers(from), plan[from].on_failure) {
                (None, _) => self.performed(plan[from].command).after_plan(plan, from + 1, answers),
                (Some(_), OnFailureView::Abort { undo, .. }) => self.performed_all(undo),
                (Some(_), OnFailureView::Ignore) => self.after_plan(plan, from + 1, answers),
            }
        }
    }
}

} // verus!
