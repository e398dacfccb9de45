//! What requests to the administration interface are answered.
use crate::definition::{
    chart_list, chart_option, copy_chart, copy_charts, copy_ids, ChartMode, ChartView,
    DefinitionView, ManagedChart, ManagedRoomDefinition,
};
use crate::runtime::{snapshot_option, RoomPhase, RoomSnapshot, SnapshotView};
use vstd::prelude::*;

verus! {

/// What is told of the room that is open under a definition.
#[derive(Debug, PartialEq, Eq)]
pub struct LiveReport {
    pub state: String,
    pub users: Vec<i32>,
    pub monitors: Vec<i32>,
}

/// What is told of a definition.
#[derive(Debug, PartialEq, Eq)]
pub struct DefinitionReport {
    pub hosted: bool,
    pub room_id: String,
    pub owner_id: Option<i64>,
    pub capacity: usize,
    pub allowed_user_ids: Vec<i32>,
    pub host_id: Option<i32>,
    pub chart: Option<ManagedChart>,
    pub chart_mode: ChartMode,
    pub chart_pool: Vec<ManagedChart>,
    pub live: Option<LiveReport>,
}

pub struct LiveReportView {
    pub state: Seq<char>,
    pub users: Seq<i32>,
    pub monitors: Seq<i32>,
}

pub struct ReportView {
    pub hosted: bool,
    pub room_id: Seq<char>,
    pub owner_id: Option<i64>,
    pub capacity: usize,
    pub allowed_user_ids: Seq<i32>,
    pub host_id: Option<i32>,
    pub chart: Option<ChartView>,
    pub chart_mode: ChartMode,
    pub chart_pool: Seq<ChartView>,
    pub live: Option<LiveReportView>,
}

impl View for LiveReport {
    type V = LiveReportView;

    open spec fn view(&self) -> LiveReportView {
        LiveReportView { state: self.state@, users: self.users@, monitors: self.monitors@ }
    }
}

impl View for DefinitionReport {
    type V = ReportView;

    open spec fn view(&self) -> ReportView {
        ReportView {
            hosted: self.hosted,
            room_id: self.room_id@,
            owner_id: self.owner_id,
            capacity: self.capacity,
            allowed_user_ids: self.allowed_user_ids@,
            host_id: self.host_id,
            chart: chart_option(self.chart),
            chart_mode: self.chart_mode,
            chart_pool: chart_list(self.chart_pool@),
            live: match self.live {
                Some(live) => Some(live@),
                None => None,
            },
        }
    }
}

/// What an answer says.
#[derive(Debug, PartialEq, Eq)]
pub enum ApiBody {
    Error { code: String, message: String },
    Rooms { total_rooms: usize, rooms: Vec<DefinitionReport> },
    Definition { report: DefinitionReport },
    HostedCreated { report: DefinitionReport, created: bool },
    Precreated {
        created: bool,
        room_id: String,
        owner_id: Option<i64>,
        allowed_user_ids: Vec<i32>,
        chart: ManagedChart,
        expires_at: Option<i64>,
    },
    Capacity { room_id: String, max_users: usize },
    Disbanded { room_id: String },
    ChartPool { room_id: String, charts: Vec<ManagedChart> },
    Sent,
}

/// An answer: its status, as in HTTP, and what it says.
#[derive(Debug, PartialEq, Eq)]
pub struct ApiResponse {
    pub status: u16,
    pub body: ApiBody,
}

pub enum BodyView {
    Error { code: Seq<char>, message: Seq<char> },
    Rooms { total_rooms: usize, rooms: Seq<ReportView> },
    Definition { report: ReportView },
    HostedCreated { report: ReportView, created: bool },
    Precreated {
        created: bool,
        room_id: Seq<char>,
        owner_id: Option<i64>,
        allowed_user_ids: Seq<i32>,
        chart: ChartView,
        expires_at: Option<i64>,
    },
    Capacity { room_id: Seq<char>, max_users: usize },
    Disbanded { room_id: Seq<char> },
    ChartPool { room_id: Seq<char>, charts: Seq<ChartView> },
    Sent,
}

pub struct ResponseView {
    pub status: u16,
    pub body: BodyView,
}

pub open spec fn report_list(reports: Seq<DefinitionReport>) -> Seq<ReportView> {
    Seq::new(reports.len(), |i: int| reports[i]@)
}

impl View for ApiBody {
    type V = BodyView;

    open spec fn view(&self) -> BodyView {
        match *self {
            ApiBody::Error { code, message } => BodyView::Error { code: code@, message: message@ },
            ApiBody::Rooms { total_rooms, rooms } => BodyView::Rooms {
                total_rooms,
                rooms: report_list(rooms@),
            },
            ApiBody::Definition { report } => BodyView::Definition { report: report@ },
            ApiBody::HostedCreated { report, created } => BodyView::HostedCreated {
                report: report@,
                created,
            },
            ApiBody::Precreated {
                created,
                room_id,
                owner_id,
                allowed_user_ids,
                chart,
                expires_at,
            } => BodyView::Precreated {
                created,
                room_id: room_id@,
                owner_id,
                allowed_user_ids: allowed_user_ids@,
                chart: chart@,
                expires_at,
            },
            ApiBody::Capacity { room_id, max_users } => BodyView::Capacity {
                room_id: room_id@,
                max_users,
            },
            ApiBody::Disbanded { room_id } => BodyView::Disbanded { room_id: room_id@ },
            ApiBody::ChartPool { room_id, charts } => BodyView::ChartPool {
                room_id: room_id@,
                charts: chart_list(charts@),
            },
            ApiBody::Sent => BodyView::Sent,
        }
    }
}

impl View for ApiResponse {
    type V = ResponseView;

    open spec fn view(&self) -> ResponseView {
        ResponseView { status: self.status, body: self.body@ }
    }
}

/// The answer to a request that is not carried out.
pub open spec fn error_response(status: u16, code: Seq<char>, message: Seq<char>) -> ResponseView {
    ResponseView { status, body: BodyView::Error { code, message } }
}

/// The answer to a request that is not carried out.
pub(crate) fn api_error(status: u16, code: &str, message: &str) -> (r: ApiResponse)
    ensures
        r@ == error_response(status, code@, message@),
{
    ApiResponse {
        status,
        body: ApiBody::Error { code: code.to_string(), message: message.to_string() },
    }
}

/// The name of a phase in answers.
pub open spec fn phase_name(phase: RoomPhase) -> Seq<char> {
    match phase {
        RoomPhase::SelectingChart => "SelectChart"@,
        RoomPhase::WaitingForReady => "WaitForReady"@,
        RoomPhase::Playing => "Playing"@,
    }
}

/// What is told of a room: its definition, and, where it is open, what goes on in it.
pub open spec fn report(d: DefinitionView, snapshot: Option<SnapshotView>) -> ReportView {
    ReportView {
        hosted: d.is_hosted(),
        room_id: d.room_id,
        owner_id: d.owner_id,
        capacity: d.max_users,
        allowed_user_ids: d.whitelist,
        host_id: d.host_id,
        chart: d.chart,
        chart_mode: d.chart_mode,
        chart_pool: d.chart_pool,
        live: match snapshot {
            Some(s) => Some(
                LiveReportView {
                    state: phase_name(s.phase),
                    users: s.users,
                    monitors: s.monitors,
                },
            ),
            None => None,
        },
    }
}

fn state_name(phase: RoomPhase) -> (r: String)
    ensures
        r@ == phase_name(phase),
{
    match phase {
        RoomPhase::SelectingChart => "SelectChart".to_string(),
        RoomPhase::WaitingForReady => "WaitForReady".to_string(),
        RoomPhase::Playing => "Playing".to_string(),
    }
}

/// What is told of a room.
pub fn definition_json(
    definition: &ManagedRoomDefinition,
    snapshot: Option<&RoomSnapshot>,
) -> (r: DefinitionReport)
    ensures
        r@ == report(definition@, snapshot_option(snapshot)),
{
    let live: Option<LiveReport> = match snapshot {
        Some(snapshot) => Some(
            LiveReport {
                state: state_name(snapshot.phase),
                users: copy_ids(&snapshot.users),
                monitors: copy_ids(&snapshot.monitors),
            },
        ),
        None => None,
    };
    DefinitionReport {
        hosted: definition.is_hosted(),
        room_id: definition.room_id.clone(),
        owner_id: definition.owner_id,
        capacity: definition.max_users,
        allowed_user_ids: copy_ids(&definition.whitelist),
        host_id: definition.host_id,
        chart: copy_chart(&definition.chart),
        chart_mode: definition.chart_mode,
        chart_pool: copy_charts(&definition.chart_pool),
        live,
    }
}

} // verus!
