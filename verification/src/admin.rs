//! The administration interface: who is let in, what a request sets in motion, and what it is
//! answered.
//!
//! Each handler takes the token that the request brings, and turns away a request without the
//! right one before anything else. A handler that begins an operation hands it out; the answer is
//! made once the operation is over.
use crate::answer::{
    api_error, definition_json, error_response, report, report_list, ApiBody, ApiResponse, BodyView,
    DefinitionReport, ReportView, ResponseView,
};
use crate::definition::{
    chart_list, chart_option, copy_charts, copy_ids, ChartMode, ChartView, DefinitionView,
    ManagedChart, ManagedRoomDefinition, ManagedRoomKind, MAX_MANAGED_ROOM_USERS,
};
use crate::ids::{distinct, distinct_ids};
use crate::json::{as_str, as_u64, json_member, json_str, json_u64, member};
use crate::patch::{
    apply_members, charts_option, members, members_refusal, patched, read_members, MembersView,
    ParsedCharts,
};
use crate::plan::{error_of, start_of, Run};
use crate::registry::RoomRegistry;
use crate::room_id::{is_room_id, room_id_ok};
use crate::runtime::{
    begins_creation, create, create_decision, disband, disband_plan, is_hosted_room, is_open, names,
    snapshot_option, update_hosted, update_plan, update_refusal, CreateDecision, Creation,
    RoomSnapshot, SnapshotView,
};
use crate::text::{contains, has_part, same_text, str_option, text_option, trim, trimmed};
use vstd::prelude::*;
use vstd::utf8::encode_utf8_decode_utf8;

verus! {

// ---- who is let in ----

/// Why a request is turned away before it is read; `None` where it is let in. Without a token of
/// its own the server lets nobody in; else the request must bring exactly that token.
pub open spec fn authentication_refusal(
    expected: Seq<char>,
    supplied: Option<Seq<char>>,
) -> Option<ResponseView> {
    if expected.len() == 0 {
        Some(error_response(403, "admin-disabled"@, "管理员 API 未启用"@))
    } else if supplied != Some(expected) {
        Some(error_response(401, "unauthorized"@, "管理员令牌无效"@))
    } else {
        None
    }
}

/// The byte at a place, and zero behind the end.
spec fn byte_at(bytes: Seq<u8>, i: int) -> u8 {
    if 0 <= i < bytes.len() {
        bytes[i]
    } else {
        0
    }
}

/// Compares the whole of both, also where they have differed already, so that the time does not
/// tell where.
fn same_bytes(expected: &[u8], supplied: &[u8]) -> (r: bool)
    ensures
        r == (expected@ == supplied@),
{
    let longer: usize = if expected.len() > supplied.len() {
        expected.len()
    } else {
        supplied.len()
    };
    let left_len: usize = expected.len();
    let right_len: usize = supplied.len();
    let mut difference: usize = left_len ^ right_len;
    assert((left_len ^ right_len) == 0 <==> left_len == right_len) by (bit_vector);
    let mut index: usize = 0;
    while index < longer
        invariant
            index <= longer,
            longer >= expected@.len(),
            longer >= supplied@.len(),
            longer == expected@.len() || longer == supplied@.len(),
            difference == 0 <==> expected@.len() == supplied@.len() && forall|j: int|
                0 <= j < index ==> byte_at(expected@, j) == byte_at(supplied@, j),
        decreases longer - index,
    {
        let a: u8 = if index < expected.len() {
            expected[index]
        } else {
            0
        };
        let b: u8 = if index < supplied.len() {
            supplied[index]
        } else {
            0
        };
        let c: usize = (a ^ b) as usize;
        let before: usize = difference;
        assert((a ^ b) == 0 <==> a == b) by (bit_vector);
        assert((before | c) == 0 <==> before == 0 && c == 0) by (bit_vector);
        difference = before | c;
        assert(byte_at(expected@, index as int) == a);
        assert(byte_at(supplied@, index as int) == b);
        index = index + 1;
    }
    proof {
        if difference == 0 {
            assert forall|j: int| 0 <= j < expected@.len() implies expected@[j] == supplied@[j] by {
                assert(byte_at(expected@, j) == byte_at(supplied@, j));
            }
            assert(expected@ =~= supplied@);
        }
    }
    difference == 0
}

/// Turns a request away that does not bring the administrator's token.
pub fn authentication_error(expected: &str, supplied: Option<&str>) -> (r: Option<ApiResponse>)
    ensures
        r is Some <==> authentication_refusal(expected@, str_option(supplied)) is Some,
        r matches Some(response) ==> authentication_refusal(expected@, str_option(supplied))
            == Some(response@),
{
    if expected.is_empty() {
        return Some(api_error(403, "admin-disabled", "管理员 API 未启用"));
    }
    let given: &str = match supplied {
        Some(given) => given,
        None => "",
    };
    proof {
        reveal_strlit("");
        encode_utf8_decode_utf8(expected@);
        encode_utf8_decode_utf8(given@);
    }
    if !same_bytes(expected.as_bytes(), given.as_bytes()) {
        return Some(api_error(401, "unauthorized", "管理员令牌无效"));
    }
    None
}

// ---- reading ----

/// An open room and what goes on in it.
#[derive(Debug)]
pub struct LiveRoom {
    pub room_id: String,
    pub snapshot: RoomSnapshot,
}

/// What goes on in a room; `None` where it is not open.
pub open spec fn live_in(live: Seq<LiveRoom>, room_id: Seq<char>) -> Option<SnapshotView>
    decreases live.len(),
{
    if live.len() == 0 {
        None
    } else if live.first().room_id@ == room_id {
        Some(live.first().snapshot@)
    } else {
        live_in(live.drop_first(), room_id)
    }
}

fn find_live<'a>(live: &'a Vec<LiveRoom>, room_id: &str) -> (r: Option<&'a RoomSnapshot>)
    ensures
        snapshot_option(r) == live_in(live@, room_id@),
{
    let mut i: usize = 0;
    assert(live@.skip(0) =~= live@);
    while i < live.len()
        invariant
            i <= live@.len(),
            live_in(live@, room_id@) == live_in(live@.skip(i as int), room_id@),
        decreases live@.len() - i,
    {
        if same_text(live[i].room_id.as_str(), room_id) {
            return Some(&live[i].snapshot);
        }
        assert(live@.skip(i as int).drop_first() =~= live@.skip(i + 1));
        i = i + 1;
    }
    None
}

/// `reports` tells of every managed room, once, in some order.
pub open spec fn tells_all(
    rooms: Map<Seq<char>, DefinitionView>,
    live: Seq<LiveRoom>,
    reports: Seq<ReportView>,
) -> bool {
    &&& rooms.dom().finite()
    &&& reports.len() == rooms.dom().len()
    &&& forall|i: int|
        0 <= i < reports.len() ==> rooms.contains_key((#[trigger] reports[i]).room_id) && reports[i]
            == report(rooms[reports[i].room_id], live_in(live, reports[i].room_id))
    &&& forall|id: Seq<char>| #[trigger]
        rooms.contains_key(id) ==> exists|i: int|
            0 <= i < reports.len() && (#[trigger] reports[i]).room_id == id
}

/// Tells of all managed rooms.
pub fn list_rooms(
    expected: &str,
    supplied: Option<&str>,
    registry: &RoomRegistry,
    live: &Vec<LiveRoom>,
) -> (r: ApiResponse)
    ensures
        match authentication_refusal(expected@, str_option(supplied)) {
            Some(refusal) => r@ == refusal,
            None => r@.status == 200 && (r@.body matches BodyView::Rooms { total_rooms, rooms }
                && total_rooms == rooms.len() && tells_all(registry@, live@, rooms)),
        },
{
    if let Some(response) = authentication_error(expected, supplied) {
        return response;
    }
    let definitions: &Vec<ManagedRoomDefinition> = registry.definitions();
    let mut rooms: Vec<DefinitionReport> = Vec::new();
    let mut i: usize = 0;
    while i < definitions.len()
        invariant
            i <= definitions@.len(),
            rooms@.len() == i,
            forall|j: int|
                0 <= j < i ==> (#[trigger] rooms@[j])@ == report(
                    definitions@[j]@,
                    live_in(live@, definitions@[j]@.room_id),
                ),
        decreases definitions@.len() - i,
    {
        let definition: &ManagedRoomDefinition = &definitions[i];
        rooms.push(
            definition_json(definition, find_live(live, definition.room_id.as_str())),
        );
        i = i + 1;
    }
    proof {
        let reports = report_list(rooms@);
        assert forall|k: int| 0 <= k < reports.len() implies registry@.contains_key(
            (#[trigger] reports[k]).room_id,
        ) && reports[k] == report(
            registry@[reports[k].room_id],
            live_in(live@, reports[k].room_id),
        ) by {
            assert(rooms@[k]@ == reports[k]);
            assert(registry@.contains_key(definitions@[k]@.room_id));
        }
        assert forall|id: Seq<char>| #[trigger] registry@.contains_key(id) implies exists|k: int|
            0 <= k < reports.len() && (#[trigger] reports[k]).room_id == id by {
            let k = choose|k: int|
                0 <= k < definitions@.len() && (#[trigger] definitions@[k])@ == registry@[id];
            assert(rooms@[k]@ == reports[k]);
            assert(reports[k].room_id == id);
        }
    }
    ApiResponse { status: 200, body: ApiBody::Rooms { total_rooms: rooms.len(), rooms } }
}

pub open spec fn hosted_not_found() -> ResponseView {
    error_response(404, "room-not-found"@, "未找到托管房"@)
}

/// What is answered to a question about a hosted room.
pub open spec fn hosted_answer(
    rooms: Map<Seq<char>, DefinitionView>,
    room_id: Seq<char>,
    found: BodyView,
) -> ResponseView {
    if is_hosted_room(rooms, room_id) {
        ResponseView { status: 200, body: found }
    } else {
        hosted_not_found()
    }
}

/// Tells of a hosted room.
pub fn get_hosted_room(
    expected: &str,
    supplied: Option<&str>,
    registry: &RoomRegistry,
    room_id: &str,
    snapshot: Option<&RoomSnapshot>,
) -> (r: ApiResponse)
    ensures
        match authentication_refusal(expected@, str_option(supplied)) {
            Some(refusal) => r@ == refusal,
            None => r@ == hosted_answer(
                registry@,
                room_id@,
                BodyView::Definition {
                    report: report(registry@[room_id@], snapshot_option(snapshot)),
                },
            ),
        },
{
    if let Some(response) = authentication_error(expected, supplied) {
        return response;
    }
    match registry.get(room_id) {
        Some(definition) => {
            if definition.is_hosted() {
                return ApiResponse {
                    status: 200,
                    body: ApiBody::Definition { report: definition_json(definition, snapshot) },
                };
            }
        },
        None => {},
    }
    api_error(404, "room-not-found", "未找到托管房")
}

/// Tells of the pool of a hosted room.
pub fn get_chart_pool(
    expected: &str,
    supplied: Option<&str>,
    registry: &RoomRegistry,
    room_id: &str,
) -> (r: ApiResponse)
    ensures
        match authentication_refusal(expected@, str_option(supplied)) {
            Some(refusal) => r@ == refusal,
            None => r@ == hosted_answer(
                registry@,
                room_id@,
                BodyView::ChartPool { room_id: room_id@, charts: registry@[room_id@].chart_pool },
            ),
        },
{
    if let Some(response) = authentication_error(expected, supplied) {
        return response;
    }
    match registry.get(room_id) {
        Some(definition) => {
            if definition.is_hosted() {
                return ApiResponse {
                    status: 200,
                    body: ApiBody::ChartPool {
                        room_id: room_id.to_string(),
                        charts: copy_charts(&definition.chart_pool),
                    },
                };
            }
        },
        None => {},
    }
    api_error(404, "room-not-found", "未找到托管房")
}

// ---- creating ----

/// What a request to create a room leads to.
#[derive(Debug)]
pub enum CreateStep {
    Respond { response: ApiResponse },
    /// The room is being created; the answer follows.
    Started { run: Run },
}

/// What is answered to a creation that fails. `code` stands for a request that is not accepted.
pub open spec fn create_error(error: Seq<char>, code: Seq<char>) -> ResponseView {
    if error == "room-id-occupied"@ {
        error_response(409, error, "房间 ID 已被不同配置占用"@)
    } else if error == "rooms-limit-reached"@ {
        error_response(503, error, "服务器房间数量已达到上限"@)
    } else {
        error_response(400, code, error)
    }
}

/// The answer to a creation that fails.
pub fn create_error_response(error: &str, validation_code: &str) -> (r: ApiResponse)
    ensures
        r@ == create_error(error@, validation_code@),
{
    if same_text(error, "room-id-occupied") {
        api_error(409, error, "房间 ID 已被不同配置占用")
    } else if same_text(error, "rooms-limit-reached") {
        api_error(503, error, "服务器房间数量已达到上限")
    } else {
        api_error(400, validation_code, error)
    }
}

/// A request for a hosted room.
#[derive(Debug)]
pub struct HostedRequest {
    pub room_id: String,
    pub owner_id: Option<i64>,
    pub allowed_user_ids: Vec<i32>,
    pub max_users: usize,
    pub host_id: Option<i32>,
    pub chart: Option<ManagedChart>,
    pub chart_mode: ChartMode,
    pub chart_pool: Vec<ManagedChart>,
}

/// The capacity of a hosted room for which the request names none.
pub fn default_hosted_capacity() -> (r: usize)
    ensures
        r == 64,
{
    64
}

impl HostedRequest {
    /// The definition that the request asks for.
    pub open spec fn asks_for(self) -> DefinitionView {
        DefinitionView {
            room_id: self.room_id@,
            kind: ManagedRoomKind::Hosted,
            owner_id: self.owner_id,
            max_users: self.max_users,
            whitelist: self.allowed_user_ids@,
            host_id: self.host_id,
            chart: chart_option(self.chart),
            chart_mode: self.chart_mode,
            chart_pool: chart_list(self.chart_pool@),
            expires_at: None,
        }
    }
}

/// What is answered once the hosted room is there: made by this request, or found.
pub open spec fn hosted_created(
    rooms: Map<Seq<char>, DefinitionView>,
    room_id: Seq<char>,
    created: bool,
) -> ResponseView {
    if rooms.contains_key(room_id) {
        ResponseView {
            status: if created {
                201
            } else {
                200
            },
            body: BodyView::HostedCreated { report: report(rooms[room_id], None), created },
        }
    } else {
        error_response(500, "room-create-failed"@, "房间已创建但无法读取定义"@)
    }
}

fn hosted_created_response(registry: &RoomRegistry, room_id: &str, created: bool) -> (r: ApiResponse)
    ensures
        r@ == hosted_created(registry@, room_id@, created),
{
    match registry.get(room_id) {
        Some(definition) => ApiResponse {
            status: if created {
                201
            } else {
                200
            },
            body: ApiBody::HostedCreated { report: definition_json(definition, None), created },
        },
        None => api_error(500, "room-create-failed", "房间已创建但无法读取定义"),
    }
}

/// `r` is what a request that is let in, for the hosted room `d`, leads to.
pub open spec fn leads_to_hosted_room(
    r: CreateStep,
    rooms: Map<Seq<char>, DefinitionView>,
    open: Seq<Seq<char>>,
    max_rooms: Option<usize>,
    d: DefinitionView,
) -> bool {
    match create_decision(rooms, open, max_rooms, d) {
        CreateDecision::Refused { error } => r matches CreateStep::Respond { response } && response@
            == create_error(error, "bad-hosted-room-request"@),
        CreateDecision::Existing => r matches CreateStep::Respond { response } && response@
            == hosted_created(rooms, d.room_id, false),
        CreateDecision::Install => r matches CreateStep::Started { run } && begins_creation(
            run@,
            d.normal_form(),
        ),
    }
}

/// Takes a request for a hosted room.
pub fn create_hosted_room(
    expected: &str,
    supplied: Option<&str>,
    registry: &RoomRegistry,
    open: &Vec<String>,
    max_rooms: Option<usize>,
    request: HostedRequest,
) -> (r: CreateStep)
    ensures
        authentication_refusal(expected@, str_option(supplied)) is None ==> leads_to_hosted_room(
            r,
            registry@,
            names(open@),
            max_rooms,
            request.asks_for(),
        ),
        match authentication_refusal(expected@, str_option(supplied)) {
            Some(refusal) => r matches CreateStep::Respond { response } && response@ == refusal,
            None => match create_decision(registry@, names(open@), max_rooms, request.asks_for()) {
                CreateDecision::Refused { error } => r matches CreateStep::Respond { response }
                    && response@ == create_error(error, "bad-hosted-room-request"@),
                CreateDecision::Existing => r matches CreateStep::Respond { response } && response@
                    == hosted_created(registry@, request.room_id@, false),
                CreateDecision::Install => r matches CreateStep::Started { run } && begins_creation(
                    run@,
                    request.asks_for().normal_form(),
                ),
            },
        },
{
    if let Some(response) = authentication_error(expected, supplied) {
        return CreateStep::Respond { response };
    }
    let room_id: String = request.room_id.clone();
    let definition = ManagedRoomDefinition {
        room_id: request.room_id,
        kind: ManagedRoomKind::Hosted,
        owner_id: request.owner_id,
        max_users: request.max_users,
        whitelist: request.allowed_user_ids,
        host_id: request.host_id,
        chart: request.chart,
        chart_mode: request.chart_mode,
        chart_pool: request.chart_pool,
        expires_at: None,
    };
    match create(registry, open, max_rooms, definition) {
        Creation::Refused { error } => CreateStep::Respond {
            response: create_error_response(error.as_str(), "bad-hosted-room-request"),
        },
        Creation::Existing => CreateStep::Respond {
            response: hosted_created_response(registry, room_id.as_str(), false),
        },
        Creation::Started { run } => CreateStep::Started { run },
    }
}

/// What is answered once the creation of a hosted room is over, with an error or without.
pub open spec fn hosted_finished(
    rooms: Map<Seq<char>, DefinitionView>,
    room_id: Seq<char>,
    error: Option<Seq<char>>,
) -> ResponseView {
    match error {
        None => hosted_created(rooms, room_id, true),
        Some(e) => create_error(e, "bad-hosted-room-request"@),
    }
}

/// Answers a request for a hosted room once the creation is over.
pub fn finish_hosted_room(registry: &RoomRegistry, room_id: &str, result: Result<(), String>) -> (r:
    ApiResponse)
    ensures
        r@ == hosted_finished(registry@, room_id@, error_of(result)),
        match result {
            Ok(_) => r@ == hosted_created(registry@, room_id@, true),
            Err(error) => r@ == create_error(error@, "bad-hosted-room-request"@),
        },
{
    match result {
        Ok(_) => hosted_created_response(registry, room_id, true),
        Err(error) => create_error_response(error.as_str(), "bad-hosted-room-request"),
    }
}

/// A request for a reserved room.
#[derive(Debug)]
pub struct PrecreateRequest {
    pub room_id: String,
    pub owner_id: Option<i64>,
    pub allowed_user_ids: Vec<i32>,
    pub chart: ManagedChart,
    pub expires_in_seconds: u64,
}

/// After how many seconds a reserved room expires for which the request names no time.
pub fn default_precreate_expiry() -> (r: u64)
    ensures
        r == 1800,
{
    1800
}

impl PrecreateRequest {
    /// A reserved room stays between half a minute and a day.
    pub open spec fn expiry_ok(self) -> bool {
        30 <= self.expires_in_seconds <= 86_400
    }

    /// The definition that the request asks for at the time `now_ms`. The room has place for
    /// exactly its players.
    pub open spec fn asks_for(self, now_ms: i64) -> DefinitionView {
        DefinitionView {
            room_id: self.room_id@,
            kind: ManagedRoomKind::Reserved,
            owner_id: self.owner_id,
            max_users: distinct(self.allowed_user_ids@).len() as usize,
            whitelist: distinct(self.allowed_user_ids@),
            host_id: None,
            chart: Some(self.chart@),
            chart_mode: ChartMode::HostSelect,
            chart_pool: Seq::empty(),
            expires_at: Some((now_ms + self.expires_in_seconds * 1000) as i64),
        }
    }
}

/// What is answered once the reserved room `d` is there: made by this request, or found. The
/// players and the chart are the requested ones.
pub open spec fn precreated(
    d: DefinitionView,
    room_id: Seq<char>,
    players: Seq<i32>,
    chart: ChartView,
    created: bool,
) -> ResponseView {
    ResponseView {
        status: if created {
            201
        } else {
            200
        },
        body: BodyView::Precreated {
            created,
            room_id,
            owner_id: d.owner_id,
            allowed_user_ids: players,
            chart,
            expires_at: d.expires_at,
        },
    }
}

/// What a reserved room is asked for, as far as the answer tells it.
#[derive(Debug)]
pub struct Booking {
    pub room_id: String,
    pub players: Vec<i32>,
    pub chart: ManagedChart,
}

fn precreated_response(registry: &RoomRegistry, booking: Booking, created: bool) -> (r: ApiResponse)
    requires
        registry@.contains_key(booking.room_id@),
    ensures
        r@ == precreated(
            registry@[booking.room_id@],
            booking.room_id@,
            booking.players@,
            booking.chart@,
            created,
        ),
{
    let (owner_id, expires_at): (Option<i64>, Option<i64>) = match registry.get(
        booking.room_id.as_str(),
    ) {
        Some(definition) => (definition.owner_id, definition.expires_at),
        None => (None, None),
    };
    ApiResponse {
        status: if created {
            201
        } else {
            200
        },
        body: ApiBody::Precreated {
            created,
            room_id: booking.room_id,
            owner_id,
            allowed_user_ids: booking.players,
            chart: booking.chart,
            expires_at,
        },
    }
}

/// What a request for a reserved room leads to.
#[derive(Debug)]
pub enum PrecreateStep {
    Respond { response: ApiResponse },
    /// The room is being created; the answer follows, and tells of the booking.
    Started { run: Run, booking: Booking },
}

/// `r` is what a request that is let in, for the reserved room `d` and at most a day, leads to.
pub open spec fn leads_to_reserved_room(
    r: PrecreateStep,
    rooms: Map<Seq<char>, DefinitionView>,
    open: Seq<Seq<char>>,
    max_rooms: Option<usize>,
    d: DefinitionView,
    chart: ChartView,
) -> bool {
    match create_decision(rooms, open, max_rooms, d) {
        CreateDecision::Refused { error } => r matches PrecreateStep::Respond { response }
            && response@ == create_error(error, "bad-precreate-request"@),
        CreateDecision::Existing => r matches PrecreateStep::Respond { response } && response@
            == precreated(rooms[d.room_id], d.room_id, d.whitelist, chart, false),
        CreateDecision::Install => r matches PrecreateStep::Started { run, booking }
            && begins_creation(run@, d.normal_form()) && booking.room_id@ == d.room_id
            && booking.players@ == d.whitelist && booking.chart@ == chart,
    }
}

/// Takes a request for a reserved room at the time `now_ms`.
pub fn precreate_room(
    expected: &str,
    supplied: Option<&str>,
    registry: &RoomRegistry,
    open: &Vec<String>,
    max_rooms: Option<usize>,
    now_ms: i64,
    request: PrecreateRequest,
) -> (r: PrecreateStep)
    requires
        request.expiry_ok() ==> now_ms + request.expires_in_seconds * 1000 <= i64::MAX,
    ensures
        authentication_refusal(expected@, str_option(supplied)) is None && request.expiry_ok()
            ==> leads_to_reserved_room(
            r,
            registry@,
            names(open@),
            max_rooms,
            request.asks_for(now_ms),
            request.chart@,
        ),
        match authentication_refusal(expected@, str_option(supplied)) {
            Some(refusal) => r matches PrecreateStep::Respond { response } && response@ == refusal,
            None => if !request.expiry_ok() {
                r matches PrecreateStep::Respond { response } && response@ == error_response(
                    400,
                    "bad-precreate-request"@,
                    "预约房过期时间必须在 30 至 86400 秒之间"@,
                )
            } else {
                match create_decision(
                    registry@,
                    names(open@),
                    max_rooms,
                    request.asks_for(now_ms),
                ) {
                    CreateDecision::Refused { error } => r matches PrecreateStep::Respond {
                        response,
                    } && response@ == create_error(error, "bad-precreate-request"@),
                    CreateDecision::Existing => r matches PrecreateStep::Respond { response }
                        && response@ == precreated(
                        registry@[request.room_id@],
                        request.room_id@,
                        distinct(request.allowed_user_ids@),
                        request.chart@,
                        false,
                    ),
                    CreateDecision::Install => r matches PrecreateStep::Started { run, booking }
                        && begins_creation(run@, request.asks_for(now_ms).normal_form())
                        && booking.room_id@ == request.room_id@ && booking.players@ == distinct(
                        request.allowed_user_ids@,
                    ) && booking.chart@ == request.chart@,
                }
            },
        },
{
    if let Some(response) = authentication_error(expected, supplied) {
        return PrecreateStep::Respond { response };
    }
    if request.expires_in_seconds < 30 || request.expires_in_seconds > 86_400 {
        return PrecreateStep::Respond {
            response: api_error(
                400,
                "bad-precreate-request",
                "预约房过期时间必须在 30 至 86400 秒之间",
            ),
        };
    }
    let whitelist: Vec<i32> = distinct_ids(&request.allowed_user_ids);
    let booking = Booking {
        room_id: request.room_id.clone(),
        players: copy_ids(&whitelist),
        chart: request.chart.clone(),
    };
    let ghost wanted = request.asks_for(now_ms);
    let definition = ManagedRoomDefinition {
        room_id: request.room_id,
        kind: ManagedRoomKind::Reserved,
        owner_id: request.owner_id,
        max_users: whitelist.len(),
        whitelist,
        host_id: None,
        chart: Some(request.chart),
        chart_mode: ChartMode::HostSelect,
        chart_pool: Vec::new(),
        expires_at: Some(now_ms + request.expires_in_seconds as i64 * 1000),
    };
    assert(definition@ =~= wanted);
    match create(registry, open, max_rooms, definition) {
        Creation::Refused { error } => PrecreateStep::Respond {
            response: create_error_response(error.as_str(), "bad-precreate-request"),
        },
        Creation::Existing => PrecreateStep::Respond {
            response: precreated_response(registry, booking, false),
        },
        Creation::Started { run } => PrecreateStep::Started { run, booking },
    }
}

/// What is answered once the creation of a reserved room is over, with an error or without.
pub open spec fn reserved_finished(
    rooms: Map<Seq<char>, DefinitionView>,
    room_id: Seq<char>,
    players: Seq<i32>,
    chart: ChartView,
    error: Option<Seq<char>>,
) -> ResponseView {
    match error {
        None => precreated(rooms[room_id], room_id, players, chart, true),
        Some(e) => create_error(e, "bad-precreate-request"@),
    }
}

/// Answers a request for a reserved room once the creation is over. A room that was created is
/// managed.
pub fn finish_precreated_room(registry: &RoomRegistry, booking: Booking, result: Result<(), String>) -> (r:
    ApiResponse)
    requires
        result is Ok ==> registry@.contains_key(booking.room_id@),
    ensures
        r@ == reserved_finished(
            registry@,
            booking.room_id@,
            booking.players@,
            booking.chart@,
            error_of(result),
        ),
        match result {
            Ok(_) => r@ == precreated(
                registry@[booking.room_id@],
                booking.room_id@,
                booking.players@,
                booking.chart@,
                true,
            ),
            Err(error) => r@ == create_error(error@, "bad-precreate-request"@),
        },
{
    match result {
        Ok(_) => precreated_response(registry, booking, true),
        Err(error) => create_error_response(error.as_str(), "bad-precreate-request"),
    }
}

// ---- changing ----

/// What is answered to an update that fails.
pub open spec fn update_error(error: Seq<char>) -> ResponseView {
    if error == "room-not-found"@ {
        error_response(404, error, "未找到托管房"@)
    } else if error == "hosted-room-busy"@ || error == "hosted-room-capacity-below-users"@ {
        error_response(409, error, "房间当前状态不允许该修改"@)
    } else {
        error_response(400, "bad-hosted-room-request"@, error)
    }
}

/// The answer to an update that fails.
pub fn update_error_response(error: &str) -> (r: ApiResponse)
    ensures
        r@ == update_error(error@),
{
    if same_text(error, "room-not-found") {
        api_error(404, error, "未找到托管房")
    } else if same_text(error, "hosted-room-busy") || same_text(
        error,
        "hosted-room-capacity-below-users",
    ) {
        api_error(409, error, "房间当前状态不允许该修改")
    } else {
        api_error(400, "bad-hosted-room-request", error)
    }
}

/// An update of a hosted room under way.
#[derive(Debug)]
pub struct Update {
    pub run: Run,
    /// The definition that the room will have.
    pub definition: ManagedRoomDefinition,
}

/// `r` is what an update to the definition `d` leads to.
pub open spec fn leads_to_update(
    r: Result<Update, ApiResponse>,
    rooms: Map<Seq<char>, DefinitionView>,
    d: DefinitionView,
    snapshot: Option<SnapshotView>,
) -> bool {
    match update_refusal(rooms, d, snapshot) {
        Some(error) => r matches Err(response) && response@ == update_error(error),
        None => r matches Ok(update) && update.definition@ == d.normal_form() && update.run@
            == start_of(update_plan(rooms[d.room_id], d.normal_form())),
    }
}

fn begin_update(
    registry: &RoomRegistry,
    definition: ManagedRoomDefinition,
    snapshot: Option<&RoomSnapshot>,
) -> (r: Result<Update, ApiResponse>)
    ensures
        leads_to_update(r, registry@, definition@, snapshot_option(snapshot)),
{
    match update_hosted(registry, definition, snapshot) {
        Ok((run, definition)) => Ok(Update { run, definition }),
        Err(error) => Err(update_error_response(error.as_str())),
    }
}

/// `r` is what a request that is let in, with these members for the room, leads to.
pub open spec fn leads_to_patch(
    r: Result<Update, ApiResponse>,
    rooms: Map<Seq<char>, DefinitionView>,
    room_id: Seq<char>,
    snapshot: Option<SnapshotView>,
    m: Option<MembersView>,
) -> bool {
    if !is_hosted_room(rooms, room_id) {
        r matches Err(response) && response@ == hosted_not_found()
    } else {
        match members_refusal(m) {
            Some(refusal) => r matches Err(response) && response@ == refusal,
            None => leads_to_update(r, rooms, patched(rooms[room_id], m->0), snapshot),
        }
    }
}

/// Takes a request that changes some members of a hosted room's definition. `parsed` holds the
/// members of `body` that describe charts.
pub fn patch_hosted_room(
    expected: &str,
    supplied: Option<&str>,
    registry: &RoomRegistry,
    room_id: &str,
    snapshot: Option<&RoomSnapshot>,
    body: &str,
    parsed: ParsedCharts,
) -> (r: Result<Update, ApiResponse>)
    ensures
        authentication_refusal(expected@, str_option(supplied)) is None ==> leads_to_patch(
            r,
            registry@,
            room_id@,
            snapshot_option(snapshot),
            members(body@, parsed),
        ),
        match authentication_refusal(expected@, str_option(supplied)) {
            Some(refusal) => r matches Err(response) && response@ == refusal,
            None => if !is_hosted_room(registry@, room_id@) {
                r matches Err(response) && response@ == hosted_not_found()
            } else {
                match members_refusal(members(body@, parsed)) {
                    Some(refusal) => r matches Err(response) && response@ == refusal,
                    None => leads_to_update(
                        r,
                        registry@,
                        patched(registry@[room_id@], members(body@, parsed)->0),
                        snapshot_option(snapshot),
                    ),
                }
            },
        },
{
    if let Some(response) = authentication_error(expected, supplied) {
        return Err(response);
    }
    let definition: ManagedRoomDefinition = match registry.get(room_id) {
        Some(definition) => definition.clone(),
        None => {
            return Err(api_error(404, "room-not-found", "未找到托管房"));
        },
    };
    if !definition.is_hosted() {
        return Err(api_error(404, "room-not-found", "未找到托管房"));
    }
    match apply_members(definition, read_members(body, parsed)) {
        Ok(definition) => begin_update(registry, definition, snapshot),
        Err(response) => Err(response),
    }
}

/// What is answered once an update is over, with an error or without; `body` is for success.
pub open spec fn update_finished(body: BodyView, error: Option<Seq<char>>) -> ResponseView {
    match error {
        None => ResponseView { status: 200, body },
        Some(e) => update_error(e),
    }
}

/// Answers a change of a hosted room once the update to `definition` is over.
pub fn finish_patched_room(definition: &ManagedRoomDefinition, result: Result<(), String>) -> (r:
    ApiResponse)
    ensures
        r@ == update_finished(
            BodyView::Definition { report: report(definition@, None) },
            error_of(result),
        ),
        match result {
            Ok(_) => r@ == (ResponseView {
                status: 200,
                body: BodyView::Definition { report: report(definition@, None) },
            }),
            Err(error) => r@ == update_error(error@),
        },
{
    match result {
        Ok(_) => ApiResponse {
            status: 200,
            body: ApiBody::Definition { report: definition_json(definition, None) },
        },
        Err(error) => update_error_response(error.as_str()),
    }
}

/// `r` is what a request for the pool `charts` leads to; `None` stands for no list of charts.
pub open spec fn leads_to_pool(
    r: Result<Update, ApiResponse>,
    rooms: Map<Seq<char>, DefinitionView>,
    room_id: Seq<char>,
    snapshot: Option<SnapshotView>,
    charts: Option<Seq<ChartView>>,
) -> bool {
    if !rooms.contains_key(room_id) {
        r matches Err(response) && response@ == hosted_not_found()
    } else {
        match charts {
            None => r matches Err(response) && response@ == error_response(
                400,
                "bad-chart-pool"@,
                "charts 必须是谱面数组"@,
            ),
            Some(pool) => leads_to_update(
                r,
                rooms,
                DefinitionView { chart_pool: pool, ..rooms[room_id] },
                snapshot,
            ),
        }
    }
}

/// Takes up another pool for a hosted room. `charts` is `None` where the request does not hold a
/// list of charts.
pub fn change_chart_pool(
    registry: &RoomRegistry,
    room_id: &str,
    snapshot: Option<&RoomSnapshot>,
    charts: Option<Vec<ManagedChart>>,
) -> (r: Result<Update, ApiResponse>)
    ensures
        leads_to_pool(r, registry@, room_id@, snapshot_option(snapshot), charts_option(charts)),
{
    let mut definition: ManagedRoomDefinition = match registry.get(room_id) {
        Some(definition) => definition.clone(),
        None => {
            return Err(api_error(404, "room-not-found", "未找到托管房"));
        },
    };
    let charts: Vec<ManagedChart> = match charts {
        Some(charts) => charts,
        None => {
            return Err(api_error(400, "bad-chart-pool", "charts 必须是谱面数组"));
        },
    };
    let ghost wanted = DefinitionView { chart_pool: chart_list(charts@), ..definition@ };
    definition.chart_pool = charts;
    assert(definition@ =~= wanted);
    begin_update(registry, definition, snapshot)
}

/// The list of charts in a JSON text: what its member `charts` is read as, where it has one.
pub open spec fn pool_in(body: Seq<char>, parsed: Option<Seq<ChartView>>) -> Option<Seq<ChartView>> {
    match json_member(body, "charts"@) {
        Some(_) => parsed,
        None => None,
    }
}

/// Takes a request for another pool. `parsed` is the member `charts` of `body`, read as a list of
/// charts; `None` where it cannot be read so.
pub fn set_chart_pool(
    expected: &str,
    supplied: Option<&str>,
    registry: &RoomRegistry,
    room_id: &str,
    snapshot: Option<&RoomSnapshot>,
    body: &str,
    parsed: Option<Vec<ManagedChart>>,
) -> (r: Result<Update, ApiResponse>)
    ensures
        match authentication_refusal(expected@, str_option(supplied)) {
            Some(refusal) => r matches Err(response) && response@ == refusal,
            None => leads_to_pool(
                r,
                registry@,
                room_id@,
                snapshot_option(snapshot),
                pool_in(body@, charts_option(parsed)),
            ),
        },
{
    if let Some(response) = authentication_error(expected, supplied) {
        return Err(response);
    }
    let charts: Option<Vec<ManagedChart>> = match member(body, "charts") {
        Some(_) => parsed,
        None => None,
    };
    change_chart_pool(registry, room_id, snapshot, charts)
}

/// Answers a request for another pool once the update to `definition` is over.
pub fn finish_chart_pool(
    room_id: &str,
    definition: &ManagedRoomDefinition,
    result: Result<(), String>,
) -> (r: ApiResponse)
    ensures
        r@ == update_finished(
            BodyView::ChartPool { room_id: room_id@, charts: definition@.chart_pool },
            error_of(result),
        ),
        match result {
            Ok(_) => r@ == (ResponseView {
                status: 200,
                body: BodyView::ChartPool { room_id: room_id@, charts: definition@.chart_pool },
            }),
            Err(error) => r@ == update_error(error@),
        },
{
    match result {
        Ok(_) => ApiResponse {
            status: 200,
            body: ApiBody::ChartPool {
                room_id: room_id.to_string(),
                charts: copy_charts(&definition.chart_pool),
            },
        },
        Err(error) => update_error_response(error.as_str()),
    }
}

// ---- the capacity ----

/// What a request for another capacity leads to.
#[derive(Debug)]
pub enum MaxUsersStep {
    Respond { response: ApiResponse },
    /// A hosted room is being updated; the answer follows.
    Update { run: Run, max_users: usize },
    /// The open room is to get the capacity; the answer follows.
    SetOpenRoom { max_users: usize },
}

/// The capacity that is asked for; one that cannot be read counts as zero.
pub open spec fn asked_capacity(max_users: Option<u64>) -> usize {
    match max_users {
        Some(n) => n as usize,
        None => 0,
    }
}

/// The managed rooms after a request for another capacity. A reserved room gets it at once, if
/// all its players have place.
pub open spec fn rooms_with_capacity(
    rooms: Map<Seq<char>, DefinitionView>,
    room_id: Seq<char>,
    n: usize,
) -> Map<Seq<char>, DefinitionView> {
    if 1 <= n <= MAX_MANAGED_ROOM_USERS && rooms.contains_key(room_id)
        && !rooms[room_id].is_hosted() && rooms[room_id].whitelist.len() <= n {
        rooms.insert(room_id, DefinitionView { max_users: n, ..rooms[room_id] })
    } else {
        rooms
    }
}

/// `r` is what a request for the capacity `n` leads to.
pub open spec fn leads_to_capacity(
    r: MaxUsersStep,
    rooms: Map<Seq<char>, DefinitionView>,
    room_id: Seq<char>,
    snapshot: Option<SnapshotView>,
    n: usize,
) -> bool {
    let d = DefinitionView { max_users: n, ..rooms[room_id] };
    if !(1 <= n <= MAX_MANAGED_ROOM_USERS) {
        r matches MaxUsersStep::Respond { response } && response@ == error_response(
            400,
            "bad-max-users"@,
            "房间容量必须在 1 至 64 之间"@,
        )
    } else if is_hosted_room(rooms, room_id) {
        match update_refusal(rooms, d, snapshot) {
            Some(error) => r matches MaxUsersStep::Respond { response } && response@
                == update_error(error),
            None => r matches MaxUsersStep::Update { run, max_users } && max_users == n && run@
                == start_of(update_plan(rooms[room_id], d.normal_form())),
        }
    } else if rooms.contains_key(room_id) && n < rooms[room_id].whitelist.len() {
        r matches MaxUsersStep::Respond { response } && response@ == error_response(
            409,
            "hosted-room-capacity-below-users"@,
            "容量不能低于白名单人数"@,
        )
    } else if snapshot is None {
        r matches MaxUsersStep::Respond { response } && response@ == error_response(
            404,
            "room-not-found"@,
            "未找到房间"@,
        )
    } else {
        r matches MaxUsersStep::SetOpenRoom { max_users } && max_users == n
    }
}

/// Takes up another capacity for a room, managed or not.
pub fn change_max_users(
    registry: &mut RoomRegistry,
    room_id: &str,
    snapshot: Option<&RoomSnapshot>,
    max_users: Option<u64>,
) -> (r: MaxUsersStep)
    ensures
        final(registry)@ == rooms_with_capacity(
            old(registry)@,
            room_id@,
            asked_capacity(max_users),
        ),
        leads_to_capacity(
            r,
            old(registry)@,
            room_id@,
            snapshot_option(snapshot),
            asked_capacity(max_users),
        ),
{
    let max_users: usize = match max_users {
        Some(n) => n as usize,
        None => 0,
    };
    if max_users < 1 || max_users > MAX_MANAGED_ROOM_USERS {
        return MaxUsersStep::Respond {
            response: api_error(400, "bad-max-users", "房间容量必须在 1 至 64 之间"),
        };
    }
    let found: Option<ManagedRoomDefinition> = match registry.get(room_id) {
        Some(definition) => Some(definition.clone()),
        None => None,
    };
    if let Some(found) = found {
        let mut definition: ManagedRoomDefinition = found;
        let ghost wanted = DefinitionView { max_users, ..definition@ };
        if definition.is_hosted() {
            definition.max_users = max_users;
            assert(definition@ =~= wanted);
            return match begin_update(registry, definition, snapshot) {
                Ok(update) => MaxUsersStep::Update { run: update.run, max_users },
                Err(response) => MaxUsersStep::Respond { response },
            };
        }
        if max_users < definition.whitelist.len() {
            return MaxUsersStep::Respond {
                response: api_error(
                    409,
                    "hosted-room-capacity-below-users",
                    "容量不能低于白名单人数",
                ),
            };
        }
        definition.max_users = max_users;
        assert(definition@ =~= wanted);
        registry.insert(definition);
    }
    if snapshot.is_none() {
        return MaxUsersStep::Respond {
            response: api_error(404, "room-not-found", "未找到房间"),
        };
    }
    MaxUsersStep::SetOpenRoom { max_users }
}

/// The unsigned integer that the member `maxUsers` of a JSON text is.
pub open spec fn max_users_in(body: Seq<char>) -> Option<u64> {
    match json_member(body, "maxUsers"@) {
        Some(text) => json_u64(text),
        None => None,
    }
}

/// Takes a request for another capacity.
pub fn set_max_users(
    expected: &str,
    supplied: Option<&str>,
    registry: &mut RoomRegistry,
    room_id: &str,
    snapshot: Option<&RoomSnapshot>,
    body: &str,
) -> (r: MaxUsersStep)
    ensures
        match authentication_refusal(expected@, str_option(supplied)) {
            Some(refusal) => final(registry)@ == old(registry)@ && (r matches MaxUsersStep::Respond {
                response,
            } && response@ == refusal),
            None => {
                &&& final(registry)@ == rooms_with_capacity(
                    old(registry)@,
                    room_id@,
                    asked_capacity(max_users_in(body@)),
                )
                &&& leads_to_capacity(
                    r,
                    old(registry)@,
                    room_id@,
                    snapshot_option(snapshot),
                    asked_capacity(max_users_in(body@)),
                )
            },
        },
{
    if let Some(response) = authentication_error(expected, supplied) {
        return MaxUsersStep::Respond { response };
    }
    let max_users: Option<u64> = match member(body, "maxUsers") {
        Some(text) => as_u64(text.as_str()),
        None => None,
    };
    change_max_users(registry, room_id, snapshot, max_users)
}

pub open spec fn capacity_set(room_id: Seq<char>, max_users: usize) -> ResponseView {
    ResponseView { status: 200, body: BodyView::Capacity { room_id, max_users } }
}

fn capacity_response(room_id: &str, max_users: usize) -> (r: ApiResponse)
    ensures
        r@ == capacity_set(room_id@, max_users),
{
    ApiResponse {
        status: 200,
        body: ApiBody::Capacity { room_id: room_id.to_string(), max_users },
    }
}

/// Answers a request for another capacity of a hosted room once the update is over.
pub fn finish_max_users(room_id: &str, max_users: usize, result: Result<(), String>) -> (r:
    ApiResponse)
    ensures
        r@ == update_finished(
            BodyView::Capacity { room_id: room_id@, max_users },
            error_of(result),
        ),
        match result {
            Ok(_) => r@ == capacity_set(room_id@, max_users),
            Err(error) => r@ == update_error(error@),
        },
{
    match result {
        Ok(_) => capacity_response(room_id, max_users),
        Err(error) => update_error_response(error.as_str()),
    }
}

/// What is answered once an open room that is not hosted was asked for another capacity.
pub open spec fn open_room_finished(
    room_id: Seq<char>,
    max_users: usize,
    error: Option<Seq<char>>,
) -> ResponseView {
    match error {
        None => capacity_set(room_id, max_users),
        Some(e) => if has_part(e, "below current users"@) {
            error_response(409, "hosted-room-capacity-below-users"@, "容量不能低于当前玩家人数"@)
        } else {
            error_response(400, "bad-max-users"@, e)
        },
    }
}

/// Answers a request for another capacity of any other room once the open room has answered.
pub fn finish_open_room_max_users(room_id: &str, max_users: usize, result: Result<(), String>) -> (r:
    ApiResponse)
    ensures
        r@ == open_room_finished(room_id@, max_users, error_of(result)),
        match result {
            Ok(_) => r@ == capacity_set(room_id@, max_users),
            Err(error) => r@ == if has_part(error@, "below current users"@) {
                error_response(
                    409,
                    "hosted-room-capacity-below-users"@,
                    "容量不能低于当前玩家人数"@,
                )
            } else {
                error_response(400, "bad-max-users"@, error@)
            },
        },
{
    match result {
        Ok(_) => capacity_response(room_id, max_users),
        Err(error) => {
            if contains(error.as_str(), "below current users") {
                api_error(409, "hosted-room-capacity-below-users", "容量不能低于当前玩家人数")
            } else {
                api_error(400, "bad-max-users", error.as_str())
            }
        },
    }
}

// ---- disbanding and speaking ----

/// What is answered to an attempt to disband that fails.
pub open spec fn disband_error(error: Seq<char>) -> ResponseView {
    if error == "room-not-found"@ {
        error_response(404, error, "未找到房间"@)
    } else {
        error_response(500, "room-disband-failed"@, error)
    }
}

fn disband_error_response(error: &str) -> (r: ApiResponse)
    ensures
        r@ == disband_error(error@),
{
    if same_text(error, "room-not-found") {
        api_error(404, error, "未找到房间")
    } else {
        api_error(500, "room-disband-failed", error)
    }
}

/// `r` is what a request that is let in, to disband the room, leads to.
pub open spec fn leads_to_disbanding(
    r: Result<Run, ApiResponse>,
    rooms: Map<Seq<char>, DefinitionView>,
    open: Seq<Seq<char>>,
    room_id: Seq<char>,
) -> bool {
    if open.contains(room_id) {
        r matches Ok(run) && run@ == start_of(
            disband_plan(room_id, is_hosted_room(rooms, room_id)),
        )
    } else {
        r matches Err(response) && response@ == disband_error("room-not-found"@)
    }
}

/// What is answered once the disbanding of a room is over, with an error or without.
pub open spec fn disband_finished(room_id: Seq<char>, error: Option<Seq<char>>) -> ResponseView {
    match error {
        None => ResponseView { status: 200, body: BodyView::Disbanded { room_id } },
        Some(e) => disband_error(e),
    }
}

/// Takes a request to disband a room.
pub fn disband_room(
    expected: &str,
    supplied: Option<&str>,
    registry: &RoomRegistry,
    open: &Vec<String>,
    room_id: &str,
) -> (r: Result<Run, ApiResponse>)
    ensures
        authentication_refusal(expected@, str_option(supplied)) is None ==> leads_to_disbanding(
            r,
            registry@,
            names(open@),
            room_id@,
        ),
        match authentication_refusal(expected@, str_option(supplied)) {
            Some(refusal) => r matches Err(response) && response@ == refusal,
            None => if names(open@).contains(room_id@) {
                r matches Ok(run) && run@ == start_of(
                    disband_plan(room_id@, is_hosted_room(registry@, room_id@)),
                )
            } else {
                r matches Err(response) && response@ == disband_error("room-not-found"@)
            },
        },
{
    if let Some(response) = authentication_error(expected, supplied) {
        return Err(response);
    }
    match disband(registry, open, room_id) {
        Ok(run) => Ok(run),
        Err(error) => Err(disband_error_response(error.as_str())),
    }
}

/// Answers a request to disband a room once it is over.
pub fn finish_disbanded_room(room_id: &str, result: Result<(), String>) -> (r: ApiResponse)
    ensures
        r@ == disband_finished(room_id@, error_of(result)),
        match result {
            Ok(_) => r@ == (ResponseView {
                status: 200,
                body: BodyView::Disbanded { room_id: room_id@ },
            }),
            Err(error) => r@ == disband_error(error@),
        },
{
    match result {
        Ok(_) => ApiResponse {
            status: 200,
            body: ApiBody::Disbanded { room_id: room_id.to_string() },
        },
        Err(error) => disband_error_response(error.as_str()),
    }
}

/// A message to the users of a room. User zero is the server itself.
#[derive(Debug, PartialEq, Eq)]
pub struct ChatMessage {
    pub user: i32,
    pub content: String,
}

/// The white space at the ends of a message is not sent; a missing message is empty.
pub open spec fn message_text(message: Option<Seq<char>>) -> Seq<char> {
    match message {
        Some(text) => trimmed(text),
        None => Seq::empty(),
    }
}

/// Why a message is not sent; `None` where it is.
pub open spec fn message_refusal(
    open: Seq<Seq<char>>,
    room_id: Seq<char>,
    message: Option<Seq<char>>,
) -> Option<ResponseView> {
    let text = message_text(message);
    if text.len() == 0 {
        Some(error_response(400, "bad-message"@, "消息必须为 1 至 200 个字符"@))
    } else if text.len() > 200 {
        Some(error_response(400, "message-too-long"@, "消息必须为 1 至 200 个字符"@))
    } else if !room_id_ok(room_id) {
        Some(error_response(400, "invalid-room-id"@, "房间 ID 无效"@))
    } else if !open.contains(room_id) {
        Some(error_response(404, "room-not-found"@, "未找到房间"@))
    } else {
        None
    }
}

/// `r` is the message to send, or the refusal.
pub open spec fn leads_to_message(
    r: Result<ChatMessage, ApiResponse>,
    open: Seq<Seq<char>>,
    room_id: Seq<char>,
    message: Option<Seq<char>>,
) -> bool {
    match message_refusal(open, room_id, message) {
        Some(refusal) => r matches Err(response) && response@ == refusal,
        None => r matches Ok(chat) && chat.user == 0 && chat.content@ == message_text(message),
    }
}

/// Decides about a message to an open room.
pub fn admit_message(open: &Vec<String>, room_id: &str, message: Option<String>) -> (r: Result<
    ChatMessage,
    ApiResponse,
>)
    ensures
        leads_to_message(r, names(open@), room_id@, text_option(message)),
{
    proof {
        reveal_strlit("");
    }
    let text: String = match message {
        Some(message) => trim(message.as_str()).to_string(),
        None => "".to_string(),
    };
    if text.as_str().is_empty() {
        return Err(api_error(400, "bad-message", "消息必须为 1 至 200 个字符"));
    }
    if text.as_str().unicode_len() > 200 {
        return Err(api_error(400, "message-too-long", "消息必须为 1 至 200 个字符"));
    }
    if !is_room_id(room_id) {
        return Err(api_error(400, "invalid-room-id", "房间 ID 无效"));
    }
    if !is_open(open, room_id) {
        return Err(api_error(404, "room-not-found", "未找到房间"));
    }
    Ok(ChatMessage { user: 0, content: text })
}

/// The string that the member `message` of a JSON text is.
pub open spec fn message_in(body: Seq<char>) -> Option<Seq<char>> {
    match json_member(body, "message"@) {
        Some(text) => json_str(text),
        None => None,
    }
}

/// Takes a request to speak to the users of a room.
pub fn room_chat(
    expected: &str,
    supplied: Option<&str>,
    open: &Vec<String>,
    room_id: &str,
    body: &str,
) -> (r: Result<ChatMessage, ApiResponse>)
    ensures
        match authentication_refusal(expected@, str_option(supplied)) {
            Some(refusal) => r matches Err(response) && response@ == refusal,
            None => leads_to_message(r, names(open@), room_id@, message_in(body@)),
        },
{
    if let Some(response) = authentication_error(expected, supplied) {
        return Err(response);
    }
    let message: Option<String> = match member(body, "message") {
        Some(text) => as_str(text.as_str()),
        None => None,
    };
    admit_message(open, room_id, message)
}

/// Answers a request to speak once the message is sent.
pub fn finish_room_chat() -> (r: ApiResponse)
    ensures
        r@ == (ResponseView { status: 200, body: BodyView::Sent }),
{
    ApiResponse { status: 200, body: ApiBody::Sent }
}

} // verus!
