//! What each request to the administration interface is answered.
use crate::admin::{
    asked_capacity, authentication_refusal, capacity_set, create_error, disband_error,
    disband_finished, hosted_answer, hosted_created, hosted_finished, leads_to_capacity,
    leads_to_disbanding, leads_to_hosted_room, leads_to_message, leads_to_patch, leads_to_pool,
    leads_to_reserved_room, leads_to_update, live_in, max_users_in, message_in,
    open_room_finished, pool_in, precreated, reserved_finished, rooms_with_capacity, tells_all,
    update_error, update_finished, ChatMessage, CreateStep, HostedRequest, LiveRoom, MaxUsersStep,
    PrecreateRequest, PrecreateStep, Update,
};
use crate::answer::{
    error_response, report, ApiResponse, BodyView, ReportView, ResponseView,
};
use crate::definition::{
    chart_list, chart_option, ChartMode, ChartView, DefinitionView, ManagedRoomKind,
};
use crate::definition_laws::refusals_are_no_codes;
use crate::ids::{distinct_counts_members, distinct_is_ascending_and_complete};
use crate::json::{json_member, json_str, json_u64};
use crate::room_id::room_id_ok;
use crate::patch::{members_refusal, patched, MembersView};
use crate::plan::Run;
use crate::runtime::{
    begins_creation, disband_plan, update_plan, update_refusal, RoomPhase, SnapshotView,
};
use crate::text::{
    has_part, is_white_space, parts_stand_between_the_rest, surrounding_white_space_is_trimmed,
};
use vstd::prelude::*;

verus! {

/// The answer is this error.
pub open spec fn is_error(
    response: ResponseView,
    status: int,
    code: Seq<char>,
    message: Seq<char>,
) -> bool {
    response.status == status && response.body == (BodyView::Error { code, message })
}

/// A request that is turned away with an error is answered with its status, code and message.
pub proof fn errors_are_answered_as_they_are(status: u16, code: Seq<char>, message: Seq<char>)
    ensures
        is_error(error_response(status, code, message), status as int, code, message),
{
}

/// Without a token of its own the server turns everybody away; else a request with another token
/// or none.
pub proof fn requests_without_the_token_are_turned_away(
    expected: Seq<char>,
    supplied: Option<Seq<char>>,
)
    ensures
        expected.len() == 0 ==> authentication_refusal(expected, supplied) is Some && is_error(
            authentication_refusal(expected, supplied)->0,
            403,
            "admin-disabled"@,
            "管理员 API 未启用"@,
        ),
        expected.len() > 0 && (supplied is None || supplied->0 != expected)
            ==> authentication_refusal(expected, supplied) is Some && is_error(
            authentication_refusal(expected, supplied)->0,
            401,
            "unauthorized"@,
            "管理员令牌无效"@,
        ),
        expected.len() > 0 && supplied is Some && supplied->0 == expected
            ==> authentication_refusal(expected, supplied) is None,
{
}

// ---- what is told of a room ----

/// What is told of a room is its definition, member by member. Only of an open room is told what
/// goes on in it.
pub proof fn reports_mirror_the_definition(d: DefinitionView, snapshot: Option<SnapshotView>)
    ensures
        ({
            let r = report(d, snapshot);
            &&& r.hosted <==> d.kind == ManagedRoomKind::Hosted
            &&& r.room_id == d.room_id
            &&& r.owner_id == d.owner_id
            &&& r.capacity == d.max_users
            &&& r.allowed_user_ids == d.whitelist
            &&& r.host_id == d.host_id
            &&& r.chart == d.chart
            &&& r.chart_mode == d.chart_mode
            &&& r.chart_pool == d.chart_pool
            &&& snapshot is None ==> r.live is None
            &&& snapshot is Some ==> r.live is Some && (r.live->0).users == (snapshot->0).users && (
            r.live->0).monitors == (snapshot->0).monitors
            &&& snapshot is Some && (snapshot->0).phase == RoomPhase::SelectingChart ==> (
            r.live->0).state == "SelectChart"@
            &&& snapshot is Some && (snapshot->0).phase == RoomPhase::WaitingForReady ==> (
            r.live->0).state == "WaitForReady"@
            &&& snapshot is Some && (snapshot->0).phase == RoomPhase::Playing ==> (
            r.live->0).state == "Playing"@
        }),
{
}

/// An open room is found by its identifier, and no other room in its place.
pub proof fn open_rooms_are_found_by_identifier(live: Seq<LiveRoom>, room_id: Seq<char>, at: int)
    requires
        0 <= at <= live.len(),
        forall|i: int| 0 <= i < at ==> (#[trigger] live[i]).room_id@ != room_id,
        at < live.len() ==> live[at].room_id@ == room_id,
    ensures
        at < live.len() ==> live_in(live, room_id) == Some(live[at].snapshot@),
        at == live.len() ==> live_in(live, room_id) is None,
    decreases live.len(),
{
    if at > 0 {
        assert(live[0].room_id@ != room_id);
        let rest = live.drop_first();
        assert forall|i: int| 0 <= i < at - 1 implies (#[trigger] rest[i]).room_id@ != room_id by {
            assert(live[i + 1].room_id@ != room_id);
        }
        open_rooms_are_found_by_identifier(rest, room_id, at - 1);
    }
}

/// The list tells of each managed room exactly once, and of no other.
pub proof fn each_room_is_listed_exactly_once(
    rooms: Map<Seq<char>, DefinitionView>,
    live: Seq<LiveRoom>,
    reports: Seq<ReportView>,
    room_id: Seq<char>,
)
    requires
        tells_all(rooms, live, reports),
    ensures
        rooms.contains_key(room_id) <==> exists|i: int|
            0 <= i < reports.len() && (#[trigger] reports[i]).room_id == room_id,
        forall|i: int, j: int|
            0 <= i < reports.len() && 0 <= j < reports.len() && (#[trigger] reports[i]).room_id == (
            #[trigger] reports[j]).room_id ==> i == j,
        forall|i: int|
            0 <= i < reports.len() && (#[trigger] reports[i]).room_id == room_id ==> reports[i]
                == report(rooms[room_id], live_in(live, room_id)),
{
    let ids = Seq::new(reports.len(), |i: int| reports[i].room_id);
    assert(ids.to_set() =~= rooms.dom()) by {
        assert forall|id: Seq<char>| ids.to_set().contains(id) <==> rooms.dom().contains(id) by {
            if ids.contains(id) {
                let i = choose|i: int| 0 <= i < ids.len() && ids[i] == id;
                assert(reports[i].room_id == id);
            }
            if rooms.contains_key(id) {
                let i = choose|i: int| 0 <= i < reports.len() && (#[trigger] reports[i]).room_id == id;
                assert(ids[i] == id);
                assert(ids.contains(id));
            }
        }
    }
    ids.lemma_no_dup_set_cardinality();
    assert forall|i: int, j: int|
        0 <= i < reports.len() && 0 <= j < reports.len() && (#[trigger] reports[i]).room_id == (
        #[trigger] reports[j]).room_id implies i == j by {
        assert(ids[i] == ids[j]);
    }
}

/// A question about a room is answered if it is a managed hosted one; else it is not found.
pub proof fn only_hosted_rooms_are_told_of(
    rooms: Map<Seq<char>, DefinitionView>,
    room_id: Seq<char>,
    found: BodyView,
)
    ensures
        rooms.contains_key(room_id) && rooms[room_id].kind == ManagedRoomKind::Hosted
            ==> hosted_answer(rooms, room_id, found) == (ResponseView { status: 200, body: found }),
        !rooms.contains_key(room_id) || rooms[room_id].kind == ManagedRoomKind::Reserved
            ==> is_error(
            hosted_answer(rooms, room_id, found),
            404,
            "room-not-found"@,
            "未找到托管房"@,
        ),
{
}

// ---- creating ----

/// A request for a hosted room asks for a hosted room with the members of the request.
pub proof fn hosted_requests_ask_for_what_they_say(request: HostedRequest)
    ensures
        ({
            let d = request.asks_for();
            &&& d.kind == ManagedRoomKind::Hosted
            &&& d.room_id == request.room_id@
            &&& d.owner_id == request.owner_id
            &&& d.max_users == request.max_users
            &&& d.whitelist == request.allowed_user_ids@
            &&& d.host_id == request.host_id
            &&& d.chart == chart_option(request.chart)
            &&& d.chart_mode == request.chart_mode
            &&& d.chart_pool == chart_list(request.chart_pool@)
            &&& d.expires_at is None
        }),
{
}

/// A request for a reserved room asks for a room without host and pool, for each of its players
/// once, with place for exactly them, with its chart, and until as many seconds from now as it
/// says.
pub proof fn reservations_ask_for_what_they_say(request: PrecreateRequest, now_ms: i64)
    requires
        now_ms + request.expires_in_seconds * 1000 <= i64::MAX,
    ensures
        ({
            let d = request.asks_for(now_ms);
            &&& d.kind == ManagedRoomKind::Reserved
            &&& d.room_id == request.room_id@
            &&& d.owner_id == request.owner_id
            &&& d.max_users == d.whitelist.len()
            &&& forall|x: i32| #[trigger]
                d.whitelist.contains(x) <==> request.allowed_user_ids@.contains(x)
            &&& forall|i: int, j: int|
                0 <= i < j < d.whitelist.len() ==> d.whitelist[i] < d.whitelist[j]
            &&& d.host_id is None
            &&& d.chart == Some(request.chart@)
            &&& d.chart_mode == ChartMode::HostSelect
            &&& d.chart_pool.len() == 0
            &&& d.expires_at is Some
            &&& d.expires_at->0 - now_ms == 1000 * request.expires_in_seconds
        }),
{
    let ids = request.allowed_user_ids@;
    distinct_is_ascending_and_complete(ids);
    distinct_counts_members(ids);
    ids.lemma_cardinality_of_set();
    assert(ids.len() == request.allowed_user_ids.len());
}

/// A reservation lasts at least half a minute and at most a day.
pub proof fn reservations_last_between_half_a_minute_and_a_day(request: PrecreateRequest)
    ensures
        request.expiry_ok() <==> 2 * request.expires_in_seconds >= 60 && request.expires_in_seconds
            <= 24 * 60 * 60,
{
}

/// A creation that fails is answered by what stands in its way: a conflict for a taken identifier,
/// no service for a full server, and else a bad request with the error itself.
pub proof fn failed_creations_are_answered_by_their_error(error: Seq<char>, code: Seq<char>)
    ensures
        is_error(
            create_error("room-id-occupied"@, code),
            409,
            "room-id-occupied"@,
            "房间 ID 已被不同配置占用"@,
        ),
        is_error(
            create_error("rooms-limit-reached"@, code),
            503,
            "rooms-limit-reached"@,
            "服务器房间数量已达到上限"@,
        ),
        error != "room-id-occupied"@ && error != "rooms-limit-reached"@ ==> is_error(
            create_error(error, code),
            400,
            code,
            error,
        ),
{
    reveal_strlit("room-id-occupied");
    reveal_strlit("rooms-limit-reached");
    assert("room-id-occupied"@[4] != "rooms-limit-reached"@[4]);
}

/// A hosted room that is there is told of without what goes on in it: as created, or as found. If
/// it is not there, that is an error of the server.
pub proof fn created_hosted_rooms_are_told_of(
    rooms: Map<Seq<char>, DefinitionView>,
    room_id: Seq<char>,
    created: bool,
)
    ensures
        rooms.contains_key(room_id) ==> {
            let r = hosted_created(rooms, room_id, created);
            &&& created ==> r.status == 201
            &&& !created ==> r.status == 200
            &&& r.body == (BodyView::HostedCreated { report: report(rooms[room_id], None), created })
        },
        !rooms.contains_key(room_id) ==> is_error(
            hosted_created(rooms, room_id, created),
            500,
            "room-create-failed"@,
            "房间已创建但无法读取定义"@,
        ),
{
}

/// A reserved room is told of with the owner and the expiry that it has, and the players and the
/// chart that were asked for.
pub proof fn reserved_rooms_are_told_of(
    d: DefinitionView,
    room_id: Seq<char>,
    players: Seq<i32>,
    chart: ChartView,
    created: bool,
)
    ensures
        ({
            let r = precreated(d, room_id, players, chart, created);
            &&& created ==> r.status == 201
            &&& !created ==> r.status == 200
            &&& r.body == (BodyView::Precreated {
                created,
                room_id,
                owner_id: d.owner_id,
                allowed_user_ids: players,
                chart,
                expires_at: d.expires_at,
            })
        }),
{
}

// ---- changing ----

/// An update that fails is answered by what stands in its way.
pub proof fn failed_updates_are_answered_by_their_error(error: Seq<char>)
    ensures
        is_error(update_error("room-not-found"@), 404, "room-not-found"@, "未找到托管房"@),
        is_error(
            update_error("hosted-room-busy"@),
            409,
            "hosted-room-busy"@,
            "房间当前状态不允许该修改"@,
        ),
        is_error(
            update_error("hosted-room-capacity-below-users"@),
            409,
            "hosted-room-capacity-below-users"@,
            "房间当前状态不允许该修改"@,
        ),
        error != "room-not-found"@ && error != "hosted-room-busy"@ && error
            != "hosted-room-capacity-below-users"@ ==> is_error(
            update_error(error),
            400,
            "bad-hosted-room-request"@,
            error,
        ),
{
    reveal_strlit("room-not-found");
    reveal_strlit("hosted-room-busy");
    reveal_strlit("hosted-room-capacity-below-users");
    assert("room-not-found"@[0] != "hosted-room-busy"@[0]);
    assert("room-not-found"@[0] != "hosted-room-capacity-below-users"@[0]);
}

/// A change of a hosted room is begun exactly if nothing stands in its way, towards the normal form
/// of what was asked for; else the reason is answered.
pub proof fn changes_are_begun_or_answered(
    r: Result<Update, ApiResponse>,
    rooms: Map<Seq<char>, DefinitionView>,
    d: DefinitionView,
    snapshot: Option<SnapshotView>,
)
    requires
        leads_to_update(r, rooms, d, snapshot),
    ensures
        r is Ok <==> update_refusal(rooms, d, snapshot) is None,
        r is Ok ==> (r->Ok_0).definition@ == d.normal_form() && (r->Ok_0).run@.plan == update_plan(
            rooms[d.room_id],
            d.normal_form(),
        ) && (r->Ok_0).run@.next == 0 && (r->Ok_0).run@.failure is None,
        r is Err ==> (r->Err_0)@ == update_error(update_refusal(rooms, d, snapshot)->0),
{
}

/// Another pool is taken up for a managed room, if the request holds a list of charts; the room
/// keeps everything else.
pub proof fn pools_are_replaced_by_lists_of_charts(
    r: Result<Update, ApiResponse>,
    rooms: Map<Seq<char>, DefinitionView>,
    room_id: Seq<char>,
    snapshot: Option<SnapshotView>,
    charts: Option<Seq<ChartView>>,
)
    requires
        leads_to_pool(r, rooms, room_id, snapshot, charts),
    ensures
        !rooms.contains_key(room_id) ==> r is Err && is_error(
            (r->Err_0)@,
            404,
            "room-not-found"@,
            "未找到托管房"@,
        ),
        rooms.contains_key(room_id) && charts is None ==> r is Err && is_error(
            (r->Err_0)@,
            400,
            "bad-chart-pool"@,
            "charts 必须是谱面数组"@,
        ),
        rooms.contains_key(room_id) && charts is Some ==> {
            let wanted = DefinitionView { chart_pool: charts->0, ..rooms[room_id] };
            &&& r is Ok <==> update_refusal(rooms, wanted, snapshot) is None
            &&& r is Ok ==> (r->Ok_0).definition@ == wanted.normal_form()
        },
{
}

/// A request for another pool says it under `charts`, one for another capacity under `maxUsers`,
/// and a message stands under `message`. Where that member is missing, nothing is said.
pub proof fn requests_are_read_under_their_names(body: Seq<char>, parsed: Option<Seq<ChartView>>)
    ensures
        json_member(body, "charts"@) is None ==> pool_in(body, parsed) is None,
        json_member(body, "charts"@) is Some ==> pool_in(body, parsed) == parsed,
        json_member(body, "maxUsers"@) is None ==> max_users_in(body) is None,
        json_member(body, "maxUsers"@) is Some ==> max_users_in(body) == json_u64(
            json_member(body, "maxUsers"@)->0,
        ),
        json_member(body, "message"@) is None ==> message_in(body) is None,
        json_member(body, "message"@) is Some ==> message_in(body) == json_str(
            json_member(body, "message"@)->0,
        ),
{
}

// ---- the capacity ----

/// The capacity that is asked for is the number that is given; without a number it is zero.
pub proof fn asked_capacity_is_the_number(max_users: Option<u64>)
    ensures
        max_users is None ==> asked_capacity(max_users) == 0,
        max_users is Some && max_users->0 <= usize::MAX ==> asked_capacity(max_users)
            == max_users->0,
{
}

/// A capacity below 1 or above 64 is refused for every room.
pub proof fn capacities_lie_between_1_and_64(
    r: MaxUsersStep,
    rooms: Map<Seq<char>, DefinitionView>,
    room_id: Seq<char>,
    snapshot: Option<SnapshotView>,
    n: usize,
)
    requires
        leads_to_capacity(r, rooms, room_id, snapshot, n),
        n == 0 || n > 64,
    ensures
        r is Respond,
        is_error((r->response)@, 400, "bad-max-users"@, "房间容量必须在 1 至 64 之间"@),
        rooms_with_capacity(rooms, room_id, n) == rooms,
{
}

/// Another capacity of a hosted room is an update of the capacity alone; the registry does not
/// change before the update has succeeded.
pub proof fn hosted_rooms_get_their_capacity_by_an_update(
    r: MaxUsersStep,
    rooms: Map<Seq<char>, DefinitionView>,
    room_id: Seq<char>,
    snapshot: Option<SnapshotView>,
    n: usize,
)
    requires
        leads_to_capacity(r, rooms, room_id, snapshot, n),
        1 <= n <= 64,
        rooms.contains_key(room_id),
        rooms[room_id].kind == ManagedRoomKind::Hosted,
    ensures
        ({
            let wanted = DefinitionView { max_users: n, ..rooms[room_id] };
            let refusal = update_refusal(rooms, wanted, snapshot);
            &&& rooms_with_capacity(rooms, room_id, n) == rooms
            &&& refusal is None ==> r is Update && r->Update_max_users == n && (r->run)@.plan
                == update_plan(rooms[room_id], wanted.normal_form())
            &&& refusal is Some ==> r is Respond && (r->response)@ == update_error(refusal->0)
        }),
{
}

/// A reserved room gets another capacity at once, if all its players have place in it; else that is
/// a conflict, and it keeps the one that it has. Nothing but the capacity of this room changes.
pub proof fn reserved_rooms_keep_place_for_their_players(
    r: MaxUsersStep,
    rooms: Map<Seq<char>, DefinitionView>,
    room_id: Seq<char>,
    snapshot: Option<SnapshotView>,
    n: usize,
    other: Seq<char>,
)
    requires
        leads_to_capacity(r, rooms, room_id, snapshot, n),
        1 <= n <= 64,
        rooms.contains_key(room_id),
        rooms[room_id].kind == ManagedRoomKind::Reserved,
    ensures
        ({
            let after = rooms_with_capacity(rooms, room_id, n);
            let players = rooms[room_id].whitelist.len();
            &&& players > n ==> after == rooms && r is Respond && is_error(
                (r->response)@,
                409,
                "hosted-room-capacity-below-users"@,
                "容量不能低于白名单人数"@,
            )
            &&& players <= n ==> after[room_id] == (DefinitionView {
                max_users: n,
                ..rooms[room_id]
            }) && after.dom() == rooms.dom() && (other != room_id ==> after[other] == rooms[other])
            &&& players <= n && snapshot is Some ==> r == (MaxUsersStep::SetOpenRoom {
                max_users: n,
            })
            &&& players <= n && snapshot is None ==> r is Respond && is_error(
                (r->response)@,
                404,
                "room-not-found"@,
                "未找到房间"@,
            )
        }),
{
    assert(rooms_with_capacity(rooms, room_id, n).dom() =~= rooms.dom());
}

/// A room that is not managed gets another capacity if it is open; the registry does not change.
pub proof fn other_rooms_get_their_capacity_if_they_are_open(
    r: MaxUsersStep,
    rooms: Map<Seq<char>, DefinitionView>,
    room_id: Seq<char>,
    snapshot: Option<SnapshotView>,
    n: usize,
)
    requires
        leads_to_capacity(r, rooms, room_id, snapshot, n),
        1 <= n <= 64,
        !rooms.contains_key(room_id),
    ensures
        rooms_with_capacity(rooms, room_id, n) == rooms,
        snapshot is Some ==> r == (MaxUsersStep::SetOpenRoom { max_users: n }),
        snapshot is None ==> r is Respond && is_error(
            (r->response)@,
            404,
            "room-not-found"@,
            "未找到房间"@,
        ),
{
}

/// A capacity that is set is answered with the room and the capacity.
pub proof fn capacities_that_are_set_are_told(room_id: Seq<char>, max_users: usize)
    ensures
        capacity_set(room_id, max_users).status == 200,
        capacity_set(room_id, max_users).body == (BodyView::Capacity { room_id, max_users }),
{
}

// ---- disbanding and speaking ----

/// To disband a room that is not there is answered as not found, and every other failure as an
/// error of the server.
pub proof fn failed_disbanding_is_answered_by_its_error(error: Seq<char>)
    ensures
        is_error(disband_error("room-not-found"@), 404, "room-not-found"@, "未找到房间"@),
        error != "room-not-found"@ ==> is_error(
            disband_error(error),
            500,
            "room-disband-failed"@,
            error,
        ),
{
}

/// A message is sent, without the white space around it and in the name of user zero, exactly if 1
/// to 200 characters are left of it, the identifier can name a room, and that room is open.
pub proof fn messages_are_sent_to_open_rooms(
    r: Result<ChatMessage, ApiResponse>,
    open: Seq<Seq<char>>,
    room_id: Seq<char>,
    front: Seq<char>,
    text: Seq<char>,
    back: Seq<char>,
)
    requires
        forall|i: int| 0 <= i < front.len() ==> is_white_space(#[trigger] front[i]),
        forall|i: int| 0 <= i < back.len() ==> is_white_space(#[trigger] back[i]),
        text.len() > 0 ==> !is_white_space(text.first()) && !is_white_space(text.last()),
        leads_to_message(r, open, room_id, Some(front + text + back)),
    ensures
        r is Ok <==> text.len() >= 1 && text.len() <= 200 && room_id_ok(room_id) && open.contains(
            room_id,
        ),
        r is Ok ==> (r->Ok_0).user == 0 && (r->Ok_0).content@ == text,
        text.len() == 0 ==> r is Err && is_error(
            (r->Err_0)@,
            400,
            "bad-message"@,
            "消息必须为 1 至 200 个字符"@,
        ),
        text.len() > 200 ==> r is Err && is_error(
            (r->Err_0)@,
            400,
            "message-too-long"@,
            "消息必须为 1 至 200 个字符"@,
        ),
        1 <= text.len() <= 200 && !room_id_ok(room_id) ==> r is Err && is_error(
            (r->Err_0)@,
            400,
            "invalid-room-id"@,
            "房间 ID 无效"@,
        ),
        1 <= text.len() <= 200 && room_id_ok(room_id) && !open.contains(room_id) ==> r is Err
            && is_error((r->Err_0)@, 404, "room-not-found"@, "未找到房间"@),
{
    surrounding_white_space_is_trimmed(front, text, back);
}

/// A request without a message is answered like one with an empty message.
pub proof fn missing_messages_count_as_empty(
    r: Result<ChatMessage, ApiResponse>,
    open: Seq<Seq<char>>,
    room_id: Seq<char>,
)
    requires
        leads_to_message(r, open, room_id, None),
    ensures
        r is Err,
        is_error((r->Err_0)@, 400, "bad-message"@, "消息必须为 1 至 200 个字符"@),
{
}

// ---- what a request leads to ----

/// A request for a hosted room is refused as a bad request if its definition is not accepted, finds
/// the managed room that it asks for, and else begins a creation, where nothing is in the way.
pub proof fn hosted_requests_are_refused_found_or_begun(
    r: CreateStep,
    rooms: Map<Seq<char>, DefinitionView>,
    open: Seq<Seq<char>>,
    max_rooms: Option<usize>,
    d: DefinitionView,
)
    requires
        leads_to_hosted_room(r, rooms, open, max_rooms, d),
    ensures
        d.refusal() is Some ==> r is Respond && is_error(
            (r->response)@,
            400,
            "bad-hosted-room-request"@,
            d.refusal()->0,
        ),
        d.refusal() is None && rooms.contains_key(d.room_id) && rooms[d.room_id]
            == d.normal_form() ==> r is Respond && (r->response)@ == (ResponseView {
            status: 200,
            body: BodyView::HostedCreated { report: report(rooms[d.room_id], None), created: false },
        }),
        d.refusal() is None && !rooms.contains_key(d.room_id) && open.contains(d.room_id)
            ==> r is Respond && (r->response)@.status == 409,
        d.refusal() is None && !rooms.contains_key(d.room_id) && !open.contains(d.room_id)
            && max_rooms is Some && open.len() >= max_rooms->0 ==> r is Respond && (
        r->response)@.status == 503,
        d.refusal() is None && !rooms.contains_key(d.room_id) && !open.contains(d.room_id) && (
        max_rooms is None || open.len() < max_rooms->0) ==> r is Started && begins_creation(
            (r->run)@,
            d.normal_form(),
        ),
{
    failed_creations_are_answered_by_their_error("room-id-occupied"@, "bad-hosted-room-request"@);
    failed_creations_are_answered_by_their_error(
        "rooms-limit-reached"@,
        "bad-hosted-room-request"@,
    );
    if d.refusal() is Some {
        refusals_are_no_codes(d);
        failed_creations_are_answered_by_their_error(d.refusal()->0, "bad-hosted-room-request"@);
    }
}

/// A request for a reserved room is refused as a bad request if its definition is not accepted,
/// finds the reserved room that it asks for, whenever that expires, and else begins a creation,
/// where nothing is in the way. The booking is what was asked for.
pub proof fn reservations_are_refused_found_or_begun(
    r: PrecreateStep,
    rooms: Map<Seq<char>, DefinitionView>,
    open: Seq<Seq<char>>,
    max_rooms: Option<usize>,
    d: DefinitionView,
    chart: ChartView,
)
    requires
        leads_to_reserved_room(r, rooms, open, max_rooms, d, chart),
        d.kind == ManagedRoomKind::Reserved,
    ensures
        d.refusal() is Some ==> r is Respond && is_error(
            (r->response)@,
            400,
            "bad-precreate-request"@,
            d.refusal()->0,
        ),
        d.refusal() is None && rooms.contains_key(d.room_id) && rooms[d.room_id] == (
        DefinitionView { expires_at: rooms[d.room_id].expires_at, ..d.normal_form() })
            ==> r is Respond && (r->response)@ == (ResponseView {
            status: 200,
            body: BodyView::Precreated {
                created: false,
                room_id: d.room_id,
                owner_id: d.owner_id,
                allowed_user_ids: d.whitelist,
                chart,
                expires_at: rooms[d.room_id].expires_at,
            },
        }),
        d.refusal() is None && !rooms.contains_key(d.room_id) && !open.contains(d.room_id) && (
        max_rooms is None || open.len() < max_rooms->0) ==> r is Started && begins_creation(
            (r->run)@,
            d.normal_form(),
        ) && r->booking.room_id@ == d.room_id && r->booking.players@ == d.whitelist
            && r->booking.chart@ == chart,
{
    if d.refusal() is Some {
        refusals_are_no_codes(d);
        failed_creations_are_answered_by_their_error(d.refusal()->0, "bad-precreate-request"@);
    }
    reserved_rooms_are_told_of(rooms[d.room_id], d.room_id, d.whitelist, chart, false);
}

/// When a creation is over, success is answered as created and an error as a bad request of its own
/// kind.
pub proof fn finished_creations_are_answered(
    rooms: Map<Seq<char>, DefinitionView>,
    room_id: Seq<char>,
    players: Seq<i32>,
    chart: ChartView,
    error: Seq<char>,
)
    requires
        error != "room-id-occupied"@,
        error != "rooms-limit-reached"@,
    ensures
        rooms.contains_key(room_id) ==> hosted_finished(rooms, room_id, None).status == 201
            && hosted_finished(rooms, room_id, None).body == (BodyView::HostedCreated {
            report: report(rooms[room_id], None),
            created: true,
        }),
        is_error(
            hosted_finished(rooms, room_id, Some(error)),
            400,
            "bad-hosted-room-request"@,
            error,
        ),
        reserved_finished(rooms, room_id, players, chart, None).status == 201,
        reserved_finished(rooms, room_id, players, chart, None).body == (BodyView::Precreated {
            created: true,
            room_id,
            owner_id: rooms[room_id].owner_id,
            allowed_user_ids: players,
            chart,
            expires_at: rooms[room_id].expires_at,
        }),
        is_error(
            reserved_finished(rooms, room_id, players, chart, Some(error)),
            400,
            "bad-precreate-request"@,
            error,
        ),
{
    failed_creations_are_answered_by_their_error(error, "bad-hosted-room-request"@);
    failed_creations_are_answered_by_their_error(error, "bad-precreate-request"@);
}

/// Only hosted rooms are patched, and only with members that can be read; then the update is to the
/// definition of the room with these members.
pub proof fn hosted_rooms_are_patched_with_readable_members(
    r: Result<Update, ApiResponse>,
    rooms: Map<Seq<char>, DefinitionView>,
    room_id: Seq<char>,
    snapshot: Option<SnapshotView>,
    m: Option<MembersView>,
)
    requires
        leads_to_patch(r, rooms, room_id, snapshot, m),
    ensures
        !rooms.contains_key(room_id) || rooms[room_id].kind == ManagedRoomKind::Reserved
            ==> r is Err && is_error((r->Err_0)@, 404, "room-not-found"@, "未找到托管房"@),
        rooms.contains_key(room_id) && rooms[room_id].kind == ManagedRoomKind::Hosted
            && members_refusal(m) is Some ==> r is Err && (r->Err_0)@ == members_refusal(m)->0,
        rooms.contains_key(room_id) && rooms[room_id].kind == ManagedRoomKind::Hosted
            && members_refusal(m) is None ==> {
            let wanted = patched(rooms[room_id], m->0);
            &&& r is Ok <==> update_refusal(rooms, wanted, snapshot) is None
            &&& r is Ok ==> (r->Ok_0).definition@ == wanted.normal_form()
        },
{
}

/// When an update is over, success is answered with what is told of it, and an error by itself.
pub proof fn finished_updates_are_answered(body: BodyView, error: Seq<char>)
    ensures
        update_finished(body, None) == (ResponseView { status: 200, body }),
        update_finished(body, Some(error)) == update_error(error),
{
}

/// An open room that has too many users for a capacity says so, anywhere in its error, and that is
/// a conflict; every other error is a bad request.
pub proof fn crowded_rooms_refuse_a_capacity(
    room_id: Seq<char>,
    max_users: usize,
    front: Seq<char>,
    back: Seq<char>,
    error: Seq<char>,
)
    ensures
        open_room_finished(room_id, max_users, None) == (ResponseView {
            status: 200,
            body: BodyView::Capacity { room_id, max_users },
        }),
        is_error(
            open_room_finished(room_id, max_users, Some((front + "below current users"@) + back)),
            409,
            "hosted-room-capacity-below-users"@,
            "容量不能低于当前玩家人数"@,
        ),
        !has_part(error, "below current users"@) ==> is_error(
            open_room_finished(room_id, max_users, Some(error)),
            400,
            "bad-max-users"@,
            error,
        ),
{
    parts_stand_between_the_rest((front + "below current users"@) + back, "below current users"@);
}

/// Every open room can be disbanded, managed or not; what is not open is not found. A hosted room
/// is deleted from what is saved.
pub proof fn open_rooms_are_disbanded(
    r: Result<Run, ApiResponse>,
    rooms: Map<Seq<char>, DefinitionView>,
    open: Seq<Seq<char>>,
    room_id: Seq<char>,
    error: Seq<char>,
)
    requires
        leads_to_disbanding(r, rooms, open, room_id),
    ensures
        r is Ok <==> open.contains(room_id),
        r is Err ==> is_error((r->Err_0)@, 404, "room-not-found"@, "未找到房间"@),
        r is Ok ==> (r->Ok_0)@.next == 0 && (r->Ok_0)@.failure is None && (r->Ok_0)@.plan
            == disband_plan(
            room_id,
            rooms.contains_key(room_id) && rooms[room_id].kind == ManagedRoomKind::Hosted,
        ),
        disband_finished(room_id, None) == (ResponseView {
            status: 200,
            body: BodyView::Disbanded { room_id },
        }),
        error != "room-not-found"@ ==> is_error(
            disband_finished(room_id, Some(error)),
            500,
            "room-disband-failed"@,
            error,
        ),
{
}

} // verus!
