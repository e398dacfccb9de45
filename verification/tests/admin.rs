use managed_rooms::admin::{
    admit_message, authentication_error, change_chart_pool, change_max_users, create_error_response,
    create_hosted_room, default_hosted_capacity, default_precreate_expiry, disband_room,
    finish_chart_pool, finish_disbanded_room, finish_hosted_room, finish_max_users,
    finish_open_room_max_users, finish_patched_room, finish_precreated_room, finish_room_chat,
    get_chart_pool, get_hosted_room, list_rooms, patch_hosted_room, precreate_room, room_chat,
    set_chart_pool, set_max_users, update_error_response, CreateStep, HostedRequest, LiveRoom,
    MaxUsersStep, PrecreateRequest, PrecreateStep, Update,
};
use managed_rooms::answer::{ApiBody, ApiResponse};
use managed_rooms::definition::{ChartMode, ManagedChart, ManagedRoomDefinition, ManagedRoomKind};
use managed_rooms::patch::ParsedCharts;
use managed_rooms::plan::Run;
use managed_rooms::registry::RoomRegistry;
use managed_rooms::runtime::{RoomPhase, RoomSnapshot};

const TOKEN: &str = "令牌";

fn chart(id: i32, name: &str) -> ManagedChart {
    ManagedChart { id, name: name.into() }
}

fn hosted_request(room_id: &str) -> HostedRequest {
    HostedRequest {
        room_id: room_id.into(),
        owner_id: Some(9),
        allowed_user_ids: vec![2, 1, 2],
        max_users: default_hosted_capacity(),
        host_id: Some(1),
        chart: None,
        chart_mode: ChartMode::HostSelect,
        chart_pool: vec![chart(4, " four ")],
    }
}

fn precreate_request(room_id: &str) -> PrecreateRequest {
    PrecreateRequest {
        room_id: room_id.into(),
        owner_id: None,
        allowed_user_ids: vec![5, 3, 5],
        chart: chart(-1, " private "),
        expires_in_seconds: default_precreate_expiry(),
    }
}

fn definition(room_id: &str, kind: ManagedRoomKind) -> ManagedRoomDefinition {
    ManagedRoomDefinition {
        room_id: room_id.into(),
        kind,
        owner_id: None,
        max_users: 4,
        whitelist: vec![1, 2, 3],
        host_id: None,
        chart: Some(chart(1, "c")),
        chart_mode: ChartMode::HostSelect,
        chart_pool: vec![],
        expires_at: if kind == ManagedRoomKind::Reserved { Some(9) } else { None },
    }
}

fn rooms() -> RoomRegistry {
    let mut registry = RoomRegistry::new();
    registry.insert(definition("host", ManagedRoomKind::Hosted));
    registry.insert(definition("once", ManagedRoomKind::Reserved));
    registry
}

fn idle(users: Vec<i32>) -> RoomSnapshot {
    RoomSnapshot { phase: RoomPhase::SelectingChart, users, monitors: vec![8] }
}

fn finish(run: &mut Run, registry: &mut RoomRegistry) -> Result<(), String> {
    while run.current().is_some() {
        run.reply(registry, Ok(()));
    }
    run.result().unwrap()
}

fn error(response: ApiResponse) -> (u16, String, String) {
    match response.body {
        ApiBody::Error { code, message } => (response.status, code, message),
        other => panic!("{other:?}"),
    }
}

fn expect(response: ApiResponse, status: u16, code: &str, message: &str) {
    assert_eq!(error(response), (status, code.to_string(), message.to_string()));
}

fn nothing_parsed() -> ParsedCharts {
    ParsedCharts { chart: None, chart_mode: None, chart_pool: None }
}

#[test]
fn only_the_configured_token_is_let_in() {
    assert!(authentication_error(TOKEN, Some(TOKEN)).is_none());
    for supplied in [None, Some(""), Some("令"), Some("令牌\0"), Some("令牉")] {
        expect(
            authentication_error(TOKEN, supplied).unwrap(),
            401,
            "unauthorized",
            "管理员令牌无效",
        );
    }
    for supplied in [None, Some(""), Some("x")] {
        expect(
            authentication_error("", supplied).unwrap(),
            403,
            "admin-disabled",
            "管理员 API 未启用",
        );
    }
}

#[test]
fn every_request_needs_the_token() {
    let mut registry = rooms();
    let open = vec!["host".to_string()];
    let unauthorized = |response: ApiResponse| assert_eq!(response.status, 401);
    unauthorized(list_rooms(TOKEN, None, &registry, &vec![]));
    unauthorized(get_hosted_room(TOKEN, None, &registry, "host", None));
    unauthorized(get_chart_pool(TOKEN, None, &registry, "host"));
    match create_hosted_room(TOKEN, None, &registry, &open, None, hosted_request("new")) {
        CreateStep::Respond { response } => unauthorized(response),
        other => panic!("{other:?}"),
    }
    match precreate_room(TOKEN, None, &registry, &open, None, 0, precreate_request("new")) {
        PrecreateStep::Respond { response } => unauthorized(response),
        other => panic!("{other:?}"),
    }
    let idle = idle(vec![]);
    unauthorized(
        patch_hosted_room(TOKEN, None, &registry, "host", Some(&idle), "{}", nothing_parsed())
            .unwrap_err(),
    );
    unauthorized(
        set_chart_pool(
            TOKEN,
            None,
            &registry,
            "host",
            Some(&idle),
            "{\"charts\":[]}",
            Some(vec![]),
        )
        .unwrap_err(),
    );
    match set_max_users(TOKEN, None, &mut registry, "once", Some(&idle), "{\"maxUsers\":9}") {
        MaxUsersStep::Respond { response } => unauthorized(response),
        other => panic!("{other:?}"),
    }
    assert_eq!(registry.get("once").unwrap().max_users, 4);
    unauthorized(disband_room(TOKEN, None, &registry, &open, "host").unwrap_err());
    unauthorized(room_chat(TOKEN, None, &open, "host", "{\"message\":\"hi\"}").unwrap_err());
}

#[test]
fn all_managed_rooms_are_listed() {
    let live = vec![LiveRoom { room_id: "once".into(), snapshot: idle(vec![1]) }];
    let response = list_rooms(TOKEN, Some(TOKEN), &rooms(), &live);
    assert_eq!(response.status, 200);
    match response.body {
        ApiBody::Rooms { total_rooms, rooms } => {
            assert_eq!(total_rooms, 2);
            let host = rooms.iter().find(|r| r.room_id == "host").unwrap();
            assert!(host.hosted);
            assert_eq!(host.capacity, 4);
            assert_eq!(host.live, None);
            let once = rooms.iter().find(|r| r.room_id == "once").unwrap();
            assert!(!once.hosted);
            let live = once.live.as_ref().unwrap();
            assert_eq!(live.state, "SelectChart");
            assert_eq!(live.users, vec![1]);
            assert_eq!(live.monitors, vec![8]);
        }
        other => panic!("{other:?}"),
    }
}

#[test]
fn hosted_rooms_are_told_of() {
    let registry = rooms();
    for (phase, name) in [
        (RoomPhase::SelectingChart, "SelectChart"),
        (RoomPhase::WaitingForReady, "WaitForReady"),
        (RoomPhase::Playing, "Playing"),
    ] {
        let snapshot = RoomSnapshot { phase, users: vec![], monitors: vec![] };
        let response = get_hosted_room(TOKEN, Some(TOKEN), &registry, "host", Some(&snapshot));
        assert_eq!(response.status, 200);
        match response.body {
            ApiBody::Definition { report } => {
                assert_eq!(report.allowed_user_ids, vec![1, 2, 3]);
                assert_eq!(report.live.unwrap().state, name);
            }
            other => panic!("{other:?}"),
        }
    }
    for room in ["once", "none"] {
        expect(
            get_hosted_room(TOKEN, Some(TOKEN), &registry, room, None),
            404,
            "room-not-found",
            "未找到托管房",
        );
        expect(
            get_chart_pool(TOKEN, Some(TOKEN), &registry, room),
            404,
            "room-not-found",
            "未找到托管房",
        );
    }
}

#[test]
fn hosted_room_is_created_and_found_again() {
    let mut registry = RoomRegistry::new();
    let step =
        create_hosted_room(TOKEN, Some(TOKEN), &registry, &vec![], None, hosted_request("new"));
    let mut run = match step {
        CreateStep::Started { run } => run,
        other => panic!("{other:?}"),
    };
    let result = finish(&mut run, &mut registry);
    let response = finish_hosted_room(&registry, "new", result);
    assert_eq!(response.status, 201);
    match response.body {
        ApiBody::HostedCreated { report, created } => {
            assert!(created);
            assert_eq!(report.capacity, 64);
            assert_eq!(report.allowed_user_ids, vec![1, 2]);
            assert_eq!(report.chart_pool, vec![chart(4, "four")]);
            assert_eq!(report.live, None);
        }
        other => panic!("{other:?}"),
    }
    let open = vec!["new".to_string()];
    match create_hosted_room(TOKEN, Some(TOKEN), &registry, &open, None, hosted_request("new")) {
        CreateStep::Respond { response } => {
            assert_eq!(response.status, 200);
            assert!(matches!(response.body, ApiBody::HostedCreated { created: false, .. }));
        }
        other => panic!("{other:?}"),
    }
}

#[test]
fn failed_creation_is_answered_by_its_error() {
    let registry = RoomRegistry::new();
    expect(
        finish_hosted_room(&registry, "new", Ok(())),
        500,
        "room-create-failed",
        "房间已创建但无法读取定义",
    );
    expect(
        finish_hosted_room(&registry, "new", Err("broken".into())),
        400,
        "bad-hosted-room-request",
        "broken",
    );
    expect(
        create_error_response("room-id-occupied", "x"),
        409,
        "room-id-occupied",
        "房间 ID 已被不同配置占用",
    );
    expect(
        create_error_response("rooms-limit-reached", "x"),
        503,
        "rooms-limit-reached",
        "服务器房间数量已达到上限",
    );
    expect(create_error_response("other", "x"), 400, "x", "other");
    let open = vec!["new".to_string()];
    match create_hosted_room(TOKEN, Some(TOKEN), &registry, &open, None, hosted_request("new")) {
        CreateStep::Respond { response } => assert_eq!(error(response).0, 409),
        other => panic!("{other:?}"),
    }
}

#[test]
fn reservation_seats_its_players_and_is_found_again() {
    let mut registry = RoomRegistry::new();
    let step = precreate_room(
        TOKEN,
        Some(TOKEN),
        &registry,
        &vec![],
        None,
        1_000,
        precreate_request("once"),
    );
    let (mut run, booking) = match step {
        PrecreateStep::Started { run, booking } => (run, booking),
        other => panic!("{other:?}"),
    };
    let result = finish(&mut run, &mut registry);
    let response = finish_precreated_room(&registry, booking, result);
    assert_eq!(
        response,
        ApiResponse {
            status: 201,
            body: ApiBody::Precreated {
                created: true,
                room_id: "once".into(),
                owner_id: None,
                allowed_user_ids: vec![3, 5],
                chart: chart(-1, " private "),
                expires_at: Some(1_801_000),
            },
        }
    );
    let stored = registry.get("once").unwrap();
    assert_eq!(stored.max_users, 2);
    assert_eq!(stored.chart, Some(chart(-1, "private")));
    let again = precreate_room(
        TOKEN,
        Some(TOKEN),
        &registry,
        &vec!["once".to_string()],
        None,
        99_000,
        precreate_request("once"),
    );
    match again {
        PrecreateStep::Respond { response } => {
            assert_eq!(response.status, 200);
            assert!(matches!(
                response.body,
                ApiBody::Precreated { created: false, expires_at: Some(1_801_000), .. }
            ));
        }
        other => panic!("{other:?}"),
    }
}

#[test]
fn reservation_lasts_between_half_a_minute_and_a_day() {
    let registry = RoomRegistry::new();
    for (seconds, accepted) in [(29, false), (30, true), (86_400, true), (86_401, false)] {
        let request = PrecreateRequest { expires_in_seconds: seconds, ..precreate_request("once") };
        match precreate_room(TOKEN, Some(TOKEN), &registry, &vec![], None, 0, request) {
            PrecreateStep::Started { .. } => assert!(accepted),
            PrecreateStep::Respond { response } => {
                assert!(!accepted);
                expect(
                    response,
                    400,
                    "bad-precreate-request",
                    "预约房过期时间必须在 30 至 86400 秒之间",
                );
            }
        }
    }
    let request = PrecreateRequest { allowed_user_ids: vec![], ..precreate_request("once") };
    match precreate_room(TOKEN, Some(TOKEN), &registry, &vec![], None, 0, request) {
        PrecreateStep::Respond { response } => {
            expect(response, 400, "bad-precreate-request", "房间容量必须在 1 至 64 之间")
        }
        other => panic!("{other:?}"),
    }
    let request = precreate_request("once");
    match precreate_room(TOKEN, Some(TOKEN), &registry, &vec![], Some(0), 0, request) {
        PrecreateStep::Respond { response } => assert_eq!(error(response).0, 503),
        other => panic!("{other:?}"),
    }
}

fn patch(body: &str, parsed: ParsedCharts) -> Result<Update, ApiResponse> {
    patch_hosted_room(TOKEN, Some(TOKEN), &rooms(), "host", Some(&idle(vec![1])), body, parsed)
}

#[test]
fn patch_changes_the_members_that_it_names() {
    let update = patch(
        "{\"maxUsers\": 6, \"allowedUserIds\": [9, 4, 9], \"hostId\": 4, \"chart\": null}",
        nothing_parsed(),
    )
    .unwrap();
    assert_eq!(update.definition.max_users, 6);
    assert_eq!(update.definition.whitelist, vec![4, 9]);
    assert_eq!(update.definition.host_id, Some(4));
    assert_eq!(update.definition.chart, None);
    let same = patch("{}", nothing_parsed()).unwrap();
    assert_eq!(same.definition, definition("host", ManagedRoomKind::Hosted));
}

#[test]
fn patch_takes_charts_that_can_be_read() {
    let parsed = ParsedCharts {
        chart: Some(chart(7, "seven")),
        chart_mode: Some(ChartMode::PoolRandom),
        chart_pool: Some(vec![chart(7, "seven"), chart(6, "six")]),
    };
    let body = "{\"chart\":{\"id\":7,\"name\":\"seven\"},\"chartMode\":\"POOL_RANDOM\",\"chartPool\":[]}";
    let update = patch(body, parsed).unwrap();
    assert_eq!(update.definition.chart, Some(chart(7, "seven")));
    assert_eq!(update.definition.chart_mode, ChartMode::PoolRandom);
    assert_eq!(update.definition.chart_pool, vec![chart(6, "six"), chart(7, "seven")]);
    let code = "bad-hosted-room-request";
    expect(patch("{\"chart\":5}", nothing_parsed()).unwrap_err(), 400, code, "谱面字段无效");
    expect(patch("{\"chartMode\":5}", nothing_parsed()).unwrap_err(), 400, code, "选谱模式无效");
    expect(patch("{\"chartPool\":5}", nothing_parsed()).unwrap_err(), 400, code, "谱池字段无效");
    expect(patch("[1]", nothing_parsed()).unwrap_err(), 400, code, "请求体必须是对象");
}

#[test]
fn patch_reads_unsuitable_members_as_nothing() {
    expect(
        patch("{\"maxUsers\":\"six\"}", nothing_parsed()).unwrap_err(),
        400,
        "bad-hosted-room-request",
        "房间容量必须在 2 至 64 之间",
    );
    let update = patch("{\"allowedUserIds\":[1,2.5],\"hostId\":\"x\"}", nothing_parsed()).unwrap();
    assert_eq!(update.definition.whitelist, Vec::<i32>::new());
    assert_eq!(update.definition.host_id, None);
    let update = patch("{\"allowedUserIds\":[],\"hostId\":4294967301}", nothing_parsed()).unwrap();
    assert_eq!(update.definition.host_id, Some(5));
}

#[test]
fn patch_is_for_hosted_rooms() {
    for room in ["once", "none"] {
        let response = patch_hosted_room(
            TOKEN,
            Some(TOKEN),
            &rooms(),
            room,
            Some(&idle(vec![])),
            "{}",
            nothing_parsed(),
        );
        expect(response.unwrap_err(), 404, "room-not-found", "未找到托管房");
    }
    let busy = RoomSnapshot { phase: RoomPhase::Playing, users: vec![], monitors: vec![] };
    let response = patch_hosted_room(
        TOKEN,
        Some(TOKEN),
        &rooms(),
        "host",
        Some(&busy),
        "{}",
        nothing_parsed(),
    );
    expect(response.unwrap_err(), 409, "hosted-room-busy", "房间当前状态不允许该修改");
}

#[test]
fn finished_update_is_answered() {
    let d = definition("host", ManagedRoomKind::Hosted);
    let response = finish_patched_room(&d, Ok(()));
    assert_eq!(response.status, 200);
    assert!(matches!(response.body, ApiBody::Definition { .. }));
    expect(finish_patched_room(&d, Err("x".into())), 400, "bad-hosted-room-request", "x");
    expect(
        update_error_response("hosted-room-capacity-below-users"),
        409,
        "hosted-room-capacity-below-users",
        "房间当前状态不允许该修改",
    );
    expect(update_error_response("room-not-found"), 404, "room-not-found", "未找到托管房");
}

#[test]
fn chart_pool_is_read_and_replaced() {
    let mut registry = rooms();
    let idle = idle(vec![]);
    let pool = || Some(vec![chart(3, "three "), chart(2, "two")]);
    let body = "{\"charts\":[{\"id\":3,\"name\":\"three \"},{\"id\":2,\"name\":\"two\"}]}";
    let mut update =
        set_chart_pool(TOKEN, Some(TOKEN), &registry, "host", Some(&idle), body, pool()).unwrap();
    let result = finish(&mut update.run, &mut registry);
    let response = finish_chart_pool("host", &update.definition, result);
    let expected = ApiResponse {
        status: 200,
        body: ApiBody::ChartPool {
            room_id: "host".into(),
            charts: vec![chart(2, "two"), chart(3, "three")],
        },
    };
    assert_eq!(response, expected);
    assert_eq!(get_chart_pool(TOKEN, Some(TOKEN), &registry, "host"), expected);
    for (body, parsed) in [("{\"charts\":7}", None), ("{}", pool()), ("[]", pool())] {
        expect(
            set_chart_pool(TOKEN, Some(TOKEN), &registry, "host", Some(&idle), body, parsed)
                .unwrap_err(),
            400,
            "bad-chart-pool",
            "charts 必须是谱面数组",
        );
    }
    expect(
        finish_chart_pool("host", &update.definition, Err("x".into())),
        400,
        "bad-hosted-room-request",
        "x",
    );
}

#[test]
fn chart_pool_belongs_to_a_hosted_room() {
    let registry = rooms();
    let idle = idle(vec![]);
    for (room, charts) in [("none", None), ("none", Some(vec![])), ("once", Some(vec![]))] {
        expect(
            change_chart_pool(&registry, room, Some(&idle), charts).unwrap_err(),
            404,
            "room-not-found",
            "未找到托管房",
        );
    }
    expect(
        change_chart_pool(&registry, "once", Some(&idle), None).unwrap_err(),
        400,
        "bad-chart-pool",
        "charts 必须是谱面数组",
    );
}

fn respond(step: MaxUsersStep) -> ApiResponse {
    match step {
        MaxUsersStep::Respond { response } => response,
        other => panic!("{other:?}"),
    }
}

#[test]
fn capacity_must_be_a_number_in_range() {
    let mut registry = rooms();
    let idle = idle(vec![]);
    for body in ["{}", "7", "{\"maxUsers\":0}", "{\"maxUsers\":65}", "{\"maxUsers\":-1}", "{\"maxUsers\":\"8\"}"] {
        let step = set_max_users(TOKEN, Some(TOKEN), &mut registry, "once", Some(&idle), body);
        expect(respond(step), 400, "bad-max-users", "房间容量必须在 1 至 64 之间");
    }
    assert_eq!(registry.get("once").unwrap().max_users, 4);
}

#[test]
fn capacity_of_a_hosted_room_is_updated() {
    let mut registry = rooms();
    let idle = idle(vec![1]);
    let step =
        set_max_users(TOKEN, Some(TOKEN), &mut registry, "host", Some(&idle), "{\"maxUsers\":9}");
    match step {
        MaxUsersStep::Update { mut run, max_users } => {
            assert_eq!(max_users, 9);
            assert_eq!(registry.get("host").unwrap().max_users, 4);
            let result = finish(&mut run, &mut registry);
            assert_eq!(
                finish_max_users("host", max_users, result),
                ApiResponse {
                    status: 200,
                    body: ApiBody::Capacity { room_id: "host".into(), max_users: 9 },
                }
            );
            assert_eq!(registry.get("host").unwrap().max_users, 9);
        }
        other => panic!("{other:?}"),
    }
    let step = change_max_users(&mut registry, "host", Some(&idle), Some(2));
    assert_eq!(error(respond(step)).0, 400);
    expect(
        finish_max_users("host", 9, Err("room-not-found".into())),
        404,
        "room-not-found",
        "未找到托管房",
    );
}

#[test]
fn capacity_of_a_reserved_room_is_not_below_its_players() {
    let mut registry = rooms();
    let idle = idle(vec![]);
    let step = change_max_users(&mut registry, "once", Some(&idle), Some(2));
    expect(
        respond(step),
        409,
        "hosted-room-capacity-below-users",
        "容量不能低于白名单人数",
    );
    assert_eq!(registry.get("once").unwrap().max_users, 4);
    let step = change_max_users(&mut registry, "once", Some(&idle), Some(3));
    assert!(matches!(step, MaxUsersStep::SetOpenRoom { max_users: 3 }));
    assert_eq!(registry.get("once").unwrap().max_users, 3);
    let step = change_max_users(&mut registry, "once", None, Some(5));
    expect(respond(step), 404, "room-not-found", "未找到房间");
    assert_eq!(registry.get("once").unwrap().max_users, 5);
}

#[test]
fn capacity_of_any_open_room_can_be_set() {
    let mut registry = RoomRegistry::new();
    let step = change_max_users(&mut registry, "plain", Some(&idle(vec![])), Some(5));
    assert!(matches!(step, MaxUsersStep::SetOpenRoom { max_users: 5 }));
    assert!(registry.definitions().is_empty());
    let step = change_max_users(&mut registry, "plain", None, Some(5));
    expect(respond(step), 404, "room-not-found", "未找到房间");
    assert_eq!(finish_open_room_max_users("plain", 5, Ok(())).status, 200);
    expect(
        finish_open_room_max_users("plain", 5, Err("5 is below current users (6)".into())),
        409,
        "hosted-room-capacity-below-users",
        "容量不能低于当前玩家人数",
    );
    for text in ["below current users", "below below current users", "容量 below current users"] {
        assert_eq!(error(finish_open_room_max_users("plain", 5, Err(text.into()))).0, 409);
    }
    assert_eq!(error(finish_open_room_max_users("plain", 5, Err("".into()))).0, 400);
    expect(
        finish_open_room_max_users("plain", 5, Err("below".into())),
        400,
        "bad-max-users",
        "below",
    );
}

#[test]
fn rooms_are_disbanded() {
    let mut registry = rooms();
    let open = vec!["host".to_string()];
    let mut run = disband_room(TOKEN, Some(TOKEN), &registry, &open, "host").unwrap();
    let result = finish(&mut run, &mut registry);
    assert_eq!(
        finish_disbanded_room("host", result),
        ApiResponse { status: 200, body: ApiBody::Disbanded { room_id: "host".into() } }
    );
    assert!(registry.get("host").is_none());
    expect(
        disband_room(TOKEN, Some(TOKEN), &registry, &open, "none").unwrap_err(),
        404,
        "room-not-found",
        "未找到房间",
    );
    expect(
        finish_disbanded_room("host", Err("broken".into())),
        500,
        "room-disband-failed",
        "broken",
    );
}

#[test]
fn messages_are_trimmed_and_bounded() {
    let open = vec!["room".to_string(), "bad id".to_string()];
    let sent = room_chat(TOKEN, Some(TOKEN), &open, "room", "{\"message\":\" 你好\\n\"}").unwrap();
    assert_eq!(sent.user, 0);
    assert_eq!(sent.content, "你好");
    assert_eq!(finish_room_chat(), ApiResponse { status: 200, body: ApiBody::Sent });
    let text = "消息必须为 1 至 200 个字符";
    for body in ["{}", "[]", "{\"message\":7}", "{\"message\":\"  \"}"] {
        let response = room_chat(TOKEN, Some(TOKEN), &open, "room", body).unwrap_err();
        expect(response, 400, "bad-message", text);
    }
    let long = Some("字".repeat(201));
    expect(admit_message(&open, "room", long).unwrap_err(), 400, "message-too-long", text);
    let limit = "字".repeat(200);
    assert_eq!(admit_message(&open, "room", Some(limit.clone())).unwrap().content, limit);
    let message = || Some("hi".to_string());
    expect(
        admit_message(&open, "bad id", message()).unwrap_err(),
        400,
        "invalid-room-id",
        "房间 ID 无效",
    );
    expect(
        admit_message(&open, "none", message()).unwrap_err(),
        404,
        "room-not-found",
        "未找到房间",
    );
}
