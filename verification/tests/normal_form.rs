use managed_rooms::definition::{
    ChartMode, ManagedChart, ManagedRoomDefinition, ManagedRoomKind, MAX_MANAGED_ROOM_USERS,
};

fn chart(id: i32, name: &str) -> ManagedChart {
    ManagedChart { id, name: name.into() }
}

fn hosted() -> ManagedRoomDefinition {
    ManagedRoomDefinition {
        room_id: "room".into(),
        kind: ManagedRoomKind::Hosted,
        owner_id: None,
        max_users: 4,
        whitelist: vec![],
        host_id: None,
        chart: None,
        chart_mode: ChartMode::default(),
        chart_pool: vec![],
        expires_at: Some(7),
    }
}

fn reserved() -> ManagedRoomDefinition {
    ManagedRoomDefinition {
        kind: ManagedRoomKind::Reserved,
        whitelist: vec![3, 1],
        chart: Some(chart(1, "c")),
        ..hosted()
    }
}

fn refusal(definition: ManagedRoomDefinition) -> String {
    definition.validate_and_normalize().unwrap_err()
}

#[test]
fn each_refusal_has_its_message() {
    assert_eq!(
        refusal(ManagedRoomDefinition { room_id: "a b".into(), ..hosted() }),
        "房间 ID 只能包含字母、数字、-、_，且长度为 1 至 20"
    );
    assert_eq!(
        refusal(ManagedRoomDefinition { max_users: 65, ..hosted() }),
        "房间容量必须在 2 至 64 之间"
    );
    assert_eq!(
        refusal(ManagedRoomDefinition { max_users: 0, ..reserved() }),
        "房间容量必须在 1 至 64 之间"
    );
    assert_eq!(
        refusal(ManagedRoomDefinition { owner_id: Some(0), ..hosted() }),
        "网页房间所有者必须是正整数用户 ID"
    );
    assert_eq!(
        refusal(ManagedRoomDefinition { whitelist: vec![-1], ..hosted() }),
        "白名单只能包含最多 64 个不重复的正整数用户 ID，且不能超过容量"
    );
    assert_eq!(
        refusal(ManagedRoomDefinition { whitelist: vec![1, 2, 3, 4, 5], ..hosted() }),
        "白名单只能包含最多 64 个不重复的正整数用户 ID，且不能超过容量"
    );
    assert_eq!(
        refusal(ManagedRoomDefinition { whitelist: vec![], ..reserved() }),
        "预约白名单房必须包含至少一名玩家"
    );
    assert_eq!(
        refusal(ManagedRoomDefinition { host_id: Some(0), ..hosted() }),
        "协议房主必须是正整数；设置白名单时房主必须在白名单中"
    );
    assert_eq!(
        refusal(ManagedRoomDefinition { host_id: Some(2), ..reserved() }),
        "协议房主必须是正整数；设置白名单时房主必须在白名单中"
    );
    assert_eq!(
        refusal(ManagedRoomDefinition { chart: Some(chart(0, "c")), ..hosted() }),
        "谱面必须包含非零整数 ID 和 1 至 200 字符的名称"
    );
    assert_eq!(
        refusal(ManagedRoomDefinition { chart_pool: vec![chart(1, " ")], ..hosted() }),
        "谱面必须包含非零整数 ID 和 1 至 200 字符的名称"
    );
    assert_eq!(
        refusal(ManagedRoomDefinition { chart: None, ..reserved() }),
        "预约白名单房必须指定谱面"
    );
    assert_eq!(
        refusal(ManagedRoomDefinition { expires_at: None, ..reserved() }),
        "预约白名单房必须包含过期时间"
    );
    assert_eq!(
        refusal(ManagedRoomDefinition { chart_mode: ChartMode::PoolRandom, ..hosted() }),
        "POOL_RANDOM 托管房必须配置至少一张本地谱池谱面"
    );
}

#[test]
fn chart_names_count_characters_between_white_space() {
    let long: String = "谱".repeat(200);
    assert!(chart(1, &format!("  {long}\u{a0}")).validate().is_ok());
    assert!(chart(1, &format!("{long}谱")).validate().is_err());
    assert_eq!(chart(1, "\t name \u{3000}").normalized(), chart(1, "name"));
}

#[test]
fn pool_keeps_the_first_chart_of_each_identifier() {
    let room = ManagedRoomDefinition {
        chart_pool: vec![chart(5, "five "), chart(-2, "minus"), chart(5, "again")],
        ..hosted()
    }
    .validate_and_normalize()
    .unwrap();
    assert_eq!(room.chart_pool, vec![chart(-2, "minus"), chart(5, "five")]);
    assert_eq!(room.expires_at, None);
}

#[test]
fn room_that_draws_from_an_empty_pool_draws_its_own_chart() {
    let room = ManagedRoomDefinition {
        chart: Some(chart(5, " five ")),
        chart_mode: ChartMode::PoolRandom,
        ..hosted()
    }
    .validate_and_normalize()
    .unwrap();
    assert_eq!(room.chart_pool, vec![chart(5, "five")]);
}

#[test]
fn reserved_room_has_no_pool_and_no_chance() {
    let room = ManagedRoomDefinition {
        chart_mode: ChartMode::PoolRandom,
        chart_pool: vec![chart(1, "c")],
        ..reserved()
    }
    .validate_and_normalize()
    .unwrap();
    assert_eq!(room.chart_mode, ChartMode::HostSelect);
    assert!(room.chart_pool.is_empty());
    assert_eq!(room.whitelist, vec![1, 3]);
    assert_eq!(room.expires_at, Some(7));
}

#[test]
fn normal_form_is_settled() {
    for definition in [reserved(), hosted()] {
        let once = definition.validate_and_normalize().unwrap();
        let twice = once.clone().validate_and_normalize().unwrap();
        assert_eq!(once, twice);
    }
}

#[test]
fn largest_room_is_accepted() {
    let users: Vec<i32> = (1..=64).rev().collect();
    let room = ManagedRoomDefinition {
        max_users: MAX_MANAGED_ROOM_USERS,
        whitelist: users,
        ..reserved()
    }
    .validate_and_normalize()
    .unwrap();
    assert_eq!(room.whitelist, (1..=64).collect::<Vec<i32>>());
    assert!(room.contains_user(64));
    assert!(!room.contains_user(65));
}

#[test]
fn hosted_configurations_differ_in_any_member() {
    assert!(hosted().same_configuration(&hosted()));
    assert!(!hosted().same_configuration(&ManagedRoomDefinition { expires_at: None, ..hosted() }));
    assert!(!hosted().same_configuration(&reserved()));
    assert!(!reserved().same_configuration(&ManagedRoomDefinition { owner_id: Some(1), ..reserved() }));
}
