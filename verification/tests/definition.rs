use managed_rooms::definition::{ChartMode, ManagedChart, ManagedRoomDefinition, ManagedRoomKind};

#[test]
fn hosted_host_select_accepts_empty_chart_and_deduplicates_whitelist() {
    let room = ManagedRoomDefinition {
        room_id: "hosted-1".into(),
        kind: ManagedRoomKind::Hosted,
        owner_id: None,
        max_users: 4,
        whitelist: vec![1, 1, 2],
        host_id: Some(1),
        chart: None,
        chart_mode: ChartMode::HostSelect,
        chart_pool: vec![],
        expires_at: None,
    }
    .validate_and_normalize()
    .unwrap();
    assert_eq!(room.whitelist, vec![1, 2]);
    assert!(room.chart.is_none());
}

#[test]
fn pool_random_requires_a_local_pool_for_standalone_use() {
    let error = ManagedRoomDefinition {
        room_id: "pool".into(),
        kind: ManagedRoomKind::Hosted,
        owner_id: None,
        max_users: 2,
        whitelist: vec![1, 2],
        host_id: Some(1),
        chart: None,
        chart_mode: ChartMode::PoolRandom,
        chart_pool: vec![],
        expires_at: None,
    }
    .validate_and_normalize()
    .unwrap_err();
    assert!(error.contains("谱池"));
}

#[test]
fn private_negative_chart_ids_are_supported() {
    ManagedChart {
        id: -13,
        name: "私有谱面".into(),
    }
    .validate()
    .unwrap();
}

#[test]
fn reserved_room_accepts_supported_match_sizes() {
    for size in [2usize, 4, 6, 8] {
        let room = ManagedRoomDefinition {
            room_id: format!("reserved-{size}"),
            kind: ManagedRoomKind::Reserved,
            owner_id: None,
            max_users: size,
            whitelist: (1..=size as i32).collect(),
            host_id: None,
            chart: Some(ManagedChart {
                id: 7,
                name: "测试谱面".into(),
            }),
            chart_mode: ChartMode::HostSelect,
            chart_pool: vec![],
            expires_at: Some(1),
        };
        assert!(room.validate_and_normalize().is_ok(), "size={size}");
    }
}

#[test]
fn host_must_be_whitelisted_and_capacity_cannot_be_too_small() {
    let base = ManagedRoomDefinition {
        room_id: "host-check".into(),
        kind: ManagedRoomKind::Hosted,
        owner_id: None,
        max_users: 2,
        whitelist: vec![1, 2],
        host_id: Some(3),
        chart: None,
        chart_mode: ChartMode::HostSelect,
        chart_pool: vec![],
        expires_at: None,
    };
    assert!(
        base.clone()
            .validate_and_normalize()
            .unwrap_err()
            .contains("房主")
    );
    assert!(
        ManagedRoomDefinition {
            max_users: 1,
            host_id: Some(1),
            ..base
        }
        .validate_and_normalize()
        .is_err()
    );
}

#[test]
fn reserved_idempotency_ignores_only_renewed_expiry() {
    let first = ManagedRoomDefinition {
        room_id: "once".into(),
        kind: ManagedRoomKind::Reserved,
        owner_id: None,
        max_users: 2,
        whitelist: vec![1, 2],
        host_id: None,
        chart: Some(ManagedChart {
            id: 8,
            name: "A".into(),
        }),
        chart_mode: ChartMode::HostSelect,
        chart_pool: vec![],
        expires_at: Some(100),
    };
    let mut retried = first.clone();
    retried.expires_at = Some(200);
    assert!(first.same_configuration(&retried));
    retried.chart = Some(ManagedChart {
        id: 9,
        name: "B".into(),
    });
    assert!(!first.same_configuration(&retried));
}

#[test]
fn hosted_empty_whitelist_is_public_and_may_have_a_host() {
    let room = ManagedRoomDefinition {
        room_id: "public-room".into(),
        kind: ManagedRoomKind::Hosted,
        owner_id: Some(7),
        max_users: 4,
        whitelist: vec![],
        host_id: Some(1001),
        chart: None,
        chart_mode: ChartMode::HostSelect,
        chart_pool: vec![],
        expires_at: None,
    }
    .validate_and_normalize()
    .unwrap();
    assert!(room.contains_user(1001));
    assert!(room.contains_user(987654));
}

#[test]
fn reserved_room_still_requires_a_whitelist() {
    let error = ManagedRoomDefinition {
        room_id: "reserved-empty".into(),
        kind: ManagedRoomKind::Reserved,
        owner_id: Some(7),
        max_users: 2,
        whitelist: vec![],
        host_id: None,
        chart: Some(ManagedChart {
            id: 8,
            name: "测试谱面".into(),
        }),
        chart_mode: ChartMode::HostSelect,
        chart_pool: vec![],
        expires_at: Some(100),
    }
    .validate_and_normalize()
    .unwrap_err();
    assert!(error.contains("至少一名玩家"));
}
