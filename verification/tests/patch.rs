use managed_rooms::answer::ApiBody;
use managed_rooms::definition::{ChartMode, ManagedChart, ManagedRoomDefinition, ManagedRoomKind};
use managed_rooms::patch::{apply_members, read_members, ChartMember, ParsedCharts, PatchMembers};

fn definition() -> ManagedRoomDefinition {
    ManagedRoomDefinition {
        room_id: "room".into(),
        kind: ManagedRoomKind::Hosted,
        owner_id: Some(3),
        max_users: 4,
        whitelist: vec![1],
        host_id: Some(1),
        chart: None,
        chart_mode: ChartMode::HostSelect,
        chart_pool: vec![],
        expires_at: None,
    }
}

fn no_members() -> PatchMembers {
    PatchMembers {
        max_users: None,
        allowed_user_ids: None,
        host_id: None,
        chart: None,
        chart_mode: None,
        chart_pool: None,
    }
}

#[test]
fn members_are_read_from_the_request() {
    let parsed = ParsedCharts {
        chart: Some(ManagedChart { id: 1, name: "c".into() }),
        chart_mode: Some(ChartMode::PoolRandom),
        chart_pool: None,
    };
    let body = "{\"maxUsers\":5,\"allowedUserIds\":[2,1],\"hostId\":-7,\"chart\":{},\"chartPool\":0}";
    let members = read_members(body, parsed).unwrap();
    assert_eq!(members.max_users, Some(Some(5)));
    assert_eq!(members.allowed_user_ids, Some(Some(vec![2, 1])));
    assert_eq!(members.host_id, Some(Some(-7)));
    assert!(matches!(members.chart, Some(ChartMember::Chart { .. })));
    assert_eq!(members.chart_mode, None);
    assert_eq!(members.chart_pool, Some(None));
}

#[test]
fn only_objects_have_members() {
    for body in ["[]", "null", "7", "no json", "\"maxUsers\""] {
        let parsed = ParsedCharts { chart: None, chart_mode: None, chart_pool: None };
        assert!(read_members(body, parsed).is_none());
    }
}

#[test]
fn request_without_members_changes_nothing() {
    assert_eq!(apply_members(definition(), Some(no_members())).unwrap(), definition());
}

#[test]
fn request_sent_twice_changes_nothing_the_second_time() {
    let members = || PatchMembers {
        max_users: Some(Some(9)),
        host_id: Some(None),
        chart: Some(ChartMember::Null),
        chart_mode: Some(Some(ChartMode::PoolRandom)),
        ..no_members()
    };
    let once = apply_members(definition(), Some(members())).unwrap();
    assert_eq!(once.max_users, 9);
    assert_eq!(once.host_id, None);
    assert_eq!(once.owner_id, Some(3));
    let twice = apply_members(once.clone(), Some(members())).unwrap();
    assert_eq!(once, twice);
}

#[test]
fn first_unreadable_member_is_reported() {
    let members = PatchMembers {
        chart: Some(ChartMember::Unreadable),
        chart_mode: Some(None),
        ..no_members()
    };
    let response = apply_members(definition(), Some(members)).unwrap_err();
    assert_eq!(response.status, 400);
    assert_eq!(
        response.body,
        ApiBody::Error {
            code: "bad-hosted-room-request".into(),
            message: "谱面字段无效".into(),
        }
    );
}

#[test]
fn null_clears_the_host() {
    let parsed = ParsedCharts { chart: None, chart_mode: None, chart_pool: None };
    let members = read_members("{\"hostId\":null}", parsed).unwrap();
    assert_eq!(members.host_id, Some(None));
    assert_eq!(apply_members(definition(), Some(members)).unwrap().host_id, None);
}
