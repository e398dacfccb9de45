use managed_rooms::definition::{ChartMode, ManagedChart, ManagedRoomDefinition, ManagedRoomKind};
use managed_rooms::persistence::{load_hosted_room_definitions, upsert_hosted_room_definition};
use managed_rooms::plan::{RoomCommand, Run};
use managed_rooms::registry::RoomRegistry;
use managed_rooms::runtime::{
    advance_pool_after_round, begin_next_chart, choose_pool_chart, create, disband,
    expiry_delay_ms, persist_host_change, pool_chart_at, publish_managed_update,
    remove_runtime_room, restorable, restore_hosted_rooms, restore_room, schedule_reserved_autostart,
    schedule_reserved_expiry, schedule_reserved_postgame, update_hosted, Creation, RoomPhase,
    RestoreStep, RoomSnapshot, AUTOSTART_DELAY_MS, POSTGAME_DELAY_SECONDS,
};

fn chart(id: i32, name: &str) -> ManagedChart {
    ManagedChart { id, name: name.into() }
}

fn hosted(room_id: &str) -> ManagedRoomDefinition {
    ManagedRoomDefinition {
        room_id: room_id.into(),
        kind: ManagedRoomKind::Hosted,
        owner_id: Some(9),
        max_users: 8,
        whitelist: vec![2, 1],
        host_id: Some(1),
        chart: Some(chart(5, " first ")),
        chart_mode: ChartMode::HostSelect,
        chart_pool: vec![],
        expires_at: None,
    }
}

fn reserved(room_id: &str, expires_at: i64) -> ManagedRoomDefinition {
    ManagedRoomDefinition {
        room_id: room_id.into(),
        kind: ManagedRoomKind::Reserved,
        owner_id: None,
        max_users: 2,
        whitelist: vec![1, 2],
        host_id: None,
        chart: Some(chart(-3, "private")),
        chart_mode: ChartMode::HostSelect,
        chart_pool: vec![],
        expires_at: Some(expires_at),
    }
}

fn snapshot(phase: RoomPhase, users: Vec<i32>) -> RoomSnapshot {
    RoomSnapshot { phase, users, monitors: vec![] }
}

fn command_name(command: &RoomCommand) -> String {
    let text = format!("{command:?}");
    text.split(' ').next().unwrap().to_string()
}

/// Answers each command with success but for those named in `failing`, and gives the names of
/// the commands that were due and the result.
fn drive(
    run: &mut Run,
    registry: &mut RoomRegistry,
    failing: &[&str],
) -> (Vec<String>, Result<(), String>) {
    let mut names = Vec::new();
    while let Some(command) = run.current() {
        let name = command_name(command);
        let answer = if failing.contains(&name.as_str()) { Err("broken".into()) } else { Ok(()) };
        names.push(name);
        assert!(run.result().is_none());
        run.reply(registry, answer);
    }
    (names, run.result().unwrap())
}

fn started(registry: &RoomRegistry, definition: ManagedRoomDefinition) -> Run {
    match create(registry, &vec![], None, definition) {
        Creation::Started { run } => run,
        other => panic!("{other:?}"),
    }
}

fn registry_with(definition: ManagedRoomDefinition) -> RoomRegistry {
    let mut registry = RoomRegistry::new();
    let mut run = started(&registry, definition);
    let (_, result) = drive(&mut run, &mut registry, &[]);
    assert_eq!(result, Ok(()));
    registry
}

#[test]
fn created_hosted_room_is_set_up_stored_and_saved() {
    let mut registry = RoomRegistry::new();
    let mut run = started(&registry, hosted("room"));
    let (names, result) = drive(&mut run, &mut registry, &[]);
    assert_eq!(names, vec!["CreateRoom", "SetChart", "SetHost", "SaveDefinition"]);
    assert_eq!(result, Ok(()));
    let stored = registry.get("room").unwrap();
    assert_eq!(stored.whitelist, vec![1, 2]);
    assert_eq!(stored.chart, Some(chart(5, "first")));
}

#[test]
fn created_reserved_room_plays_a_tournament_and_gets_its_timer() {
    let mut registry = RoomRegistry::new();
    let mut run = started(&registry, reserved("once", 1000));
    let (names, result) = drive(&mut run, &mut registry, &[]);
    assert_eq!(
        names,
        vec!["CreateRoom", "SetTournament", "SetChart", "SetHost", "ScheduleExpiry"]
    );
    assert_eq!(result, Ok(()));
    assert!(registry.get("once").is_some());
}

#[test]
fn failed_creation_leaves_no_trace() {
    let mut registry = RoomRegistry::new();
    let mut run = started(&registry, hosted("room"));
    let (names, result) = drive(&mut run, &mut registry, &["CreateRoom"]);
    assert_eq!(names, vec!["CreateRoom"]);
    assert_eq!(result, Err("broken".to_string()));

    let mut run = started(&registry, hosted("room"));
    let (names, result) = drive(&mut run, &mut registry, &["SetHost"]);
    assert_eq!(names, vec!["CreateRoom", "SetChart", "SetHost", "RemoveRoom"]);
    assert_eq!(result, Err("broken".to_string()));

    let mut run = started(&registry, hosted("room"));
    let (names, result) = drive(&mut run, &mut registry, &["SaveDefinition", "RemoveRoom"]);
    assert_eq!(
        names,
        vec!["CreateRoom", "SetChart", "SetHost", "SaveDefinition", "RemoveRoom"]
    );
    assert_eq!(result, Err("persist-hosted-room-failed: broken".to_string()));
    assert!(registry.get("room").is_none());
}

#[test]
fn repeated_creation_finds_the_room() {
    let registry = registry_with(reserved("once", 1000));
    let open = vec!["once".to_string()];
    assert!(matches!(create(&registry, &open, Some(1), reserved("once", 2000)), Creation::Existing));
    let registry = registry_with(hosted("room"));
    assert!(matches!(create(&registry, &open, None, hosted("room")), Creation::Existing));
}

#[test]
fn creation_is_refused_for_a_taken_identifier_a_full_server_or_a_bad_definition() {
    let registry = registry_with(hosted("room"));
    let refused = |creation: Creation| match creation {
        Creation::Refused { error } => error,
        other => panic!("{other:?}"),
    };
    let mut other = hosted("room");
    other.max_users = 9;
    assert_eq!(refused(create(&registry, &vec![], None, other)), "room-id-occupied");
    let open = vec!["plain".to_string()];
    assert_eq!(refused(create(&registry, &open, None, hosted("plain"))), "room-id-occupied");
    assert_eq!(refused(create(&registry, &open, Some(1), hosted("new"))), "rooms-limit-reached");
    assert!(matches!(create(&registry, &open, Some(2), hosted("new")), Creation::Started { .. }));
    let mut bad = hosted("new");
    bad.max_users = 1;
    assert_eq!(refused(create(&registry, &open, None, bad)), "房间容量必须在 2 至 64 之间");
}

#[test]
fn drawn_chart_is_installed_but_not_saved_at_first() {
    let mut definition = hosted("pool");
    definition.chart = None;
    definition.chart_mode = ChartMode::PoolRandom;
    definition.chart_pool = vec![chart(2, "two")];
    let mut registry = RoomRegistry::new();
    let mut run = started(&registry, definition);
    let mut saved = None;
    while let Some(command) = run.current() {
        if let RoomCommand::SaveDefinition { definition } = command {
            saved = Some(definition.clone());
        }
        run.reply(&mut registry, Ok(()));
    }
    assert_eq!(saved.unwrap().chart, None);
    assert_eq!(registry.get("pool").unwrap().chart, Some(chart(2, "two")));
}

#[test]
fn pool_charts_are_drawn_from_the_pool() {
    let mut definition = hosted("pool");
    definition.chart_pool = vec![chart(1, "a"), chart(2, "b"), chart(3, "c")];
    let mut seen = vec![];
    for _ in 0..400 {
        let drawn = choose_pool_chart(&definition).unwrap();
        assert!(definition.chart_pool.contains(&drawn));
        if !seen.contains(&drawn.id) {
            seen.push(drawn.id);
        }
    }
    assert_eq!(seen.len(), 3);
    assert_eq!(pool_chart_at(&definition, 1), Some(chart(2, "b")));
    assert_eq!(pool_chart_at(&definition, 3), None);
    definition.chart_pool.clear();
    assert_eq!(choose_pool_chart(&definition), None);
}

#[test]
fn saved_rooms_are_restored_unless_something_is_in_the_way() {
    assert!(restorable(reserved("once", 1), &vec![]).is_none());
    assert!(restorable(hosted("room"), &vec!["room".to_string()]).is_none());
    let mut bad = hosted("room");
    bad.whitelist = vec![0];
    assert!(restore_room(bad, &vec![]).is_none());
    let mut registry = RoomRegistry::new();
    let mut run = restore_room(hosted("room"), &vec![]).unwrap();
    let (names, result) = drive(&mut run, &mut registry, &[]);
    assert_eq!(names, vec!["CreateRoom", "SetChart", "SetHost"]);
    assert_eq!(result, Ok(()));
    assert_eq!(registry.get("room").unwrap().whitelist, vec![1, 2]);
}

#[test]
fn records_that_cannot_be_read_are_passed_over() {
    let loaded = load_hosted_room_definitions(vec![Some(hosted("a")), None, Some(hosted("b"))]);
    let ids: Vec<&str> = loaded.iter().map(|d| d.room_id.as_str()).collect();
    assert_eq!(ids, vec!["a", "b"]);
    assert_eq!(upsert_hosted_room_definition(&hosted("a")), Ok(()));
    assert_eq!(
        upsert_hosted_room_definition(&reserved("b", 1)),
        Err("only hosted rooms are restart-persistent".to_string())
    );
}

#[test]
fn update_changes_what_differs_then_saves_and_announces() {
    let mut registry = registry_with(hosted("room"));
    let mut wanted = hosted("room");
    wanted.host_id = Some(2);
    wanted.chart = None;
    wanted.max_users = 3;
    let idle = snapshot(RoomPhase::SelectingChart, vec![1, 2]);
    let (mut run, updated) = update_hosted(&registry, wanted, Some(&idle)).unwrap();
    let (names, result) = drive(&mut run, &mut registry, &[]);
    assert_eq!(
        names,
        vec!["SetHost", "ClearChart", "SetMaxUsers", "SaveDefinition", "Emit", "Publish"]
    );
    assert_eq!(result, Ok(()));
    assert_eq!(registry.get("room").unwrap(), &updated);
    assert_eq!(updated.host_id, Some(2));
}

#[test]
fn update_that_cannot_be_saved_is_taken_back() {
    let mut registry = registry_with(hosted("room"));
    let before = registry.get("room").unwrap().clone();
    let mut wanted = hosted("room");
    wanted.host_id = None;
    wanted.chart = Some(chart(6, "other"));
    let idle = snapshot(RoomPhase::SelectingChart, vec![]);
    let (mut run, _) = update_hosted(&registry, wanted, Some(&idle)).unwrap();
    let mut charts = vec![];
    let mut hosts = vec![];
    while let Some(command) = run.current() {
        let answer = match command {
            RoomCommand::SetChart { chart, .. } => {
                charts.push(chart.id);
                Ok(())
            }
            RoomCommand::SetHost { host_id, .. } => {
                hosts.push(*host_id);
                Ok(())
            }
            _ => Err("disk".to_string()),
        };
        run.reply(&mut registry, answer);
    }
    assert_eq!(run.result(), Some(Err("persist-hosted-room-failed: disk".to_string())));
    assert_eq!(charts, vec![6, 5]);
    assert_eq!(hosts, vec![None, Some(1)]);
    assert_eq!(registry.get("room").unwrap(), &before);
}

#[test]
fn update_is_refused_for_unknown_busy_or_crowded_rooms() {
    let registry = registry_with(hosted("room"));
    let idle = snapshot(RoomPhase::SelectingChart, vec![1, 2, 3]);
    let playing = snapshot(RoomPhase::Playing, vec![]);
    let error = |result: Result<(Run, ManagedRoomDefinition), String>| result.unwrap_err();
    assert_eq!(error(update_hosted(&registry, hosted("none"), Some(&idle))), "room-not-found");
    assert_eq!(error(update_hosted(&registry, hosted("room"), None)), "room-not-found");
    assert_eq!(error(update_hosted(&registry, reserved("room", 1), Some(&idle))), "room-not-found");
    assert_eq!(error(update_hosted(&registry, hosted("room"), Some(&playing))), "hosted-room-busy");
    let mut small = hosted("room");
    small.max_users = 2;
    assert_eq!(
        error(update_hosted(&registry, small, Some(&idle))),
        "hosted-room-capacity-below-users"
    );
    let once = registry_with(reserved("once", 1));
    assert_eq!(error(update_hosted(&once, hosted("once"), Some(&idle))), "room-not-found");
}

#[test]
fn host_change_is_taken_over_by_hosted_rooms_only() {
    let mut registry = registry_with(hosted("room"));
    let mut run = persist_host_change(&mut registry, "room", Some(2)).unwrap();
    let (names, result) = drive(&mut run, &mut registry, &["SaveDefinition"]);
    assert_eq!(names, vec!["SaveDefinition", "Emit", "Publish"]);
    assert_eq!(result, Ok(()));
    assert_eq!(registry.get("room").unwrap().host_id, Some(2));
    let mut run = persist_host_change(&mut registry, "room", None).unwrap();
    assert_eq!(drive(&mut run, &mut registry, &[]).0, vec!["SaveDefinition", "Publish"]);
    assert!(persist_host_change(&mut registry, "none", None).is_none());
    let mut once = registry_with(reserved("once", 1));
    assert!(persist_host_change(&mut once, "once", Some(1)).is_none());
}

#[test]
fn disbanded_room_is_forgotten() {
    let mut registry = registry_with(hosted("room"));
    let open = vec!["room".to_string(), "plain".to_string()];
    let mut run = disband(&registry, &open, "room").unwrap();
    let (names, result) = drive(&mut run, &mut registry, &["CloseRoom"]);
    assert_eq!(names, vec!["CloseRoom", "RemoveRoom", "DeleteDefinition", "Publish"]);
    assert_eq!(result, Ok(()));
    assert!(registry.get("room").is_none());
    let mut run = disband(&registry, &open, "plain").unwrap();
    assert_eq!(
        drive(&mut run, &mut registry, &[]).0,
        vec!["CloseRoom", "RemoveRoom", "Publish"]
    );
    assert_eq!(disband(&registry, &open, "none").unwrap_err(), "room-not-found");
}

#[test]
fn disbanding_reports_what_fails() {
    let mut registry = registry_with(hosted("room"));
    let open = vec!["room".to_string()];
    let mut run = disband(&registry, &open, "room").unwrap();
    let (_, result) = drive(&mut run, &mut registry, &["RemoveRoom"]);
    assert_eq!(result, Err("broken".to_string()));
    assert!(registry.get("room").is_some());
    let mut run = disband(&registry, &open, "room").unwrap();
    let (_, result) = drive(&mut run, &mut registry, &["DeleteDefinition"]);
    assert_eq!(result, Err("delete-hosted-room-failed: broken".to_string()));
    assert!(registry.get("room").is_none());
    assert_eq!(remove_runtime_room("room"), Ok(()));
    assert_eq!(remove_runtime_room("no room"), Err("invalid room_id".to_string()));
}

#[test]
fn update_message_names_room_and_action() {
    let message = publish_managed_update("ro\"om", "updated");
    assert_eq!(message.event, "managed_room_update");
    assert_eq!(message.data, "{\"action\":\"updated\",\"roomId\":\"ro\\\"om\"}");
}

#[test]
fn expiry_is_waited_for() {
    assert_eq!(expiry_delay_ms(5_000, 2_000), 3_000);
    assert_eq!(expiry_delay_ms(2_000, 2_000), 0);
    assert_eq!(expiry_delay_ms(1_999, 2_000), u64::MAX);
    assert_eq!(expiry_delay_ms(i64::MAX, -1), i64::MAX as u64);
    assert_eq!(expiry_delay_ms(i64::MIN, 1), i64::MIN as u64);
    let once = registry_with(reserved("once", 1));
    assert!(schedule_reserved_expiry(&once, "once", Some(true)));
    assert!(!schedule_reserved_expiry(&once, "once", Some(false)));
    assert!(!schedule_reserved_expiry(&once, "once", None));
    assert!(schedule_reserved_expiry(&once, "plain", Some(true)));
    assert_eq!(AUTOSTART_DELAY_MS, 500);
    assert_eq!(POSTGAME_DELAY_SECONDS, 60);
}

#[test]
fn reserved_room_starts_when_exactly_its_players_are_there() {
    let registry = registry_with(reserved("once", 1));
    let starts = |phase: RoomPhase, users: Vec<i32>| {
        schedule_reserved_autostart(&registry, "once", Some(&snapshot(phase, users)))
    };
    assert!(starts(RoomPhase::SelectingChart, vec![2, 1]));
    assert!(starts(RoomPhase::SelectingChart, vec![2, 1, 2]));
    assert!(!starts(RoomPhase::SelectingChart, vec![1]));
    assert!(!starts(RoomPhase::SelectingChart, vec![1, 2, 3]));
    assert!(!starts(RoomPhase::WaitingForReady, vec![1, 2]));
    assert!(!schedule_reserved_autostart(&registry, "once", None));
    let full = snapshot(RoomPhase::SelectingChart, vec![1, 2]);
    assert!(!schedule_reserved_autostart(&registry_with(hosted("room")), "room", Some(&full)));
    assert!(schedule_reserved_postgame(&registry, "once"));
    assert!(!schedule_reserved_postgame(&registry_with(hosted("room")), "room"));
    assert!(!schedule_reserved_postgame(&registry, "none"));
}

#[test]
fn next_chart_comes_from_the_pool() {
    let mut definition = hosted("pool");
    definition.chart_mode = ChartMode::PoolRandom;
    definition.chart_pool = vec![chart(3, "three")];
    let mut registry = registry_with(definition);
    let mut run = advance_pool_after_round(&registry, "pool").unwrap();
    let (names, result) = drive(&mut run, &mut registry, &["SaveDefinition"]);
    assert_eq!(names, vec!["SetChart", "SaveDefinition", "Publish"]);
    assert_eq!(result, Ok(()));
    assert_eq!(registry.get("pool").unwrap().chart, Some(chart(3, "three")));
    assert!(advance_pool_after_round(&registry_with(hosted("room")), "room").is_none());
    assert!(advance_pool_after_round(&registry, "none").is_none());
}

#[test]
fn next_chart_that_cannot_be_set_changes_nothing() {
    let mut registry = registry_with(hosted("room"));
    let mut run = begin_next_chart(registry.get("room").unwrap(), chart(8, "eight"));
    let (names, result) = drive(&mut run, &mut registry, &["SetChart"]);
    assert_eq!(names, vec!["SetChart"]);
    assert_eq!(result, Err("broken".to_string()));
    assert_eq!(registry.get("room").unwrap().chart, Some(chart(5, "first")));
}

#[test]
fn registry_keeps_one_definition_per_room() {
    let mut registry = RoomRegistry::new();
    registry.insert(hosted("a"));
    registry.insert(hosted("b"));
    let mut again = hosted("a");
    again.max_users = 3;
    registry.insert(again);
    assert_eq!(registry.definitions().len(), 2);
    assert_eq!(registry.get("a").unwrap().max_users, 3);
    registry.remove("a");
    assert!(registry.get("a").is_none());
    assert_eq!(registry.definitions().len(), 1);
}

#[test]
fn hosted_room_survives_a_restart() {
    let mut registry = RoomRegistry::new();
    let mut run = started(&registry, hosted("room"));
    let mut saved = vec![];
    while let Some(command) = run.current() {
        if let RoomCommand::SaveDefinition { definition } = command {
            saved.push(definition.clone());
        }
        run.reply(&mut registry, Ok(()));
    }
    assert_eq!(saved.len(), 1);
    let mut after_restart = RoomRegistry::new();
    let mut run = restore_room(saved.pop().unwrap(), &vec![]).unwrap();
    assert_eq!(drive(&mut run, &mut after_restart, &[]).1, Ok(()));
    assert_eq!(after_restart.get("room"), registry.get("room"));
}

#[test]
fn records_are_restored_one_by_one() {
    let mut bad = hosted("bad");
    bad.max_users = 0;
    let records =
        vec![hosted("a"), bad, reserved("once", 1), hosted("taken"), hosted("fails"), hosted("z")];
    let mut registry = RoomRegistry::new();
    registry.insert(reserved("taken", 5));
    let mut walk = restore_hosted_rooms(Ok(records)).unwrap();
    let mut open = vec!["taken".to_string()];
    let mut passed = vec![];
    let mut installed = vec![];
    loop {
        match walk.restore_next(&open) {
            RestoreStep::Done => break,
            RestoreStep::Passed { room_id } => passed.push(room_id),
            RestoreStep::Install { room_id, mut run } => {
                let failing: &[&str] = if room_id == "fails" { &["SetHost"] } else { &[] };
                if drive(&mut run, &mut registry, failing).1.is_ok() {
                    open.push(room_id.clone());
                    installed.push(room_id);
                }
            }
        }
    }
    assert_eq!(passed, vec!["bad", "once", "taken"]);
    assert_eq!(installed, vec!["a", "z"]);
    assert!(registry.get("fails").is_none());
    assert_eq!(registry.get("a").unwrap().whitelist, vec![1, 2]);
    assert_eq!(registry.get("taken").unwrap(), &reserved("taken", 5));
    assert!(matches!(walk.restore_next(&open), RestoreStep::Done));
}

#[test]
fn nothing_is_restored_if_the_records_cannot_be_loaded() {
    assert_eq!(restore_hosted_rooms(Err("offline".into())).unwrap_err(), "offline");
}

#[test]
fn empty_hosted_room_is_kept_by_the_timers() {
    let registry = registry_with(hosted("room"));
    assert!(!schedule_reserved_expiry(&registry, "room", Some(true)));
    assert!(!schedule_reserved_postgame(&registry, "room"));
    let empty = snapshot(RoomPhase::SelectingChart, vec![]);
    assert!(!schedule_reserved_autostart(&registry, "room", Some(&empty)));
}

#[test]
fn host_outside_the_whitelist_is_not_restored() {
    let mut registry = registry_with(hosted("room"));
    let run = persist_host_change(&mut registry, "room", Some(7)).unwrap();
    match run.current() {
        Some(RoomCommand::SaveDefinition { definition }) => {
            assert_eq!(definition.host_id, Some(7));
            assert!(restore_room(definition.clone(), &vec![]).is_none());
        }
        other => panic!("{other:?}"),
    }
    let run = persist_host_change(&mut registry, "room", Some(2)).unwrap();
    match run.current() {
        Some(RoomCommand::SaveDefinition { definition }) => {
            assert_eq!(restorable(definition.clone(), &vec![]).as_ref(), Some(definition));
        }
        other => panic!("{other:?}"),
    }
}
