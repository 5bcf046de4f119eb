use flow::config::MonitorLayout;
use flow::engine::layout::{clamp_to_monitor, find_client_monitor_containing, find_closest_client_monitor, project_local_to_global};
use flow::engine::tracker::{host_tracking_step, reachable_layouts, redirected_move_step, MoveDecision};
use flow::engine::{make_monitor_id, new_monitor_x, restore_position, should_remove_client};
use flow::network::protocol::MonitorInfo;

fn layout(id: &str, host: &str, x: i32, y: i32, w: i32, h: i32, lx: i32, ly: i32) -> MonitorLayout {
    MonitorLayout {
        monitor_id: id.to_string(),
        host: host.to_string(),
        monitor_name: "Disp".to_string(),
        x,
        y,
        width: w,
        height: h,
        scale_factor_bits: 1.0f64.to_bits(),
        local_x: lx,
        local_y: ly,
    }
}

#[test]
fn test_project_local_to_global() {
    let db_mon = MonitorLayout {
        monitor_id: "main_disp0".to_string(),
        host: "main".to_string(),
        monitor_name: "Display 0".to_string(),
        x: 0,
        y: 0,
        width: 1920,
        height: 1080,
        scale_factor_bits: 1.0f64.to_bits(),
        local_x: 100,
        local_y: 100,
    };

    let active_mon = MonitorInfo {
        name: "Display 0".to_string(),
        local_x: 100,
        local_y: 100,
        width: 1920,
        height: 1080,
        scale_factor_bits: 1.0f64.to_bits(),
    };

    let global_pos = project_local_to_global(150, 250, &db_mon, &active_mon);
    assert_eq!(global_pos, (50, 150));
}

#[test]
fn test_find_client_monitor_containing() {
    let layouts = vec![
        MonitorLayout {
            monitor_id: "main_disp".to_string(),
            host: "main".to_string(),
            monitor_name: "Disp".to_string(),
            x: 0, y: 0, width: 100, height: 100,
            scale_factor_bits: 1.0f64.to_bits(), local_x: 0, local_y: 0,
        },
        MonitorLayout {
            monitor_id: "client_disp".to_string(),
            host: "client".to_string(),
            monitor_name: "Disp".to_string(),
            x: 100, y: 0, width: 100, height: 100,
            scale_factor_bits: 1.0f64.to_bits(), local_x: 0, local_y: 0,
        },
    ];

    // Coordinate falls inside client layout
    let found = find_client_monitor_containing(150, 50, &layouts);
    assert!(found.is_some());
    assert_eq!(found.unwrap().host, "client");

    // Coordinate falls inside server layout (ignored by find_client_monitor_containing)
    let found_server = find_client_monitor_containing(50, 50, &layouts);
    assert!(found_server.is_none());
}

#[test]
fn clamp_keeps_points_on_the_monitor() {
    let m = layout("c", "client", 100, 0, 100, 50, 0, 0);
    assert_eq!(clamp_to_monitor(90, -5, &m), (100, 0));
    assert_eq!(clamp_to_monitor(250, 60, &m), (199, 49));
    assert_eq!(clamp_to_monitor(150, 20, &m), (150, 20));
}

#[test]
fn closest_monitor_of_a_host() {
    let ls = vec![
        layout("a", "client", 100, 0, 100, 100, 0, 0),
        layout("b", "client", 300, 0, 100, 100, 0, 0),
        layout("m", "main", 0, 0, 100, 100, 0, 0),
    ];
    let near = find_closest_client_monitor(290, 50, "client", &ls).unwrap();
    assert_eq!(near.monitor_id, "b");
    assert!(find_closest_client_monitor(0, 0, "other", &ls).is_none());
}

#[test]
fn host_edge_enters_client_monitor() {
    let local = vec![MonitorInfo {
        name: "Main Display".to_string(),
        local_x: 0,
        local_y: 0,
        width: 1920,
        height: 1080,
        scale_factor_bits: 1.0f64.to_bits(),
    }];
    let db = vec![layout("main_Main Display", "main", 0, 0, 1920, 1080, 0, 0)];
    let mut db_named = db.clone();
    db_named[0].monitor_name = "Main Display".to_string();
    let clients = vec![layout("c", "192.168.1.55", 1920, 0, 1920, 1080, 0, 0)];
    let step = host_tracking_step((1919, 540), &local, &db_named, &clients, true, false).unwrap();
    assert_eq!(step.global, (1919, 540));
    let (target, pos) = step.enter.unwrap();
    assert_eq!(target.host, "192.168.1.55");
    assert_eq!(pos, (1928, 540));

    // In the middle of the screen nothing happens; during the cooldown neither.
    let step = host_tracking_step((900, 540), &local, &db_named, &clients, true, false).unwrap();
    assert!(step.enter.is_none());
    let step = host_tracking_step((1919, 540), &local, &db_named, &clients, true, true).unwrap();
    assert!(step.enter.is_none());
    let step = host_tracking_step((1919, 540), &local, &db_named, &clients, false, false).unwrap();
    assert!(step.enter.is_none());
}

#[test]
fn redirected_motion_returns_to_host() {
    let ls = vec![
        layout("m", "main", 0, 0, 1920, 1080, 0, 0),
        layout("c", "192.168.1.55", 1920, 0, 1920, 1080, 0, 0),
    ];
    let step = redirected_move_step("192.168.1.55", (1925, 540), -10, 0, &ls).unwrap();
    assert_eq!(step.global, (1915, 540));
    match step.decision {
        MoveDecision::ReturnToHost { warp } => assert_eq!(warp, (1908, 540)),
        _ => panic!("expected a return to the host"),
    }
    let step = redirected_move_step("192.168.1.55", (2000, 540), 10, 5, &ls).unwrap();
    assert!(matches!(step.decision, MoveDecision::MoveWithin { .. }));
    assert_eq!(step.global, (2010, 545));
    let step = redirected_move_step("192.168.1.55", (3830, 540), 50, 0, &ls).unwrap();
    match step.decision {
        MoveDecision::Clamped { target } => assert_eq!(target.monitor_id, "c"),
        _ => panic!("expected the cursor to be held"),
    }
    assert_eq!(step.global, (3839, 540));
}

#[test]
fn only_reachable_monitors_are_tracked() {
    let ls = vec![
        layout("m", "main", 0, 0, 10, 10, 0, 0),
        layout("a", "10.0.0.1", 10, 0, 10, 10, 0, 0),
        layout("b", "10.0.0.2", 20, 0, 10, 10, 0, 0),
    ];
    let r = reachable_layouts(&ls, &["10.0.0.2".to_string()]);
    let ids: Vec<&str> = r.iter().map(|m| m.monitor_id.as_str()).collect();
    assert_eq!(ids, vec!["m", "b"]);
}

#[test]
fn new_monitors_go_right_of_the_workspace() {
    let ls = vec![layout("m", "main", 0, 0, 1920, 1080, 0, 0), layout("a", "x", 1920, 0, 1280, 1024, 0, 0)];
    assert_eq!(new_monitor_x(&ls), 3250);
    assert_eq!(new_monitor_x(&[]), 50);
    assert_eq!(make_monitor_id("10.0.0.7", "Display 1"), "10.0.0.7_Display 1");
}

#[test]
fn stored_positions_are_restored() {
    let ls = vec![layout("main_A", "main", 40, 50, 10, 10, 0, 0)];
    assert_eq!(restore_position(&ls, "main_A", (1, 2)), (40, 50));
    assert_eq!(restore_position(&ls, "main_B", (1, 2)), (1, 2));
}

#[test]
fn stale_disconnects_keep_newer_sessions() {
    assert!(should_remove_client(Some(7), 7));
    assert!(!should_remove_client(Some(8), 7));
    assert!(should_remove_client(None, 7));
}
