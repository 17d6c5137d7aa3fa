use pit_cli::commands::cockpit::{
    box_header_text, box_line_text, exit_text, fit_text, flow_arrow_text, format_bytes,
    frame_rows, frame_size, lane_text, queue_text, readiness_color, running_detail, service_row,
    short_id, summary_line, system_line, title_tail, visible_services, waiting_detail,
    CockpitAction, CockpitKey, CockpitService, CockpitState, CockpitView, Color, Execution,
    FetchOutcome, GridCounters, Lane, SystemCounters,
};
use pit_cli::commands::cockpit::frame_lines;

#[test]
fn execution_ids_are_compact_for_the_flow() {
    assert_eq!(short_id("execution-123456"), "123456");
}

#[test]
fn missing_memory_is_explicit() {
    assert_eq!(format_bytes(None), "n/a");
}

#[test]
fn flow_labels_are_bounded_for_small_terminals() {
    assert_eq!(fit_text("LANE 01 [RUNNING] orders", 10), "LANE 01 […");
    assert_eq!(fit_text("short", 10), "short");
    assert_eq!(fit_text("anything", 0), "");
}

#[test]
fn fit_text_of_one_character_is_the_ellipsis() {
    assert_eq!(fit_text("anything", 1), "…");
    assert_eq!(fit_text("abc", 3), "abc");
}

#[test]
fn short_ids_keep_short_values_whole() {
    assert_eq!(short_id("abc"), "abc");
    assert_eq!(short_id(""), "");
}

#[test]
fn memory_is_shown_in_whole_mebibytes() {
    assert_eq!(format_bytes(Some(5 * 1024 * 1024 + 7)), "5MiB");
    assert_eq!(format_bytes(Some(0)), "0MiB");
}

#[test]
fn readiness_colors() {
    assert_eq!(readiness_color("hot"), Color::Green);
    assert_eq!(readiness_color("warm"), Color::Yellow);
    assert_eq!(readiness_color("cold"), Color::DarkGrey);
}

#[test]
fn queue_row_lists_at_most_eight_waiting_requests() {
    assert_eq!(queue_text(0), "EMPTY - no work waiting");
    assert_eq!(queue_text(2), "[WAITING #01]  [WAITING #02]");
    let many = queue_text(12);
    assert_eq!(many.matches("[WAITING").count(), 8);
    assert!(many.ends_with("[WAITING #08]"));
    assert_eq!(waiting_detail(3), "[WAITING 03]");
    assert_eq!(running_detail(2, 8), "[RUNNING 2/8]");
}

fn lane(state: &str) -> Lane {
    Lane {
        lane_id: 0,
        state: state.to_string(),
        execution_id: Some("exec-abcdef123456".to_string()),
        service_id: Some("orders".to_string()),
        release_id: None,
        variant: Some("candidate".to_string()),
        shadow: true,
    }
}

#[test]
fn lanes_show_running_work_or_free() {
    assert_eq!(
        lane_text(&lane("running")),
        "LANE 01  [RUNNING]  orders  exec=123456  release=-  candidate  SHADOW"
    );
    assert_eq!(lane_text(&lane("idle")), "LANE 01  [FREE]     no execution");
}

fn execution(id: &str, status: &str) -> Execution {
    Execution {
        request_id: "req-1".to_string(),
        execution_id: id.to_string(),
        service_id: "orders".to_string(),
        release_id: None,
        variant: None,
        shadow: false,
        lane_id: 2,
        status: status.to_string(),
        queue_wait_us: 5,
        dispatch_gap_us: 6,
        guest_execution_us: 7,
        total_us: 18,
    }
}

#[test]
fn exit_row_shows_most_recent_first() {
    assert_eq!(exit_text(&vec![]), "EMPTY - no completed executions yet");
    let recent = vec![execution("aaaaaa111111", "completed"), execution("bbbbbb222222", "failed")];
    assert_eq!(
        exit_text(&recent),
        "[FAILED] orders · exec=222222  [EXIT] orders · exec=111111"
    );
}

#[test]
fn detail_line_names_the_latest_execution() {
    let d = pit_cli::commands::cockpit::detail_text(&execution("e1", "completed"));
    assert_eq!(
        d,
        "DETAIL latest=e1 req=req-1 service=orders release=n/a variant=stable lane=3 queue-wait=5us dispatch-gap=6us guest=7us total=18us"
    );
}

#[test]
fn boxes_fill_the_terminal_width() {
    let header = box_header_text("PIT ENTRY QUEUE", "[WAITING 00]", 40);
    assert_eq!(header.chars().count(), 40);
    assert!(header.starts_with("+-- PIT ENTRY QUEUE [WAITING 00] -"));
    assert!(header.ends_with("-+"));
    assert_eq!(box_line_text("abc", 10), "| abc    |");
    assert_eq!(box_line_text("abcdefghij", 10), "| abcde… |");
    assert_eq!(flow_arrow_text("LANES", 120), "                         |  LANES  v");
}

#[test]
fn frame_is_at_least_120_by_36_in_width_first_order() {
    assert_eq!(frame_size(None), (120, 36));
    assert_eq!(frame_size(Some((80, 50))), (120, 36));
    assert_eq!(frame_size(Some((200, 10))), (200, 10));
    assert_eq!(frame_size(Some((120, 40))), (120, 40));
}

#[test]
fn frame_rows_follow_the_lanes() {
    let rows = frame_rows(4, 36);
    assert_eq!(rows.first_lane, 8);
    assert_eq!(rows.lanes_arrow, 12);
    assert_eq!(rows.exit_header, 13);
    assert_eq!(rows.exit_line, 14);
    assert_eq!(rows.panel, 24);
    assert_eq!(rows.detail, 33);
    assert_eq!(rows.error, 35);
    let crowded = frame_rows(30, 36);
    assert_eq!(crowded.panel, 42);
    assert_eq!(visible_services(24, 36, 10), 7);
    assert_eq!(visible_services(42, 36, 3), 0);
}

#[test]
fn title_shows_pause_state_and_rule() {
    let live = title_tail(false, 25);
    assert_eq!(live, " [LIVE]   ───");
    assert!(title_tail(true, 10).starts_with(" [PAUSED]"));
}

#[test]
fn summary_lines() {
    let services = vec![
        CockpitService {
            service_id: "orders".to_string(),
            deployed: true,
            readiness: "hot".to_string(),
            active_executions: 1,
            total_requests: 10,
            failures: 0,
            last_activity_seen: true,
        },
        CockpitService {
            service_id: "billing".to_string(),
            deployed: false,
            readiness: "cold".to_string(),
            active_executions: 0,
            total_requests: 0,
            failures: 2,
            last_activity_seen: false,
        },
    ];
    let grid = GridCounters {
        lane_count: 8,
        running: 1,
        queue_depth: 0,
        completed: 9,
        failed: 1,
        peak_active_lanes: 3,
    };
    assert_eq!(
        summary_line(&services, &grid, "13"),
        "  services=1  queue=0  running=1/8  completed=9  failed=1  peak-lanes=3  grid=13%"
    );
    let system = SystemCounters {
        host_logical_cpus: None,
        process_rss_bytes: Some(3 * 1024 * 1024),
        active_guest_executions: 1,
        active_stores: 2,
        hot_artifacts: 3,
        warm_artifacts: 4,
    };
    assert_eq!(
        system_line(&system, "n/a"),
        "  Process CPU=n/a  host-cpus=n/a  RSS=3MiB  guest=1  stores=2  HOT=3  WARM=4"
    );
    assert_eq!(
        service_row(&services[1]),
        "  billing        COLD  active=0 requests=0 failures=2 last=-"
    );
}

#[test]
fn cockpit_state_keeps_last_snapshot_and_error() {
    let mut state = CockpitState::new();
    assert!(state.should_fetch());
    state.record_fetch(FetchOutcome::Decoded("{}".to_string()));
    assert_eq!(state.last_json.as_deref(), Some("{}"));
    state.record_fetch(FetchOutcome::Unreachable("refused".to_string()));
    assert_eq!(state.last_json.as_deref(), Some("{}"));
    assert_eq!(state.error.as_deref(), Some("PitLane unavailable: refused"));
    state.record_fetch(FetchOutcome::Undecodable("eof".to_string()));
    assert_eq!(state.error.as_deref(), Some("invalid snapshot: eof"));
    assert!(matches!(state.on_key(CockpitKey::Pause, &None), CockpitAction::Continue));
    assert!(!state.should_fetch());
    state.on_key(CockpitKey::Pause, &None);
    assert!(state.should_fetch());
    match state.on_key(CockpitKey::Quit, &Some("out.json".to_string())) {
        CockpitAction::Exit { save } => {
            assert_eq!(save, Some(("out.json".to_string(), "{}".to_string())))
        }
        CockpitAction::Continue => panic!("quit must exit"),
    }
}

#[test]
fn frame_waits_for_the_first_snapshot() {
    let lines = frame_lines(&None, &Some("PitLane unavailable: refused".to_string()), 120, 36);
    assert_eq!(lines.len(), 2);
    assert_eq!((lines[0].row, lines[0].text.as_str(), lines[0].color), (3, "Waiting for PitLane snapshot...", Color::Yellow));
    assert_eq!((lines[1].row, lines[1].text.as_str(), lines[1].color), (4, "PitLane unavailable: refused", Color::Red));
}

#[test]
fn frame_places_boxes_lanes_panel_and_detail() {
    let view = CockpitView {
        grid: GridCounters { lane_count: 2, running: 1, queue_depth: 0, completed: 1, failed: 0, peak_active_lanes: 1 },
        lanes: vec![lane("running"), lane("idle")],
        services: vec![CockpitService {
            service_id: "orders".to_string(),
            deployed: true,
            readiness: "warm".to_string(),
            active_executions: 1,
            total_requests: 3,
            failures: 0,
            last_activity_seen: true,
        }],
        recent: vec![execution("e1", "completed")],
        system: SystemCounters {
            host_logical_cpus: Some(8),
            process_rss_bytes: None,
            active_guest_executions: 0,
            active_stores: 0,
            hot_artifacts: 0,
            warm_artifacts: 1,
        },
        grid_percent: "50".to_string(),
        cpu: "n/a".to_string(),
    };
    let lines = frame_lines(&Some(view), &None, 120, 36);
    let rows: Vec<u32> = lines.iter().map(|l| l.row).collect();
    assert_eq!(rows, vec![3, 4, 5, 6, 8, 9, 10, 11, 12, 24, 25, 26, 28, 29, 33]);
    assert!(lines[0].bold && lines[0].text.starts_with("+-- PIT ENTRY QUEUE [WAITING 00] "));
    assert_eq!(lines[4].color, Color::Red);
    assert_eq!(lines[5].color, Color::DarkGrey);
    assert!(lines[5].text.starts_with("| LANE 01  [FREE]"));
    assert_eq!(lines[9].text, "SUMMARY");
    assert_eq!(lines[10].color, Color::Plain);
    assert!(lines[10].text.ends_with("grid=50%"));
    assert_eq!(lines[13].color, Color::Yellow);
    assert!(lines[13].text.starts_with("  orders         WARM "));
    assert!(lines[14].text.starts_with("DETAIL latest=e1"));
}

#[test]
fn service_readiness_is_uppercased_beyond_ascii() {
    let s = CockpitService {
        service_id: "caisse".to_string(),
        deployed: true,
        readiness: "prête".to_string(),
        active_executions: 0,
        total_requests: 3,
        failures: 0,
        last_activity_seen: true,
    };
    assert_eq!(service_row(&s), "  caisse         PRÊTE active=0 requests=3 failures=0 last=seen");
}
