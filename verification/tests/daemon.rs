use niri_animation_rotate::animation::{AnimationRotator, ScannedFile};
use niri_animation_rotate::config::Mode;
use niri_animation_rotate::daemon::{
    compute_block, extract_event_type, CommandAction, LoopState, NiriAction, SelectOutcome,
};

fn reply_text(a: CommandAction) -> String {
    match a {
        CommandAction::Reply(s) => s,
        _ => panic!("expected a reply"),
    }
}

fn rotator_with(names: &[&str]) -> AnimationRotator {
    let scan: Vec<ScannedFile> = names
        .iter()
        .map(|n| ScannedFile {
            path: format!("/anims/{}.kdl", n),
            duration_ms: Some(100),
            content: Some(n.as_bytes().to_vec()),
        })
        .collect();
    AnimationRotator::new(
        "/anims".to_string(),
        "/out/animation.kdl".to_string(),
        500,
        false,
        Ok(scan),
        None,
    )
    .ok()
    .unwrap()
}

fn manual_state() -> LoopState {
    LoopState::new(Mode::Manual, 0, None, 0)
}

#[test]
fn test_debounce_no_block_rotates() {
    let ahora: u64 = 1_000;
    let (should_rotate, new_block) = compute_block(None, ahora, 400, 50);
    assert!(should_rotate);
    // Block set for 450ms from ahora
    assert_eq!(new_block, Some(ahora + 450));
}

#[test]
fn test_debounce_block_active_no_rotation() {
    let ahora: u64 = 10_000;
    // Block is set 3 seconds from now (still active)
    let block = Some(ahora + 3_000);
    let (should_rotate, new_block) = compute_block(block, ahora, 400, 50);
    assert!(!should_rotate);
    // Block is extended from ahora, not from the old block
    assert_eq!(new_block, Some(ahora + 450));
}

#[test]
fn test_debounce_block_expired_rotates() {
    let ahora: u64 = 10_000;
    // Block expired 1 second ago
    let block = Some(ahora - 1_000);
    let (should_rotate, new_block) = compute_block(block, ahora, 400, 50);
    assert!(should_rotate);
    assert_eq!(new_block, Some(ahora + 450));
}

#[test]
fn test_debounce_exact_expiry_moment() {
    let ahora: u64 = 10_000;
    // Block expires exactly at ahora
    let block = Some(ahora);
    let (should_rotate, new_block) = compute_block(block, ahora, 400, 0);
    assert!(should_rotate, "Rotation should occur at the exact expiry moment");
    assert_eq!(new_block, Some(ahora + 400));
}

#[test]
fn test_extract_event_type_valid() {
    assert_eq!(
        extract_event_type(r#"{"WindowOpenedOrChanged": {"window": {}}}"#),
        Some("WindowOpenedOrChanged")
    );
}

#[test]
fn test_extract_event_type_no_event() {
    assert_eq!(extract_event_type("not json"), None);
    assert_eq!(extract_event_type("{}"), None);
}

#[test]
fn test_extract_event_type_workspace_activated() {
    assert_eq!(
        extract_event_type(r#"{"WorkspaceActivated": {"id": 1, "focused": true}}"#),
        Some("WorkspaceActivated")
    );
}

#[test]
fn extract_event_type_trims_and_needs_closing_quote() {
    assert_eq!(extract_event_type("  {\"WindowClosed\":{}}\r\n"), Some("WindowClosed"));
    assert_eq!(extract_event_type("{\"Unclosed"), None);
    assert_eq!(extract_event_type("{ \"Spaced\": 1}"), None);
    assert_eq!(extract_event_type("{\"\": 1}"), Some(""));
}

#[test]
fn first_five_events_are_skipped() {
    let mut s = LoopState::new(Mode::Auto, 0, None, 0);
    let line = r#"{"WindowClosed": {"id": 3}}"#;
    for k in 1..=5 {
        assert_eq!(s.on_niri_line(line, false, false, 100), NiriAction::InitialSkipped);
        assert_eq!(s.initial_events_seen, k);
    }
    assert_eq!(s.on_niri_line(line, false, false, 100), NiriAction::Rotate);
    assert_eq!(s.initial_events_seen, 5);
}

#[test]
fn unreadable_lines_do_not_count_as_initial_events() {
    let mut s = LoopState::new(Mode::Auto, 0, None, 0);
    assert_eq!(s.on_niri_line("garbage", false, false, 0), NiriAction::Ignored);
    assert_eq!(s.initial_events_seen, 0);
}

#[test]
fn event_filters_and_other_events() {
    let mut s = LoopState::new(Mode::Auto, 0, None, 0);
    s.initial_events_seen = 5;
    let opened = r#"{"WindowOpenedOrChanged": {}}"#;
    let closed = r#"{"WindowClosed": {}}"#;
    let ws = r#"{"WorkspaceActivated": {}}"#;
    assert_eq!(s.on_niri_line(opened, true, false, 0), NiriAction::Ignored);
    assert_eq!(s.on_niri_line(closed, false, true, 0), NiriAction::Ignored);
    assert_eq!(s.on_niri_line(ws, false, false, 0), NiriAction::Ignored);
    assert_eq!(s.on_niri_line(opened, false, true, 0), NiriAction::Rotate);
}

#[test]
fn debounce_blocks_until_end_then_rotates() {
    let mut s = LoopState::new(Mode::Auto, 1_000, Some(300), 200);
    assert_eq!(s.block_until, Some(1_500));
    s.initial_events_seen = 5;
    let line = r#"{"WindowClosed": {}}"#;
    assert_eq!(s.on_niri_line(line, false, false, 1_499), NiriAction::Blocked);
    s.set_block(1_499, 300, 200);
    assert_eq!(s.block_until, Some(1_999));
    assert_eq!(s.on_niri_line(line, false, false, 1_999), NiriAction::Rotate);
}

#[test]
fn manual_mode_ignores_niri_events() {
    let mut s = manual_state();
    let before = s;
    assert_eq!(
        s.on_niri_line(r#"{"WindowClosed": {}}"#, false, false, 10),
        NiriAction::Ignored
    );
    assert_eq!(s, before);
}

#[test]
fn auto_mode_answers_queries_only() {
    let rot = rotator_with(&["bloom", "prism_fold", "tv_crt"]);
    let mut s = LoopState::new(Mode::Auto, 0, None, 0);
    assert_eq!(reply_text(s.on_command("current\n", &rot, 0, 0)), "bloom\n");
    assert_eq!(
        reply_text(s.on_command("list", &rot, 0, 0)),
        "bloom\nprism_fold\ntv_crt\n"
    );
    assert_eq!(
        reply_text(s.on_command("next", &rot, 0, 0)),
        "error: not in manual mode\n"
    );
}

#[test]
fn mode_switch_commands() {
    let rot = rotator_with(&["a"]);
    let mut s = LoopState::new(Mode::Auto, 0, Some(100), 0);
    s.initial_events_seen = 5;
    assert_eq!(reply_text(s.on_command(" mode manual ", &rot, 0, 0)), "ok\n");
    assert_eq!(s.mode, Mode::Manual);
    assert_eq!(s.block_until, None);
    assert_eq!(s.initial_events_seen, 5);
    assert!(matches!(s.on_command("mode auto", &rot, 0, 0), CommandAction::EnterAuto));
    assert_eq!(s.enter_auto(50, Some(100), 10), "ok\n");
    assert_eq!(s.mode, Mode::Auto);
    assert_eq!(s.initial_events_seen, 0);
    assert_eq!(s.block_until, Some(160));
    assert_eq!(s.last_rotation, None);
}

#[test]
fn manual_commands() {
    let rot = rotator_with(&["bloom", "tv_crt"]);
    let mut s = manual_state();
    assert!(matches!(s.on_command("next", &rot, 1000, 0), CommandAction::Next));
    assert!(matches!(s.on_command("rotate", &rot, 1000, 0), CommandAction::Next));
    assert!(matches!(s.on_command("prev", &rot, 1000, 0), CommandAction::Prev));
    assert_eq!(reply_text(s.on_command("current", &rot, 0, 0)), "bloom\n");
    assert_eq!(reply_text(s.on_command("select", &rot, 0, 0)), "error: missing name\n");
    assert_eq!(reply_text(s.on_command("select    ", &rot, 0, 0)), "error: missing name\n");
    match s.on_command("select  TV_crt ", &rot, 0, 0) {
        CommandAction::Select(name) => assert_eq!(name, "TV_crt"),
        _ => panic!("expected a selection"),
    }
    assert_eq!(
        reply_text(s.on_command("dance", &rot, 0, 0)),
        "error: unknown command: dance\n"
    );
}

#[test]
fn manual_cooldown_skips_rotation_commands() {
    let rot = rotator_with(&["a", "b"]);
    let mut s = manual_state();
    s.record_rotation(1_000);
    assert!(matches!(s.on_command("next", &rot, 500, 1_200), CommandAction::Silent));
    assert!(matches!(s.on_command("prev", &rot, 500, 1_499), CommandAction::Silent));
    assert_eq!(reply_text(s.on_command("current", &rot, 500, 1_200)), "a\n");
    assert!(matches!(s.on_command("next", &rot, 500, 1_500), CommandAction::Next));
}

#[test]
fn empty_rotator_replies() {
    let rot = AnimationRotator::empty("/a".to_string(), "/t".to_string(), 500, false);
    let mut s = manual_state();
    assert_eq!(
        reply_text(s.on_command("current", &rot, 0, 0)),
        "error: no animations available\n"
    );
    assert_eq!(reply_text(s.on_command("list", &rot, 0, 0)), "");
}

#[test]
fn select_outcomes_reply() {
    let mut s = manual_state();
    assert_eq!(s.finish_select(SelectOutcome::NotFound, 7), "error: not found\n");
    assert_eq!(s.last_rotation, None);
    assert_eq!(
        s.finish_select(SelectOutcome::Failed("Failed to read animation file: x".to_string()), 7),
        "error: Failed to read animation file: x\n"
    );
    assert_eq!(s.finish_select(SelectOutcome::Applied, 7), "ok\n");
    assert_eq!(s.last_rotation, Some(7));
}
