use niri_animation_rotate::config::{
    default_animation_dir, default_animation_target, default_config_path, default_control_socket,
    join_path, parse_mode_from_kdl, Cli, Config, ConfigError, KdlConfig, Mode,
};

fn empty_cli() -> Cli {
    Cli {
        config: None,
        animation_dir: None,
        animation_target: None,
        log_socket: false,
        no_reload: false,
        no_window_opened: false,
        no_window_closed: false,
        no_workspace_activated: false,
        cooldown_ms: None,
        duration_fallback_ms: None,
        random_order: false,
        mode: None,
        control_socket: None,
        niri_socket: None,
    }
}

#[test]
fn test_defaults_are_under_niri_config() {
    let dir = default_animation_dir("/home/alice/.config");
    assert!(dir.contains("niri/niri-animation-rotate/animations"));

    let target = default_animation_target("/home/alice/.config");
    assert!(target.contains("niri/niri-animation-rotate/animation"));
}

#[test]
fn test_event_filter_defaults_are_false() {
    // Default KdlConfig should have None for the new fields,
    // which means the merge pattern (cli.x || kdl.x.unwrap_or(false))
    // produces false (events trigger rotation by default).
    let kdl = KdlConfig::default();
    assert!(kdl.no_window_opened.is_none());
    assert!(kdl.no_window_closed.is_none());
    assert!(kdl.no_workspace_activated.is_none());

    // With CLI=false and config=None, resolved should be false:
    assert!(!(false || kdl.no_window_opened.unwrap_or(false)));
    assert!(!(false || kdl.no_window_closed.unwrap_or(false)));
    assert!(!(false || kdl.no_workspace_activated.unwrap_or(false)));
}

#[test]
fn test_event_filter_merge_pattern() {
    // Test the merge pattern: cli.x || kdl_config.x.unwrap_or(false)
    // CLI false + config None = false (default, all events trigger)
    assert!(!(false || None::<bool>.unwrap_or(false)));

    // CLI false + config Some(true) = true (config enables suppression)
    assert!(false || Some(true).unwrap_or(false));

    // CLI true + config None = true (CLI enables suppression)
    assert!(true || None::<bool>.unwrap_or(false));

    // CLI true + config Some(true) = true (both enable suppression)
    assert!(true || Some(true).unwrap_or(false));

    // CLI true + config Some(false) = true (CLI wins)
    assert!(true || Some(false).unwrap_or(false));
}

#[test]
fn resolve_uses_defaults() {
    let c = Config::resolve(
        empty_cli(),
        KdlConfig::default(),
        Some("/home/alice/.config".to_string()),
        Some("/run/user/1000/niri.sock".to_string()),
    )
    .ok()
    .unwrap();
    assert_eq!(c.animation_dir, "/home/alice/.config/niri/niri-animation-rotate/animations");
    assert_eq!(c.animation_target, "/home/alice/.config/niri/niri-animation-rotate/animation.kdl");
    assert_eq!(c.control_socket, "/home/alice/.config/niri/niri-animation-rotate/control.sock");
    assert_eq!(c.niri_socket, "/run/user/1000/niri.sock");
    assert_eq!(c.cooldown_ms, 0);
    assert_eq!(c.duration_fallback_ms, 500);
    assert_eq!(c.mode, Mode::Auto);
    assert!(!c.log_socket && !c.no_reload && !c.no_window_opened && !c.no_window_closed);
    assert!(!c.no_workspace_activated && !c.random_order);
}

#[test]
fn resolve_precedence_cli_then_file() {
    let mut cli = empty_cli();
    cli.animation_dir = Some("/cli/anims".to_string());
    cli.cooldown_ms = Some(2000);
    cli.no_reload = true;
    let mut file = KdlConfig::default();
    file.animation_dir = Some("/file/anims".to_string());
    file.animation_target = Some("/file/target.kdl".to_string());
    file.control_socket = Some("/file/control.sock".to_string());
    file.cooldown_ms = Some(100);
    file.duration_fallback_ms = Some(750);
    file.no_reload = Some(false);
    file.random_order = Some(true);
    file.log_socket = Some(false);
    file.mode = Some("manual".to_string());
    file.niri_socket = Some("/file/niri.sock".to_string());
    let c = Config::resolve(cli, file, None, Some("/env/niri.sock".to_string())).ok().unwrap();
    assert_eq!(c.animation_dir, "/cli/anims");
    assert_eq!(c.animation_target, "/file/target.kdl");
    assert_eq!(c.control_socket, "/file/control.sock");
    assert_eq!(c.cooldown_ms, 2000);
    assert_eq!(c.duration_fallback_ms, 750);
    assert!(c.no_reload);
    assert!(c.random_order);
    assert!(!c.log_socket);
    assert_eq!(c.mode, Mode::Manual);
    assert_eq!(c.niri_socket, "/file/niri.sock");
}

#[test]
fn resolve_without_niri_socket_fails() {
    let r = Config::resolve(empty_cli(), KdlConfig::default(), Some("/c".to_string()), None);
    assert_eq!(r.err(), Some(ConfigError::NoNiriSocket));
    assert_eq!(
        ConfigError::NoNiriSocket.message(),
        "NIRI_SOCKET environment variable not set. Are you running inside a Niri session?"
    );
}

#[test]
fn load_with_all_paths_given_needs_no_config_dir() {
    let mut cli = empty_cli();
    cli.animation_dir = Some("/a".to_string());
    cli.animation_target = Some("/t".to_string());
    cli.control_socket = Some("/s".to_string());
    cli.niri_socket = Some("/n".to_string());
    cli.mode = Some(Mode::Manual);
    let c = Config::load(cli, KdlConfig::default(), None).ok().unwrap();
    assert_eq!(c.animation_dir, "/a");
    assert_eq!(c.mode, Mode::Manual);
}

#[test]
fn mode_names() {
    assert_eq!(parse_mode_from_kdl(Some("auto")), Some(Mode::Auto));
    assert_eq!(parse_mode_from_kdl(Some("Auto")), Some(Mode::Auto));
    assert_eq!(parse_mode_from_kdl(Some("manual")), Some(Mode::Manual));
    assert_eq!(parse_mode_from_kdl(Some("Manual")), Some(Mode::Manual));
    assert_eq!(parse_mode_from_kdl(Some("MANUAL")), None);
    assert_eq!(parse_mode_from_kdl(None), None);
}

#[test]
fn invalid_file_mode_falls_back_to_auto() {
    let mut file = KdlConfig::default();
    file.mode = Some("sideways".to_string());
    let c = Config::resolve(empty_cli(), file, Some("/c".to_string()), Some("/n".to_string()))
        .ok()
        .unwrap();
    assert_eq!(c.mode, Mode::Auto);
}

#[test]
fn path_joining() {
    assert_eq!(join_path("/a", "b"), "/a/b");
    assert_eq!(join_path("/a/", "b"), "/a/b");
    assert_eq!(join_path("", "b"), "b");
    assert_eq!(default_config_path("/x"), "/x/niri/niri-animation-rotate/config.kdl");
    assert_eq!(default_control_socket("/x/"), "/x/niri/niri-animation-rotate/control.sock");
}

#[test]
fn config_path_prefers_the_given_file() {
    let mut cli = empty_cli();
    cli.config = Some("/etc/my.kdl".to_string());
    assert_eq!(cli.config_path(), Some("/etc/my.kdl".to_string()));
    let cli = empty_cli();
    if let Some(p) = cli.config_path() {
        assert!(p.ends_with("niri/niri-animation-rotate/config.kdl"));
    }
}
