use niri_animation_rotate::duration::{
    parse_u64_chars, scan_animation_file, scan_animation_source, strip_block_comments, DurationScan,
};

/// The play time a scan gives once the slow-down multiplier is applied, as the
/// daemon applies it.
fn effective(scan: &DurationScan) -> Option<u64> {
    let max_ms = scan.max_duration_ms?;
    let slowdown = scan
        .slowdowns
        .iter()
        .rev()
        .find_map(|t| t.parse::<f64>().ok())
        .unwrap_or(1.0);
    Some((max_ms as f64 * slowdown).round() as u64)
}

fn parse_animation_duration(content: &str) -> Option<u64> {
    effective(&scan_animation_file(Some(content)))
}

#[test]
fn test_single_duration() {
    let content = "animations {\n    window-open {\n        duration-ms 400\n    }\n}";
    assert_eq!(parse_animation_duration(content), Some(400));
}

#[test]
fn test_max_of_multiple_durations() {
    let content = "animations {\n    window-open { duration-ms 300 }\n    window-close { duration-ms 500 }\n    workspace-switch { duration-ms 200 }\n}";
    assert_eq!(parse_animation_duration(content), Some(500));
}

#[test]
fn test_slowdown_multiplier() {
    let content = "animations {\n    slowdown 1.5\n    window-open {\n        duration-ms 280\n    }\n}";
    assert_eq!(parse_animation_duration(content), Some(420)); // 280 * 1.5
}

#[test]
fn test_commented_slowdown_ignored() {
    let content = "animations {\n    slowdown 1.0\n    //slowdown 3.0\n    window-open { duration-ms 400 }\n}";
    assert_eq!(parse_animation_duration(content), Some(400)); // slowdown 1.0, not 3.0
}

#[test]
fn test_block_comment_ignored() {
    let content = "animations {\n    /* duration-ms 999 */\n    window-open { duration-ms 300 }\n}";
    assert_eq!(parse_animation_duration(content), Some(300));
}

#[test]
fn test_no_duration_returns_none() {
    let content = "animations {\n    window-open {\n        spring damping-ratio=0.9 stiffness=800\n    }\n}";
    assert_eq!(parse_animation_duration(content), None);
}

#[test]
fn test_only_slowdown_no_duration_returns_none() {
    let content = "animations {\n    slowdown 2.0\n}";
    assert_eq!(parse_animation_duration(content), None);
}

#[test]
fn test_duration_on_same_line_as_node() {
    let content = "animations {\n    window-open { duration-ms 400\n        custom-shader r\"...\"\n    }\n}";
    assert_eq!(parse_animation_duration(content), Some(400));
}

#[test]
fn test_nonexistent_file_returns_none() {
    // A file that cannot be read declares nothing.
    assert_eq!(effective(&scan_animation_file(None)), None);
}

#[test]
fn test_slowdown_below_one() {
    let content = "animations {\n    slowdown 0.5\n    window-open { duration-ms 400 }\n}";
    assert_eq!(parse_animation_duration(content), Some(200)); // 400 * 0.5
}

#[test]
fn test_real_bloom_kdl() {
    let content = r#"animations {
    workspace-switch {
        spring damping-ratio=0.9 stiffness=800 epsilon=0.0001
    }
    window-open {
        duration-ms 200
        custom-shader r"..."
    }
    window-close {
        duration-ms 300
        custom-shader r"..."
    }
}"#;
    assert_eq!(parse_animation_duration(content), Some(300)); // max(200, 300)
}

#[test]
fn test_real_tv_crt_kdl() {
    let content = r#"animations {
    slowdown 1.0
    window-open {
        duration-ms 260
        custom-shader r"..."
    }
    window-close {
        duration-ms 180
        custom-shader r"..."
    }
    window-resize {
        duration-ms 160
    }
}"#;
    assert_eq!(parse_animation_duration(content), Some(260)); // max(260, 180, 160) * 1.0
}

#[test]
fn test_real_prism_fold_kdl() {
    let content = r#"animations {
    slowdown 1.5
    window-open {
        duration-ms 280
        custom-shader r"..."
    }
    window-close {
        duration-ms 180
        custom-shader r"..."
    }
}"#;
    assert_eq!(parse_animation_duration(content), Some(420)); // max(280, 180) * 1.5 = 420
}

#[test]
fn test_inline_comment_slowdown_ignored() {
    let content = "animations {\n    slowdown 1.0\n    window-open { duration-ms 400 } // slowdown 3.0\n}";
    assert_eq!(parse_animation_duration(content), Some(400)); // 1.0, not 3.0
}

#[test]
fn test_line_comment_before_slowdown() {
    let content = "animations {\n    // Slow down all animations\n    slowdown 2.0\n    window-open { duration-ms 400 }\n}";
    assert_eq!(parse_animation_duration(content), Some(800));
}

#[test]
fn scan_reports_max_and_slowdown_tokens() {
    let s = scan_animation_source(
        "slowdown abc\nslowdown 1.5\n/* multi\nline duration-ms 9999\n*/ duration-ms 10\r\nduration-ms 7",
    );
    assert_eq!(s.max_duration_ms, Some(10));
    assert_eq!(s.slowdowns, vec!["abc".to_string(), "1.5".to_string()]);
    // "abc" does not read as a number, so the last valid multiplier is 1.5.
    assert_eq!(effective(&s), Some(15));
}

#[test]
fn every_duration_on_a_line_counts() {
    let s = scan_animation_source("duration-ms 5 duration-ms 900");
    assert_eq!(s.max_duration_ms, Some(900));
    let s = scan_animation_source("duration-ms x duration-ms 9 duration-ms");
    assert_eq!(s.max_duration_ms, Some(9));
}

#[test]
fn only_first_slowdown_on_a_line_counts() {
    let s = scan_animation_source("slowdown 1.5 slowdown 2.0 // slowdown 7");
    assert_eq!(s.slowdowns, vec!["1.5".to_string()]);
    assert_eq!(parse_animation_duration("duration-ms 100\nslowdown 2.0 slowdown 3.0"), Some(200));
    // A first `slowdown` with no argument gives none, even when another follows.
    let s = scan_animation_source("slowdown   ");
    assert!(s.slowdowns.is_empty());
}

#[test]
fn durations_of_two_nodes_on_one_line() {
    let content = "animations {\n    window-open { duration-ms 300 } window-close { duration-ms 500 }\n}";
    assert_eq!(parse_animation_duration(content), Some(500));
}

#[test]
fn block_comments_across_lines() {
    let mut in_block = false;
    assert_eq!(strip_block_comments("a /* b", &mut in_block), "a ");
    assert!(in_block);
    assert_eq!(strip_block_comments("still comment", &mut in_block), "");
    assert!(in_block);
    assert_eq!(strip_block_comments("end */ c /* d */ e", &mut in_block), " c  e");
    assert!(!in_block);
}

#[test]
fn u64_tokens() {
    let p = |s: &str| parse_u64_chars(&s.chars().collect::<Vec<char>>());
    assert_eq!(p("0"), Some(0));
    assert_eq!(p("+42"), Some(42));
    assert_eq!(p("18446744073709551615"), Some(u64::MAX));
    assert_eq!(p("18446744073709551616"), None);
    assert_eq!(p("+"), None);
    assert_eq!(p(""), None);
    assert_eq!(p("-1"), None);
    assert_eq!(p("12a"), None);
}
