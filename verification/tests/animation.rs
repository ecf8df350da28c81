use niri_animation_rotate::animation::{AnimationRotator, RotatorError, ScannedFile, SelectStep};
use niri_animation_rotate::duration::scan_animation_file;

/// A scan of a directory holding `files` (name, content), as the daemon makes it:
/// `.kdl` files only, sorted, each with its declared play time and its bytes.
fn scan_dir(dir: &str, files: &[(&str, &str)]) -> Vec<ScannedFile> {
    let paths: Vec<String> = files.iter().map(|(n, _)| format!("{}/{}", dir, n)).collect();
    AnimationRotator::select_kdl_files(paths)
        .into_iter()
        .map(|path| {
            let content = files
                .iter()
                .find(|(n, _)| format!("{}/{}", dir, n) == path)
                .map(|(_, c)| c.to_string())
                .unwrap();
            let scan = scan_animation_file(Some(content.as_str()));
            let slowdown = scan
                .slowdowns
                .iter()
                .rev()
                .find_map(|t| t.parse::<f64>().ok())
                .unwrap_or(1.0);
            ScannedFile {
                path,
                duration_ms: scan
                    .max_duration_ms
                    .map(|m| (m as f64 * slowdown).round() as u64),
                content: Some(content.into_bytes()),
            }
        })
        .collect()
}

fn rotator(dir: &str, files: &[(&str, &str)], fallback: u64, random: bool) -> AnimationRotator {
    let target = format!("{}/animation.kdl", dir);
    AnimationRotator::new(dir.to_string(), target, fallback, random, Ok(scan_dir(dir, files)), None)
        .ok()
        .unwrap()
}

fn stem(r: &AnimationRotator) -> String {
    r.current_file_stem().unwrap()
}

const ABC: [(&str, &str); 3] = [("a.kdl", "content a"), ("b.kdl", "content b"), ("c.kdl", "content c")];

#[test]
fn test_new_succeeds_with_valid_dir() {
    let r = rotator("/t/new-valid", &ABC, 500, false);
    assert_eq!(r.file_count(), 3);
}

#[test]
fn test_new_fails_with_empty_dir() {
    let result = AnimationRotator::new(
        "/t/new-empty".to_string(),
        "/t/new-empty/animation.kdl".to_string(),
        500,
        false,
        Ok(scan_dir("/t/new-empty", &[])),
        None,
    );
    assert!(result.is_err(), "Should fail with empty directory");
}

#[test]
fn new_reports_why_it_failed() {
    let empty = AnimationRotator::new("/d".to_string(), "/t".to_string(), 500, false, Ok(vec![]), None);
    match empty {
        Err(e) => assert_eq!(e.message(), "No .kdl files found in /d"),
        Ok(_) => panic!("expected an error"),
    }
    let failed = AnimationRotator::new(
        "/nonexistent/path".to_string(),
        "/t".to_string(),
        500,
        false,
        Err("No such file or directory".to_string()),
        None,
    );
    match failed {
        Err(RotatorError::ScanFailed(d)) => assert_eq!(d, "/nonexistent/path"),
        _ => panic!("expected a scan failure"),
    }
}

#[test]
fn test_empty_rotator_is_empty() {
    let r = AnimationRotator::empty("/t/empty".to_string(), "/t/empty/animation.kdl".to_string(), 500, false);
    assert!(r.is_empty());
    assert_eq!(r.file_count(), 0);
}

#[test]
fn test_scan_directory_finds_kdl_files() {
    let files = AnimationRotator::select_kdl_files(vec![
        "/t/scan/animation1.kdl".to_string(),
        "/t/scan/readme.txt".to_string(),
        "/t/scan/animation2.kdl".to_string(),
    ]);
    assert_eq!(files.len(), 2);
    assert!(files.iter().all(|f| f.ends_with(".kdl")));
}

#[test]
fn kdl_files_are_sorted_by_name() {
    let files = AnimationRotator::select_kdl_files(vec![
        "/d/zebra.kdl".to_string(),
        "/d/.kdl".to_string(),
        "/d/apple.kdl".to_string(),
        "/d/Mango.kdl".to_string(),
        "/d/notes.kdl.bak".to_string(),
        "/d/ab.kdl".to_string(),
    ]);
    assert_eq!(files, vec!["/d/Mango.kdl", "/d/ab.kdl", "/d/apple.kdl", "/d/zebra.kdl"]);
}

#[test]
fn rotate_advances_and_names_the_file_to_write() {
    let mut r = rotator("/t/rotate-advance", &ABC, 500, false);
    let initial_index = r.current_index();
    let path = r.rotate();
    assert_ne!(initial_index, r.current_index(), "Index should have changed after rotation");
    assert_eq!(path, Some("/t/rotate-advance/b.kdl".to_string()));
}

#[test]
fn test_rotate_wraps_around() {
    let mut r = rotator("/t/rotate-wrap", &ABC[..2], 500, false);
    let mut seen_indices = Vec::new();
    for _ in 0..r.file_count() {
        seen_indices.push(r.current_index());
        r.rotate();
    }
    seen_indices.push(r.current_index());
    let unique: std::collections::HashSet<_> = seen_indices.iter().collect();
    assert_eq!(unique.len(), 2);
    assert_eq!(seen_indices.first(), seen_indices.last());
}

#[test]
fn rotate_prev_steps_backward_alphabetically() {
    let mut r = rotator("/t/rotate-prev", &ABC, 500, false);
    // With random_order=false, alphabetical: a=0, b=1, c=2. Start at 0.
    assert_eq!(stem(&r), "a");
    r.rotate_prev();
    // prev from 0 → wraps to 2 (c)
    assert_eq!(stem(&r), "c");
    r.rotate_prev();
    // prev from 2 → 1 (b)
    assert_eq!(stem(&r), "b");
}

#[test]
fn test_rotate_prev_wraps_from_zero() {
    let mut r = rotator("/t/rotate-prev-wrap", &ABC[..2], 500, false);
    assert_eq!(stem(&r), "a");
    r.rotate_prev();
    assert_eq!(stem(&r), "b");
    r.rotate_prev();
    assert_eq!(stem(&r), "a");
}

#[test]
fn test_rotate_prev_single_file_noop() {
    let mut r = rotator("/t/rotate-prev-single", &ABC[..1], 500, false);
    let before = r.current_index();
    r.rotate_prev();
    assert_eq!(r.current_index(), before);
    assert_eq!(r.file_count(), 1);
}

#[test]
fn test_rotate_prev_empty_rotator_noop() {
    let mut r = AnimationRotator::empty("/t/e".to_string(), "/t/e/animation.kdl".to_string(), 500, false);
    assert_eq!(r.rotate_prev(), None);
    assert_eq!(r.rotate(), None);
    assert!(r.is_empty());
}

#[test]
fn rotate_then_prev_returns_to_start() {
    let mut r = rotator("/t/undo", &ABC, 500, false);
    for _ in 0..4 {
        let before = r.current_index();
        r.rotate();
        r.rotate_prev();
        assert_eq!(r.current_index(), before);
        r.rotate_prev();
        r.rotate();
        assert_eq!(r.current_index(), before);
        r.rotate();
    }
}

#[test]
fn test_refresh_picks_up_new_file() {
    let dir = "/t/refresh-add";
    let mut r = rotator(dir, &ABC[..1], 500, false);
    assert_eq!(r.file_count(), 1);
    r.refresh(Ok(scan_dir(dir, &ABC[..2])), None);
    assert_eq!(r.file_count(), 2);
}

#[test]
fn test_refresh_removes_deleted_file() {
    let dir = "/t/refresh-remove";
    let mut r = rotator(dir, &ABC[..2], 500, false);
    assert_eq!(r.file_count(), 2);
    r.refresh(Ok(scan_dir(dir, &ABC[..1])), None);
    assert_eq!(r.file_count(), 1);
}

#[test]
fn refresh_keeps_the_active_animation() {
    let dir = "/t/refresh-keep";
    let mut r = rotator(dir, &ABC[1..], 500, false);
    r.rotate();
    assert_eq!(stem(&r), "c");
    // "a" appears before it; "c" stays active.
    r.refresh(Ok(scan_dir(dir, &ABC)), None);
    assert_eq!(stem(&r), "c");
    assert_eq!(r.current_index(), 2);
    // A failed scan changes nothing; an empty one leaves no file.
    r.refresh(Err("gone".to_string()), None);
    assert_eq!(r.file_count(), 3);
    r.refresh(Ok(vec![]), None);
    assert!(r.is_empty());
    assert_eq!(r.current_index(), 0);
}

#[test]
fn rotate_after_the_active_file_vanished() {
    let dir = "/t/rotate-deleted";
    let mut r = rotator(dir, &ABC[..2], 500, false);
    let path = r.rotate().unwrap();
    assert_eq!(path, "/t/rotate-deleted/b.kdl");
    // b was deleted: the caller rescans and starts again from the first file.
    let next = r.rotate().unwrap();
    assert_eq!(next, "/t/rotate-deleted/a.kdl");
    r.refresh(Ok(scan_dir(dir, &ABC[..1])), None);
    assert_eq!(r.restart_after_refresh(), Some("/t/rotate-deleted/a.kdl".to_string()));
    assert!(!r.is_empty());
    r.refresh(Ok(vec![]), None);
    assert_eq!(r.restart_after_refresh(), None);
}

#[test]
fn test_current_duration_uses_fallback() {
    let r = rotator("/t/dur-fallback", &[("a.kdl", "// no duration-ms here")], 300, false);
    // File has no duration-ms → should use fallback
    assert_eq!(r.current_duration_ms(), 300);
}

#[test]
fn test_current_duration_parsed() {
    let r = rotator(
        "/t/dur-parsed",
        &[("a.kdl", "animations {\n    window-open { duration-ms 400 }\n}")],
        500,
        false,
    );
    assert_eq!(r.current_duration_ms(), 400);
}

#[test]
fn test_current_duration_empty_uses_fallback() {
    let r = AnimationRotator::empty("/t/dur-empty".to_string(), "/t/x".to_string(), 350, false);
    assert_eq!(r.current_duration_ms(), 350);
}

#[test]
fn test_random_order_false_preserves_alphabetical() {
    let r = rotator(
        "/t/rand-off",
        &[("c.kdl", "content c"), ("a.kdl", "content a"), ("b.kdl", "content b")],
        500,
        false,
    );
    // With random_order=false, files should stay in alphabetical order
    let stems = r.file_stems();
    assert_eq!(stems, vec!["a", "b", "c"]);
}

#[test]
fn test_random_order_true_stores_flag() {
    let r = rotator("/t/rand-on", &ABC[..2], 500, true);
    // Verify the flag is stored and new() doesn't panic
    assert!(r.random_order());
    assert_eq!(r.file_count(), 2);
}

#[test]
fn shuffled_rotator_keeps_the_same_files() {
    let names: Vec<String> = (0..20).map(|i| format!("f{:02}.kdl", i)).collect();
    let files: Vec<(&str, &str)> = names.iter().map(|n| (n.as_str(), "x")).collect();
    let r = rotator("/t/shuffle", &files, 500, true);
    let mut stems = r.file_stems();
    stems.sort();
    let expected: Vec<String> = (0..20).map(|i| format!("f{:02}", i)).collect();
    assert_eq!(stems, expected);
}

#[test]
fn test_random_order_refresh_carries_flag() {
    let dir = "/t/rand-refresh";
    let mut r = rotator(dir, &ABC[..1], 500, true);
    assert!(r.random_order());
    r.refresh(Ok(scan_dir(dir, &ABC[..1])), None);
    assert!(r.random_order());
}

#[test]
fn test_current_file_stem_returns_active() {
    let r = rotator("/t/stem-active", &[("alpha.kdl", "content a"), ("beta.kdl", "content b")], 500, false);
    assert_eq!(r.current_file_stem(), Some("alpha".to_string()));
}

#[test]
fn test_current_file_stem_empty_returns_none() {
    let r = AnimationRotator::empty("/t/stem-empty".to_string(), "/t/x".to_string(), 500, false);
    assert_eq!(r.current_file_stem(), None);
}

#[test]
fn test_file_stems_returns_all() {
    let r = rotator(
        "/t/stems-all",
        &[("zebra.kdl", "content z"), ("apple.kdl", "content a"), ("mango.kdl", "content m")],
        500,
        false,
    );
    let stems = r.file_stems();
    assert_eq!(stems, vec!["apple", "mango", "zebra"]);
}

#[test]
fn test_file_stems_empty_returns_empty_vec() {
    let r = AnimationRotator::empty("/t/stems-empty".to_string(), "/t/x".to_string(), 500, false);
    assert!(r.file_stems().is_empty());
}

#[test]
fn select_by_name_found_names_the_file() {
    let mut r = rotator("/t/select-found", &[("bloom.kdl", "content bloom"), ("prism.kdl", "content prism")], 500, false);
    let result = r.select_by_name("prism");
    assert_eq!(result, Some("/t/select-found/prism.kdl".to_string()));
    assert_eq!(r.current_file_stem(), Some("prism".to_string()));
}

#[test]
fn test_select_by_name_not_found() {
    let mut r = rotator("/t/select-notfound", &[("alpha.kdl", "content a")], 500, false);
    assert_eq!(r.select_by_name("nonexistent"), None);
    assert_eq!(r.current_index(), 0);
}

#[test]
fn test_select_by_name_case_insensitive() {
    let mut r = rotator("/t/select-case", &[("MyAnimation.kdl", "content myanim")], 500, false);
    assert!(r.select_by_name("myanimation").is_some());
    assert_eq!(r.current_file_stem(), Some("MyAnimation".to_string()));
    assert!(r.select_by_name("MYANIMATION").is_some());
}

#[test]
fn reselect_after_refresh_steps() {
    let dir = "/t/reselect";
    let mut r = rotator(dir, &ABC, 500, false);
    r.refresh(Ok(scan_dir(dir, &ABC[..2])), None);
    assert_eq!(r.reselect_after_refresh("B"), SelectStep::Apply("/t/reselect/b.kdl".to_string()));
    assert_eq!(stem(&r), "b");
    assert_eq!(r.reselect_after_refresh("c"), SelectStep::Report(false));
    r.refresh(Ok(vec![]), None);
    assert_eq!(r.reselect_after_refresh("c"), SelectStep::Report(false));
}

#[test]
fn test_extensions_not_in_stems() {
    let r = rotator("/t/stem-ext", &[("cool_anim.kdl", "content")], 500, false);
    assert_eq!(r.current_file_stem(), Some("cool_anim".to_string()));
    assert_eq!(r.file_stems(), vec!["cool_anim"]);
}

#[test]
fn test_try_resume_from_target_matches_content() {
    let dir = "/t/resume-match";
    let files = [("alpha.kdl", "content A"), ("beta.kdl", "content B"), ("gamma.kdl", "content C")];
    let r = AnimationRotator::new(
        dir.to_string(),
        "/t/resume-match-target/animation.kdl".to_string(),
        500,
        false,
        Ok(scan_dir(dir, &files)),
        Some(b"content C".to_vec()),
    )
    .ok()
    .unwrap();
    // Without shuffle: order is alpha, beta, gamma — gamma matches, index 2
    assert_eq!(r.current_index(), 2);
    assert_eq!(r.current_file_stem(), Some("gamma".to_string()));
}

#[test]
fn test_try_resume_from_target_no_match() {
    let dir = "/t/resume-nomatch";
    let files = [("alpha.kdl", "content A"), ("beta.kdl", "content B")];
    let r = AnimationRotator::new(
        dir.to_string(),
        "/t/resume-nomatch-target/animation.kdl".to_string(),
        500,
        false,
        Ok(scan_dir(dir, &files)),
        Some(b"unrelated content".to_vec()),
    )
    .ok()
    .unwrap();
    assert_eq!(r.current_index(), 0);
}

#[test]
fn test_try_resume_from_target_missing_file() {
    let dir = "/t/resume-missing";
    let r = AnimationRotator::new(
        dir.to_string(),
        "/t/resume-missing/nonexistent.kdl".to_string(),
        500,
        false,
        Ok(scan_dir(dir, &[("alpha.kdl", "content A")])),
        None,
    )
    .ok()
    .unwrap();
    assert_eq!(r.current_index(), 0);
}

#[test]
fn refresh_resumes_from_target_content() {
    let dir = "/t/refresh-resume";
    let mut r = rotator(dir, &ABC, 500, false);
    r.refresh(Ok(scan_dir(dir, &ABC)), Some(b"content b".to_vec()));
    assert_eq!(stem(&r), "b");
}

#[test]
fn entries_and_settings_are_exposed() {
    let r = rotator("/t/expose", &[("a.kdl", "duration-ms 42")], 500, false);
    assert_eq!(r.animation_dir(), "/t/expose");
    assert_eq!(r.animation_target(), "/t/expose/animation.kdl");
    assert_eq!(r.fallback_duration_ms(), 500);
    assert_eq!(r.files()[0].duration_ms, 42);
    assert_eq!(r.current_path(), Some("/t/expose/a.kdl".to_string()));
}

#[test]
fn one_stem_per_kdl_file() {
    let r = rotator("/t/stems-count", &ABC, 500, true);
    assert_eq!(r.file_stems().len(), r.file_count());
    let current = r.current_file_stem().unwrap();
    assert!(r.file_stems().contains(&current));
}

#[test]
fn selection_keeps_distinct_paths_distinct() {
    let files = AnimationRotator::select_kdl_files(vec![
        "/d/b.kdl".to_string(),
        "/d/a.kdl".to_string(),
        "/d/c.txt".to_string(),
        "/d/a.kdl.old".to_string(),
    ]);
    assert_eq!(files, vec!["/d/a.kdl", "/d/b.kdl"]);
    let mut unique = files.clone();
    unique.dedup();
    assert_eq!(unique.len(), files.len());
}

#[test]
fn refresh_restarts_when_the_active_file_is_gone() {
    let dir = "/t/refresh-gone";
    let mut r = rotator(dir, &ABC, 500, false);
    r.rotate();
    r.rotate();
    assert_eq!(stem(&r), "c");
    r.refresh(Ok(scan_dir(dir, &ABC[..2])), None);
    assert_eq!(r.current_index(), 0);
    assert_eq!(stem(&r), "a");
}

#[test]
fn settings_survive_operations() {
    let dir = "/t/settings";
    let mut r = rotator(dir, &ABC, 700, false);
    r.rotate();
    r.rotate_prev();
    r.select_by_name("b");
    r.refresh(Ok(scan_dir(dir, &ABC[..1])), None);
    r.refresh(Ok(vec![]), None);
    assert_eq!(r.animation_dir(), dir);
    assert_eq!(r.animation_target(), "/t/settings/animation.kdl");
    assert_eq!(r.fallback_duration_ms(), 700);
    assert!(!r.random_order());
}
