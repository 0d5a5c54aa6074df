use npdk::paths::{ends_with_marker, has_component_marker, is_excluded_source, is_noise};
use npdk::watcher::{
    on_build_finished, on_trigger, should_rebuild, EventKind, RebuildState, WatchEvent,
};

fn path(s: &str) -> Vec<u8> {
    s.as_bytes().to_vec()
}

#[test]
fn component_search_respects_boundaries() {
    assert!(has_component_marker(&path("project/dist/out.js"), b"dist"));
    assert!(has_component_marker(&path("dist"), b"dist"));
    assert!(has_component_marker(&path("C:\\proj\\dist\\a.js"), b"dist"));
    assert!(!has_component_marker(&path("project/src/main.ts"), b"dist"));
    assert!(!has_component_marker(&path("src/redistribute.js"), b"dist"));
    assert!(!has_component_marker(&path("distance/a.js"), b"dist"));
    assert!(!has_component_marker(&path("dis"), b"dist"));
    assert!(!has_component_marker(&path("anything"), b""));
}

#[test]
fn suffix_search_matches_exact_end() {
    assert!(ends_with_marker(&path("demo.notex.plugin"), b".notex.plugin"));
    assert!(ends_with_marker(&path("./out/demo.notex.plugin"), b".notex.plugin"));
    assert!(!ends_with_marker(&path("demo.notex.plugin.bak"), b".notex.plugin"));
    assert!(!ends_with_marker(&path("plugin"), b".notex.plugin"));
}

#[test]
fn noise_paths_are_recognized() {
    assert!(is_noise(&path("./dist/bundle.js")));
    assert!(is_noise(&path("./node_modules/react/index.js")));
    assert!(is_noise(&path("./demo.notex.plugin")));
    assert!(!is_noise(&path("./src/index.tsx")));
    assert!(!is_noise(&path("./src/redistribute.js")));
    assert!(!is_noise(&path("./distance/metrics.ts")));
    assert!(!is_noise(&path("./src/node_modules_doc.md")));
}

#[test]
fn walker_exclusion_marker_is_recognized() {
    assert!(is_excluded_source(&path("./dist/@mf-types/types.d.ts")));
    assert!(!is_excluded_source(&path("./dist/index.js")));
    assert!(!is_excluded_source(&path("./src/x@mf-types.d.ts")));
}

#[test]
fn batch_under_build_output_does_not_trigger() {
    let batch = vec![
        WatchEvent { kind: EventKind::Modify, paths: vec![path("./dist/a.js")] },
        WatchEvent {
            kind: EventKind::Create,
            paths: vec![path("./node_modules/x.js"), path("./demo.notex.plugin")],
        },
    ];
    assert!(!should_rebuild(&batch));
}

#[test]
fn source_modification_triggers_rebuild() {
    let batch = vec![
        WatchEvent { kind: EventKind::Modify, paths: vec![path("./dist/a.js")] },
        WatchEvent { kind: EventKind::Modify, paths: vec![path("./src/index.tsx")] },
    ];
    assert!(should_rebuild(&batch));
}

#[test]
fn source_file_whose_name_contains_a_marker_still_triggers() {
    let batch = vec![WatchEvent {
        kind: EventKind::Modify,
        paths: vec![path("./src/redistribute.js")],
    }];
    assert!(should_rebuild(&batch));
}

#[test]
fn pure_access_events_do_not_trigger() {
    let batch = vec![WatchEvent { kind: EventKind::Access, paths: vec![path("./src/a.ts")] }];
    assert!(!should_rebuild(&batch));
}

#[test]
fn access_to_source_with_modify_of_noise_does_not_trigger() {
    let batch = vec![
        WatchEvent { kind: EventKind::Access, paths: vec![path("./src/a.ts")] },
        WatchEvent { kind: EventKind::Modify, paths: vec![path("./dist/a.js")] },
    ];
    assert!(!should_rebuild(&batch));
}

#[test]
fn empty_batch_does_not_trigger() {
    assert!(!should_rebuild(&Vec::new()));
}

#[test]
fn trigger_from_idle_starts_exactly_one_build() {
    let (s, start) = on_trigger(RebuildState::Idle);
    assert_eq!(s, RebuildState::Building);
    assert!(start);
}

#[test]
fn triggers_during_build_coalesce_into_one_followup() {
    // a build is running; three triggers arrive
    let (s1, b1) = on_trigger(RebuildState::Building);
    let (s2, b2) = on_trigger(s1);
    let (s3, b3) = on_trigger(s2);
    assert!(!b1 && !b2 && !b3);
    assert_eq!(s3, RebuildState::BuildingQueued);
    // the running build finishes with success: repack once, rebuild once
    let (s4, pack, follow_up) = on_build_finished(s3, true);
    assert_eq!(s4, RebuildState::Building);
    assert!(pack);
    assert!(follow_up);
    // the follow-up finishes with nothing queued: back to idle
    let (s5, pack2, follow_up2) = on_build_finished(s4, true);
    assert_eq!(s5, RebuildState::Idle);
    assert!(pack2);
    assert!(!follow_up2);
}

#[test]
fn failed_build_reports_and_returns_to_idle_without_pack() {
    let (s, start) = on_trigger(RebuildState::Idle);
    assert!(start);
    let (s2, pack, follow_up) = on_build_finished(s, false);
    assert_eq!(s2, RebuildState::Idle);
    assert!(!pack);
    assert!(!follow_up);
}
