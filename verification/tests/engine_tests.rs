use directory_spider::engine::{Engine, FileOutcome, TargetKind, TargetOutcome};
use directory_spider::record::ExtractionError;
use directory_spider::filter::FilterSpec;
use directory_spider::record::MetaSnapshot;
use directory_spider::timefmt::TimeStamp;

fn strings(v: &[&str]) -> Vec<String> {
    v.iter().map(|s| s.to_string()).collect()
}

fn ok_meta(size: u64) -> Result<MetaSnapshot, ExtractionError> {
    Ok(MetaSnapshot {
        size,
        created: TimeStamp::Unavailable,
        accessed: TimeStamp::Unavailable,
        modified: TimeStamp::Unavailable,
        read_only: false,
    })
}

fn offer(engine: &mut Engine, out: &mut String, path: &str, meta: Result<MetaSnapshot, ExtractionError>) -> (bool, bool) {
    match engine.offer_file(&path.to_string(), &meta) {
        FileOutcome::Filtered => (false, false),
        FileOutcome::MetadataFailed => (false, false),
        FileOutcome::Written(chunk, follow) => {
            out.push_str(&chunk);
            (true, follow)
        }
    }
}

#[test]
fn scenario_include_txt() {
    let filter = FilterSpec::new(strings(&["txt"]), Vec::new());
    let (mut engine, mut out) = Engine::new("/data".to_string(), filter, false);
    let root = engine.next_root().expect("the configured root is queued");
    assert_eq!(root, "/data");
    assert!(engine.should_descend(&root));
    offer(&mut engine, &mut out, "/data/a.txt", ok_meta(1));
    offer(&mut engine, &mut out, "/data/b.log", ok_meta(2));
    engine.mark_visited(&root);
    assert!(engine.next_root().is_none());
    out.push_str(&engine.finalize());
    assert_eq!(engine.count(), 1);
    let v: serde_json::Value = serde_json::from_str(&out).expect("must parse");
    let arr = v.as_array().expect("top level must be an array");
    assert_eq!(arr.len(), 1);
    assert_eq!(arr[0]["name"], serde_json::Value::String("a.txt".to_string()));
}

#[test]
fn scenario_exclude_txt() {
    let filter = FilterSpec::new(Vec::new(), strings(&["txt"]));
    let (mut engine, mut out) = Engine::new("/data".to_string(), filter, false);
    let root = engine.next_root().expect("the configured root is queued");
    offer(&mut engine, &mut out, "/data/a.txt", ok_meta(1));
    engine.mark_visited(&root);
    out.push_str(&engine.finalize());
    assert_eq!(engine.count(), 0);
    assert_eq!(out, "[]");
}

#[test]
fn scenario_shortcut_to_outside_directory() {
    let filter = FilterSpec::new(Vec::new(), Vec::new());
    let (mut engine, mut out) = Engine::new("/data".to_string(), filter, true);
    let root = engine.next_root().expect("root");
    let (written, follow) = offer(&mut engine, &mut out, "/data/sub.lnk", ok_meta(5));
    assert!(written);
    assert!(follow, "a .lnk entry must be offered for resolution");
    // The shortcut resolves to a directory outside the configured root.
    let act = engine.offer_shortcut_target(&"/other".to_string(), TargetKind::Directory, true);
    assert_eq!(act, TargetOutcome::Enqueued);
    engine.mark_visited(&root);
    // The new root is walked in turn.
    let second = engine.next_root().expect("the shortcut target was enqueued");
    assert_eq!(second, "/other");
    assert!(engine.should_descend(&second));
    let (_, follow_back) = offer(&mut engine, &mut out, "/other/x.txt", ok_meta(7));
    assert!(!follow_back);
    // A shortcut pointing back under the original root is not followed.
    let back = engine.offer_shortcut_target(&"/data".to_string(), TargetKind::Directory, true);
    assert_eq!(back, TargetOutcome::Ignored);
    let back_deep = engine.offer_shortcut_target(&"/data/sub".to_string(), TargetKind::Directory, true);
    assert_eq!(back_deep, TargetOutcome::Ignored);
    engine.mark_visited(&second);
    assert!(engine.next_root().is_none());
    out.push_str(&engine.finalize());
    assert_eq!(engine.count(), 2);
    let v: serde_json::Value = serde_json::from_str(&out).expect("must parse");
    let arr = v.as_array().expect("array");
    assert_eq!(arr.len(), 2);
    assert_eq!(arr[0]["name"], serde_json::Value::String("sub.lnk".to_string()));
    assert_eq!(arr[1]["name"], serde_json::Value::String("x.txt".to_string()));
}

#[test]
fn scenario_shortcut_cycle_terminates() {
    // Two shortcuts lead to the same outside directory; it is walked once,
    // and the queue still drains.
    let filter = FilterSpec::new(Vec::new(), Vec::new());
    let (mut engine, mut out) = Engine::new("/a".to_string(), filter, true);
    let root = engine.next_root().expect("root");
    offer(&mut engine, &mut out, "/a/one.lnk", ok_meta(1));
    assert_eq!(
        engine.offer_shortcut_target(&"/b".to_string(), TargetKind::Directory, true),
        TargetOutcome::Enqueued
    );
    offer(&mut engine, &mut out, "/a/two.lnk", ok_meta(2));
    assert_eq!(
        engine.offer_shortcut_target(&"/b".to_string(), TargetKind::Directory, true),
        TargetOutcome::Enqueued
    );
    engine.mark_visited(&root);
    let mut walked: Vec<String> = Vec::new();
    let mut rounds = 0;
    while let Some(r) = engine.next_root() {
        rounds += 1;
        assert!(rounds <= 2, "the queue must drain");
        if engine.should_descend(&r) {
            walked.push(r.clone());
            offer(&mut engine, &mut out, "/b/inner.txt", ok_meta(3));
            engine.mark_visited(&r);
        }
    }
    assert_eq!(walked, vec!["/b".to_string()], "each root is walked at most once");
    out.push_str(&engine.finalize());
    assert_eq!(engine.count(), 3);
}

#[test]
fn scenario_shortcut_file_target() {
    let filter = FilterSpec::new(Vec::new(), Vec::new());
    let (mut engine, mut out) = Engine::new("/data".to_string(), filter, true);
    let _root = engine.next_root().expect("root");
    offer(&mut engine, &mut out, "/data/doc.lnk", ok_meta(1));
    // A file target outside the root subtree is reported...
    let act = engine.offer_shortcut_target(&"/other/doc.pdf".to_string(), TargetKind::File, true);
    assert_eq!(act, TargetOutcome::WantsMetadata);
    let chunk = engine
        .offer_target_file(&"/other/doc.pdf".to_string(), &ok_meta(9))
        .expect("readable target is appended");
    out.push_str(&chunk);
    // ...but one inside it is not re-reported, and a missing one is dropped.
    let inside = engine.offer_shortcut_target(&"/data/here.pdf".to_string(), TargetKind::File, true);
    assert_eq!(inside, TargetOutcome::Ignored);
    let stale = engine.offer_shortcut_target(&"/gone.pdf".to_string(), TargetKind::File, false);
    assert_eq!(stale, TargetOutcome::Ignored);
    out.push_str(&engine.finalize());
    assert_eq!(engine.count(), 2);
    let v: serde_json::Value = serde_json::from_str(&out).expect("must parse");
    assert_eq!(v.as_array().expect("array").len(), 2);
}

#[test]
fn scenario_one_unreadable_entry() {
    let filter = FilterSpec::new(Vec::new(), Vec::new());
    let (mut engine, mut out) = Engine::new("/data".to_string(), filter, false);
    let root = engine.next_root().expect("root");
    offer(&mut engine, &mut out, "/data/good1.txt", ok_meta(1));
    let (written, _) = offer(&mut engine, &mut out, "/data/bad.txt", Err(ExtractionError::Unreadable));
    assert!(!written);
    offer(&mut engine, &mut out, "/data/good2.txt", ok_meta(2));
    engine.mark_visited(&root);
    out.push_str(&engine.finalize());
    assert_eq!(engine.count(), 2, "the failed entry is not counted");
    let v: serde_json::Value = serde_json::from_str(&out).expect("run must still finalize");
    let arr = v.as_array().expect("array");
    assert_eq!(arr.len(), 2);
    assert_eq!(arr[0]["name"], serde_json::Value::String("good1.txt".to_string()));
    assert_eq!(arr[1]["name"], serde_json::Value::String("good2.txt".to_string()));
}

#[test]
fn filtered_and_failed_entries_leave_no_trace() {
    let filter = FilterSpec::new(strings(&["txt"]), Vec::new());
    let (mut engine, mut out) = Engine::new("/d".to_string(), filter, false);
    let root = engine.next_root().expect("root");
    match engine.offer_file(&"/d/skip.log".to_string(), &ok_meta(4)) {
        FileOutcome::Filtered => {}
        _ => panic!("a .log entry must be filtered"),
    }
    match engine.offer_file(&"/d/bad.txt".to_string(), &Err(ExtractionError::Unreadable)) {
        FileOutcome::MetadataFailed => {}
        _ => panic!("an unreadable kept entry must fail alone"),
    }
    engine.mark_visited(&root);
    out.push_str(&engine.finalize());
    assert_eq!(out, "[]");
    assert_eq!(engine.count(), 0);
}
