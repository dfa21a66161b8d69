use stopwatch::context::FiberId;
use stopwatch::event::{Event, Phase};
use stopwatch::profiler::{Profiler, Stopwatch};

const TID: usize = 7;

fn fiber(handle: u64) -> FiberId {
    FiberId { handle }
}

fn phases(events: &[Event]) -> Vec<(String, Phase)> {
    events.iter().map(|e| (e.name.clone(), e.ph)).collect()
}

fn pair(name: &str, ph: Phase) -> (String, Phase) {
    (name.to_string(), ph)
}

/// Scenario A followed by Scenarios B and C, all on thread `TID`.
fn scenarios_a_to_c() -> Profiler {
    let mut p = Profiler::new();
    let load = Stopwatch::new(&mut p, TID, "load", 100);
    let parse = Stopwatch::new(&mut p, TID, "parse", 110);
    parse.stop(&mut p, 120);
    load.stop(&mut p, 130);
    p.begin_scope(TID, "load", 200);
    p.switch_context(TID, fiber(0), fiber(1), 210, 211);
    p.switch_context(TID, fiber(1), fiber(0), 300, 301);
    p
}

#[test]
fn nested_scopes_emit_brackets_in_order() {
    let mut p = Profiler::new();
    p.begin_scope(TID, "load", 10);
    p.begin_scope(TID, "parse", 11);
    assert_eq!(p.live_names(TID), vec!["load".to_string(), "parse".to_string()]);
    p.end_scope(TID, "parse", 12);
    p.end_scope(TID, "load", 13);
    let events = p.snapshot();
    assert_eq!(
        phases(&events),
        vec![
            pair("load", Phase::Begin),
            pair("parse", Phase::Begin),
            pair("parse", Phase::End),
            pair("load", Phase::End),
        ]
    );
    assert_eq!(events.iter().map(|e| e.ts).collect::<Vec<i64>>(), vec![10, 11, 12, 13]);
    assert!(events.iter().all(|e| e.tid == TID && e.pid == 0 && e.cat.is_empty()));
    assert!(p.live_names(TID).is_empty());
}

#[test]
fn switching_out_closes_snapshot_but_keeps_scope() {
    let mut p = Profiler::new();
    p.begin_scope(TID, "load", 10);
    p.switch_context(TID, fiber(0), fiber(1), 20, 21);
    let events = p.snapshot();
    assert_eq!(phases(&events), vec![pair("load", Phase::Begin), pair("load", Phase::End)]);
    assert_eq!(events[1].ts, 20);
    assert_eq!(p.saved_names(fiber(0)), Some(vec!["load".to_string()]));
    assert_eq!(p.saved_names(fiber(1)), None);
    assert!(p.live_names(TID).is_empty());
    assert_eq!(p.innermost(TID), None);
}

#[test]
fn switching_back_reopens_saved_scope() {
    let mut p = Profiler::new();
    p.begin_scope(TID, "load", 10);
    p.switch_context(TID, fiber(0), fiber(1), 20, 21);
    p.switch_context(TID, fiber(1), fiber(0), 30, 31);
    let events = p.snapshot();
    assert_eq!(
        phases(&events),
        vec![pair("load", Phase::Begin), pair("load", Phase::End), pair("load", Phase::Begin)]
    );
    assert_eq!(events[2].ts, 31);
    assert_eq!(p.live_names(TID), vec!["load".to_string()]);
    assert_eq!(p.innermost(TID), Some("load".to_string()));
    assert_eq!(p.saved_names(fiber(1)), Some(Vec::new()));
    assert_eq!(p.saved_names(fiber(0)), None);
    p.end_scope(TID, "load", 40);
    assert_eq!(p.snapshot()[3].ph, Phase::End);
    assert_eq!(p.snapshot()[3].ts, 40);
}

#[test]
fn snapshot_after_scenarios_keeps_emission_order() {
    let p = scenarios_a_to_c();
    let events = p.snapshot();
    assert_eq!(
        phases(&events),
        vec![
            pair("load", Phase::Begin),
            pair("parse", Phase::Begin),
            pair("parse", Phase::End),
            pair("load", Phase::End),
            pair("load", Phase::Begin),
            pair("load", Phase::End),
            pair("load", Phase::Begin),
        ]
    );
    let mut records = Vec::new();
    for e in &events {
        let mut m = serde_json::Map::new();
        m.insert("name".to_string(), serde_json::Value::from(e.name.clone()));
        m.insert("cat".to_string(), serde_json::Value::from(e.cat.clone()));
        m.insert("ph".to_string(), serde_json::Value::from(e.ph.code()));
        m.insert("ts".to_string(), serde_json::Value::from(e.ts));
        m.insert("pid".to_string(), serde_json::Value::from(e.pid));
        m.insert("tid".to_string(), serde_json::Value::from(e.tid));
        records.push(serde_json::Value::Object(m));
    }
    let text = serde_json::to_string(&serde_json::Value::Array(records)).unwrap();
    let parsed: serde_json::Value = serde_json::from_str(&text).unwrap();
    let array = parsed.as_array().unwrap();
    assert_eq!(array.len(), 7);
    let codes: Vec<&str> = array.iter().map(|r| r["ph"].as_str().unwrap()).collect();
    assert_eq!(codes, vec!["B", "B", "E", "E", "B", "E", "B"]);
    let names: Vec<&str> = array.iter().map(|r| r["name"].as_str().unwrap()).collect();
    assert_eq!(names, vec!["load", "parse", "parse", "load", "load", "load", "load"]);
    assert_eq!(array[6]["ts"].as_i64(), Some(301));
}

#[test]
fn round_trip_restores_scope_stack() {
    let mut p = Profiler::new();
    p.begin_scope(TID, "frame", 1);
    p.begin_scope(TID, "update", 2);
    p.begin_scope(TID, "physics", 3);
    let before = p.live_names(TID);
    p.switch_context(TID, fiber(10), fiber(20), 4, 5);
    p.switch_context(TID, fiber(20), fiber(10), 6, 7);
    assert_eq!(p.live_names(TID), before);
    let events = p.snapshot();
    assert_eq!(
        phases(&events[3..]),
        vec![
            pair("physics", Phase::End),
            pair("update", Phase::End),
            pair("frame", Phase::End),
            pair("frame", Phase::Begin),
            pair("update", Phase::Begin),
            pair("physics", Phase::Begin),
        ]
    );
}

#[test]
fn unseen_fiber_starts_empty_without_begins() {
    let mut p = Profiler::new();
    p.begin_scope(TID, "a", 1);
    p.begin_scope(TID, "b", 2);
    p.switch_context(TID, fiber(1), fiber(99), 3, 4);
    assert!(p.live_names(TID).is_empty());
    let events = p.snapshot();
    assert_eq!(events.len(), 4);
    assert!(events[2..].iter().all(|e| e.ph == Phase::End));
}

#[test]
fn brackets_stay_well_nested_per_thread() {
    let mut p = Profiler::new();
    p.begin_scope(1, "t1-outer", 10);
    p.begin_scope(2, "t2-outer", 11);
    p.begin_scope(1, "t1-inner", 12);
    p.switch_context(2, fiber(5), fiber(6), 13, 14);
    p.end_scope(1, "t1-inner", 15);
    p.switch_context(1, fiber(7), fiber(5), 16, 17);
    p.end_scope(1, "t2-outer", 18);
    for tid in [1usize, 2] {
        let mut open: Vec<(String, i64)> = Vec::new();
        for e in p.snapshot().iter().filter(|e| e.tid == tid) {
            match e.ph {
                Phase::Begin => open.push((e.name.clone(), e.ts)),
                Phase::End => {
                    let (name, ts) = open.pop().unwrap();
                    assert_eq!(name, e.name);
                    assert!(e.ts >= ts);
                }
            }
        }
    }
    assert_eq!(p.saved_names(fiber(7)), Some(vec!["t1-outer".to_string()]));
}

#[test]
fn stamps_are_checked_per_thread() {
    let mut p = Profiler::new();
    assert_eq!(p.latest_stamp(3), None);
    assert!(p.admits_stamp(3, -5));
    p.begin_scope(3, "x", 50);
    p.begin_scope(4, "y", 10);
    assert_eq!(p.latest_stamp(3), Some(50));
    assert_eq!(p.latest_stamp(4), Some(10));
    assert!(p.admits_stamp(3, 50));
    assert!(!p.admits_stamp(3, 49));
    assert!(p.admits_stamp(4, 20));
    assert_eq!(p.event_count(), 2);
}

#[test]
fn budgeted_stopwatch_behaves_like_plain_one() {
    let mut p = Profiler::new();
    let w = Stopwatch::with_budget(&mut p, TID, "render", std::time::Duration::from_millis(16), 5);
    assert_eq!(p.innermost(TID), Some("render".to_string()));
    w.stop(&mut p, 9);
    assert_eq!(phases(&p.snapshot()), vec![pair("render", Phase::Begin), pair("render", Phase::End)]);
}

#[test]
fn phase_codes() {
    assert_eq!(Phase::Begin.code(), "B");
    assert_eq!(Phase::End.code(), "E");
}
