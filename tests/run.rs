use aircheq_podcast::matcher::Candidate;
use aircheq_podcast::pipeline::{Outcome, Pipeline, PublishError};
use aircheq_podcast::publisher::{PublishMethod, PublishPlan};

fn cand(path: &str, name: &str, created: u64) -> Candidate {
    Candidate { path: path.to_string(), file_name: name.to_string(), created }
}

fn queries(q: &[&str]) -> Vec<String> {
    q.iter().map(|s| s.to_string()).collect()
}

/// Drives a run, publishing each plan successfully, and returns the plans.
fn drive(p: &mut Pipeline, entries: &Vec<Candidate>) -> Vec<PublishPlan> {
    let mut plans = Vec::new();
    while !p.is_done() {
        if let Some(plan) = p.next_query(entries) {
            plans.push(plan);
            assert!(p.record(Ok(())));
        }
    }
    plans
}

fn feed_text(p: &Pipeline) -> String {
    String::from_utf8(p.feed_document().unwrap()).unwrap()
}

#[test]
fn scenario_latest_of_two() {
    let entries = vec![
        cand("/rec/show_a_2020.mp4", "show_a_2020.mp4", 1577836800),
        cand("/rec/show_a_2023.mp4", "show_a_2023.mp4", 1672531200),
    ];
    let mut p = Pipeline::new(queries(&["show_a"]), "http://127.0.0.1/");
    let plans = drive(&mut p, &entries);
    assert_eq!(plans.len(), 1);
    assert_eq!(plans[0].source, "/rec/show_a_2023.mp4");
    assert_eq!(plans[0].dest_name, "show_a_2023.mp4");
    assert_eq!(plans[0].method, PublishMethod::Copy);
    let doc = feed_text(&p);
    assert_eq!(doc.matches("<item>").count(), 1);
    assert!(doc.contains("<link>http://127.0.0.1/show_a_2023.mp4</link>"));
    assert!(!doc.contains("show_a_2020"));
}

#[test]
fn scenario_missing_query_continues() {
    let entries = vec![cand("/rec/show_b.m4a", "show_b.m4a", 5)];
    let mut p = Pipeline::new(queries(&["missing_show", "show_b"]), "http://127.0.0.1/");
    let plans = drive(&mut p, &entries);
    assert_eq!(plans.len(), 1);
    assert_eq!(plans[0].dest_name, "show_b.m4a");
    let r = p.reports_so_far();
    assert_eq!(r.len(), 2);
    assert_eq!(r[0].query, "missing_show");
    assert!(matches!(r[0].outcome, Outcome::NoMatch));
    assert!(matches!(&r[1].outcome, Outcome::Fed { file_name, .. } if file_name == "show_b.m4a"));
    let doc = feed_text(&p);
    assert_eq!(doc.matches("<item>").count(), 1);
}

#[test]
fn scenario_m2ts_converted() {
    let entries = vec![cand("/rec/rec.m2ts", "rec.m2ts", 3)];
    let mut p = Pipeline::new(queries(&["rec"]), "http://127.0.0.1/");
    let plans = drive(&mut p, &entries);
    assert_eq!(plans.len(), 1);
    assert_eq!(plans[0].method, PublishMethod::Convert);
    assert_eq!(plans[0].dest_name, "rec.mp4");
    let doc = feed_text(&p);
    assert!(doc.contains("<title>rec.mp4</title>"));
    assert!(doc.contains("<link>http://127.0.0.1/rec.mp4</link>"));
}

#[test]
fn scenario_two_queries_same_file() {
    let entries = vec![cand("/rec/show_ab.mp4", "show_ab.mp4", 3)];
    let mut p = Pipeline::new(queries(&["show_a", "ab"]), "http://127.0.0.1/");
    let plans = drive(&mut p, &entries);
    assert_eq!(plans.len(), 2);
    assert_eq!(plans[0].source, plans[1].source);
    let doc = feed_text(&p);
    assert_eq!(doc.matches("<link>http://127.0.0.1/show_ab.mp4</link>").count(), 2);
}

#[test]
fn failed_publish_is_skipped() {
    let entries = vec![cand("/rec/a.m2ts", "a.m2ts", 1), cand("/rec/b.flv", "b.flv", 2)];
    let mut p = Pipeline::new(queries(&["a.", "b."]), "http://127.0.0.1/");
    let plan = p.next_query(&entries).unwrap();
    assert_eq!(plan.method, PublishMethod::Convert);
    assert!(!p.record(Err(PublishError::Conversion)));
    let plan = p.next_query(&entries).unwrap();
    assert_eq!(plan.dest_name, "b.flv");
    assert!(p.record(Ok(())));
    assert!(p.is_done());
    let r = p.reports_so_far();
    assert!(matches!(r[0].outcome, Outcome::PublishFailed(PublishError::Conversion)));
    let doc = feed_text(&p);
    assert_eq!(doc.matches("<item>").count(), 1);
    assert!(!doc.contains("a.mp4"));
}

#[test]
fn copy_and_ownership_failures_reported() {
    let entries = vec![cand("/rec/a.aac", "a.aac", 1)];
    let mut p = Pipeline::new(queries(&["a", "a"]), "http://127.0.0.1/");
    p.next_query(&entries).unwrap();
    assert!(!p.record(Err(PublishError::Copy)));
    p.next_query(&entries).unwrap();
    assert!(!p.record(Err(PublishError::Ownership)));
    let r = p.reports_so_far();
    assert!(matches!(r[0].outcome, Outcome::PublishFailed(PublishError::Copy)));
    assert!(matches!(r[1].outcome, Outcome::PublishFailed(PublishError::Ownership)));
    assert!(!feed_text(&p).contains("<item>"));
}

#[test]
fn bad_root_gives_link_failure() {
    let entries = vec![cand("/rec/a.aac", "a.aac", 1)];
    let mut p = Pipeline::new(queries(&["a"]), "relative/only");
    p.next_query(&entries).unwrap();
    assert!(!p.record(Ok(())));
    assert!(matches!(p.reports_so_far()[0].outcome, Outcome::LinkFailed));
}

#[test]
fn no_queries_is_done_at_once() {
    let p = Pipeline::new(Vec::new(), "http://127.0.0.1/");
    assert!(p.is_done());
    assert!(!feed_text(&p).contains("<item>"));
}
