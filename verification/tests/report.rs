use catalog_bench::driver::{parse_report, report_texts};
use catalog_bench::json::{Json, Member};
use catalog_bench::measure::Quantity;
use catalog_bench::report::{BenchReport, BenchStatus, Phase};
use catalog_bench::scaffolds::{cache_scan, read_write};
use serde_json::{Number, Value};

fn to_value(j: &Json) -> Value {
    match j {
        Json::Null => Value::Null,
        Json::Bool(b) => Value::Bool(*b),
        Json::Unsigned(n) => Value::from(*n),
        Json::Signed(n) => Value::from(*n),
        Json::Real(Quantity::Double(bits)) => {
            Value::Number(Number::from_f64(f64::from_bits(*bits)).unwrap())
        }
        Json::Real(q) => panic!("{:?}", q),
        Json::Text(s) => Value::from(s.as_str()),
        Json::List(items) => Value::Array(items.iter().map(to_value).collect()),
        Json::Object(members) => {
            let mut map = serde_json::value::Map::new();
            for m in members {
                map.insert(m.key.clone(), to_value(&m.value));
            }
            Value::Object(map)
        }
    }
}

fn from_value(v: &Value) -> Json {
    match v {
        Value::Null => Json::Null,
        Value::Bool(b) => Json::Bool(*b),
        Value::Number(n) => {
            if let Some(u) = n.as_u64() {
                Json::Unsigned(u)
            } else if let Some(i) = n.as_i64() {
                Json::Signed(i)
            } else {
                Json::Real(Quantity::Double(n.as_f64().unwrap().to_bits()))
            }
        }
        Value::String(s) => Json::Text(s.clone()),
        Value::Array(items) => Json::List(items.iter().map(from_value).collect()),
        Value::Object(map) => Json::Object(
            map.iter().map(|(k, v)| Member { key: k.clone(), value: from_value(v) }).collect(),
        ),
    }
}

fn read(text: &str) -> Option<BenchReport> {
    let v: Value = serde_json::from_str(text).unwrap();
    BenchReport::from_document(&from_value(&v))
}

fn double(x: f64) -> Quantity {
    Quantity::Double(x.to_bits())
}

#[test]
fn report_roundtrips() {
    let r = BenchReport::scaffold("x", "todo");
    let back = read(&r.to_json(None)).unwrap();
    assert_eq!(back.status, BenchStatus::Scaffold);

    let pretty = serde_json::to_string_pretty(&to_value(&r.to_document())).unwrap();
    let back = read(&r.to_json(Some(pretty))).unwrap();
    assert_eq!(back.status, BenchStatus::Scaffold);
    assert_eq!(back.name, "x");
    assert_eq!(back.notes, Some("todo".to_string()));
    assert!(back.phases.is_empty());
}

#[test]
fn measured_phases_round_trip() {
    let extra = Json::Object(vec![Member { key: "bytes".to_string(), value: Json::Unsigned(12) }]);
    let r = BenchReport {
        name: "write-data".to_string(),
        status: BenchStatus::Ready,
        phases: vec![
            Phase {
                name: "a".to_string(),
                samples: 3,
                p50_ms: double(1.5),
                p95_ms: double(2.25),
                throughput_per_s: double(100.125),
                extra: Some(extra),
            },
            Phase {
                name: "b".to_string(),
                samples: 0,
                p50_ms: double(0.5),
                p95_ms: double(0.5),
                throughput_per_s: double(0.125),
                extra: None,
            },
        ],
        notes: None,
    };
    let text = serde_json::to_string_pretty(&to_value(&r.to_document())).unwrap();
    assert!(!text.contains("notes"));
    let back = read(&text).unwrap();
    assert_eq!(back.status, BenchStatus::Ready);
    assert_eq!(back.notes, None);
    assert_eq!(back.phases.len(), 2);
    assert_eq!(back.phases[0].name, "a");
    assert_eq!(back.phases[0].samples, 3);
    assert_eq!(back.phases[0].p50_ms, double(1.5));
    assert_eq!(back.phases[0].p95_ms, double(2.25));
    assert_eq!(back.phases[0].throughput_per_s, double(100.125));
    assert!(matches!(&back.phases[0].extra, Some(Json::Object(m))
        if m.len() == 1 && m[0].key == "bytes" && matches!(m[0].value, Json::Unsigned(12))));
    assert!(back.phases[1].extra.is_none());
}

#[test]
fn null_metrics_read_like_missing_ones() {
    let mut r = BenchReport::scaffold("x", "todo");
    let mut p = Phase::from_samples("p", &[], 0);
    p.extra = Some(Json::Null);
    r.phases.push(p);
    let back = BenchReport::from_document(&r.to_document()).unwrap();
    assert!(back.phases[0].extra.is_none());
}

#[test]
fn reports_are_read_leniently_and_strictly() {
    let whole = read("{\"name\":\"x\",\"status\":\"ready\",\"phases\":[],\"other\":1,\"notes\":null}");
    assert_eq!(whole.unwrap().notes, None);
    assert!(read("[\"x\",\"ready\",[]]").is_some());
    assert!(read("[\"x\",{\"scaffold\":null},[],\"n\"]").is_some());
    assert!(read("[\"x\",\"ready\",[],\"n\",1]").is_none());
    assert!(read("[\"x\",\"ready\"]").is_none());
    assert!(read("{\"name\":\"x\",\"status\":\"Ready\",\"phases\":[]}").is_none());
    assert!(read("{\"name\":\"x\",\"status\":\"ready\"}").is_none());
    assert!(read("{\"name\":1,\"status\":\"ready\",\"phases\":[]}").is_none());
    assert!(read("{\"name\":\"x\",\"status\":\"ready\",\"phases\":{}}").is_none());
    assert!(read("{\"name\":\"x\",\"status\":\"ready\",\"phases\":[],\"notes\":2}").is_none());
    assert!(read("3").is_none());
    let phase = "{\"name\":\"p\",\"samples\":1,\"p50_ms\":2,\"p95_ms\":-3,\"throughput_per_s\":0.5}";
    let text = format!("{{\"name\":\"x\",\"status\":\"ready\",\"phases\":[{}]}}", phase);
    let p = &read(&text).unwrap().phases[0];
    assert_eq!(p.p50_ms, Quantity::Whole(2));
    assert_eq!(p.p95_ms, Quantity::Whole(-3));
    assert_eq!(p.throughput_per_s, double(0.5));
    let text = text.replace("\"samples\":1", "\"samples\":-1");
    assert!(read(&text).is_none());
}

#[test]
fn a_member_must_not_be_there_twice() {
    let member = |key: &str, value: Json| Member { key: key.to_string(), value };
    let twice = Json::Object(vec![
        member("name", Json::Text("x".to_string())),
        member("status", Json::Text("ready".to_string())),
        member("phases", Json::List(vec![])),
        member("name", Json::Text("x".to_string())),
    ]);
    assert!(BenchReport::from_document(&twice).is_none());
    let other_twice = Json::Object(vec![
        member("other", Json::Null),
        member("name", Json::Text("x".to_string())),
        member("status", Json::Text("ready".to_string())),
        member("phases", Json::List(vec![])),
        member("other", Json::Null),
    ]);
    assert!(BenchReport::from_document(&other_twice).is_some());
}

#[test]
fn the_last_of_doubled_metrics_counts() {
    let member = |key: &str, value: Json| Member { key: key.to_string(), value };
    let inner = Json::Object(vec![
        member("a", Json::Unsigned(1)),
        member("b", Json::Unsigned(2)),
        member("a", Json::Unsigned(3)),
    ]);
    let extra = Json::Object(vec![
        member("x", Json::Unsigned(1)),
        member("y", Json::List(vec![inner])),
        member("x", Json::Null),
    ]);
    let mut r = BenchReport::scaffold("x", "todo");
    let mut p = Phase::from_samples("p", &[], 0);
    p.extra = Some(extra);
    r.phases.push(p);
    let back = BenchReport::from_document(&r.to_document()).unwrap();
    let text = serde_json::to_string(&to_value(back.phases[0].extra.as_ref().unwrap())).unwrap();
    let want: Value =
        serde_json::from_str("{\"x\": 1, \"y\": [{\"a\": 1, \"b\": 2, \"a\": 3}], \"x\": null}").unwrap();
    assert_eq!(serde_json::from_str::<Value>(&text).unwrap(), want);
    match back.phases[0].extra.as_ref().unwrap() {
        Json::Object(members) => assert_eq!(members.len(), 2),
        other => panic!("{:?}", other),
    }
}

#[test]
fn reports_can_be_cloned() {
    let mut r = BenchReport::scaffold("x", "todo");
    r.phases.push(Phase::from_samples("p", &[4], 1));
    r.phases[0].extra = Some(Json::List(vec![Json::Unsigned(7)]));
    let c = r.clone();
    assert_eq!(format!("{:?}", c), format!("{:?}", r));
}

#[test]
fn the_whole_output_comes_first() {
    let doc = |name: &str| Some(BenchReport::scaffold(name, "n").to_document());
    assert_eq!(parse_report(doc("whole"), doc("brace")).unwrap().name, "whole");
    assert_eq!(parse_report(None, doc("brace")).unwrap().name, "brace");
    assert_eq!(parse_report(Some(Json::Null), doc("brace")).unwrap().name, "brace");
    assert!(parse_report(Some(Json::Null), Some(Json::Null)).is_none());
    assert!(parse_report(None, None).is_none());
}

#[test]
fn stray_lines_do_not_break_the_driver() {
    let object = "{\"name\":\"x\",\"status\":\"scaffold\",\"phases\":[]}";
    let parse = |text: &str| serde_json::from_str::<Value>(text).ok().map(|v| from_value(&v));
    for stdout in [
        format!("{}\ndone\n", object),
        format!("warming up\n{}\n", object),
        format!("warming up\n{}\ndone {{}}\n", object),
        format!("{}\n", object),
    ] {
        let texts = report_texts(&stdout);
        let from_brace = texts.from_brace.as_deref().and_then(parse);
        let r = parse_report(parse(&texts.whole), from_brace).unwrap();
        assert_eq!(r.name, "x");
        assert_eq!(r.status, BenchStatus::Scaffold);
    }
}

#[test]
fn a_report_is_printed_though_it_cannot_be_serialized() {
    let r = BenchReport::scaffold("x", "todo");
    assert_eq!(r.to_json(None), "{\"name\":\"x\",\"status\":\"scaffold\",\"phases\":[]}");
    assert_eq!(r.to_json(Some("{}".to_string())), "{}");
}

#[test]
fn labels_of_the_statuses() {
    assert_eq!(BenchStatus::Ready.label(), "ready");
    assert_eq!(BenchStatus::Scaffold.label(), "scaffold");
}

#[test]
fn phase_of_samples() {
    let p = Phase::from_samples("seq", &[4, 2, 9], 1_000);
    assert_eq!(p.name, "seq");
    assert_eq!(p.samples, 3);
    assert_eq!(p.p50_ms, Quantity::Millis(4));
    assert_eq!(p.p95_ms, Quantity::Millis(9));
    assert!(matches!(p.throughput_per_s, Quantity::PerSecond(r) if r.count == 3 && r.nanos == 1_000));
    assert!(p.extra.is_none());
}

#[test]
fn placeholder_benches_report_what_they_wait_for() {
    let r = cache_scan();
    assert_eq!(r.name, "cache-scan");
    assert_eq!(r.status, BenchStatus::Scaffold);
    assert!(r.phases.is_empty());
    assert_eq!(
        r.notes.unwrap(),
        "Cold vs warm scan via Sail + the Foyer object-store cache. Requires: the Sail foyer cache \
         layer (querygraph/sail branch feat/object-store-foyer-cache) + Sail scan wiring. Phases: \
         cold-scan (S3 miss), warm-scan (Foyer hit), measuring p50/p95 latency + rows/s."
    );
    let r = read_write();
    assert_eq!(r.name, "read-write");
    assert_eq!(r.status, BenchStatus::Scaffold);
    assert!(r.phases.is_empty());
    assert_eq!(
        r.notes.unwrap(),
        "Full INSERT + filtered-scan workload through LakeCat + Sail. Requires: verification of \
         Sail's write path through the LakeCat REST catalog."
    );
}
