use catalog_bench::catalog::{
    commit_reply, created, found_uuid, loaded, refusal, table_uuid, Catalog, CommitReply,
    LoadError, Method, Request, Step, Workload, CONFLICT,
};
use catalog_bench::json::Json;
use serde_json::Value;

fn to_value(j: &Json) -> Value {
    match j {
        Json::Null => Value::Null,
        Json::Bool(b) => Value::Bool(*b),
        Json::Unsigned(n) => Value::from(*n),
        Json::Signed(n) => Value::from(*n),
        Json::Real(q) => panic!("{:?}", q),
        Json::Text(s) => Value::from(s.as_str()),
        Json::List(items) => Value::Array(items.iter().map(to_value).collect()),
        Json::Object(members) => {
            let mut map = serde_json::value::Map::new();
            for m in members {
                map.insert(m.key.clone(), to_value(&m.value));
            }
            Value::Object(map)
        }
    }
}

fn body(r: &Request) -> Value {
    to_value(r.body.as_ref().unwrap())
}

fn parsed(text: &str) -> Value {
    serde_json::from_str(text).unwrap()
}

fn catalog(base: &str, prefix: &str) -> Catalog {
    Catalog {
        base_url: base.to_string(),
        prefix: prefix.to_string(),
        token: None,
        commit_suffix: String::new(),
        location: None,
    }
}

#[test]
fn urls_of_a_catalog() {
    let c = catalog("http://h/catalog", "");
    assert_eq!(c.scoped("x"), "http://h/catalog/v1/x");
    assert_eq!(c.namespaces_path(), "http://h/catalog/v1/namespaces");
    assert_eq!(c.tables_path("ns"), "http://h/catalog/v1/namespaces/ns/tables");
    assert_eq!(c.table_path("ns", "t"), "http://h/catalog/v1/namespaces/ns/tables/t");
    let c = catalog("http://h/iceberg///", "main");
    assert_eq!(c.scoped("x"), "http://h/iceberg/v1/main/x");
    assert_eq!(catalog("http://h/iceberg", "main").scoped("x"), c.scoped("x"));
}

#[test]
fn creating_a_namespace() {
    let mut c = catalog("http://h", "p");
    c.token = Some("secret".to_string());
    let r = c.create_namespace("ns");
    assert_eq!(r.method, Method::Post);
    assert_eq!(r.url, "http://h/v1/p/namespaces");
    assert_eq!(r.bearer, Some("secret".to_string()));
    assert_eq!(r.idempotency_key, None);
    assert_eq!(body(&r), parsed("{\"namespace\": [\"ns\"], \"properties\": {}}"));
}

#[test]
fn creating_a_table() {
    let mut c = catalog("http://h", "");
    let r = c.create_table("ns", "t", Workload::Commit);
    assert_eq!(r.method, Method::Post);
    assert_eq!(r.url, "http://h/v1/namespaces/ns/tables");
    assert_eq!(r.bearer, None);
    assert_eq!(
        body(&r),
        parsed(
            "{\"name\": \"t\", \"schema\": {\"type\": \"struct\", \"schema-id\": 0, \"fields\": [
                {\"id\": 1, \"name\": \"id\", \"required\": false, \"type\": \"long\"}]},
              \"properties\": {\"bench.counter\": \"0\"}, \"stage-create\": false}"
        )
    );
    c.location = Some("s3://warehouse/lakecat".to_string());
    let r = c.create_table("ns", "t", Workload::WriteData);
    assert_eq!(
        body(&r),
        parsed(
            "{\"name\": \"t\", \"schema\": {\"type\": \"struct\", \"schema-id\": 0, \"fields\": [
                {\"id\": 1, \"name\": \"id\", \"required\": false, \"type\": \"long\"},
                {\"id\": 2, \"name\": \"name\", \"required\": false, \"type\": \"string\"},
                {\"id\": 3, \"name\": \"value\", \"required\": false, \"type\": \"double\"}]},
              \"properties\": {\"bench.files\": \"0\"}, \"stage-create\": false,
              \"location\": \"s3://warehouse/lakecat\"}"
        )
    );
}

#[test]
fn loading_a_table() {
    let r = catalog("http://h/", "").load_table("ns", "t");
    assert_eq!(r.method, Method::Get);
    assert_eq!(r.url, "http://h/v1/namespaces/ns/tables/t");
    assert!(r.body.is_none());
    assert_eq!(r.idempotency_key, None);
}

#[test]
fn committing_a_counter() {
    let mut c = catalog("http://h", "");
    c.commit_suffix = "/commit".to_string();
    let r = c.commit("ns", "t", "u-1", 1_000_007, true);
    assert_eq!(r.method, Method::Post);
    assert_eq!(r.url, "http://h/v1/namespaces/ns/tables/t/commit");
    assert_eq!(r.idempotency_key, Some("bench-u-1-1000007".to_string()));
    assert_eq!(
        body(&r),
        parsed(
            "{\"requirements\": [{\"type\": \"assert-table-uuid\", \"uuid\": \"u-1\"}],
              \"updates\": [{\"action\": \"set-properties\",
                             \"updates\": {\"bench.counter\": \"1000007\"}}]}"
        )
    );
    assert_eq!(c.commit("ns", "t", "u-1", 0, false).idempotency_key, None);
    let other = c.commit("ns", "t", "u-1", 1_000_008, true);
    assert_ne!(other.idempotency_key, r.idempotency_key);
}

#[test]
fn committing_a_file() {
    let mut c = catalog("http://h", "");
    c.commit_suffix = "/commit".to_string();
    let r = c.commit_file("ns", "t", "u", 3, "s3://b/f");
    assert_eq!(r.url, "http://h/v1/namespaces/ns/tables/t");
    assert_eq!(r.idempotency_key, None);
    assert_eq!(
        body(&r),
        parsed(
            "{\"requirements\": [{\"type\": \"assert-table-uuid\", \"uuid\": \"u\"}],
              \"updates\": [{\"action\": \"set-properties\",
                             \"updates\": {\"bench.files\": \"3\", \"bench.last_file\": \"s3://b/f\"}}]}"
        )
    );
}

#[test]
fn meaning_of_a_status() {
    for status in 0u16..1000 {
        let ok = (200..300).contains(&status);
        assert_eq!(loaded(status), ok);
        assert_eq!(created(status), ok || status == 409);
        let want = if ok {
            CommitReply::Committed
        } else if status == CONFLICT {
            CommitReply::Conflict
        } else {
            CommitReply::Failed
        };
        assert_eq!(commit_reply(status), want);
    }
}

#[test]
fn messages_about_refusals() {
    assert_eq!(
        refusal(Step::CreateNamespace, "500 Internal Server Error", "x"),
        "create namespace failed: 500 Internal Server Error x"
    );
    assert_eq!(refusal(Step::CreateTable, "404 Not Found", ""), "create table failed: 404 Not Found ");
    assert_eq!(refusal(Step::LoadTable, "401 Unauthorized", "no"), "loadTable failed: 401 Unauthorized no");
    assert_eq!(refusal(Step::Commit, "500", "no"), "commit failed: 500 no");
}

#[test]
fn the_uuid_of_a_table() {
    let ok = table_uuid(b"{\"metadata\": {\"table-uuid\": \"abc-1\"}, \"x\": 1}");
    assert_eq!(ok.unwrap(), "abc-1");
    let escaped = table_uuid(b"{\"metadata\": {\"table-uuid\": \"a\\u0041\"}}");
    assert_eq!(escaped.unwrap(), "aA");
    for missing in [
        &b"{}"[..],
        b"{\"metadata\": {}}",
        b"{\"metadata\": {\"table-uuid\": 7}}",
        b"{\"table-uuid\": \"x\"}",
        b"[]",
    ] {
        let e = table_uuid(missing).unwrap_err();
        assert!(matches!(e, LoadError::MissingUuid));
        assert_eq!(e.message(), Some("response missing metadata.table-uuid".to_string()));
    }
    for broken in [&b""[..], b"{", b"not json", b"{} {}"] {
        let e = table_uuid(broken).unwrap_err();
        assert!(matches!(e, LoadError::NotJson(_)));
        assert_eq!(e.message(), None);
    }
}

#[test]
fn a_found_uuid_is_taken() {
    assert_eq!(found_uuid(Some("u")).unwrap(), "u");
    assert!(matches!(found_uuid(None), Err(LoadError::MissingUuid)));
}
