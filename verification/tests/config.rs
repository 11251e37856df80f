use catalog_bench::config::{env_bool, env_or, BenchConfig};

fn vars(pairs: &[(&str, &str)]) -> Vec<(String, String)> {
    pairs.iter().map(|(k, v)| (k.to_string(), v.to_string())).collect()
}

#[test]
fn defaults_apply_without_variables() {
    let c = BenchConfig::from_env(&vars(&[("PATH", "/bin")]));
    assert_eq!(c.s3_endpoint, "http://127.0.0.1:9000");
    assert_eq!(c.s3_access_key, "admin");
    assert_eq!(c.s3_secret_key, "password");
    assert_eq!(c.s3_region, "us-east-1");
    assert!(c.s3_allow_http);
    assert_eq!(c.s3_bucket, "warehouse");
    assert_eq!(c.warehouse, "warehouse");
    assert_eq!(c.lakecat_base, "http://127.0.0.1:8181/catalog");
    assert_eq!(c.nessie_base, "http://127.0.0.1:19120/iceberg");
    assert_eq!(c.gravitino_base, "http://127.0.0.1:9001/iceberg");
    assert_eq!(c.polaris_base, "http://127.0.0.1:8182/api/catalog");
}

#[test]
fn variables_override_defaults() {
    let c = BenchConfig::from_env(&vars(&[
        ("AWS_ENDPOINT", "e"),
        ("AWS_ACCESS_KEY_ID", "k"),
        ("AWS_SECRET_ACCESS_KEY", "s"),
        ("AWS_REGION", "r"),
        ("AWS_ALLOW_HTTP", "no"),
        ("BENCH_S3_BUCKET", "b"),
        ("BENCH_WAREHOUSE", "w"),
        ("LAKECAT_BASE", "l"),
        ("NESSIE_BASE", "n"),
        ("GRAVITINO_BASE", "g"),
        ("POLARIS_BASE", ""),
    ]));
    assert_eq!(c.s3_endpoint, "e");
    assert_eq!(c.s3_access_key, "k");
    assert_eq!(c.s3_secret_key, "s");
    assert_eq!(c.s3_region, "r");
    assert!(!c.s3_allow_http);
    assert_eq!(c.s3_bucket, "b");
    assert_eq!(c.warehouse, "w");
    assert_eq!(c.lakecat_base, "l");
    assert_eq!(c.nessie_base, "n");
    assert_eq!(c.gravitino_base, "g");
    assert_eq!(c.polaris_base, "");
}

#[test]
fn switches_are_read_loosely() {
    for on in ["1", "true", "TRUE", " Yes ", "oN\n"] {
        assert!(env_bool(&vars(&[("X", on)]), "X", false), "{:?}", on);
    }
    for off in ["", "0", "false", "no", "y", "tru", "on off"] {
        assert!(!env_bool(&vars(&[("X", off)]), "X", true), "{:?}", off);
    }
    assert!(env_bool(&vars(&[]), "X", true));
    assert!(!env_bool(&vars(&[("Y", "1")]), "X", false));
}

#[test]
fn the_first_variable_of_a_name_counts() {
    let v = vars(&[("A", "1"), ("B", "2"), ("A", "3")]);
    assert_eq!(env_or(&v, "A", "d"), "1");
    assert_eq!(env_or(&v, "B", "d"), "2");
    assert_eq!(env_or(&v, "C", "d"), "d");
}

#[test]
fn addresses_inside_the_bucket() {
    let c = BenchConfig::from_env(&vars(&[]));
    assert_eq!(c.s3_uri("a/b"), "s3://warehouse/a/b");
    assert_eq!(c.s3_uri("//a/b/"), "s3://warehouse/a/b/");
    assert_eq!(c.s3_uri(""), "s3://warehouse/");
}

#[test]
fn each_variable_decides_its_own_setting() {
    let plain = BenchConfig::from_env(&vars(&[("AWS_REGION", "r")]));
    let other = BenchConfig::from_env(&vars(&[("PATH", "/bin"), ("AWS_REGION", "r"), ("LAKECAT_BASE", "l")]));
    assert_eq!(other.lakecat_base, "l");
    assert_eq!(other.s3_region, plain.s3_region);
    assert_eq!(other.s3_endpoint, plain.s3_endpoint);
    assert_eq!(other.s3_bucket, plain.s3_bucket);
    assert_eq!(other.s3_allow_http, plain.s3_allow_http);
}
