//! The JVM side of the comparison: how Spark is started, and what its output means.

use crate::config::{lookup, vars_model, BenchConfig, ConfigModel};
use crate::driver::{last_lines, tail_of};
use crate::json::{
    has_members, holds, keys_differ, members_model, no_members, object, objects_hold_their_members, put, text,
    Json, JsonModel,
};
use crate::measure::Quantity;
use crate::query::{dataset_address, engines_read_the_same, table_uri};
use crate::report::{optional_text, Phase, PhaseModel};
use crate::runs::{group_runs, has_run};
use crate::text::{
    behind_prefix, begins, decimal, decimal_text, join, lines, replace, replace_text, split_lines,
    strip, texts, trim, CharClass,
};
use vstd::prelude::*;
use vstd::string::*;

verus! {

/// The name under which a container reaches the host that runs it.
pub open spec fn host_name() -> Seq<char> {
    "host.docker.internal"@
}

/// An endpoint as a container reaches it: the loopback names stand for the host.
pub open spec fn container_address(endpoint: Seq<char>) -> Seq<char> {
    replace(replace(endpoint, "127.0.0.1"@, host_name()), "localhost"@, host_name())
}

/// The endpoint of the object store as a container reaches it, so that the same store is
/// read either way.
pub fn container_endpoint(endpoint: &str) -> (r: String)
    ensures
        r@ == container_address(endpoint@),
{
    proof {
        reveal_strlit("127.0.0.1");
        reveal_strlit("localhost");
    }
    let once = replace_text(endpoint, "127.0.0.1", "host.docker.internal");
    replace_text(&once, "localhost", "host.docker.internal")
}

/// Whether `p` occurs in `s`.
pub open spec fn occurs(s: Seq<char>, p: Seq<char>) -> bool {
    exists|i: int| 0 <= i <= s.len() && begins(#[trigger] s.skip(i), p)
}

proof fn lemma_occurs_behind(s: Seq<char>, p: Seq<char>, k: int)
    requires
        0 <= k <= s.len(),
        !occurs(s, p),
    ensures
        !occurs(s.skip(k), p),
        !begins(s, p),
{
    assert(s.skip(0) == s);
    assert forall|i: int| 0 <= i <= s.skip(k).len() implies !begins(
        #[trigger] s.skip(k).skip(i),
        p,
    ) by {
        assert(s.skip(k).skip(i) == s.skip(k + i));
    }
}

proof fn lemma_replace_absent(s: Seq<char>, from: Seq<char>, to: Seq<char>)
    requires
        !occurs(s, from),
    ensures
        replace(s, from, to) == s,
    decreases s.len(),
{
    if s.len() > 0 && from.len() > 0 {
        lemma_occurs_behind(s, from, 1);
        lemma_replace_absent(s.skip(1), from, to);
        assert(s =~= seq![s[0]] + s.skip(1));
    }
}

/// Text that shows up at the front of a replaced text, and shares no character with the
/// beginning of what was put in, was there before.
proof fn lemma_front_survives(s: Seq<char>, from: Seq<char>, to: Seq<char>, w: Seq<char>)
    requires
        to.len() > 0,
        from.len() > 0,
        !w.contains(to[0]),
        begins(replace(s, from, to), w),
    ensures
        begins(s, w),
    decreases w.len(),
{
    let out = replace(s, from, to);
    if w.len() == 0 {
        assert(s.take(0) =~= w);
    } else {
        assert(out.take(w.len() as int)[0] == w[0]);
        assert(w.contains(w[0]));
        if s.len() > 0 {
            assert(!begins(s, from));
            let rest = replace(s.skip(1), from, to);
            assert(out.skip(1) == rest);
            assert forall|i: int| 0 <= i < w.skip(1).len() implies w.skip(1)[i] != to[0] by {
                assert(w.contains(w[i + 1]));
            }
            assert(rest.take(w.len() - 1) =~= out.take(w.len() as int).skip(1));
            lemma_front_survives(s.skip(1), from, to, w.skip(1));
            assert(s.take(w.len() as int) =~= seq![s[0]] + s.skip(1).take(w.len() - 1));
            assert(w =~= seq![w[0]] + w.skip(1));
        }
    }
}

/// Replacing `from` leaves no `p` behind, if `p` is `from` itself or did not occur, and if
/// it shares too little with what is put in for the two to overlap.
proof fn lemma_replace_leaves_none(s: Seq<char>, from: Seq<char>, to: Seq<char>, p: Seq<char>)
    requires
        to.len() > 0,
        from.len() > 0,
        p.len() > 0,
        !p.contains(to[0]),
        !to.contains(p[0]),
        p == from || !occurs(s, p),
    ensures
        !occurs(replace(s, from, to), p),
    decreases s.len(),
{
    let out = replace(s, from, to);
    if s.len() > 0 {
        let head = if begins(s, from) {
            to
        } else {
            seq![s[0]]
        };
        let k = if begins(s, from) {
            from.len() as int
        } else {
            1
        };
        let rest = replace(s.skip(k), from, to);
        if p != from {
            lemma_occurs_behind(s, p, k);
        }
        lemma_replace_leaves_none(s.skip(k), from, to, p);
        assert(out == head + rest);
        assert forall|i: int| 0 <= i <= out.len() implies !begins(#[trigger] out.skip(i), p) by {
            if i >= head.len() {
                assert(out.skip(i) == rest.skip(i - head.len()));
            } else if begins(out.skip(i), p) {
                assert(out.skip(i).take(p.len() as int)[0] == head[i]);
                if begins(s, from) {
                    assert(to.contains(head[i]));
                } else {
                    assert(out.skip(i) == out);
                    assert(rest.take(p.len() - 1) =~= out.take(p.len() as int).skip(1));
                    assert forall|j: int| 0 <= j < p.skip(1).len() implies p.skip(1)[j]
                        != to[0] by {
                        assert(p.contains(p[j + 1]));
                    }
                    lemma_front_survives(s.skip(1), from, to, p.skip(1));
                    assert(s.take(p.len() as int) =~= seq![s[0]] + s.skip(1).take(p.len() - 1));
                    assert(p =~= seq![p[0]] + p.skip(1));
                    assert(begins(s, p));
                    assert(s.skip(0) == s);
                }
            }
        }
    }
}

/// No container is sent to its own loopback address.
pub proof fn no_loopback_address_remains(endpoint: Seq<char>)
    ensures
        !occurs(container_address(endpoint), "127.0.0.1"@),
{
    reveal_strlit("127.0.0.1");
    reveal_strlit("localhost");
    reveal_strlit("host.docker.internal");
    let p = "127.0.0.1"@;
    let to = host_name();
    assert(to[0] == 'h' && p[0] == '1');
    assert(!p.contains(to[0]));
    assert(!to.contains(p[0]));
    let once = replace(endpoint, p, to);
    lemma_replace_leaves_none(endpoint, p, to, p);
    lemma_replace_leaves_none(once, "localhost"@, to, p);
}

/// An endpoint without a loopback name is reached under its own name.
pub proof fn other_endpoints_are_kept(endpoint: Seq<char>)
    requires
        !occurs(endpoint, "127.0.0.1"@),
        !occurs(endpoint, "localhost"@),
    ensures
        container_address(endpoint) == endpoint,
{
    lemma_replace_absent(endpoint, "127.0.0.1"@, host_name());
    lemma_replace_absent(endpoint, "localhost"@, host_name());
}

/// The first occurrence of `from` is replaced, and the rest of the text behind it.
pub proof fn lemma_replace_first(front: Seq<char>, rest: Seq<char>, from: Seq<char>, to: Seq<char>)
    requires
        from.len() > 0,
        !occurs(front + from.drop_last(), from),
    ensures
        replace(front + from + rest, from, to) == front + to + replace(rest, from, to),
    decreases front.len(),
{
    let s = front + from + rest;
    let n = from.len() as int;
    let early = front + from.drop_last();
    let tail = replace(rest, from, to);
    if front.len() == 0 {
        assert(s.take(n) =~= from);
        assert(s.skip(n) =~= rest);
        assert(front + to + tail =~= to + tail);
    } else {
        lemma_occurs_behind(early, from, 1);
        assert(s.take(n) =~= early.take(n));
        let front1 = front.skip(1);
        assert(early.skip(1) =~= front1 + from.drop_last());
        assert(s.skip(1) =~= front1 + from + rest);
        lemma_replace_first(front1, rest, from, to);
        assert(seq![s[0]] + (front1 + to + tail) =~= front + to + tail);
    }
}

/// An endpoint on the loopback address, such as `http://127.0.0.1:9000`, is reached on the
/// host in the same way: what stands in front of the address and behind it stays. It is
/// the only one there, and the host's name completes no other loopback name.
pub proof fn loopback_is_reached_on_the_host(front: Seq<char>, rest: Seq<char>)
    requires
        !occurs(front + "127.0.0.1"@.drop_last(), "127.0.0.1"@),
        !occurs(rest, "127.0.0.1"@),
        !occurs(front + host_name() + rest, "localhost"@),
    ensures
        container_address(front + "127.0.0.1"@ + rest) == front + host_name() + rest,
        host_name() == "host.docker.internal"@,
{
    reveal_strlit("127.0.0.1");
    lemma_replace_first(front, rest, "127.0.0.1"@, host_name());
    lemma_replace_absent(rest, "127.0.0.1"@, host_name());
    lemma_replace_absent(front + host_name() + rest, "localhost"@, host_name());
}

/// An endpoint on the loopback name, such as `http://localhost:9000`, is reached on the
/// host in the same way: what stands in front of the name stays, and what stands behind it
/// is treated alike, so that it stays where the name is the only one. There is no loopback
/// address.
pub proof fn localhost_is_reached_on_the_host(front: Seq<char>, rest: Seq<char>)
    requires
        !occurs(front + "localhost"@ + rest, "127.0.0.1"@),
        !occurs(front + "localhost"@.drop_last(), "localhost"@),
    ensures
        container_address(front + "localhost"@ + rest) == front + host_name() + container_address(
            rest,
        ),
        !occurs(rest, "localhost"@) ==> container_address(rest) == rest,
{
    reveal_strlit("localhost");
    let all = front + "localhost"@ + rest;
    let k = (front + "localhost"@).len() as int;
    assert(all.skip(k) =~= rest);
    lemma_occurs_behind(all, "127.0.0.1"@, k);
    lemma_replace_absent(all, "127.0.0.1"@, host_name());
    lemma_replace_absent(rest, "127.0.0.1"@, host_name());
    lemma_replace_first(front, rest, "localhost"@, host_name());
    if !occurs(rest, "localhost"@) {
        lemma_replace_absent(rest, "localhost"@, host_name());
    }
}

/// How Spark is started.
#[derive(Debug)]
pub struct SparkJob {
    /// The script that starts it.
    pub script: String,
    /// The environment that the script is given.
    pub env: Vec<(String, String)>,
    /// The line that announces it.
    pub announce: String,
}

/// The script in this directory that starts Spark.
pub open spec fn script_path(dir: Seq<char>) -> Seq<char> {
    dir + "/run-spark.sh"@
}

fn pair(name: &str, value: &str) -> (r: (String, String))
    ensures
        r.0@ == name@,
        r.1@ == value@,
{
    (name.to_owned(), value.to_owned())
}

/// The environment that Spark is started in.
pub open spec fn spark_env(cfg: ConfigModel, prefix: Seq<char>, iters: nat) -> Seq<
    (Seq<char>, Seq<char>),
> {
    seq![
        ("S3_ENDPOINT"@, container_address(cfg.s3_endpoint)),
        ("S3_KEY"@, cfg.s3_access_key),
        ("S3_SECRET"@, cfg.s3_secret_key),
        ("S3_PATH"@, dataset_address("s3a"@, cfg.s3_bucket, prefix)),
        ("ITERS"@, decimal(iters)),
    ]
}

/// The line that announces Spark.
pub open spec fn spark_line(cfg: ConfigModel, dir: Seq<char>, prefix: Seq<char>) -> Seq<char> {
    "phase: jvm-warm (Spark via "@ + script_path(dir) + ") — endpoint "@ + container_address(
        cfg.s3_endpoint,
    ) + ", path "@ + dataset_address("s3a"@, cfg.s3_bucket, prefix) + " ...\n"@
}

/// Spark finds in its environment the object store as a container reaches it, the same
/// keys, the dataset of the Rust side behind its own scheme, and how often to run the query;
/// the line that announces it tells the first and the third.
pub proof fn spark_is_told_everything(
    cfg: ConfigModel,
    dir: Seq<char>,
    prefix: Seq<char>,
    iters: nat,
)
    ensures
        ({
            let env = spark_env(cfg, prefix, iters);
            let path = lookup(env, "S3_PATH"@);
            let rust = dataset_address("s3"@, cfg.s3_bucket, prefix);
            &&& lookup(env, "S3_ENDPOINT"@) == Some(container_address(cfg.s3_endpoint))
            &&& lookup(env, "S3_KEY"@) == Some(cfg.s3_access_key)
            &&& lookup(env, "S3_SECRET"@) == Some(cfg.s3_secret_key)
            &&& env.len() == 5
            &&& path is Some
            &&& path->0 == "s3a"@ + rust.skip(2)
            &&& lookup(env, "ITERS"@) == Some(decimal(iters))
            &&& has_run(
                spark_line(cfg, dir, prefix),
                "phase: jvm-warm (Spark via "@ + script_path(dir) + ") — endpoint "@
                    + container_address(cfg.s3_endpoint),
            )
            &&& has_run(spark_line(cfg, dir, prefix), ", path "@ + path->0 + " ...\n"@)
            &&& script_path(dir) == dir + "/run-spark.sh"@
        }),
{
    broadcast use group_runs;

    reveal_strlit("S3_ENDPOINT");
    reveal_strlit("S3_KEY");
    reveal_strlit("S3_SECRET");
    reveal_strlit("S3_PATH");
    reveal_strlit("ITERS");
    reveal_strlit("s3");
    reveal_strlit("s3a");
    assert("S3_ENDPOINT"@.len() == 11 && "S3_KEY"@.len() == 6 && "S3_SECRET"@.len() == 9);
    assert("S3_PATH"@.len() == 7 && "ITERS"@.len() == 5 && "s3"@.len() == 2);
    reveal_with_fuel(lookup, 6);
    let env = spark_env(cfg, prefix, iters);
    assert(env.skip(1)[0] == env[1]);
    assert(env.skip(1).skip(1)[0] == env[2]);
    assert(env.skip(1).skip(1).skip(1)[0] == env[3]);
    assert(env.skip(1).skip(1).skip(1).skip(1)[0] == env[4]);
    let path = dataset_address("s3a"@, cfg.s3_bucket, prefix);
    engines_read_the_same("s3a"@, "s3"@, cfg.s3_bucket, prefix);
    assert(path =~= path.take(3) + path.skip(3));
}

/// Plans the Spark side of the comparison.
pub fn spark_job(cfg: &BenchConfig, dir: &str, prefix: &str, iters: usize) -> (r: SparkJob)
    ensures
        r.script@ == script_path(dir@),
        vars_model(r.env@) == spark_env(cfg@, prefix@, iters as nat),
        r.announce@ == spark_line(cfg@, dir@, prefix@),
{
    let mut script = dir.to_owned();
    script.append("/run-spark.sh");
    let endpoint = container_endpoint(&cfg.s3_endpoint);
    let path = table_uri(cfg, "s3a", prefix);
    let mut announce = "phase: jvm-warm (Spark via ".to_owned();
    announce.append(&script);
    announce.append(") — endpoint ");
    announce.append(&endpoint);
    announce.append(", path ");
    announce.append(&path);
    announce.append(" ...\n");
    let mut env: Vec<(String, String)> = Vec::new();
    env.push(pair("S3_ENDPOINT", &endpoint));
    env.push(pair("S3_KEY", &cfg.s3_access_key));
    env.push(pair("S3_SECRET", &cfg.s3_secret_key));
    env.push(pair("S3_PATH", &path));
    env.push(pair("ITERS", &decimal_text(iters as u64)));
    assert(vars_model(env@) =~= spark_env(cfg@, prefix@, iters as nat));
    SparkJob { script, env, announce }
}

/// What stands behind the marker on the first of the lines that has it.
pub open spec fn marked(all: Seq<Seq<char>>) -> Option<Seq<char>>
    decreases all.len(),
{
    if all.len() == 0 {
        None
    } else {
        let line = trim(all[0], CharClass::White);
        if begins(line, "SPARK_RESULT "@) {
            Some(line.skip("SPARK_RESULT "@.len() as int))
        } else {
            marked(all.skip(1))
        }
    }
}

proof fn lemma_marked_concat(a: Seq<Seq<char>>, b: Seq<Seq<char>>)
    ensures
        marked(a + b) == (match marked(a) {
            Some(json) => Some(json),
            None => marked(b),
        }),
    decreases a.len(),
{
    if a.len() == 0 {
        assert(a + b == b);
    } else {
        assert((a + b)[0] == a[0]);
        assert((a + b).skip(1) == a.skip(1) + b);
        lemma_marked_concat(a.skip(1), b);
    }
}

/// The result is what stands behind the marker on the first line that has it; lines
/// without it in front do not matter, nor does anything behind.
pub proof fn the_first_marked_line_counts(
    noise: Seq<Seq<char>>,
    line: Seq<char>,
    json: Seq<char>,
    rest: Seq<Seq<char>>,
)
    requires
        forall|i: int|
            0 <= i < noise.len() ==> !begins(
                trim(#[trigger] noise[i], CharClass::White),
                "SPARK_RESULT "@,
            ),
        trim(line, CharClass::White) == "SPARK_RESULT "@ + json,
    ensures
        marked(noise) is None,
        marked(noise + seq![line] + rest) == Some(json),
    decreases noise.len(),
{
    if noise.len() == 0 {
        let all = noise + seq![line] + rest;
        assert(all[0] == line);
        let whole = "SPARK_RESULT "@ + json;
        assert(whole.take("SPARK_RESULT "@.len() as int) =~= "SPARK_RESULT "@);
        assert(whole.skip("SPARK_RESULT "@.len() as int) =~= json);
    } else {
        let all = noise + seq![line] + rest;
        let less = noise.skip(1);
        assert(all[0] == noise[0]);
        assert(all.skip(1) =~= less + seq![line] + rest);
        assert forall|i: int| 0 <= i < less.len() implies !begins(
            trim(#[trigger] less[i], CharClass::White),
            "SPARK_RESULT "@,
        ) by {
            assert(less[i] == noise[i + 1]);
        }
        the_first_marked_line_counts(less, line, json, rest);
    }
}

fn find_marked(s: &str) -> (r: Option<String>)
    ensures
        optional_text(r) == marked(lines(s@)),
{
    let all = split_lines(s);
    let ghost ls = texts(all@);
    let mut i: usize = 0;
    assert(ls.skip(0) == ls);
    while i < all.len()
        invariant
            i <= all@.len(),
            ls == texts(all@),
            ls == lines(s@),
            marked(ls) == marked(ls.skip(i as int)),
        decreases all.len() - i,
    {
        let line = strip(&all[i], CharClass::White);
        if let Some(json) = behind_prefix(&line, "SPARK_RESULT ") {
            return Some(json);
        }
        assert(ls.skip(i as int).skip(1) == ls.skip(i + 1));
        i += 1;
    }
    None
}

/// The JSON that Spark printed behind its marker.
#[derive(Debug)]
pub struct SparkLine {
    /// All that stands behind the marker.
    pub json: String,
    /// The same without blanks around it, to be parsed.
    pub trimmed: String,
}

/// What Spark printed behind its marker.
pub open spec fn spark_result(stdout: Seq<char>, stderr: Seq<char>) -> Option<Seq<char>> {
    marked(lines(stdout) + lines(stderr))
}

/// Spark's result is looked for in its output first, and in its messages only where its
/// output has none.
pub proof fn output_comes_before_messages(stdout: Seq<char>, stderr: Seq<char>)
    ensures
        spark_result(stdout, stderr) == (if marked(lines(stdout)) is Some {
            marked(lines(stdout))
        } else {
            marked(lines(stderr))
        }),
{
    lemma_marked_concat(lines(stdout), lines(stderr));
}

/// Finds Spark's result in its output, or else in its messages.
pub fn scrape(stdout: &str, stderr: &str) -> (r: Option<SparkLine>)
    ensures
        match spark_result(stdout@, stderr@) {
            Some(json) => {
                &&& r matches Some(line)
                &&& line.json@ == json
                &&& line.trimmed@ == trim(json, CharClass::White)
            },
            None => r is None,
        },
{
    proof {
        lemma_marked_concat(lines(stdout@), lines(stderr@));
    }
    let found = match find_marked(stdout) {
        Some(json) => Some(json),
        None => find_marked(stderr),
    };
    match found {
        Some(json) => {
            let trimmed = strip(&json, CharClass::White);
            Some(SparkLine { json, trimmed })
        },
        None => None,
    }
}

/// The message about a Spark run without a result.
pub open spec fn no_result_message(status: Seq<char>, stderr: Seq<char>) -> Seq<char> {
    "Spark produced no SPARK_RESULT line (exit "@ + status + "). stderr tail:\n"@ + join(
        tail_of(lines(stderr), 12),
        "\n"@,
    )
}

/// The message about a Spark run without a result tells its status, and ends with the last
/// twelve lines of its messages.
pub proof fn missing_results_are_told(status: Seq<char>, stderr: Seq<char>, older: Seq<Seq<char>>, tail: Seq<Seq<char>>)
    requires
        lines(stderr) == older + tail,
        tail.len() == 12 || (tail.len() < 12 && older.len() == 0),
    ensures
        has_run(
            no_result_message(status, stderr),
            "Spark produced no SPARK_RESULT line (exit "@ + status + "). stderr tail:\n"@ + join(
                tail,
                "\n"@,
            ),
        ),
{
    broadcast use group_runs;

    assert((older + tail).skip(older.len() as int) =~= tail);
    assert(older.len() == 0 ==> older + tail =~= tail);
    assert(tail_of(lines(stderr), 12) =~= tail);
}

/// The message about a Spark run without a result.
pub fn no_result(status: &str, stderr: &str) -> (r: String)
    ensures
        r@ == no_result_message(status@, stderr@),
{
    let mut out = "Spark produced no SPARK_RESULT line (exit ".to_owned();
    out.append(status);
    out.append("). stderr tail:\n");
    out.append(&last_lines(stderr, 12));
    out
}

/// What Spark measured.
#[derive(Debug)]
pub struct SparkResult {
    pub warm_p50_ms: Quantity,
    pub warm_p95_ms: Quantity,
    pub warm_min_ms: Quantity,
    pub samples: u64,
    pub cold_ms: Quantity,
    pub scanned_rows: u64,
    pub groups: u64,
    pub spark_version: String,
}

/// What the phase of the JVM says besides its latency.
pub open spec fn jvm_extra(r: SparkResult) -> Seq<(Seq<char>, JsonModel)> {
    seq![
        ("scanned_rows"@, JsonModel::Unsigned(r.scanned_rows)),
        ("groups"@, JsonModel::Unsigned(r.groups)),
        ("warm_min_ms"@, JsonModel::Real(r.warm_min_ms)),
        ("cold_ms"@, JsonModel::Real(r.cold_ms)),
        ("spark_version"@, JsonModel::Text(r.spark_version@)),
    ]
}

/// The phase of the JVM as it is reported.
pub open spec fn jvm_model(r: SparkResult, rows_per_s: Quantity) -> PhaseModel {
    PhaseModel {
        name: "jvm-warm"@,
        samples: r.samples,
        p50_ms: r.warm_p50_ms,
        p95_ms: r.warm_p95_ms,
        throughput_per_s: rows_per_s,
        extra: Some(JsonModel::Object(jvm_extra(r))),
    }
}

proof fn lemma_jvm_keys(r: SparkResult)
    ensures
        keys_differ(jvm_extra(r)),
{
    reveal_strlit("scanned_rows");
    reveal_strlit("groups");
    reveal_strlit("warm_min_ms");
    reveal_strlit("cold_ms");
    reveal_strlit("spark_version");
    assert("scanned_rows"@.len() == 12 && "groups"@.len() == 6 && "warm_min_ms"@.len() == 11);
    assert("cold_ms"@.len() == 7 && "spark_version"@.len() == 13);
}

/// The phase of the JVM tells what Spark measured, each number under its own name: the warm
/// median and 95th percentile as the phase's own, the rest besides.
pub proof fn the_jvm_phase_tells_the_result(r: SparkResult, rows_per_s: Quantity)
    ensures
        ({
            let p = jvm_model(r, rows_per_s);
            &&& p.name == "jvm-warm"@
            &&& p.samples == r.samples
            &&& p.p50_ms == r.warm_p50_ms
            &&& p.p95_ms == r.warm_p95_ms
            &&& p.throughput_per_s == rows_per_s
            &&& p.extra is Some
            &&& has_members(p.extra->0, 5)
            &&& holds(p.extra->0, "scanned_rows"@, JsonModel::Unsigned(r.scanned_rows))
            &&& holds(p.extra->0, "groups"@, JsonModel::Unsigned(r.groups))
            &&& holds(p.extra->0, "warm_min_ms"@, JsonModel::Real(r.warm_min_ms))
            &&& holds(p.extra->0, "cold_ms"@, JsonModel::Real(r.cold_ms))
            &&& holds(p.extra->0, "spark_version"@, JsonModel::Text(r.spark_version@))
        }),
{
    lemma_jvm_keys(r);
    let e = jvm_extra(r);
    objects_hold_their_members(e);
    assert(e[0].0 == "scanned_rows"@ && e[1].0 == "groups"@ && e[2].0 == "warm_min_ms"@);
    assert(e[3].0 == "cold_ms"@ && e[4].0 == "spark_version"@);
}

/// Builds the `jvm-warm` phase from what Spark measured. `rows_per_s` is the number of
/// scanned rows over the warm median.
pub fn jvm_phase(r: &SparkResult, rows_per_s: Quantity) -> (p: Phase)
    ensures
        p@ == jvm_model(*r, rows_per_s),
{
    let mut extra = no_members();
    put(&mut extra, "scanned_rows", Json::Unsigned(r.scanned_rows));
    put(&mut extra, "groups", Json::Unsigned(r.groups));
    put(&mut extra, "warm_min_ms", Json::Real(r.warm_min_ms));
    put(&mut extra, "cold_ms", Json::Real(r.cold_ms));
    put(&mut extra, "spark_version", text(&r.spark_version));
    assert(members_model(extra@) =~= jvm_extra(*r));
    Phase {
        name: "jvm-warm".to_owned(),
        samples: r.samples,
        p50_ms: r.warm_p50_ms,
        p95_ms: r.warm_p95_ms,
        throughput_per_s: rows_per_s,
        extra: Some(object(extra)),
    }
}

/// How to run the Spark side by hand, over the same dataset.
pub open spec fn recipe(endpoint: Seq<char>, bucket: Seq<char>, prefix: Seq<char>) -> Seq<char> {
    "JVM phase status=requires-container. To run it: Docker + internet (Spark fetches hadoop-aws via --packages on first run). From crates/rust-vs-jvm:\nS3_ENDPOINT="@
        + container_address(endpoint) + " S3_PATH="@ + dataset_address("s3a"@, bucket, prefix)
        + " ./run-spark.sh\nIt runs apache/spark:3.5.3 spark-submit on spark-query.py, reads the SAME Parquet over S3A, runs the identical query N+1x in one session, and prints `SPARK_RESULT {json}`. The Rust harness scrapes that line; re-run `catalog-bench run rust-vs-jvm` with Docker up for the full head-to-head."@
}

/// The recipe gives Spark the endpoint and the dataset that it would have been started with.
pub proof fn the_recipe_fits_the_job(cfg: ConfigModel, prefix: Seq<char>, iters: nat)
    ensures
        ({
            let env = spark_env(cfg, prefix, iters);
            has_run(
                recipe(cfg.s3_endpoint, cfg.s3_bucket, prefix),
                lookup(env, "S3_ENDPOINT"@)->0 + " S3_PATH="@ + lookup(env, "S3_PATH"@)->0,
            )
        }),
{
    broadcast use group_runs;

    spark_is_told_everything(cfg, Seq::empty(), prefix, iters);
    engines_read_the_same("s3a"@, "s3"@, cfg.s3_bucket, prefix);
    let path = dataset_address("s3a"@, cfg.s3_bucket, prefix);
    reveal_strlit("s3");
    reveal_strlit("s3a");
    assert("s3"@.len() == 2 && "s3a"@.len() == 3);
    assert(path =~= path.take(3) + path.skip(3));
}

/// The copy-pasteable recipe recorded when the JVM phase is gated.
pub fn container_recipe(cfg: &BenchConfig, prefix: &str) -> (r: String)
    ensures
        r@ == recipe(cfg.s3_endpoint@, cfg.s3_bucket@, prefix@),
{
    let mut out =
        "JVM phase status=requires-container. To run it: Docker + internet (Spark fetches hadoop-aws via --packages on first run). From crates/rust-vs-jvm:\nS3_ENDPOINT=".to_owned();
    out.append(&container_endpoint(&cfg.s3_endpoint));
    out.append(" S3_PATH=");
    out.append(&table_uri(cfg, "s3a", prefix));
    out.append(
        " ./run-spark.sh\nIt runs apache/spark:3.5.3 spark-submit on spark-query.py, reads the SAME Parquet over S3A, runs the identical query N+1x in one session, and prints `SPARK_RESULT {json}`. The Rust harness scrapes that line; re-run `catalog-bench run rust-vs-jvm` with Docker up for the full head-to-head.",
    );
    out
}

} // verus!
