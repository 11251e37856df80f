//! The environment that every benchmark shares: the object store and the catalogs.

use crate::text::{
    lower, lowercase, lowercase_text, repeat, same, strip, strip_start, surroundings_are_trimmed,
    trim, trim_start, trimmed_text_is_kept, CharClass,
};
use vstd::prelude::*;
use vstd::string::*;

verus! {

/// The names and values of some environment variables.
pub open spec fn vars_model(vars: Seq<(String, String)>) -> Seq<(Seq<char>, Seq<char>)> {
    Seq::new(vars.len(), |i: int| (vars[i].0@, vars[i].1@))
}

/// The value of the first variable with this name.
pub open spec fn lookup(vars: Seq<(Seq<char>, Seq<char>)>, key: Seq<char>) -> Option<Seq<char>>
    decreases vars.len(),
{
    if vars.len() == 0 {
        None
    } else if vars[0].0 == key {
        Some(vars[0].1)
    } else {
        lookup(vars.skip(1), key)
    }
}

/// The value of a variable, or `default` where it is not set.
pub open spec fn text_setting(
    vars: Seq<(Seq<char>, Seq<char>)>,
    key: Seq<char>,
    default: Seq<char>,
) -> Seq<char> {
    match lookup(vars, key) {
        Some(value) => value,
        None => default,
    }
}

/// Whether a value switches a setting on.
pub open spec fn is_on(value: Seq<char>) -> bool {
    let word = lowercase(trim(value, CharClass::White));
    word == "1"@ || word == "true"@ || word == "yes"@ || word == "on"@
}

/// Whether a variable switches a setting on; `default` where it is not set.
pub open spec fn flag_setting(
    vars: Seq<(Seq<char>, Seq<char>)>,
    key: Seq<char>,
    default: bool,
) -> bool {
    match lookup(vars, key) {
        Some(value) => is_on(value),
        None => default,
    }
}

/// The index of the first variable with this name, or the number of variables.
fn index_of(vars: &Vec<(String, String)>, key: &str) -> (k: usize)
    ensures
        k <= vars@.len(),
        match lookup(vars_model(vars@), key@) {
            Some(value) => k < vars@.len() && vars@[k as int].1@ == value,
            None => k == vars@.len(),
        },
{
    let mut k: usize = 0;
    let ghost all = vars_model(vars@);
    assert(all.skip(0) == all);
    while k < vars.len() && !same(&vars[k].0, key)
        invariant
            k <= vars@.len(),
            all == vars_model(vars@),
            lookup(all, key@) == lookup(all.skip(k as int), key@),
        decreases vars.len() - k,
    {
        assert(all.skip(k as int).skip(1) == all.skip(k + 1));
        k += 1;
    }
    k
}

/// Reads a text setting.
pub fn env_or(vars: &Vec<(String, String)>, key: &str, default: &str) -> (r: String)
    ensures
        r@ == text_setting(vars_model(vars@), key@, default@),
{
    let k = index_of(vars, key);
    if k < vars.len() {
        vars[k].1.clone()
    } else {
        default.to_owned()
    }
}

/// Reads a switch: `1`, `true`, `yes` and `on` are on, in any case and with blanks
/// around them; everything else is off.
pub fn env_bool(vars: &Vec<(String, String)>, key: &str, default: bool) -> (r: bool)
    ensures
        r == flag_setting(vars_model(vars@), key@, default),
{
    let k = index_of(vars, key);
    if k < vars.len() {
        let word = lowercase_text(&strip(&vars[k].1, CharClass::White));
        same(&word, "1") || same(&word, "true") || same(&word, "yes") || same(&word, "on")
    } else {
        default
    }
}

/// Shared environment for every bench: the MinIO/S3 object store and the catalog
/// endpoints.
///
/// | Field | Variable | Default |
/// |---|---|---|
/// | `s3_endpoint` | `AWS_ENDPOINT` | `http://127.0.0.1:9000` |
/// | `s3_access_key` | `AWS_ACCESS_KEY_ID` | `admin` |
/// | `s3_secret_key` | `AWS_SECRET_ACCESS_KEY` | `password` |
/// | `s3_region` | `AWS_REGION` | `us-east-1` |
/// | `s3_allow_http` | `AWS_ALLOW_HTTP` | `true` |
/// | `s3_bucket` | `BENCH_S3_BUCKET` | `warehouse` |
/// | `warehouse` | `BENCH_WAREHOUSE` | `warehouse` |
/// | `lakecat_base` | `LAKECAT_BASE` | `http://127.0.0.1:8181/catalog` |
/// | `nessie_base` | `NESSIE_BASE` | `http://127.0.0.1:19120/iceberg` |
/// | `gravitino_base` | `GRAVITINO_BASE` | `http://127.0.0.1:9001/iceberg` |
/// | `polaris_base` | `POLARIS_BASE` | `http://127.0.0.1:8182/api/catalog` |
#[derive(Debug, Clone)]
pub struct BenchConfig {
    pub s3_endpoint: String,
    pub s3_access_key: String,
    pub s3_secret_key: String,
    pub s3_region: String,
    pub s3_allow_http: bool,
    pub s3_bucket: String,
    pub warehouse: String,
    pub lakecat_base: String,
    pub nessie_base: String,
    pub gravitino_base: String,
    pub polaris_base: String,
}

/// What a [`BenchConfig`] says.
pub struct ConfigModel {
    pub s3_endpoint: Seq<char>,
    pub s3_access_key: Seq<char>,
    pub s3_secret_key: Seq<char>,
    pub s3_region: Seq<char>,
    pub s3_allow_http: bool,
    pub s3_bucket: Seq<char>,
    pub warehouse: Seq<char>,
    pub lakecat_base: Seq<char>,
    pub nessie_base: Seq<char>,
    pub gravitino_base: Seq<char>,
    pub polaris_base: Seq<char>,
}

impl View for BenchConfig {
    type V = ConfigModel;

    open spec fn view(&self) -> ConfigModel {
        ConfigModel {
            s3_endpoint: self.s3_endpoint@,
            s3_access_key: self.s3_access_key@,
            s3_secret_key: self.s3_secret_key@,
            s3_region: self.s3_region@,
            s3_allow_http: self.s3_allow_http,
            s3_bucket: self.s3_bucket@,
            warehouse: self.warehouse@,
            lakecat_base: self.lakecat_base@,
            nessie_base: self.nessie_base@,
            gravitino_base: self.gravitino_base@,
            polaris_base: self.polaris_base@,
        }
    }
}

/// The configuration that the variables ask for.
pub open spec fn config_of(vars: Seq<(Seq<char>, Seq<char>)>) -> ConfigModel {
    ConfigModel {
        s3_endpoint: text_setting(vars, "AWS_ENDPOINT"@, "http://127.0.0.1:9000"@),
        s3_access_key: text_setting(vars, "AWS_ACCESS_KEY_ID"@, "admin"@),
        s3_secret_key: text_setting(vars, "AWS_SECRET_ACCESS_KEY"@, "password"@),
        s3_region: text_setting(vars, "AWS_REGION"@, "us-east-1"@),
        s3_allow_http: flag_setting(vars, "AWS_ALLOW_HTTP"@, true),
        s3_bucket: text_setting(vars, "BENCH_S3_BUCKET"@, "warehouse"@),
        warehouse: text_setting(vars, "BENCH_WAREHOUSE"@, "warehouse"@),
        lakecat_base: text_setting(vars, "LAKECAT_BASE"@, "http://127.0.0.1:8181/catalog"@),
        nessie_base: text_setting(vars, "NESSIE_BASE"@, "http://127.0.0.1:19120/iceberg"@),
        gravitino_base: text_setting(vars, "GRAVITINO_BASE"@, "http://127.0.0.1:9001/iceberg"@),
        polaris_base: text_setting(vars, "POLARIS_BASE"@, "http://127.0.0.1:8182/api/catalog"@),
    }
}

/// An `s3://<bucket>/<sub>` address.
pub open spec fn s3_address(bucket: Seq<char>, sub: Seq<char>) -> Seq<char> {
    "s3://"@ + bucket + "/"@ + trim_start(sub, CharClass::Slash)
}

impl BenchConfig {
    /// Reads the shared config from environment variables, given as pairs of name and
    /// value, applying the documented defaults for anything unset.
    pub fn from_env(vars: &Vec<(String, String)>) -> (r: BenchConfig)
        ensures
            r@ == config_of(vars_model(vars@)),
    {
        BenchConfig {
            s3_endpoint: env_or(vars, "AWS_ENDPOINT", "http://127.0.0.1:9000"),
            s3_access_key: env_or(vars, "AWS_ACCESS_KEY_ID", "admin"),
            s3_secret_key: env_or(vars, "AWS_SECRET_ACCESS_KEY", "password"),
            s3_region: env_or(vars, "AWS_REGION", "us-east-1"),
            s3_allow_http: env_bool(vars, "AWS_ALLOW_HTTP", true),
            s3_bucket: env_or(vars, "BENCH_S3_BUCKET", "warehouse"),
            warehouse: env_or(vars, "BENCH_WAREHOUSE", "warehouse"),
            lakecat_base: env_or(vars, "LAKECAT_BASE", "http://127.0.0.1:8181/catalog"),
            nessie_base: env_or(vars, "NESSIE_BASE", "http://127.0.0.1:19120/iceberg"),
            gravitino_base: env_or(vars, "GRAVITINO_BASE", "http://127.0.0.1:9001/iceberg"),
            polaris_base: env_or(vars, "POLARIS_BASE", "http://127.0.0.1:8182/api/catalog"),
        }
    }

    /// An `s3://<bucket>/<sub>` URI inside the configured warehouse bucket.
    pub fn s3_uri(&self, sub: &str) -> (r: String)
        ensures
            r@ == s3_address(self.s3_bucket@, sub@),
    {
        let mut out = "s3://".to_owned();
        out.append(&self.s3_bucket);
        out.append("/");
        let tail = strip_start(sub, CharClass::Slash);
        out.append(&tail);
        out
    }
}

/// A variable that is not set leaves its setting at the default.
pub proof fn unset_means_default(
    vars: Seq<(Seq<char>, Seq<char>)>,
    key: Seq<char>,
    default: Seq<char>,
    flag: bool,
)
    requires
        forall|i: int| 0 <= i < vars.len() ==> (#[trigger] vars[i]).0 != key,
    ensures
        text_setting(vars, key, default) == default,
        flag_setting(vars, key, flag) == flag,
    decreases vars.len(),
{
    if vars.len() > 0 {
        assert(vars[0].0 != key);
        assert forall|i: int| 0 <= i < vars.skip(1).len() implies (#[trigger] vars.skip(1)[i]).0
            != key by {
            assert(vars[i + 1].0 != key);
        }
        unset_means_default(vars.skip(1), key, default, flag);
    }
}

/// A variable that is set overrides the default, whatever the default is.
pub proof fn set_overrides_default(
    vars: Seq<(Seq<char>, Seq<char>)>,
    i: int,
    default: Seq<char>,
    flag: bool,
)
    requires
        0 <= i < vars.len(),
        forall|j: int| 0 <= j < i ==> (#[trigger] vars[j]).0 != vars[i].0,
    ensures
        text_setting(vars, vars[i].0, default) == vars[i].1,
        flag_setting(vars, vars[i].0, flag) == is_on(vars[i].1),
    decreases vars.len(),
{
    if i > 0 {
        assert(vars[0].0 != vars[i].0);
        let rest = vars.skip(1);
        assert forall|j: int| 0 <= j < i - 1 implies (#[trigger] rest[j]).0 != rest[i - 1].0 by {
            assert(vars[j + 1].0 != vars[i].0);
        }
        set_overrides_default(rest, i - 1, default, flag);
    }
}

/// A variable of another name does not matter to a setting.
pub proof fn other_variables_do_not_matter(
    vars: Seq<(Seq<char>, Seq<char>)>,
    i: int,
    key: Seq<char>,
    default: Seq<char>,
    flag: bool,
)
    requires
        0 <= i < vars.len(),
        key != vars[i].0,
    ensures
        lookup(vars.remove(i), key) == lookup(vars, key),
        text_setting(vars.remove(i), key, default) == text_setting(vars, key, default),
        flag_setting(vars.remove(i), key, flag) == flag_setting(vars, key, flag),
    decreases vars.len(),
{
    let less = vars.remove(i);
    if i == 0 {
        assert(less =~= vars.skip(1));
    } else {
        assert(less[0] == vars[0]);
        assert(less.skip(1) =~= vars.skip(1).remove(i - 1));
        other_variables_do_not_matter(vars.skip(1), i - 1, key, default, flag);
    }
}

/// Each variable decides its own setting only: environments that agree on all names but
/// one give configurations that agree on all other fields.
pub proof fn settings_are_independent(
    a: Seq<(Seq<char>, Seq<char>)>,
    b: Seq<(Seq<char>, Seq<char>)>,
    name: Seq<char>,
)
    requires
        forall|k: Seq<char>| k != name ==> #[trigger] lookup(a, k) == lookup(b, k),
    ensures
        name != "AWS_ENDPOINT"@ ==> config_of(a).s3_endpoint == config_of(b).s3_endpoint,
        name != "AWS_ACCESS_KEY_ID"@ ==> config_of(a).s3_access_key == config_of(b).s3_access_key,
        name != "AWS_SECRET_ACCESS_KEY"@ ==> config_of(a).s3_secret_key == config_of(
            b,
        ).s3_secret_key,
        name != "AWS_REGION"@ ==> config_of(a).s3_region == config_of(b).s3_region,
        name != "AWS_ALLOW_HTTP"@ ==> config_of(a).s3_allow_http == config_of(b).s3_allow_http,
        name != "BENCH_S3_BUCKET"@ ==> config_of(a).s3_bucket == config_of(b).s3_bucket,
        name != "BENCH_WAREHOUSE"@ ==> config_of(a).warehouse == config_of(b).warehouse,
        name != "LAKECAT_BASE"@ ==> config_of(a).lakecat_base == config_of(b).lakecat_base,
        name != "NESSIE_BASE"@ ==> config_of(a).nessie_base == config_of(b).nessie_base,
        name != "GRAVITINO_BASE"@ ==> config_of(a).gravitino_base == config_of(b).gravitino_base,
        name != "POLARIS_BASE"@ ==> config_of(a).polaris_base == config_of(b).polaris_base,
{
}

/// A variable that is set decides the setting that is documented for it: its value is the
/// setting, or switches it on or off.
pub proof fn variables_set_their_own_field(vars: Seq<(Seq<char>, Seq<char>)>, value: Seq<char>)
    ensures
        ({
            let c = config_of(vars);
            let set = Some(value);
            &&& lookup(vars, "AWS_ENDPOINT"@) == set ==> c.s3_endpoint == value
            &&& lookup(vars, "AWS_ACCESS_KEY_ID"@) == set ==> c.s3_access_key == value
            &&& lookup(vars, "AWS_SECRET_ACCESS_KEY"@) == set ==> c.s3_secret_key == value
            &&& lookup(vars, "AWS_REGION"@) == set ==> c.s3_region == value
            &&& lookup(vars, "AWS_ALLOW_HTTP"@) == set ==> c.s3_allow_http == is_on(value)
            &&& lookup(vars, "BENCH_S3_BUCKET"@) == set ==> c.s3_bucket == value
            &&& lookup(vars, "BENCH_WAREHOUSE"@) == set ==> c.warehouse == value
            &&& lookup(vars, "LAKECAT_BASE"@) == set ==> c.lakecat_base == value
            &&& lookup(vars, "NESSIE_BASE"@) == set ==> c.nessie_base == value
            &&& lookup(vars, "GRAVITINO_BASE"@) == set ==> c.gravitino_base == value
            &&& lookup(vars, "POLARIS_BASE"@) == set ==> c.polaris_base == value
        }),
{
}

/// The first variable of a name counts, and there is none exactly if none has the name.
pub proof fn the_first_variable_counts(vars: Seq<(Seq<char>, Seq<char>)>, key: Seq<char>, i: int)
    ensures
        lookup(vars, key) is None <==> forall|k: int|
            0 <= k < vars.len() ==> (#[trigger] vars[k]).0 != key,
        0 <= i < vars.len() && vars[i].0 == key && (forall|k: int|
            0 <= k < i ==> (#[trigger] vars[k]).0 != key) ==> lookup(vars, key) == Some(vars[i].1),
    decreases vars.len(),
{
    if vars.len() > 0 && vars[0].0 != key {
        let rest = vars.skip(1);
        the_first_variable_counts(rest, key, i - 1);
        assert(forall|k: int| 0 <= k < rest.len() ==> #[trigger] rest[k] == vars[k + 1]);
        assert(forall|k: int| 1 <= k < vars.len() ==> #[trigger] vars[k] == rest[k - 1]);
    }
}

/// A switch is on exactly with one of four words, in capitals or not; blanks around the word
/// do not matter.
pub proof fn switches_are_words(front: Seq<char>, word: Seq<char>, end: Seq<char>)
    requires
        forall|i: int| 0 <= i < front.len() ==> CharClass::White.has(#[trigger] front[i]),
        forall|i: int| 0 <= i < end.len() ==> CharClass::White.has(#[trigger] end[i]),
        word.len() > 0 ==> !CharClass::White.has(word[0]) && !CharClass::White.has(word.last()),
    ensures
        is_on(front + word + end) <==> {
            let small = word.map_values(|c: char| lower(c));
            small == "1"@ || small == "true"@ || small == "yes"@ || small == "on"@
        },
{
    surroundings_are_trimmed(front, word, end, CharClass::White);
    trimmed_text_is_kept(word, CharClass::White);
    assert(lowercase(word) =~= word.map_values(|c: char| lower(c)));
}

/// An address inside the bucket is the path behind the bucket's name.
pub proof fn addresses_lie_in_the_bucket(bucket: Seq<char>, sub: Seq<char>)
    requires
        sub.len() > 0 ==> sub[0] != '/',
    ensures
        s3_address(bucket, sub) == "s3://"@ + bucket + "/"@ + sub,
{
}

/// Whether a variable of this name sets anything.
pub open spec fn is_setting(name: Seq<char>) -> bool {
    ||| name == "AWS_ENDPOINT"@
    ||| name == "AWS_ACCESS_KEY_ID"@
    ||| name == "AWS_SECRET_ACCESS_KEY"@
    ||| name == "AWS_REGION"@
    ||| name == "AWS_ALLOW_HTTP"@
    ||| name == "BENCH_S3_BUCKET"@
    ||| name == "BENCH_WAREHOUSE"@
    ||| name == "LAKECAT_BASE"@
    ||| name == "NESSIE_BASE"@
    ||| name == "GRAVITINO_BASE"@
    ||| name == "POLARIS_BASE"@
}

/// With none of the documented variables set, the configuration is the documented one.
pub proof fn defaults_are_documented(vars: Seq<(Seq<char>, Seq<char>)>)
    requires
        forall|i: int| 0 <= i < vars.len() ==> !is_setting((#[trigger] vars[i]).0),
    ensures
        config_of(vars) == (ConfigModel {
            s3_endpoint: "http://127.0.0.1:9000"@,
            s3_access_key: "admin"@,
            s3_secret_key: "password"@,
            s3_region: "us-east-1"@,
            s3_allow_http: true,
            s3_bucket: "warehouse"@,
            warehouse: "warehouse"@,
            lakecat_base: "http://127.0.0.1:8181/catalog"@,
            nessie_base: "http://127.0.0.1:19120/iceberg"@,
            gravitino_base: "http://127.0.0.1:9001/iceberg"@,
            polaris_base: "http://127.0.0.1:8182/api/catalog"@,
        }),
{
    unset_means_default(vars, "AWS_ENDPOINT"@, "http://127.0.0.1:9000"@, true);
    unset_means_default(vars, "AWS_ACCESS_KEY_ID"@, "admin"@, true);
    unset_means_default(vars, "AWS_SECRET_ACCESS_KEY"@, "password"@, true);
    unset_means_default(vars, "AWS_REGION"@, "us-east-1"@, true);
    unset_means_default(vars, "AWS_ALLOW_HTTP"@, ""@, true);
    unset_means_default(vars, "BENCH_S3_BUCKET"@, "warehouse"@, true);
    unset_means_default(vars, "BENCH_WAREHOUSE"@, "warehouse"@, true);
    unset_means_default(vars, "LAKECAT_BASE"@, "http://127.0.0.1:8181/catalog"@, true);
    unset_means_default(vars, "NESSIE_BASE"@, "http://127.0.0.1:19120/iceberg"@, true);
    unset_means_default(vars, "GRAVITINO_BASE"@, "http://127.0.0.1:9001/iceberg"@, true);
    unset_means_default(vars, "POLARIS_BASE"@, "http://127.0.0.1:8182/api/catalog"@, true);
}

/// Slashes in front of a path inside the bucket make no difference to its address, however
/// many there are.
pub proof fn leading_slashes_do_not_matter(bucket: Seq<char>, sub: Seq<char>, k: nat)
    ensures
        s3_address(bucket, repeat('/', k) + sub) == s3_address(bucket, sub),
    decreases k,
{
    let s = repeat('/', k) + sub;
    if k == 0 {
        assert(s =~= sub);
    } else {
        assert(s[0] == '/');
        assert(s.skip(1) =~= repeat('/', (k - 1) as nat) + sub);
        leading_slashes_do_not_matter(bucket, sub, (k - 1) as nat);
    }
}

} // verus!
