//! Requests to an Iceberg REST catalog, and what its replies mean.
//!
//! A [`Catalog`] knows where a catalog is and how to address it; from that it builds each
//! [`Request`] of a benchmark in full: method, URL, headers and JSON body. Sending a
//! request and reading the reply is left to the caller, who hands the reply's status and
//! bytes back to the functions at the end of this module.

use crate::columns::{batch_schema, ColumnKind};
use crate::json::{
    has_members, holds, items_model, keys_differ, lacks, list, members_model, no_items,
    no_members, object, objects_hold_their_members, optional_model, put, put_item, text, Json, JsonModel, Member,
};
use crate::report::optional_text;
use crate::text::{
    decimal, decimal_text, lemma_decimal_digits, lemma_decimal_value, repeat, strip_end, trim_end,
    CharClass,
};
use vstd::prelude::*;
use vstd::string::*;

verus! {

/// An Iceberg REST catalog.
#[derive(Debug, Clone)]
pub struct Catalog {
    /// Base URL up to and including any catalog-specific path prefix.
    pub base_url: String,
    /// Iceberg REST prefix segment (warehouse/catalog/metalake). May be empty.
    pub prefix: String,
    /// Optional bearer token.
    pub token: Option<String>,
    /// Path suffix appended to the table URL for a commit.
    pub commit_suffix: String,
    /// Optional explicit table location for new tables.
    pub location: Option<String>,
}

/// The method of a request.
#[derive(Debug, Clone, Copy, PartialEq, Eq, Structural)]
pub enum Method {
    Get,
    Post,
}

/// A request, ready to be sent.
#[derive(Debug)]
pub struct Request {
    pub method: Method,
    pub url: String,
    /// The bearer token of the `Authorization` header.
    pub bearer: Option<String>,
    /// The `Idempotency-Key` header.
    pub idempotency_key: Option<String>,
    /// The JSON body.
    pub body: Option<Json>,
}

/// What a [`Request`] says.
pub struct RequestModel {
    pub method: Method,
    pub url: Seq<char>,
    pub bearer: Option<Seq<char>>,
    pub idempotency_key: Option<Seq<char>>,
    pub body: Option<JsonModel>,
}

impl View for Request {
    type V = RequestModel;

    open spec fn view(&self) -> RequestModel {
        RequestModel {
            method: self.method,
            url: self.url@,
            bearer: optional_text(self.bearer),
            idempotency_key: optional_text(self.idempotency_key),
            body: optional_model(self.body),
        }
    }
}

/// Which benchmark a table is created for.
#[derive(Debug, Clone, Copy, PartialEq, Eq, Structural)]
pub enum Workload {
    /// Commits without data files: one column, and a counter among the properties.
    Commit,
    /// Data files with commits: three columns, and a number of files among the properties.
    WriteData,
}

/// The URL of `tail` below the catalog's `/v1`, with the prefix between them unless it is
/// empty.
pub open spec fn scoped_url(base: Seq<char>, prefix: Seq<char>, tail: Seq<char>) -> Seq<char> {
    let root = trim_end(base, CharClass::Slash) + "/v1/"@;
    if prefix.len() == 0 {
        root + tail
    } else {
        root + prefix + "/"@ + tail
    }
}

/// The path of a namespace's tables.
pub open spec fn tables_tail(ns: Seq<char>) -> Seq<char> {
    "namespaces/"@ + ns + "/tables"@
}

/// The path of a table.
pub open spec fn table_tail(ns: Seq<char>, table: Seq<char>) -> Seq<char> {
    "namespaces/"@ + ns + "/tables/"@ + table
}

/// A member of an object.
pub open spec fn member(key: Seq<char>, value: JsonModel) -> (Seq<char>, JsonModel) {
    (key, value)
}

/// The members of the body that creates a namespace.
pub open spec fn namespace_members(ns: Seq<char>) -> Seq<(Seq<char>, JsonModel)> {
    seq![
        member("namespace"@, JsonModel::List(seq![JsonModel::Text(ns)])),
        member("properties"@, JsonModel::Object(seq![])),
    ]
}

/// The members of an optional column of a table schema.
pub open spec fn field_members(id: u64, name: Seq<char>, kind: Seq<char>) -> Seq<
    (Seq<char>, JsonModel),
> {
    seq![
        member("id"@, JsonModel::Unsigned(id)),
        member("name"@, JsonModel::Text(name)),
        member("required"@, JsonModel::Bool(false)),
        member("type"@, JsonModel::Text(kind)),
    ]
}

/// The columns of a benchmark's table.
pub open spec fn fields_of(w: Workload) -> Seq<JsonModel> {
    match w {
        Workload::Commit => seq![JsonModel::Object(field_members(1, "id"@, "long"@))],
        Workload::WriteData => seq![
            JsonModel::Object(field_members(1, "id"@, "long"@)),
            JsonModel::Object(field_members(2, "name"@, "string"@)),
            JsonModel::Object(field_members(3, "value"@, "double"@)),
        ],
    }
}

/// The property of a benchmark's table that its commits change.
pub open spec fn property_of(w: Workload) -> Seq<char> {
    match w {
        Workload::Commit => "bench.counter"@,
        Workload::WriteData => "bench.files"@,
    }
}

/// The members of a table schema.
pub open spec fn schema_members(fields: Seq<JsonModel>) -> Seq<(Seq<char>, JsonModel)> {
    seq![
        member("type"@, JsonModel::Text("struct"@)),
        member("schema-id"@, JsonModel::Unsigned(0)),
        member("fields"@, JsonModel::List(fields)),
    ]
}

/// The members of the body that creates a table, but for its location.
pub open spec fn table_members(w: Workload, table: Seq<char>) -> Seq<(Seq<char>, JsonModel)> {
    seq![
        member("name"@, JsonModel::Text(table)),
        member("schema"@, JsonModel::Object(schema_members(fields_of(w)))),
        member(
            "properties"@,
            JsonModel::Object(seq![member(property_of(w), JsonModel::Text("0"@))]),
        ),
        member("stage-create"@, JsonModel::Bool(false)),
    ]
}

/// The body that creates a table.
pub open spec fn table_body(
    w: Workload,
    table: Seq<char>,
    location: Option<Seq<char>>,
) -> JsonModel {
    match location {
        Some(at) => JsonModel::Object(
            table_members(w, table).push(member("location"@, JsonModel::Text(at))),
        ),
        None => JsonModel::Object(table_members(w, table)),
    }
}

/// The members of the requirement that a table still has this UUID.
pub open spec fn requirement_members(uuid: Seq<char>) -> Seq<(Seq<char>, JsonModel)> {
    seq![
        member("type"@, JsonModel::Text("assert-table-uuid"@)),
        member("uuid"@, JsonModel::Text(uuid)),
    ]
}

/// The members of the update that sets properties of a table.
pub open spec fn update_members(properties: Seq<(Seq<char>, JsonModel)>) -> Seq<
    (Seq<char>, JsonModel),
> {
    seq![
        member("action"@, JsonModel::Text("set-properties"@)),
        member("updates"@, JsonModel::Object(properties)),
    ]
}

/// The members of the body of a `set-properties` commit on the table with this UUID.
pub open spec fn commit_members(
    uuid: Seq<char>,
    properties: Seq<(Seq<char>, JsonModel)>,
) -> Seq<(Seq<char>, JsonModel)> {
    seq![
        member(
            "requirements"@,
            JsonModel::List(seq![JsonModel::Object(requirement_members(uuid))]),
        ),
        member(
            "updates"@,
            JsonModel::List(seq![JsonModel::Object(update_members(properties))]),
        ),
    ]
}

/// The properties that a commit of the commit benchmark sets.
pub open spec fn counter_properties(counter: nat) -> Seq<(Seq<char>, JsonModel)> {
    seq![member("bench.counter"@, JsonModel::Text(decimal(counter)))]
}

/// The properties that record the `n`th data file.
pub open spec fn file_properties(n: nat, file_uri: Seq<char>) -> Seq<(Seq<char>, JsonModel)> {
    seq![
        member("bench.files"@, JsonModel::Text(decimal(n))),
        member("bench.last_file"@, JsonModel::Text(file_uri)),
    ]
}

/// The idempotency key of a commit.
pub open spec fn idempotency_key(uuid: Seq<char>, counter: nat) -> Seq<char> {
    "bench-"@ + uuid + "-"@ + decimal(counter)
}

fn field(id: u64, name: &str, kind: &str) -> (j: Json)
    ensures
        j@ == JsonModel::Object(field_members(id, name@, kind@)),
{
    let mut m = no_members();
    put(&mut m, "id", Json::Unsigned(id));
    put(&mut m, "name", text(name));
    put(&mut m, "required", Json::Bool(false));
    put(&mut m, "type", text(kind));
    assert(members_model(m@) =~= field_members(id, name@, kind@));
    object(m)
}

fn fields(w: Workload) -> (v: Vec<Json>)
    ensures
        items_model(v@) == fields_of(w),
{
    let mut v = no_items();
    put_item(&mut v, field(1, "id", "long"));
    match w {
        Workload::Commit => {},
        Workload::WriteData => {
            put_item(&mut v, field(2, "name", "string"));
            put_item(&mut v, field(3, "value", "double"));
        },
    }
    v
}

fn set_properties(uuid: &str, properties: Vec<Member>) -> (j: Json)
    ensures
        j@ == JsonModel::Object(commit_members(uuid@, members_model(properties@))),
{
    let mut requirement = no_members();
    put(&mut requirement, "type", text("assert-table-uuid"));
    put(&mut requirement, "uuid", text(uuid));
    assert(members_model(requirement@) =~= requirement_members(uuid@));
    let mut requirements = no_items();
    put_item(&mut requirements, object(requirement));

    let ghost set = members_model(properties@);
    let mut update = no_members();
    put(&mut update, "action", text("set-properties"));
    put(&mut update, "updates", object(properties));
    assert(members_model(update@) =~= update_members(set));
    let mut updates = no_items();
    put_item(&mut updates, object(update));

    let mut body = no_members();
    put(&mut body, "requirements", list(requirements));
    put(&mut body, "updates", list(updates));
    assert(members_model(body@) =~= commit_members(uuid@, set));
    object(body)
}

impl Catalog {
    /// The URL of `tail` in this catalog.
    pub open spec fn url_of(&self, tail: Seq<char>) -> Seq<char> {
        scoped_url(self.base_url@, self.prefix@, tail)
    }

    /// The request that creates a namespace.
    pub open spec fn namespace_request(&self, ns: Seq<char>) -> RequestModel {
        RequestModel {
            method: Method::Post,
            url: self.url_of("namespaces"@),
            bearer: optional_text(self.token),
            idempotency_key: None,
            body: Some(JsonModel::Object(namespace_members(ns))),
        }
    }

    /// The request that creates a benchmark's table.
    pub open spec fn table_request(
        &self,
        ns: Seq<char>,
        table: Seq<char>,
        workload: Workload,
    ) -> RequestModel {
        RequestModel {
            method: Method::Post,
            url: self.url_of(tables_tail(ns)),
            bearer: optional_text(self.token),
            idempotency_key: None,
            body: Some(table_body(workload, table, optional_text(self.location))),
        }
    }

    /// The request that loads a table.
    pub open spec fn load_request(&self, ns: Seq<char>, table: Seq<char>) -> RequestModel {
        RequestModel {
            method: Method::Get,
            url: self.url_of(table_tail(ns, table)),
            bearer: optional_text(self.token),
            idempotency_key: None,
            body: None,
        }
    }

    /// The request that commits a counter.
    pub open spec fn commit_request(
        &self,
        ns: Seq<char>,
        table: Seq<char>,
        uuid: Seq<char>,
        counter: nat,
        idem: bool,
    ) -> RequestModel {
        RequestModel {
            method: Method::Post,
            url: self.url_of(table_tail(ns, table)) + self.commit_suffix@,
            bearer: optional_text(self.token),
            idempotency_key: if idem {
                Some(idempotency_key(uuid, counter))
            } else {
                None
            },
            body: Some(JsonModel::Object(commit_members(uuid, counter_properties(counter)))),
        }
    }

    /// The request that records a data file.
    pub open spec fn file_request(
        &self,
        ns: Seq<char>,
        table: Seq<char>,
        uuid: Seq<char>,
        n: nat,
        file_uri: Seq<char>,
    ) -> RequestModel {
        RequestModel {
            method: Method::Post,
            url: self.url_of(table_tail(ns, table)),
            bearer: optional_text(self.token),
            idempotency_key: None,
            body: Some(JsonModel::Object(commit_members(uuid, file_properties(n, file_uri)))),
        }
    }

    /// The URL of a path below the catalog's scope.
    pub fn scoped(&self, tail: &str) -> (r: String)
        ensures
            r@ == self.url_of(tail@),
    {
        let mut out = strip_end(&self.base_url, CharClass::Slash);
        out.append("/v1/");
        if !self.prefix.as_str().is_empty() {
            out.append(&self.prefix);
            out.append("/");
        }
        out.append(tail);
        out
    }

    /// The URL of the namespaces.
    pub fn namespaces_path(&self) -> (r: String)
        ensures
            r@ == self.url_of("namespaces"@),
    {
        self.scoped("namespaces")
    }

    /// The URL of the tables of a namespace.
    pub fn tables_path(&self, ns: &str) -> (r: String)
        ensures
            r@ == self.url_of(tables_tail(ns@)),
    {
        let mut tail = "namespaces/".to_owned();
        tail.append(ns);
        tail.append("/tables");
        self.scoped(&tail)
    }

    /// The URL of a table.
    pub fn table_path(&self, ns: &str, table: &str) -> (r: String)
        ensures
            r@ == self.url_of(table_tail(ns@, table@)),
    {
        let mut tail = "namespaces/".to_owned();
        tail.append(ns);
        tail.append("/tables/");
        tail.append(table);
        self.scoped(&tail)
    }

    /// The request that creates a namespace.
    pub fn create_namespace(&self, ns: &str) -> (r: Request)
        ensures
            r@ == self.namespace_request(ns@),
    {
        let mut levels = no_items();
        put_item(&mut levels, text(ns));
        let mut body = no_members();
        put(&mut body, "namespace", list(levels));
        put(&mut body, "properties", object(no_members()));
        assert(members_model(body@) =~= namespace_members(ns@));
        Request {
            method: Method::Post,
            url: self.namespaces_path(),
            bearer: self.token.clone(),
            idempotency_key: None,
            body: Some(object(body)),
        }
    }

    /// The request that creates a benchmark's table.
    pub fn create_table(&self, ns: &str, table: &str, workload: Workload) -> (r: Request)
        ensures
            r@ == self.table_request(ns@, table@, workload),
    {
        let mut schema = no_members();
        put(&mut schema, "type", text("struct"));
        put(&mut schema, "schema-id", Json::Unsigned(0));
        put(&mut schema, "fields", list(fields(workload)));
        assert(members_model(schema@) =~= schema_members(fields_of(workload)));
        let mut properties = no_members();
        match workload {
            Workload::Commit => {
                put(&mut properties, "bench.counter", text("0"));
            },
            Workload::WriteData => {
                put(&mut properties, "bench.files", text("0"));
            },
        }
        let mut body = no_members();
        put(&mut body, "name", text(table));
        put(&mut body, "schema", object(schema));
        put(&mut body, "properties", object(properties));
        // Optional for most catalogs, but Nessie requires it; harmless elsewhere.
        put(&mut body, "stage-create", Json::Bool(false));
        assert(members_model(body@) =~= table_members(workload, table@));
        if let Some(at) = &self.location {
            put(&mut body, "location", text(at));
        }
        Request {
            method: Method::Post,
            url: self.tables_path(ns),
            bearer: self.token.clone(),
            idempotency_key: None,
            body: Some(object(body)),
        }
    }

    /// The request that loads a table.
    pub fn load_table(&self, ns: &str, table: &str) -> (r: Request)
        ensures
            r@ == self.load_request(ns@, table@),
    {
        Request {
            method: Method::Get,
            url: self.table_path(ns, table),
            bearer: self.token.clone(),
            idempotency_key: None,
            body: None,
        }
    }

    /// One `set-properties` commit that writes `counter`.
    pub fn commit(&self, ns: &str, table: &str, uuid: &str, counter: u64, idem: bool) -> (r:
        Request)
        ensures
            r@ == self.commit_request(ns@, table@, uuid@, counter as nat, idem),
    {
        let count = decimal_text(counter);
        let mut properties = no_members();
        put(&mut properties, "bench.counter", text(&count));
        let mut url = self.table_path(ns, table);
        url.append(&self.commit_suffix);
        let idempotency_key = if idem {
            let mut key = "bench-".to_owned();
            key.append(uuid);
            key.append("-");
            key.append(&count);
            Some(key)
        } else {
            None
        };
        Request {
            method: Method::Post,
            url,
            bearer: self.token.clone(),
            idempotency_key,
            body: Some(set_properties(uuid, properties)),
        }
    }

    /// A `set-properties` commit that records the data file just written, the `n`th one.
    pub fn commit_file(&self, ns: &str, table: &str, uuid: &str, n: u64, file_uri: &str) -> (r:
        Request)
        ensures
            r@ == self.file_request(ns@, table@, uuid@, n as nat, file_uri@),
    {
        let mut properties = no_members();
        put(&mut properties, "bench.files", text(&decimal_text(n)));
        put(&mut properties, "bench.last_file", text(file_uri));
        assert(members_model(properties@) =~= file_properties(n as nat, file_uri@));
        Request {
            method: Method::Post,
            url: self.table_path(ns, table),
            bearer: self.token.clone(),
            idempotency_key: None,
            body: Some(set_properties(uuid, properties)),
        }
    }
}

/// Every request carries the catalog's token, and none carries one that the catalog does not
/// have.
pub proof fn every_request_is_authorized(
    c: Catalog,
    ns: Seq<char>,
    table: Seq<char>,
    w: Workload,
    uuid: Seq<char>,
    n: nat,
    idem: bool,
    uri: Seq<char>,
)
    ensures
        ({
            let token = match c.token {
                Some(t) => Some(t@),
                None => None,
            };
            &&& c.namespace_request(ns).bearer == token
            &&& c.table_request(ns, table, w).bearer == token
            &&& c.load_request(ns, table).bearer == token
            &&& c.commit_request(ns, table, uuid, n, idem).bearer == token
            &&& c.file_request(ns, table, uuid, n, uri).bearer == token
        }),
{
}

/// Loading a table is the only request that reads, and the only one without a body.
pub proof fn only_loading_reads(
    c: Catalog,
    ns: Seq<char>,
    table: Seq<char>,
    w: Workload,
    uuid: Seq<char>,
    n: nat,
    idem: bool,
    uri: Seq<char>,
)
    ensures
        c.load_request(ns, table).method == Method::Get,
        c.load_request(ns, table).body is None,
        c.namespace_request(ns).method == Method::Post,
        c.namespace_request(ns).body is Some,
        c.table_request(ns, table, w).method == Method::Post,
        c.table_request(ns, table, w).body is Some,
        c.commit_request(ns, table, uuid, n, idem).method == Method::Post,
        c.commit_request(ns, table, uuid, n, idem).body is Some,
        c.file_request(ns, table, uuid, n, uri).method == Method::Post,
        c.file_request(ns, table, uuid, n, uri).body is Some,
{
}

/// A prefix is one more segment in front of every path of the catalog.
pub proof fn a_prefix_is_a_segment(base: Seq<char>, prefix: Seq<char>, tail: Seq<char>)
    requires
        prefix.len() > 0,
    ensures
        scoped_url(base, prefix, tail) == scoped_url(base, Seq::empty(), prefix + "/"@ + tail),
{
    let root = trim_end(base, CharClass::Slash) + "/v1/"@;
    assert(root + prefix + "/"@ + tail =~= root + (prefix + "/"@ + tail));
}

/// Every path of a catalog without a prefix stands behind its base URL and `/v1/`.
pub proof fn paths_stand_below_the_base(base: Seq<char>, tail: Seq<char>)
    requires
        base.len() == 0 || base.last() != '/',
    ensures
        scoped_url(base, Seq::empty(), tail) == base + "/v1/"@ + tail,
{
}

/// A catalog is addressed at its own base URL, and inside its own prefix where it has one.
pub proof fn catalogs_are_at_their_base(c: Catalog, tail: Seq<char>)
    requires
        c.base_url@.len() == 0 || c.base_url@.last() != '/',
    ensures
        c.prefix@.len() == 0 ==> c.url_of(tail) == c.base_url@ + "/v1/"@ + tail,
        c.prefix@.len() > 0 ==> c.url_of(tail) == c.base_url@ + "/v1/"@ + c.prefix@ + "/"@ + tail,
{
}

/// Tables are found below their namespace, which is found below the namespaces; a table is
/// created among the tables of its namespace, loaded and recorded in by its own URL, and
/// committed to there too, with the commit suffix behind it.
pub proof fn urls_are_nested(
    c: Catalog,
    ns: Seq<char>,
    table: Seq<char>,
    w: Workload,
    uuid: Seq<char>,
    n: nat,
    idem: bool,
    uri: Seq<char>,
)
    ensures
        c.namespace_request(ns).url == c.url_of("namespaces"@),
        c.table_request(ns, table, w).url == c.namespace_request(ns).url + "/"@ + ns + "/tables"@,
        c.load_request(ns, table).url == c.table_request(ns, table, w).url + "/"@ + table,
        c.commit_request(ns, table, uuid, n, idem).url == c.load_request(ns, table).url
            + c.commit_suffix@,
        c.file_request(ns, table, uuid, n, uri).url == c.load_request(ns, table).url,
{
    reveal_strlit("namespaces");
    reveal_strlit("namespaces/");
    reveal_strlit("/");
    reveal_strlit("/tables");
    reveal_strlit("/tables/");
    assert("namespaces/"@ =~= "namespaces"@ + "/"@);
    assert("/tables/"@ =~= "/tables"@ + "/"@);
    let root = c.url_of(Seq::empty());
    let (names, slash, tables) = ("namespaces"@, "/"@, "/tables"@);
    assert(c.url_of(names) =~= root + names);
    assert(c.url_of(tables_tail(ns)) =~= root + tables_tail(ns));
    assert(c.url_of(table_tail(ns, table)) =~= root + table_tail(ns, table));
    assert(tables_tail(ns) =~= names + slash + ns + tables);
    assert(table_tail(ns, table) =~= names + slash + ns + tables + slash + table);
    assert(root + tables_tail(ns) =~= root + names + slash + ns + tables);
    assert(root + table_tail(ns, table) =~= root + names + slash + ns + tables + slash + table);
}

/// A commit of a counter has an idempotency key exactly if it is asked for, and then one
/// that names the table and ends with the counter; no other request has one.
pub proof fn keys_are_sent_on_request(
    c: Catalog,
    ns: Seq<char>,
    table: Seq<char>,
    w: Workload,
    uuid: Seq<char>,
    n: nat,
    uri: Seq<char>,
)
    ensures
        c.commit_request(ns, table, uuid, n, false).idempotency_key is None,
        c.commit_request(ns, table, uuid, n, true).idempotency_key == Some(
            "bench-"@ + uuid + "-"@ + decimal(n),
        ),
        c.namespace_request(ns).idempotency_key is None,
        c.table_request(ns, table, w).idempotency_key is None,
        c.load_request(ns, table).idempotency_key is None,
        c.file_request(ns, table, uuid, n, uri).idempotency_key is None,
{
}

/// Creating a namespace names it as its only level, and gives it no properties.
pub proof fn namespaces_are_named(c: Catalog, ns: Seq<char>)
    ensures
        ({
            let body = c.namespace_request(ns).body->0;
            &&& holds(body, "namespace"@, JsonModel::List(seq![JsonModel::Text(ns)]))
            &&& holds(body, "properties"@, JsonModel::Object(seq![]))
            &&& has_members(body, 2)
        }),
{
    reveal_strlit("namespace");
    reveal_strlit("properties");
    let m = namespace_members(ns);
    assert("namespace"@.len() == 9 && "properties"@.len() == 10);
    assert(m[0].0 == "namespace"@ && m[1].0 == "properties"@);
    objects_hold_their_members(m);
}

proof fn lemma_table_keys(w: Workload, table: Seq<char>, location: Option<Seq<char>>)
    ensures
        table_body(w, table, location) is Object,
        keys_differ(table_body(w, table, location)->Object_0),
        keys_differ(schema_members(fields_of(w))),
{
    reveal_strlit("name");
    reveal_strlit("schema");
    reveal_strlit("properties");
    reveal_strlit("stage-create");
    reveal_strlit("location");
    assert("name"@.len() == 4 && "schema"@.len() == 6 && "properties"@.len() == 10);
    assert("stage-create"@.len() == 12 && "location"@.len() == 8);
    reveal_strlit("type");
    reveal_strlit("schema-id");
    reveal_strlit("fields");
    assert("type"@.len() == 4 && "schema-id"@.len() == 9 && "fields"@.len() == 6);
}

/// A table is created where the catalog wants it: the body has a location exactly if the
/// catalog has one, and then that one, for either benchmark.
pub proof fn tables_are_placed(c: Catalog, ns: Seq<char>, table: Seq<char>, w: Workload)
    ensures
        ({
            let body = c.table_request(ns, table, w).body->0;
            match c.location {
                Some(at) => holds(body, "location"@, JsonModel::Text(at@)),
                None => lacks(body, "location"@),
            }
        }),
{
    let location = optional_text(c.location);
    lemma_table_keys(w, table, location);
    let m = table_body(w, table, location)->Object_0;
    objects_hold_their_members(m);
    match location {
        Some(at) => {
            assert(m[4].0 == "location"@ && m[4].1 == JsonModel::Text(at));
        },
        None => {
            lemma_table_keys(w, table, Some(Seq::empty()));
            let more = table_body(w, table, Some(Seq::<char>::empty()))->Object_0;
            assert forall|i: int| 0 <= i < m.len() implies (#[trigger] m[i]).0 != "location"@ by {
                assert(m[i] == more[i]);
                assert(more[i].0 != more[4].0);
            }
        },
    }
}

/// A table is created under its name, not only staged, with the benchmark's columns, and
/// with the property at zero that the benchmark's commits then set.
pub proof fn tables_are_described(
    c: Catalog,
    ns: Seq<char>,
    table: Seq<char>,
    w: Workload,
)
    ensures
        ({
            let body = c.table_request(ns, table, w).body->0;
            let schema = JsonModel::Object(schema_members(fields_of(w)));
            let property = match w {
                Workload::Commit => counter_properties(0)[0].0,
                Workload::WriteData => file_properties(0, Seq::empty())[0].0,
            };
            &&& holds(body, "name"@, JsonModel::Text(table))
            &&& holds(body, "stage-create"@, JsonModel::Bool(false))
            &&& holds(body, "schema"@, schema)
            &&& holds(
                body,
                "properties"@,
                JsonModel::Object(seq![(property, JsonModel::Text("0"@))]),
            )
            &&& holds(schema, "type"@, JsonModel::Text("struct"@))
            &&& holds(schema, "schema-id"@, JsonModel::Unsigned(0))
            &&& holds(schema, "fields"@, JsonModel::List(fields_of(w)))
            &&& has_members(schema, 3)
            &&& has_members(
                body,
                if c.location is Some {
                    5
                } else {
                    4
                },
            )
        }),
{
    let location = optional_text(c.location);
    lemma_table_keys(w, table, location);
    let m = table_body(w, table, location)->Object_0;
    let schema = schema_members(fields_of(w));
    objects_hold_their_members(m);
    objects_hold_their_members(schema);
    assert(m[0].0 == "name"@ && m[1].0 == "schema"@ && m[2].0 == "properties"@);
    assert(m[3].0 == "stage-create"@);
    assert(m[2].1->Object_0 =~= seq![(property_of(w), JsonModel::Text("0"@))]);
    assert(schema[0].0 == "type"@ && schema[1].0 == "schema-id"@ && schema[2].0 == "fields"@);
}

/// How a catalog calls the values of a column.
pub open spec fn kind_word(kind: ColumnKind) -> Seq<char> {
    match kind {
        ColumnKind::Int64 => "long"@,
        ColumnKind::Float64 => "double"@,
        ColumnKind::Utf8 => "string"@,
    }
}

/// Whether a document describes the column with this number, which need not have values.
pub open spec fn describes(
    field: JsonModel,
    id: int,
    column: (Seq<char>, ColumnKind, bool),
) -> bool {
    &&& 0 <= id <= u64::MAX
    &&& holds(field, "id"@, JsonModel::Unsigned(id as u64))
    &&& holds(field, "name"@, JsonModel::Text(column.0))
    &&& holds(field, "required"@, JsonModel::Bool(false))
    &&& holds(field, "type"@, JsonModel::Text(kind_word(column.1)))
    &&& has_members(field, 4)
}

proof fn lemma_field(id: u64, column: (Seq<char>, ColumnKind, bool))
    ensures
        describes(
            JsonModel::Object(field_members(id, column.0, kind_word(column.1))),
            id as int,
            column,
        ),
{
    reveal_strlit("id");
    reveal_strlit("name");
    reveal_strlit("required");
    reveal_strlit("type");
    assert("id"@.len() == 2 && "name"@[0] == 'n' && "type"@[0] == 't' && "required"@.len() == 8);
    assert("name"@.len() == 4 && "type"@.len() == 4);
    let m = field_members(id, column.0, kind_word(column.1));
    objects_hold_their_members(m);
    assert(m[0].0 == "id"@ && m[1].0 == "name"@ && m[2].0 == "required"@ && m[3].0 == "type"@);
}

/// The table of the write benchmark has the columns of its data files, in their order and
/// numbered from one.
pub proof fn tables_fit_the_data_files()
    ensures
        fields_of(Workload::WriteData).len() == batch_schema().len(),
        forall|i: int|
            0 <= i < batch_schema().len() ==> describes(
                #[trigger] fields_of(Workload::WriteData)[i],
                i + 1,
                batch_schema()[i],
            ),
{
    let f = fields_of(Workload::WriteData);
    let cols = batch_schema();
    lemma_field(1, cols[0]);
    lemma_field(2, cols[1]);
    lemma_field(3, cols[2]);
    assert(describes(f[0], 1, cols[0]));
    assert(describes(f[1], 2, cols[1]));
    assert(describes(f[2], 3, cols[2]));
}

/// The table of the commit benchmark has one column of whole numbers, `id`.
pub proof fn commit_tables_have_one_column()
    ensures
        fields_of(Workload::Commit).len() == 1,
        describes(fields_of(Workload::Commit)[0], 1, ("id"@, ColumnKind::Int64, false)),
{
    lemma_field(1, ("id"@, ColumnKind::Int64, false));
}

/// Whether a document is a commit that sets these properties, and nothing else, of the table
/// with this UUID, and of no other.
pub open spec fn sets_properties(
    body: JsonModel,
    uuid: Seq<char>,
    properties: Seq<(Seq<char>, JsonModel)>,
) -> bool {
    exists|requirement: JsonModel, update: JsonModel|
        {
            &&& #[trigger] holds(body, "requirements"@, JsonModel::List(seq![requirement]))
            &&& #[trigger] holds(body, "updates"@, JsonModel::List(seq![update]))
            &&& holds(requirement, "type"@, JsonModel::Text("assert-table-uuid"@))
            &&& holds(requirement, "uuid"@, JsonModel::Text(uuid))
            &&& holds(update, "action"@, JsonModel::Text("set-properties"@))
            &&& holds(update, "updates"@, JsonModel::Object(properties))
            &&& has_members(body, 2) && has_members(requirement, 2) && has_members(update, 2)
        }
}

proof fn lemma_sets_properties(uuid: Seq<char>, properties: Seq<(Seq<char>, JsonModel)>)
    ensures
        sets_properties(
            JsonModel::Object(commit_members(uuid, properties)),
            uuid,
            properties,
        ),
{
    reveal_strlit("requirements");
    reveal_strlit("updates");
    reveal_strlit("type");
    reveal_strlit("uuid");
    reveal_strlit("action");
    assert("requirements"@.len() == 12 && "updates"@.len() == 7 && "action"@.len() == 6);
    assert("type"@[0] == 't' && "uuid"@[0] == 'u');
    let (c, r, u) = (
        commit_members(uuid, properties),
        requirement_members(uuid),
        update_members(properties),
    );
    objects_hold_their_members(c);
    objects_hold_their_members(r);
    objects_hold_their_members(u);
    assert(c[0].0 == "requirements"@ && c[1].0 == "updates"@);
    assert(r[0].0 == "type"@ && r[1].0 == "uuid"@);
    assert(u[0].0 == "action"@ && u[1].0 == "updates"@);
    assert(holds(
        JsonModel::Object(c),
        "requirements"@,
        JsonModel::List(seq![JsonModel::Object(r)]),
    ));
    assert(holds(JsonModel::Object(c), "updates"@, JsonModel::List(seq![JsonModel::Object(u)])));
}

/// A commit of a counter sets the counter, in decimal, on the table with the UUID that it
/// was given, whether it has an idempotency key or not.
pub proof fn commits_set_the_counter(
    c: Catalog,
    ns: Seq<char>,
    table: Seq<char>,
    uuid: Seq<char>,
    n: nat,
    idem: bool,
)
    ensures
        ({
            let body = c.commit_request(ns, table, uuid, n, idem).body->0;
            sets_properties(
                body,
                uuid,
                seq![("bench.counter"@, JsonModel::Text(decimal(n)))],
            )
        }),
{
    let properties = seq![("bench.counter"@, JsonModel::Text(decimal(n)))];
    assert(counter_properties(n) =~= properties);
    lemma_sets_properties(uuid, properties);
}

/// Recording a data file sets how many there are, in decimal, and the URI of the last one.
pub proof fn files_are_recorded(
    c: Catalog,
    ns: Seq<char>,
    table: Seq<char>,
    uuid: Seq<char>,
    n: nat,
    uri: Seq<char>,
)
    ensures
        ({
            let body = c.file_request(ns, table, uuid, n, uri).body->0;
            sets_properties(
                body,
                uuid,
                seq![
                    ("bench.files"@, JsonModel::Text(decimal(n))),
                    ("bench.last_file"@, JsonModel::Text(uri)),
                ],
            )
        }),
{
    let properties = seq![
        ("bench.files"@, JsonModel::Text(decimal(n))),
        ("bench.last_file"@, JsonModel::Text(uri)),
    ];
    assert(file_properties(n, uri) =~= properties);
    lemma_sets_properties(uuid, properties);
}

/// A status reports success exactly in the two-hundreds. What was created is there with
/// every status with which a commit does not fail: success, or a conflict with status 409.
pub proof fn statuses_agree(status: u16)
    ensures
        succeeded(status) <==> status / 100 == 2,
        commit_meaning(status) == CommitReply::Committed <==> status / 100 == 2,
        commit_meaning(status) == CommitReply::Conflict <==> status == 409,
        is_there(status) <==> commit_meaning(status) != CommitReply::Failed,
{
}

/// Slashes at the end of the base URL make no difference to any URL of the catalog, however
/// many there are.
pub proof fn trailing_slashes_do_not_matter(
    base: Seq<char>,
    prefix: Seq<char>,
    tail: Seq<char>,
    k: nat,
)
    ensures
        scoped_url(base + repeat('/', k), prefix, tail) == scoped_url(base, prefix, tail),
    decreases k,
{
    let s = base + repeat('/', k);
    if k == 0 {
        assert(s =~= base);
    } else {
        assert(s.last() == '/');
        assert(s.drop_last() =~= base + repeat('/', (k - 1) as nat));
        trailing_slashes_do_not_matter(base, prefix, tail, (k - 1) as nat);
    }
}

/// Two commits have the same idempotency key only if they write the same counter to the
/// same table.
pub proof fn idempotency_keys_differ(uuid1: Seq<char>, n1: nat, uuid2: Seq<char>, n2: nat)
    requires
        idempotency_key(uuid1, n1) == idempotency_key(uuid2, n2),
    ensures
        uuid1 == uuid2,
        n1 == n2,
{
    let key = idempotency_key(uuid1, n1);
    let (d1, d2) = (decimal(n1), decimal(n2));
    let (k1, k2) = (key.len() - d1.len(), key.len() - d2.len());
    lemma_decimal_digits(n1);
    lemma_decimal_digits(n2);
    reveal_strlit("-");
    assert(key[k1 - 1] == '-');
    assert(idempotency_key(uuid2, n2)[k2 - 1] == '-');
    if k1 < k2 {
        assert(key[k2 - 1] == d1[k2 - 1 - k1]);
    } else if k2 < k1 {
        assert(idempotency_key(uuid2, n2)[k1 - 1] == d2[k1 - 1 - k2]);
    }
    assert(d1 =~= key.skip(k1));
    assert(d2 =~= idempotency_key(uuid2, n2).skip(k2));
    lemma_decimal_value(n1);
    lemma_decimal_value(n2);
    let b = "bench-"@.len() as int;
    assert(uuid1 =~= key.subrange(b, k1 - 1));
    assert(uuid2 =~= idempotency_key(uuid2, n2).subrange(b, k2 - 1));
}

/// Whether an HTTP status reports success.
pub open spec fn succeeded(status: u16) -> bool {
    200 <= status < 300
}

/// The status of a request that another one got ahead of.
pub const CONFLICT: u16 = 409;

/// What becomes of a commit.
#[derive(Debug, Clone, Copy, PartialEq, Eq, Structural)]
pub enum CommitReply {
    /// The catalog took the commit.
    Committed,
    /// Another commit got ahead of it.
    Conflict,
    /// The catalog refused the commit for another reason.
    Failed,
}

/// Whether the catalog answered a request that reads.
pub fn loaded(status: u16) -> (r: bool)
    ensures
        r == succeeded(status),
{
    200 <= status && status < 300
}

/// Whether what was to be created is there.
pub open spec fn is_there(status: u16) -> bool {
    succeeded(status) || status == CONFLICT
}

/// Whether a namespace or table is there after a request to create it: it was created,
/// or had been before.
pub fn created(status: u16) -> (r: bool)
    ensures
        r == is_there(status),
{
    loaded(status) || status == CONFLICT
}

/// The meaning of the status with which a catalog answers a commit.
pub open spec fn commit_meaning(status: u16) -> CommitReply {
    if succeeded(status) {
        CommitReply::Committed
    } else if status == CONFLICT {
        CommitReply::Conflict
    } else {
        CommitReply::Failed
    }
}

/// Tells a commit from a conflict and from a failure.
pub fn commit_reply(status: u16) -> (r: CommitReply)
    ensures
        r == commit_meaning(status),
{
    if loaded(status) {
        CommitReply::Committed
    } else if status == CONFLICT {
        CommitReply::Conflict
    } else {
        CommitReply::Failed
    }
}

/// A request that can be refused.
#[derive(Debug, Clone, Copy, PartialEq, Eq, Structural)]
pub enum Step {
    CreateNamespace,
    CreateTable,
    LoadTable,
    Commit,
}

impl Step {
    /// How a message calls the request.
    pub open spec fn title(self) -> Seq<char> {
        match self {
            Step::CreateNamespace => "create namespace"@,
            Step::CreateTable => "create table"@,
            Step::LoadTable => "loadTable"@,
            Step::Commit => "commit"@,
        }
    }
}

/// The message about a refused request.
pub open spec fn refusal_message(step: Step, status: Seq<char>, body: Seq<char>) -> Seq<char> {
    step.title() + " failed: "@ + status + " "@ + body
}

/// The message about a refused request names the request and its status, and ends with all
/// that the catalog said; no two requests are named alike.
pub proof fn refusals_tell_everything(
    step: Step,
    other: Step,
    status: Seq<char>,
    body: Seq<char>,
)
    ensures
        refusal_message(step, status, body) == refusal_message(step, status, Seq::empty()) + body,
        refusal_message(step, status, Seq::empty()) == refusal_message(
            step,
            Seq::empty(),
            Seq::empty(),
        ).drop_last() + status + " "@,
        refusal_message(step, Seq::empty(), Seq::empty()) == step.title() + " failed:  "@,
        step.title() == other.title() ==> step == other,
        step.title() == (match step {
            Step::CreateNamespace => "create namespace"@,
            Step::CreateTable => "create table"@,
            Step::LoadTable => "loadTable"@,
            Step::Commit => "commit"@,
        }),
{
    reveal_strlit(" failed: ");
    reveal_strlit(" failed:  ");
    reveal_strlit(" ");
    reveal_strlit("create namespace");
    reveal_strlit("create table");
    reveal_strlit("loadTable");
    reveal_strlit("commit");
    assert("create namespace"@.len() == 16 && "create table"@.len() == 12);
    assert("loadTable"@.len() == 9 && "commit"@.len() == 6);
    assert(refusal_message(step, status, body) =~= refusal_message(step, status, Seq::empty())
        + body);
    let none = refusal_message(step, Seq::empty(), Seq::empty());
    assert(none =~= step.title() + " failed:  "@);
    assert(none.drop_last() =~= step.title() + " failed: "@);
    assert(refusal_message(step, status, Seq::empty()) =~= none.drop_last() + status + " "@);
}

/// The message about a refused request: what was refused, with which status, and what
/// the catalog said about it.
pub fn refusal(step: Step, status: &str, body: &str) -> (r: String)
    ensures
        r@ == refusal_message(step, status@, body@),
{
    let title = match step {
        Step::CreateNamespace => "create namespace",
        Step::CreateTable => "create table",
        Step::LoadTable => "loadTable",
        Step::Commit => "commit",
    };
    let mut out = title.to_owned();
    out.append(" failed: ");
    out.append(status);
    out.append(" ");
    out.append(body);
    out
}

/// A JSON document as `serde_json` holds it.
#[verifier::external_type_specification]
#[verifier::external_body]
pub struct ExValue(serde_json::Value);

/// The reason for which `serde_json` refuses a text.
#[verifier::external_type_specification]
#[verifier::external_body]
pub struct ExError(serde_json::Error);

/// The strings that the JSON text `bytes` holds, by their JSON pointers; none where
/// `serde_json` refuses the text.
pub uninterp spec fn strings_in_text(bytes: Seq<u8>) -> Option<Map<Seq<char>, Seq<char>>>;

/// The strings that a document holds, by their JSON pointers; that of the document
/// itself is empty.
pub uninterp spec fn strings_in(v: serde_json::Value) -> Map<Seq<char>, Seq<char>>;

/// `serde_json::from_slice` reads a JSON text. The document that it gives holds the
/// strings that the text names; it refuses the texts that name none. Nothing is said of
/// the document's numbers, of the reason for which a text is refused, or of which texts
/// these are.
#[verifier::external_body]
fn parse_document(bytes: &[u8]) -> (r: Result<serde_json::Value, serde_json::Error>)
    ensures
        match r {
            Ok(v) => strings_in_text(bytes@) == Some(strings_in(v)),
            Err(_) => strings_in_text(bytes@) is None,
        },
{
    serde_json::from_slice(bytes)
}

/// `Value::pointer` gives the part of a document to which a JSON pointer leads. Where
/// that part is a string, it is the one that the whole document holds there; where the
/// pointer leads nowhere, the document holds no string there.
pub assume_specification<'a>[ serde_json::Value::pointer ](
    v: &'a serde_json::Value,
    pointer: &str,
) -> (r: Option<&'a serde_json::Value>)
    ensures
        match r {
            Some(part) => {
                &&& strings_in(*part).contains_key(Seq::empty()) == strings_in(*v).contains_key(
                    pointer@,
                )
                &&& strings_in(*v).contains_key(pointer@) ==> strings_in(*part)[Seq::empty()]
                    == strings_in(*v)[pointer@]
            },
            None => !strings_in(*v).contains_key(pointer@),
        },
;

/// `Value::as_str` gives the text of a document that is a string, and nothing of any
/// other.
pub assume_specification[ serde_json::Value::as_str ](v: &serde_json::Value) -> (r: Option<&str>)
    ensures
        match r {
            Some(s) => strings_in(*v).contains_key(Seq::empty()) && strings_in(*v)[Seq::empty()]
                == s@,
            None => !strings_in(*v).contains_key(Seq::empty()),
        },
;

/// Why no table UUID could be read from a reply.
#[derive(Debug)]
pub enum LoadError {
    /// The reply is not JSON.
    NotJson(serde_json::Error),
    /// The reply holds no string at `metadata.table-uuid`.
    MissingUuid,
}

impl LoadError {
    /// The message about a reply without a UUID; a reply that is not JSON is explained by
    /// the error that it carries.
    pub fn message(&self) -> (r: Option<String>)
        ensures
            match r {
                Some(s) => self is MissingUuid && s@ == "response missing metadata.table-uuid"@,
                None => self is NotJson,
            },
    {
        match self {
            LoadError::NotJson(_) => None,
            LoadError::MissingUuid => Some("response missing metadata.table-uuid".to_owned()),
        }
    }
}

/// Accepts what was found at `metadata.table-uuid`.
pub fn found_uuid(found: Option<&str>) -> (r: Result<String, LoadError>)
    ensures
        match found {
            Some(s) => r is Ok && r->Ok_0@ == s@,
            None => r is Err && r->Err_0 is MissingUuid,
        },
{
    match found {
        Some(s) => Ok(s.to_owned()),
        None => Err(LoadError::MissingUuid),
    }
}

/// What a reply says about the UUID of a table.
pub enum UuidModel {
    NotJson,
    Missing,
    Found(Seq<char>),
}

/// What the strings of a reply say about the UUID of a table.
pub open spec fn uuid_among(strings: Option<Map<Seq<char>, Seq<char>>>) -> UuidModel {
    match strings {
        None => UuidModel::NotJson,
        Some(m) => if m.contains_key("/metadata/table-uuid"@) {
            UuidModel::Found(m["/metadata/table-uuid"@])
        } else {
            UuidModel::Missing
        },
    }
}

/// The UUID is the string at `metadata.table-uuid`, whatever else a reply holds; a reply
/// without a string there has none.
pub proof fn uuids_stand_in_the_metadata(
    m: Map<Seq<char>, Seq<char>>,
    uuid: Seq<char>,
    other: Seq<char>,
)
    ensures
        uuid_among(Some(m.insert("/metadata/table-uuid"@, uuid))) == UuidModel::Found(uuid),
        uuid_among(Some(m.remove("/metadata/table-uuid"@))) == UuidModel::Missing,
        other != "/metadata/table-uuid"@ ==> uuid_among(Some(m.insert(other, uuid)))
            == uuid_among(Some(m)),
        uuid_among(None) == UuidModel::NotJson,
{
}

/// Reads the table's UUID from the body of the reply to a request that loads a table.
pub fn table_uuid(body: &[u8]) -> (r: Result<String, LoadError>)
    ensures
        match uuid_among(strings_in_text(body@)) {
            UuidModel::NotJson => r is Err && r->Err_0 is NotJson,
            UuidModel::Missing => r is Err && r->Err_0 is MissingUuid,
            UuidModel::Found(uuid) => r is Ok && r->Ok_0@ == uuid,
        },
{
    match parse_document(body) {
        Err(e) => Err(LoadError::NotJson(e)),
        Ok(v) => match v.pointer("/metadata/table-uuid") {
            Some(part) => found_uuid(part.as_str()),
            None => found_uuid(None),
        },
    }
}

} // verus!
