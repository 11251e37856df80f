//! JSON documents as trees of plain values.

use crate::measure::Quantity;
use crate::text::same;
use vstd::prelude::*;

verus! {

/// A JSON document.
#[derive(Debug)]
pub enum Json {
    Null,
    Bool(bool),
    Unsigned(u64),
    Signed(i64),
    Real(Quantity),
    Text(String),
    List(Vec<Json>),
    Object(Vec<Member>),
}

/// One member of a JSON object.
#[derive(Debug)]
pub struct Member {
    pub key: String,
    pub value: Json,
}

/// What a [`Json`] document says.
pub enum JsonModel {
    Null,
    Bool(bool),
    Unsigned(u64),
    Signed(i64),
    Real(Quantity),
    Text(Seq<char>),
    List(Seq<JsonModel>),
    Object(Seq<(Seq<char>, JsonModel)>),
}

/// What the document `j` says.
pub open spec fn model_of(j: Json) -> JsonModel
    decreases j,
{
    match j {
        Json::Null => JsonModel::Null,
        Json::Bool(b) => JsonModel::Bool(b),
        Json::Unsigned(n) => JsonModel::Unsigned(n),
        Json::Signed(n) => JsonModel::Signed(n),
        Json::Real(q) => JsonModel::Real(q),
        Json::Text(s) => JsonModel::Text(s@),
        Json::List(items) => JsonModel::List(
            Seq::new(
                items@.len(),
                |i: int|
                    if 0 <= i < items@.len() {
                        model_of(items@[i])
                    } else {
                        JsonModel::Null
                    },
            ),
        ),
        Json::Object(members) => JsonModel::Object(
            Seq::new(
                members@.len(),
                |i: int|
                    if 0 <= i < members@.len() {
                        (members@[i].key@, model_of(members@[i].value))
                    } else {
                        (Seq::empty(), JsonModel::Null)
                    },
            ),
        ),
    }
}

impl View for Json {
    type V = JsonModel;

    open spec fn view(&self) -> JsonModel {
        model_of(*self)
    }
}

/// What the members say, in order.
pub open spec fn members_model(v: Seq<Member>) -> Seq<(Seq<char>, JsonModel)> {
    Seq::new(v.len(), |i: int| (v[i].key@, v[i].value@))
}

/// What the items say, in order.
pub open spec fn items_model(v: Seq<Json>) -> Seq<JsonModel> {
    Seq::new(v.len(), |i: int| v[i]@)
}

/// What an optional document says.
pub open spec fn optional_model(j: Option<Json>) -> Option<JsonModel> {
    match j {
        Some(j) => Some(j@),
        None => None,
    }
}

/// Copies a document.
pub fn copy(j: &Json) -> (r: Json)
    ensures
        r@ == j@,
    decreases j,
{
    match j {
        Json::Null => Json::Null,
        Json::Bool(b) => Json::Bool(*b),
        Json::Unsigned(n) => Json::Unsigned(*n),
        Json::Signed(n) => Json::Signed(*n),
        Json::Real(q) => Json::Real(*q),
        Json::Text(s) => Json::Text(s.clone()),
        Json::List(items) => {
            let mut out: Vec<Json> = Vec::new();
            let mut i: usize = 0;
            while i < items.len()
                invariant
                    *j == Json::List(*items),
                    i <= items@.len(),
                    out@.len() == i,
                    forall|k: int| 0 <= k < i ==> (#[trigger] out@[k])@ == items@[k]@,
                decreases items.len() - i,
            {
                assert(decreases_to!(j->List_0 => j->List_0@));
                assert(decreases_to!(*j => j->List_0@[i as int]));
                out.push(copy(&items[i]));
                i += 1;
            }
            let r = Json::List(out);
            assert(r@->List_0 =~= j@->List_0);
            r
        },
        Json::Object(members) => {
            let mut out: Vec<Member> = Vec::new();
            let mut i: usize = 0;
            while i < members.len()
                invariant
                    *j == Json::Object(*members),
                    i <= members@.len(),
                    out@.len() == i,
                    forall|k: int|
                        0 <= k < i ==> (#[trigger] out@[k]).key@ == members@[k].key@
                            && out@[k].value@ == members@[k].value@,
                decreases members.len() - i,
            {
                assert(decreases_to!(j->Object_0 => j->Object_0@));
                assert(decreases_to!(*j => j->Object_0@[i as int]));
                let m = &members[i];
                out.push(Member { key: m.key.clone(), value: copy(&m.value) });
                i += 1;
            }
            let r = Json::Object(out);
            assert(r@->Object_0 =~= j@->Object_0);
            r
        },
    }
}

impl Clone for Json {
    fn clone(&self) -> (r: Json)
        ensures
            r@ == self@,
    {
        copy(self)
    }
}

/// Whether one of the members has this key.
pub open spec fn has_key(members: Seq<(Seq<char>, JsonModel)>, key: Seq<char>) -> bool {
    exists|i: int| 0 <= i < members.len() && (#[trigger] members[i]).0 == key
}

/// The members without those whose key comes again behind them.
pub open spec fn last_members(members: Seq<(Seq<char>, JsonModel)>) -> Seq<(Seq<char>, JsonModel)>
    decreases members.len(),
{
    if members.len() == 0 {
        Seq::empty()
    } else if has_key(members.skip(1), members[0].0) {
        last_members(members.skip(1))
    } else {
        seq![members[0]] + last_members(members.skip(1))
    }
}

/// A document in which, at every depth, the last member of a key has replaced the ones
/// before it.
pub open spec fn settled(j: JsonModel) -> JsonModel
    decreases j,
{
    match j {
        JsonModel::List(items) => JsonModel::List(
            Seq::new(
                items.len(),
                |i: int|
                    if 0 <= i < items.len() {
                        settled(items[i])
                    } else {
                        JsonModel::Null
                    },
            ),
        ),
        JsonModel::Object(members) => JsonModel::Object(last_members(settled_values(members))),
        _ => j,
    }
}

/// The members with their values settled.
pub open spec fn settled_values(members: Seq<(Seq<char>, JsonModel)>) -> Seq<
    (Seq<char>, JsonModel),
>
    decreases members,
{
    if members.len() == 0 {
        Seq::empty()
    } else {
        let (front, last) = (members.drop_last(), members[members.len() - 1]);
        settled_values(front).push((last.0, settled(last.1)))
    }
}

proof fn lemma_settled_values(members: Seq<(Seq<char>, JsonModel)>)
    ensures
        settled_values(members).len() == members.len(),
        forall|i: int|
            0 <= i < members.len() ==> #[trigger] settled_values(members)[i] == (
                members[i].0,
                settled(members[i].1),
            ),
    decreases members.len(),
{
    if members.len() > 0 {
        lemma_settled_values(members.drop_last());
    }
}

/// Whether no two of the members have the same key.
pub open spec fn keys_differ(members: Seq<(Seq<char>, JsonModel)>) -> bool {
    forall|i: int, k: int|
        0 <= i < k < members.len() ==> (#[trigger] members[i]).0 != (#[trigger] members[k]).0
}

/// Whether a document is an object that has this member, and no other of its key.
pub open spec fn holds(j: JsonModel, key: Seq<char>, value: JsonModel) -> bool {
    match j {
        JsonModel::Object(members) => {
            &&& keys_differ(members)
            &&& exists|i: int|
                0 <= i < members.len() && (#[trigger] members[i]).0 == key && members[i].1 == value
        },
        _ => false,
    }
}

/// Whether a document is an object without a member of this key.
pub open spec fn lacks(j: JsonModel, key: Seq<char>) -> bool {
    match j {
        JsonModel::Object(members) => forall|i: int|
            0 <= i < members.len() ==> (#[trigger] members[i]).0 != key,
        _ => false,
    }
}

/// Whether a document is an object with this many members.
pub open spec fn has_members(j: JsonModel, n: nat) -> bool {
    j matches JsonModel::Object(members) && members.len() == n
}

/// An object whose keys differ holds each of its members.
pub proof fn objects_hold_their_members(members: Seq<(Seq<char>, JsonModel)>)
    requires
        keys_differ(members),
    ensures
        forall|i: int|
            0 <= i < members.len() ==> holds(
                JsonModel::Object(members),
                (#[trigger] members[i]).0,
                members[i].1,
            ),
{
    assert forall|i: int| 0 <= i < members.len() implies holds(
        JsonModel::Object(members),
        (#[trigger] members[i]).0,
        members[i].1,
    ) by {
        let m = members;
        assert(m[i].0 == members[i].0 && m[i].1 == members[i].1);
    }
}

/// An object has no more than one value for a key.
pub proof fn members_are_unique(j: JsonModel, key: Seq<char>, a: JsonModel, b: JsonModel)
    requires
        holds(j, key, a),
        holds(j, key, b),
    ensures
        a == b,
        !lacks(j, key),
{
    let m = j->Object_0;
    let i = choose|i: int| 0 <= i < m.len() && (#[trigger] m[i]).0 == key && m[i].1 == a;
    let k = choose|k: int| 0 <= k < m.len() && (#[trigger] m[k]).0 == key && m[k].1 == b;
    assert(m[i].0 == m[k].0);
}

/// Whether no object of a document, at any depth, has a key twice.
pub open spec fn names_no_key_twice(j: JsonModel) -> bool
    decreases j,
{
    match j {
        JsonModel::List(items) => forall|i: int|
            0 <= i < items.len() ==> names_no_key_twice(#[trigger] items[i]),
        JsonModel::Object(members) => {
            &&& keys_differ(members)
            &&& forall|i: int|
                0 <= i < members.len() ==> names_no_key_twice((#[trigger] members[i]).1)
        },
        _ => true,
    }
}

proof fn lemma_last_members(members: Seq<(Seq<char>, JsonModel)>)
    ensures
        keys_differ(last_members(members)),
        forall|i: int|
            0 <= i < last_members(members).len() ==> members.contains(
                #[trigger] last_members(members)[i],
            ),
        keys_differ(members) ==> last_members(members) == members,
    decreases members.len(),
{
    if members.len() > 0 {
        let (first, rest) = (members[0], members.skip(1));
        let out = last_members(members);
        lemma_last_members(rest);
        assert(members =~= seq![first] + rest);
        assert forall|i: int| 0 <= i < out.len() implies members.contains(#[trigger] out[i]) by {
            let tail = last_members(rest);
            if out == tail || i > 0 {
                let k = if out == tail {
                    i
                } else {
                    i - 1
                };
                assert(out[i] == tail[k]);
                let m = choose|m: int| 0 <= m < rest.len() && rest[m] == tail[k];
                assert(members[m + 1] == out[i]);
            } else {
                assert(members[0] == out[i]);
            }
        }
        if !has_key(rest, first.0) {
            let tail = last_members(rest);
            assert forall|k: int| 0 <= k < tail.len() implies (#[trigger] tail[k]).0
                != first.0 by {
                let m = choose|m: int| 0 <= m < rest.len() && rest[m] == tail[k];
                assert(rest[m].0 != first.0);
            }
            assert forall|i: int, k: int| 0 <= i < k < out.len() implies (#[trigger] out[i]).0 != (
            #[trigger] out[k]).0 by {
                assert(out[k] == tail[k - 1]);
                if i > 0 {
                    assert(out[i] == tail[i - 1]);
                }
            }
        }
        if keys_differ(members) {
            assert forall|m: int| 0 <= m < rest.len() implies (#[trigger] rest[m]).0 != first.0 by {
                assert(members[0].0 != members[m + 1].0);
            }
            assert forall|i: int, k: int| 0 <= i < k < rest.len() implies (#[trigger] rest[i]).0
                != (#[trigger] rest[k]).0 by {
                assert(members[i + 1].0 != members[k + 1].0);
            }
        }
    } else {
        assert(last_members(members) =~= members);
    }
}

/// A document that has no key twice is settled as it is.
pub proof fn settled_keeps_plain_documents(j: JsonModel)
    requires
        names_no_key_twice(j),
    ensures
        settled(j) == j,
    decreases j,
{
    match j {
        JsonModel::List(items) => {
            assert forall|i: int| 0 <= i < items.len() implies settled(#[trigger] items[i])
                == items[i] by {
                settled_keeps_plain_documents(items[i]);
            }
            assert(settled(j)->List_0 =~= items);
        },
        JsonModel::Object(members) => {
            assert forall|i: int| 0 <= i < members.len() implies settled(
                (#[trigger] members[i]).1,
            ) == members[i].1 by {
                settled_keeps_plain_documents(members[i].1);
            }
            lemma_settled_values(members);
            assert(settled_values(members) =~= members);
            lemma_last_members(members);
        },
        _ => {},
    }
}

/// No object of a settled document has a key twice.
pub proof fn settled_names_no_key_twice(j: JsonModel)
    ensures
        names_no_key_twice(settled(j)),
    decreases j,
{
    match j {
        JsonModel::List(items) => {
            assert forall|i: int| 0 <= i < items.len() implies names_no_key_twice(
                #[trigger] settled(j)->List_0[i],
            ) by {
                settled_names_no_key_twice(items[i]);
            }
        },
        JsonModel::Object(members) => {
            let inner = settled_values(members);
            lemma_settled_values(members);
            let out = last_members(inner);
            lemma_last_members(inner);
            assert(settled(j) == JsonModel::Object(out));
            assert forall|i: int| 0 <= i < out.len() implies names_no_key_twice(
                (#[trigger] out[i]).1,
            ) by {
                let k = choose|k: int| 0 <= k < inner.len() && inner[k] == out[i];
                settled_names_no_key_twice(members[k].1);
            }
        },
        _ => {},
    }
}

/// Whether a member behind index `at` has the same key.
fn comes_again(members: &Vec<Member>, at: usize) -> (r: bool)
    requires
        at < members@.len(),
    ensures
        r == exists|k: int| at < k < members@.len() && (#[trigger] members@[k]).key@
            == members@[at as int].key@,
{
    let n: usize = members.len();
    let mut i: usize = at + 1;
    while i < members.len()
        invariant
            at < i <= members@.len(),
            forall|k: int|
                at < k < i ==> (#[trigger] members@[k]).key@ != members@[at as int].key@,
        decreases members.len() - i,
    {
        if same(&members[i].key, &members[at].key) {
            return true;
        }
        i += 1;
    }
    false
}

/// Copies a document, with the last member of a key in place of all that have it.
pub fn settle(j: &Json) -> (r: Json)
    ensures
        r@ == settled(j@),
    decreases j,
{
    match j {
        Json::List(items) => {
            let mut out: Vec<Json> = Vec::new();
            let mut i: usize = 0;
            while i < items.len()
                invariant
                    *j == Json::List(*items),
                    i <= items@.len(),
                    out@.len() == i,
                    forall|k: int| 0 <= k < i ==> (#[trigger] out@[k])@ == settled(items@[k]@),
                decreases items.len() - i,
            {
                assert(decreases_to!(j->List_0 => j->List_0@));
                assert(decreases_to!(*j => j->List_0@[i as int]));
                out.push(settle(&items[i]));
                i += 1;
            }
            let r = list(out);
            assert(r@->List_0 =~= settled(j@)->List_0);
            r
        },
        Json::Object(members) => {
            let ghost inner = settled_values(j@->Object_0);
            proof {
                lemma_settled_values(j@->Object_0);
            }
            let mut out = no_members();
            let mut i: usize = 0;
            assert(inner.skip(0) == inner);
            assert(members_model(out@) + last_members(inner) == last_members(inner));
            while i < members.len()
                invariant
                    *j == Json::Object(*members),
                    i <= members@.len(),
                    inner.len() == members@.len(),
                    forall|k: int|
                        0 <= k < inner.len() ==> #[trigger] inner[k] == (
                            members@[k].key@,
                            settled(members@[k].value@),
                        ),
                    members_model(out@) + last_members(inner.skip(i as int)) == last_members(
                        inner,
                    ),
                decreases members.len() - i,
            {
                assert(decreases_to!(j->Object_0 => j->Object_0@));
                assert(decreases_to!(*j => j->Object_0@[i as int]));
                let ghost rest = inner.skip(i as int);
                let ghost before = members_model(out@);
                let again = comes_again(members, i);
                proof {
                    assert(rest.skip(1) == inner.skip(i + 1));
                    assert(rest[0] == inner[i as int]);
                    if again {
                        let k = choose|k: int|
                            i < k < members@.len() && (#[trigger] members@[k]).key@
                                == members@[i as int].key@;
                        assert(rest.skip(1)[k - i - 1].0 == rest[0].0);
                    } else {
                        assert forall|k: int| 0 <= k < rest.skip(1).len() implies (
                        #[trigger] rest.skip(1)[k]).0 != rest[0].0 by {
                            assert(members@[i + 1 + k].key@ != members@[i as int].key@);
                        }
                    }
                }
                if !again {
                    let m = &members[i];
                    put(&mut out, &m.key, settle(&m.value));
                    assert(before.push(rest[0]) + last_members(rest.skip(1)) =~= before + (
                    seq![rest[0]] + last_members(rest.skip(1))));
                }
                i += 1;
            }
            assert(inner.skip(i as int) =~= Seq::empty());
            assert(members_model(out@) + Seq::empty() =~= members_model(out@));
            object(out)
        },
        _ => copy(j),
    }
}

/// A string.
pub fn text(s: &str) -> (j: Json)
    ensures
        j@ == JsonModel::Text(s@),
{
    Json::Text(s.to_owned())
}

/// An array of the items.
pub fn list(items: Vec<Json>) -> (j: Json)
    ensures
        j@ == JsonModel::List(items_model(items@)),
{
    let ghost model = items_model(items@);
    let j = Json::List(items);
    assert(j@->List_0 =~= model);
    j
}

/// An object of the members.
pub fn object(members: Vec<Member>) -> (j: Json)
    ensures
        j@ == JsonModel::Object(members_model(members@)),
{
    let ghost model = members_model(members@);
    let j = Json::Object(members);
    assert(j@->Object_0 =~= model);
    j
}

/// Puts a member behind those that are there.
pub fn put(members: &mut Vec<Member>, key: &str, value: Json)
    ensures
        members_model(final(members)@) == members_model(old(members)@).push((key@, value@)),
{
    let ghost before = members_model(members@);
    members.push(Member { key: key.to_owned(), value });
    assert(members_model(members@) =~= before.push((key@, value@)));
}

/// Puts an item behind those that are there.
pub fn put_item(items: &mut Vec<Json>, value: Json)
    ensures
        items_model(final(items)@) == items_model(old(items)@).push(value@),
{
    let ghost before = items_model(items@);
    items.push(value);
    assert(items_model(items@) =~= before.push(value@));
}

/// An object without members.
pub fn no_members() -> (v: Vec<Member>)
    ensures
        members_model(v@) == Seq::<(Seq<char>, JsonModel)>::empty(),
{
    let v: Vec<Member> = Vec::new();
    assert(members_model(v@) =~= Seq::<(Seq<char>, JsonModel)>::empty());
    v
}

/// An array without items.
pub fn no_items() -> (v: Vec<Json>)
    ensures
        items_model(v@) == Seq::<JsonModel>::empty(),
{
    let v: Vec<Json> = Vec::new();
    assert(items_model(v@) =~= Seq::<JsonModel>::empty());
    v
}

proof fn lemma_last_member_stays(members: Seq<(Seq<char>, JsonModel)>, i: int)
    requires
        0 <= i < members.len(),
        forall|k: int| i < k < members.len() ==> (#[trigger] members[k]).0 != members[i].0,
    ensures
        last_members(members).contains(members[i]),
    decreases members.len(),
{
    let rest = members.skip(1);
    let tail = last_members(rest);
    let out = last_members(members);
    if i == 0 {
        assert forall|k: int| 0 <= k < rest.len() implies (#[trigger] rest[k]).0
            != members[0].0 by {
            assert(members[k + 1].0 != members[0].0);
        }
        assert(out[0] == members[0]);
    } else {
        assert(rest[i - 1] == members[i]);
        assert forall|k: int| i - 1 < k < rest.len() implies (#[trigger] rest[k]).0
            != rest[i - 1].0 by {
            assert(members[k + 1].0 != members[i].0);
        }
        lemma_last_member_stays(rest, i - 1);
        let m = choose|m: int| 0 <= m < tail.len() && tail[m] == members[i];
        if has_key(rest, members[0].0) {
            assert(out[m] == members[i]);
        } else {
            assert(out[m + 1] == members[i]);
        }
    }
}

/// In a settled object the last member of each key stays, with its value settled too, and
/// nothing else does; a settled list has its items settled, each in its place.
pub proof fn the_last_member_stays(
    members: Seq<(Seq<char>, JsonModel)>,
    i: int,
    key: Seq<char>,
    items: Seq<JsonModel>,
    k: int,
)
    ensures
        0 <= i < members.len() && (forall|k: int|
            i < k < members.len() ==> (#[trigger] members[k]).0 != members[i].0) ==> holds(
            settled(JsonModel::Object(members)),
            members[i].0,
            settled(members[i].1),
        ),
        !has_key(members, key) ==> lacks(settled(JsonModel::Object(members)), key),
        settled(JsonModel::List(items)) matches JsonModel::List(out) && out.len() == items.len()
            && (0 <= k < items.len() ==> out[k] == settled(items[k])),
{
    let inner = settled_values(members);
    lemma_settled_values(members);
    lemma_last_members(inner);
    let out = last_members(inner);
    if 0 <= i < members.len() && (forall|k: int|
        i < k < members.len() ==> (#[trigger] members[k]).0 != members[i].0) {
        assert forall|k: int| i < k < inner.len() implies (#[trigger] inner[k]).0
            != inner[i].0 by {
            assert(members[k].0 != members[i].0);
        }
        lemma_last_member_stays(inner, i);
        let m = choose|m: int| 0 <= m < out.len() && out[m] == inner[i];
        objects_hold_their_members(out);
        assert(out[m].0 == members[i].0);
    }
    if !has_key(members, key) {
        assert forall|m: int| 0 <= m < out.len() implies (#[trigger] out[m]).0 != key by {
            let n = choose|n: int| 0 <= n < inner.len() && inner[n] == out[m];
            assert(members[n].0 == out[m].0);
        }
    }
}

} // verus!
