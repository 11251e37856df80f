//! Reports as JSON documents: how a report is written, and how it is read back.

use crate::json::{
    copy, has_members, holds, items_model, keys_differ, lacks, list, members_model, names_no_key_twice,
    no_items, no_members, object, objects_hold_their_members, optional_model, put, put_item,
    settle, settled, settled_keeps_plain_documents, text, Json, JsonModel,
};
use crate::measure::Quantity;
use crate::report::{
    optional_text, phases_model, BenchReport, BenchStatus, Phase, PhaseModel,
    ReportModel,
};
use crate::text::same;
use vstd::prelude::*;
use vstd::string::*;

verus! {

/// A member that is left out where it has no value.
pub open spec fn optional_member(key: Seq<char>, value: Option<JsonModel>) -> Seq<
    (Seq<char>, JsonModel),
> {
    match value {
        Some(value) => seq![(key, value)],
        None => seq![],
    }
}

/// The members of a phase, but for its bench-specific metrics.
pub open spec fn phase_basics(p: PhaseModel) -> Seq<(Seq<char>, JsonModel)> {
    seq![
        ("name"@, JsonModel::Text(p.name)),
        ("samples"@, JsonModel::Unsigned(p.samples)),
        ("p50_ms"@, JsonModel::Real(p.p50_ms)),
        ("p95_ms"@, JsonModel::Real(p.p95_ms)),
        ("throughput_per_s"@, JsonModel::Real(p.throughput_per_s)),
    ]
}

/// The document of a phase.
pub open spec fn phase_tree(p: PhaseModel) -> JsonModel {
    JsonModel::Object(phase_basics(p) + optional_member("extra"@, p.extra))
}

/// The documents of some phases.
pub open spec fn phase_trees(phases: Seq<PhaseModel>) -> Seq<JsonModel> {
    Seq::new(phases.len(), |i: int| phase_tree(phases[i]))
}

/// The members of a report, but for its notes.
pub open spec fn report_basics(r: ReportModel) -> Seq<(Seq<char>, JsonModel)> {
    seq![
        ("name"@, JsonModel::Text(r.name)),
        ("status"@, JsonModel::Text(r.status.label_text())),
        ("phases"@, JsonModel::List(phase_trees(r.phases))),
    ]
}

/// An optional text as a document.
pub open spec fn text_tree(s: Option<Seq<char>>) -> Option<JsonModel> {
    match s {
        Some(s) => Some(JsonModel::Text(s)),
        None => None,
    }
}

/// The document of a report.
pub open spec fn report_tree(r: ReportModel) -> JsonModel {
    JsonModel::Object(report_basics(r) + optional_member("notes"@, text_tree(r.notes)))
}

fn phase_document(p: &Phase) -> (j: Json)
    ensures
        j@ == phase_tree(p@),
{
    let mut m = no_members();
    put(&mut m, "name", text(&p.name));
    put(&mut m, "samples", Json::Unsigned(p.samples));
    put(&mut m, "p50_ms", Json::Real(p.p50_ms));
    put(&mut m, "p95_ms", Json::Real(p.p95_ms));
    put(&mut m, "throughput_per_s", Json::Real(p.throughput_per_s));
    if let Some(extra) = &p.extra {
        put(&mut m, "extra", copy(extra));
    }
    assert(members_model(m@) =~= phase_basics(p@) + optional_member("extra"@, p@.extra));
    object(m)
}

impl BenchReport {
    /// The report as a document. Metrics and notes that it does not have are left out.
    pub fn to_document(&self) -> (j: Json)
        ensures
            j@ == report_tree(self@),
    {
        let mut phases = no_items();
        let mut i: usize = 0;
        while i < self.phases.len()
            invariant
                i <= self.phases@.len(),
                items_model(phases@) == phase_trees(self@.phases.take(i as int)),
            decreases self.phases.len() - i,
        {
            put_item(&mut phases, phase_document(&self.phases[i]));
            assert(items_model(phases@) =~= phase_trees(self@.phases.take(i + 1)));
            i += 1;
        }
        assert(self@.phases.take(i as int) == self@.phases);
        let mut m = no_members();
        put(&mut m, "name", text(&self.name));
        put(&mut m, "status", text(self.status.label()));
        put(&mut m, "phases", list(phases));
        if let Some(notes) = &self.notes {
            put(&mut m, "notes", text(notes));
        }
        assert(members_model(m@) =~= report_basics(self@) + optional_member(
            "notes"@,
            text_tree(self@.notes),
        ));
        object(m)
    }
}

/// The values of the members with this key, in order.
pub open spec fn holders(members: Seq<(Seq<char>, JsonModel)>, key: Seq<char>) -> Seq<JsonModel>
    decreases members.len(),
{
    if members.len() == 0 {
        Seq::empty()
    } else if members.last().0 == key {
        holders(members.drop_last(), key).push(members.last().1)
    } else {
        holders(members.drop_last(), key)
    }
}

/// The values that a record holds for a field: those of the field's key, or, where the
/// record is a list, the one at the field's place.
pub open spec fn slot(j: JsonModel, key: Seq<char>, place: nat) -> Seq<JsonModel> {
    match j {
        JsonModel::Object(members) => holders(members, key),
        JsonModel::List(items) => if place < items.len() {
            seq![items[place as int]]
        } else {
            seq![]
        },
        _ => seq![],
    }
}

/// Whether a document can be a record of this many fields: an object, or a list that is
/// not longer than that. An object may have other members besides.
pub open spec fn is_record(j: JsonModel, fields: nat) -> bool {
    match j {
        JsonModel::Object(_) => true,
        JsonModel::List(items) => items.len() <= fields,
        _ => false,
    }
}

/// The text that a document is.
pub open spec fn text_of(j: JsonModel) -> Option<Seq<char>> {
    match j {
        JsonModel::Text(s) => Some(s),
        _ => None,
    }
}

/// The count that a document is.
pub open spec fn count_of(j: JsonModel) -> Option<u64> {
    match j {
        JsonModel::Unsigned(n) => Some(n),
        JsonModel::Signed(n) => if n >= 0 {
            Some(n as u64)
        } else {
            None
        },
        _ => None,
    }
}

/// The number that a document is.
pub open spec fn real_of(j: JsonModel) -> Option<Quantity> {
    match j {
        JsonModel::Unsigned(n) => Some(Quantity::Whole(n as i128)),
        JsonModel::Signed(n) => Some(Quantity::Whole(n as i128)),
        JsonModel::Real(q) => Some(q),
        _ => None,
    }
}

/// The status with this label.
pub open spec fn status_named(label: Seq<char>) -> Option<BenchStatus> {
    if label == "ready"@ {
        Some(BenchStatus::Ready)
    } else if label == "scaffold"@ {
        Some(BenchStatus::Scaffold)
    } else {
        None
    }
}

/// The status that a document is: its label, or an object that maps the label to nothing.
pub open spec fn status_of(j: JsonModel) -> Option<BenchStatus> {
    match j {
        JsonModel::Text(label) => status_named(label),
        JsonModel::Object(members) => if members.len() == 1 && members[0].1 is Null {
            status_named(members[0].0)
        } else {
            None
        },
        _ => None,
    }
}

/// The text of a field that has to be there once.
pub open spec fn text_in(values: Seq<JsonModel>) -> Option<Seq<char>> {
    if values.len() == 1 {
        text_of(values[0])
    } else {
        None
    }
}

/// The count of a field that has to be there once.
pub open spec fn count_in(values: Seq<JsonModel>) -> Option<u64> {
    if values.len() == 1 {
        count_of(values[0])
    } else {
        None
    }
}

/// The number of a field that has to be there once.
pub open spec fn real_in(values: Seq<JsonModel>) -> Option<Quantity> {
    if values.len() == 1 {
        real_of(values[0])
    } else {
        None
    }
}

/// The status of a field that has to be there once.
pub open spec fn status_in(values: Seq<JsonModel>) -> Option<BenchStatus> {
    if values.len() == 1 {
        status_of(values[0])
    } else {
        None
    }
}

/// The text of a field that may be missing or null, but not be there twice.
pub open spec fn notes_in(values: Seq<JsonModel>) -> Option<Option<Seq<char>>> {
    if values.len() == 0 {
        Some(None)
    } else if values.len() > 1 {
        None
    } else if values[0] is Null {
        Some(None)
    } else {
        match text_of(values[0]) {
            Some(s) => Some(Some(s)),
            None => None,
        }
    }
}

/// The document of a field that may be missing or null, but not be there twice. Inside it
/// the last member of a key replaces the ones before it.
pub open spec fn extra_in(values: Seq<JsonModel>) -> Option<Option<JsonModel>> {
    if values.len() == 0 {
        Some(None)
    } else if values.len() > 1 {
        None
    } else if values[0] is Null {
        Some(None)
    } else {
        Some(Some(settled(values[0])))
    }
}

/// The phase that a document describes.
pub open spec fn phase_of(j: JsonModel) -> Option<PhaseModel> {
    if !is_record(j, 6) {
        None
    } else {
        match (
            text_in(slot(j, "name"@, 0)),
            count_in(slot(j, "samples"@, 1)),
            real_in(slot(j, "p50_ms"@, 2)),
            real_in(slot(j, "p95_ms"@, 3)),
            real_in(slot(j, "throughput_per_s"@, 4)),
            extra_in(slot(j, "extra"@, 5)),
        ) {
            (
                Some(name),
                Some(samples),
                Some(p50_ms),
                Some(p95_ms),
                Some(throughput_per_s),
                Some(extra),
            ) => Some(PhaseModel { name, samples, p50_ms, p95_ms, throughput_per_s, extra }),
            _ => None,
        }
    }
}

/// The phases that some documents describe; none where one of them describes none.
pub open spec fn phases_of(items: Seq<JsonModel>) -> Option<Seq<PhaseModel>>
    decreases items.len(),
{
    if items.len() == 0 {
        Some(Seq::empty())
    } else {
        match (phases_of(items.drop_last()), phase_of(items.last())) {
            (Some(front), Some(last)) => Some(front.push(last)),
            _ => None,
        }
    }
}

/// The phases of a field that has to be there once.
pub open spec fn phases_in(values: Seq<JsonModel>) -> Option<Seq<PhaseModel>> {
    if values.len() == 1 {
        match values[0] {
            JsonModel::List(items) => phases_of(items),
            _ => None,
        }
    } else {
        None
    }
}

/// The report that a document describes.
pub open spec fn report_of(j: JsonModel) -> Option<ReportModel> {
    if !is_record(j, 4) {
        None
    } else {
        match (
            text_in(slot(j, "name"@, 0)),
            status_in(slot(j, "status"@, 1)),
            phases_in(slot(j, "phases"@, 2)),
            notes_in(slot(j, "notes"@, 3)),
        ) {
            (Some(name), Some(status), Some(phases), Some(notes)) => Some(
                ReportModel { name, status, phases, notes },
            ),
            _ => None,
        }
    }
}

/// The values that a record holds for a field.
enum Slot<'a> {
    Empty,
    One(&'a Json),
    Many,
}

impl<'a> Slot<'a> {
    spec fn holds(self, values: Seq<JsonModel>) -> bool {
        match self {
            Slot::Empty => values.len() == 0,
            Slot::One(j) => values == seq![j@],
            Slot::Many => values.len() > 1,
        }
    }
}

fn find_slot<'a>(j: &'a Json, key: &str, place: usize) -> (r: Slot<'a>)
    ensures
        r.holds(slot(j@, key@, place as nat)),
{
    match j {
        Json::Object(members) => {
            let ghost all = j@->Object_0;
            let mut r: Slot<'a> = Slot::Empty;
            let mut i: usize = 0;
            while i < members.len()
                invariant
                    i <= members@.len(),
                    j@ == JsonModel::Object(all),
                    all.len() == members@.len(),
                    forall|k: int|
                        0 <= k < all.len() ==> #[trigger] all[k] == (
                            members@[k].key@,
                            members@[k].value@,
                        ),
                    r.holds(holders(all.take(i as int), key@)),
                decreases members.len() - i,
            {
                assert(all.take(i + 1).drop_last() == all.take(i as int));
                if same(&members[i].key, key) {
                    let ghost before = holders(all.take(i as int), key@);
                    r = match r {
                        Slot::Empty => {
                            assert(before.push(members@[i as int].value@) =~= seq![
                                members@[i as int].value@,
                            ]);
                            Slot::One(&members[i].value)
                        },
                        _ => Slot::Many,
                    };
                }
                i += 1;
            }
            assert(all.take(i as int) == all);
            r
        },
        Json::List(items) => {
            if place < items.len() {
                Slot::One(&items[place])
            } else {
                Slot::Empty
            }
        },
        _ => Slot::Empty,
    }
}

fn fits_record(j: &Json, fields: usize) -> (r: bool)
    ensures
        r == is_record(j@, fields as nat),
{
    match j {
        Json::Object(_) => true,
        Json::List(items) => items.len() <= fields,
        _ => false,
    }
}

fn read_text(s: Slot<'_>) -> (r: Option<String>)
    ensures
        forall|values: Seq<JsonModel>| #[trigger] s.holds(values) ==> optional_text(r) == text_in(
            values,
        ),
{
    match s {
        Slot::One(Json::Text(t)) => Some(t.clone()),
        _ => None,
    }
}

fn read_count(s: Slot<'_>) -> (r: Option<u64>)
    ensures
        forall|values: Seq<JsonModel>| #[trigger] s.holds(values) ==> r == count_in(values),
{
    match s {
        Slot::One(Json::Unsigned(n)) => Some(*n),
        Slot::One(Json::Signed(n)) => if *n >= 0 {
            Some(*n as u64)
        } else {
            None
        },
        _ => None,
    }
}

fn read_real(s: Slot<'_>) -> (r: Option<Quantity>)
    ensures
        forall|values: Seq<JsonModel>| #[trigger] s.holds(values) ==> r == real_in(values),
{
    match s {
        Slot::One(Json::Unsigned(n)) => Some(Quantity::Whole(*n as i128)),
        Slot::One(Json::Signed(n)) => Some(Quantity::Whole(*n as i128)),
        Slot::One(Json::Real(q)) => Some(*q),
        _ => None,
    }
}

fn read_label(label: &str) -> (r: Option<BenchStatus>)
    ensures
        r == status_named(label@),
{
    if same(label, "ready") {
        Some(BenchStatus::Ready)
    } else if same(label, "scaffold") {
        Some(BenchStatus::Scaffold)
    } else {
        None
    }
}

fn read_status(s: Slot<'_>) -> (r: Option<BenchStatus>)
    ensures
        forall|values: Seq<JsonModel>| #[trigger] s.holds(values) ==> r == status_in(values),
{
    match s {
        Slot::One(j) => match j {
            Json::Text(label) => read_label(label),
            Json::Object(members) => {
                if members.len() == 1 {
                    assert(j@->Object_0[0] == (members@[0].key@, members@[0].value@));
                    match &members[0].value {
                        Json::Null => read_label(&members[0].key),
                        _ => None,
                    }
                } else {
                    None
                }
            },
            _ => None,
        },
        _ => None,
    }
}

fn read_notes(s: Slot<'_>) -> (r: Option<Option<String>>)
    ensures
        forall|values: Seq<JsonModel>| #[trigger]
            s.holds(values) ==> match r {
                Some(notes) => notes_in(values) == Some(optional_text(notes)),
                None => notes_in(values) is None,
            },
{
    match s {
        Slot::Empty => Some(None),
        Slot::One(Json::Null) => Some(None),
        Slot::One(Json::Text(t)) => Some(Some(t.clone())),
        _ => None,
    }
}

fn read_extra(s: Slot<'_>) -> (r: Option<Option<Json>>)
    ensures
        forall|values: Seq<JsonModel>| #[trigger]
            s.holds(values) ==> match r {
                Some(extra) => extra_in(values) == Some(optional_model(extra)),
                None => extra_in(values) is None,
            },
{
    match s {
        Slot::Empty => Some(None),
        Slot::One(j) => match j {
            Json::Null => Some(None),
            _ => Some(Some(settle(j))),
        },
        Slot::Many => None,
    }
}

fn read_phase(j: &Json) -> (r: Option<Phase>)
    ensures
        match r {
            Some(p) => phase_of(j@) == Some(p@),
            None => phase_of(j@) is None,
        },
{
    if !fits_record(j, 6) {
        return None;
    }
    let name = read_text(find_slot(j, "name", 0));
    let samples = read_count(find_slot(j, "samples", 1));
    let p50 = read_real(find_slot(j, "p50_ms", 2));
    let p95 = read_real(find_slot(j, "p95_ms", 3));
    let throughput = read_real(find_slot(j, "throughput_per_s", 4));
    let extra = read_extra(find_slot(j, "extra", 5));
    match (name, samples, p50, p95, throughput, extra) {
        (
            Some(name),
            Some(samples),
            Some(p50_ms),
            Some(p95_ms),
            Some(throughput_per_s),
            Some(extra),
        ) => Some(Phase { name, samples, p50_ms, p95_ms, throughput_per_s, extra }),
        _ => None,
    }
}

fn read_phases(items: &Vec<Json>) -> (r: Option<Vec<Phase>>)
    ensures
        match r {
            Some(phases) => phases_of(items_model(items@)) == Some(phases_model(phases@)),
            None => phases_of(items_model(items@)) is None,
        },
{
    let mut phases: Vec<Phase> = Vec::new();
    let mut i: usize = 0;
    let ghost all = items_model(items@);
    assert(phases_model(phases@) =~= Seq::<PhaseModel>::empty());
    while i < items.len()
        invariant
            i <= items@.len(),
            all == items_model(items@),
            phases_of(all.take(i as int)) == Some(phases_model(phases@)),
        decreases items.len() - i,
    {
        assert(all.take(i + 1).drop_last() == all.take(i as int));
        match read_phase(&items[i]) {
            Some(p) => {
                let ghost before = phases_model(phases@);
                phases.push(p);
                assert(phases_model(phases@) =~= before.push(p@));
            },
            None => {
                proof {
                    lemma_phases_need_each(all, i + 1);
                }
                return None;
            },
        }
        i += 1;
    }
    assert(all.take(i as int) == all);
    Some(phases)
}

proof fn lemma_phases_need_each(items: Seq<JsonModel>, k: int)
    requires
        0 <= k <= items.len(),
        phases_of(items.take(k)) is None,
    ensures
        phases_of(items) is None,
    decreases items.len(),
{
    if k == items.len() {
        assert(items.take(k) == items);
    } else {
        assert(items.drop_last().take(k) == items.take(k));
        lemma_phases_need_each(items.drop_last(), k);
    }
}

impl BenchReport {
    /// Reads a report from a document. Members that a report does not have are passed
    /// over; one that it has must not be there twice, and may only be missing where a
    /// report can do without it.
    pub fn from_document(j: &Json) -> (r: Option<BenchReport>)
        ensures
            match r {
                Some(report) => report_of(j@) == Some(report@),
                None => report_of(j@) is None,
            },
    {
        if !fits_record(j, 4) {
            return None;
        }
        let name = read_text(find_slot(j, "name", 0));
        let status = read_status(find_slot(j, "status", 1));
        let notes = read_notes(find_slot(j, "notes", 3));
        let phases = match find_slot(j, "phases", 2) {
            Slot::One(value) => match value {
                Json::List(items) => {
                    assert(value@->List_0 =~= items_model(items@));
                    read_phases(items)
                },
                _ => None,
            },
            _ => None,
        };
        match (name, status, phases, notes) {
            (Some(name), Some(status), Some(phases), Some(notes)) => Some(
                BenchReport { name, status, phases, notes },
            ),
            _ => None,
        }
    }
}

proof fn lemma_holders_push(
    members: Seq<(Seq<char>, JsonModel)>,
    key: Seq<char>,
    last: (Seq<char>, JsonModel),
)
    ensures
        holders(members.push(last), key) == if last.0 == key {
            holders(members, key).push(last.1)
        } else {
            holders(members, key)
        },
{
    assert(members.push(last).drop_last() == members);
}

/// Whether a phase's metrics say something, and nothing twice.
pub open spec fn is_plain(extra: Option<JsonModel>) -> bool {
    match extra {
        Some(j) => !(j is Null) && names_no_key_twice(j),
        None => true,
    }
}

/// Whether the metrics of all phases say something, and nothing twice.
pub open spec fn has_plain_extras(r: ReportModel) -> bool {
    forall|i: int| 0 <= i < r.phases.len() ==> is_plain((#[trigger] r.phases[i]).extra)
}

proof fn lemma_phase_round_trip(p: PhaseModel)
    requires
        is_plain(p.extra),
    ensures
        phase_of(phase_tree(p)) == Some(p),
{
    if let Some(value) = p.extra {
        settled_keeps_plain_documents(value);
    }
    reveal_strlit("name");
    reveal_strlit("samples");
    reveal_strlit("p50_ms");
    reveal_strlit("p95_ms");
    reveal_strlit("throughput_per_s");
    reveal_strlit("extra");
    let (name, samples, p50, p95, rate, extra) = (
        "name"@,
        "samples"@,
        "p50_ms"@,
        "p95_ms"@,
        "throughput_per_s"@,
        "extra"@,
    );
    assert(name.len() == 4 && samples.len() == 7 && p50.len() == 6 && p95.len() == 6);
    assert(rate.len() == 16 && extra.len() == 5 && p50[1] == '5' && p95[1] == '9');
    let basics = phase_basics(p);
    let all = basics + optional_member(extra, p.extra);
    let a0 = Seq::<(Seq<char>, JsonModel)>::empty();
    let a1 = a0.push(basics[0]);
    let a2 = a1.push(basics[1]);
    let a3 = a2.push(basics[2]);
    let a4 = a3.push(basics[3]);
    let a5 = a4.push(basics[4]);
    assert(a5 =~= basics);
    assert forall|key: Seq<char>| #[trigger] holders(all, key) == if p.extra is Some && key == extra {
        holders(basics, key).push(p.extra->0)
    } else {
        holders(basics, key)
    } by {
        if let Some(value) = p.extra {
            assert(all =~= basics.push((extra, value)));
            lemma_holders_push(basics, key, (extra, value));
        } else {
            assert(all =~= basics);
        }
    }
    assert forall|key: Seq<char>| #[trigger] holders(a0, key) == Seq::<JsonModel>::empty() by {}
    assert forall|key: Seq<char>|
        #![trigger holders(basics, key)]
        {
            &&& key == name ==> holders(basics, key) =~= seq![basics[0].1]
            &&& key == samples ==> holders(basics, key) =~= seq![basics[1].1]
            &&& key == p50 ==> holders(basics, key) =~= seq![basics[2].1]
            &&& key == p95 ==> holders(basics, key) =~= seq![basics[3].1]
            &&& key == rate ==> holders(basics, key) =~= seq![basics[4].1]
            &&& key == extra ==> holders(basics, key) =~= Seq::<JsonModel>::empty()
        } by {
        lemma_holders_push(a0, key, basics[0]);
        lemma_holders_push(a1, key, basics[1]);
        lemma_holders_push(a2, key, basics[2]);
        lemma_holders_push(a3, key, basics[3]);
        lemma_holders_push(a4, key, basics[4]);
    }
    assert(holders(all, name) == holders(basics, name));
    assert(holders(all, samples) == holders(basics, samples));
    assert(holders(all, p50) == holders(basics, p50));
    assert(holders(all, p95) == holders(basics, p95));
    assert(holders(all, rate) == holders(basics, rate));
    assert(holders(basics, extra) == Seq::<JsonModel>::empty());
    assert(extra_in(holders(all, extra)) == Some(p.extra));
}

proof fn lemma_phases_round_trip(phases: Seq<PhaseModel>)
    requires
        forall|i: int| 0 <= i < phases.len() ==> is_plain((#[trigger] phases[i]).extra),
    ensures
        phases_of(phase_trees(phases)) == Some(phases),
    decreases phases.len(),
{
    let items = phase_trees(phases);
    if phases.len() == 0 {
        assert(phases =~= Seq::<PhaseModel>::empty());
    } else {
        let front = phases.drop_last();
        assert forall|i: int| 0 <= i < front.len() implies is_plain(
            (#[trigger] front[i]).extra,
        ) by {
            assert(is_plain(phases[i].extra));
        }
        lemma_phases_round_trip(front);
        assert(items.drop_last() =~= phase_trees(front));
        assert(items.last() == phase_tree(phases.last()));
        lemma_phase_round_trip(phases.last());
        assert(front.push(phases.last()) =~= phases);
    }
}

/// What is read back from a written report is the report that was written. Metrics that
/// are null do not come back: they read like metrics that are missing. Of metrics that
/// have a key twice only the last ones come back.
pub proof fn reports_round_trip(r: ReportModel)
    requires
        has_plain_extras(r),
    ensures
        report_of(report_tree(r)) == Some(r),
{
    reveal_strlit("name");
    reveal_strlit("status");
    reveal_strlit("phases");
    reveal_strlit("notes");
    reveal_strlit("ready");
    reveal_strlit("scaffold");
    let (name, status, phases, notes) = ("name"@, "status"@, "phases"@, "notes"@);
    assert(name.len() == 4 && status.len() == 6 && phases.len() == 6 && notes.len() == 5);
    assert(status[0] == 's' && phases[0] == 'p');
    let basics = report_basics(r);
    let all = basics + optional_member(notes, text_tree(r.notes));
    let a0 = Seq::<(Seq<char>, JsonModel)>::empty();
    let a1 = a0.push(basics[0]);
    let a2 = a1.push(basics[1]);
    let a3 = a2.push(basics[2]);
    assert(a3 =~= basics);
    assert forall|key: Seq<char>|
        #![trigger holders(all, key)]
        {
            &&& key == name ==> holders(all, key) =~= seq![basics[0].1]
            &&& key == status ==> holders(all, key) =~= seq![basics[1].1]
            &&& key == phases ==> holders(all, key) =~= seq![basics[2].1]
            &&& key == notes ==> notes_in(holders(all, key)) == Some(r.notes)
        } by {
        lemma_holders_push(a0, key, basics[0]);
        lemma_holders_push(a1, key, basics[1]);
        lemma_holders_push(a2, key, basics[2]);
        if let Some(text) = r.notes {
            assert(all =~= basics.push((notes, JsonModel::Text(text))));
            lemma_holders_push(basics, key, (notes, JsonModel::Text(text)));
        } else {
            assert(all =~= basics);
        }
    }
    lemma_phases_round_trip(r.phases);
    assert(holders(all, name) == seq![basics[0].1]);
    assert(holders(all, status) == seq![basics[1].1]);
    assert(holders(all, phases) == seq![basics[2].1]);
    assert(notes_in(holders(all, notes)) == Some(r.notes));
    assert("ready"@.len() != "scaffold"@.len());
}

proof fn lemma_no_holders(members: Seq<(Seq<char>, JsonModel)>, key: Seq<char>)
    requires
        forall|i: int| 0 <= i < members.len() ==> (#[trigger] members[i]).0 != key,
    ensures
        holders(members, key) == Seq::<JsonModel>::empty(),
    decreases members.len(),
{
    if members.len() > 0 {
        let front = members.drop_last();
        assert forall|i: int| 0 <= i < front.len() implies (#[trigger] front[i]).0 != key by {
            assert(front[i] == members[i]);
        }
        lemma_no_holders(front, key);
    }
}

proof fn lemma_one_holder(members: Seq<(Seq<char>, JsonModel)>, i: int)
    requires
        keys_differ(members),
        0 <= i < members.len(),
    ensures
        holders(members, members[i].0) == seq![members[i].1],
    decreases members.len(),
{
    let key = members[i].0;
    let front = members.drop_last();
    assert forall|a: int, b: int| 0 <= a < b < front.len() implies (#[trigger] front[a]).0 != (
    #[trigger] front[b]).0 by {
        assert(members[a].0 != members[b].0);
    }
    if i == members.len() - 1 {
        assert forall|k: int| 0 <= k < front.len() implies (#[trigger] front[k]).0 != key by {
            assert(members[k].0 != members[i].0);
        }
        lemma_no_holders(front, key);
        assert(holders(members, key) =~= seq![members[i].1]);
    } else {
        assert(members[i].0 != members[members.len() - 1].0);
        assert(front[i] == members[i]);
        lemma_one_holder(front, i);
    }
}

proof fn lemma_holders_count(members: Seq<(Seq<char>, JsonModel)>, i: int, k: int)
    requires
        0 <= i < members.len(),
        0 <= k < members.len(),
        members[i].0 == members[k].0,
    ensures
        holders(members, members[i].0).len() >= if i == k {
            1nat
        } else {
            2nat
        },
    decreases members.len(),
{
    let last = members.len() - 1;
    let front = members.drop_last();
    if i < last && k < last {
        assert(front[i] == members[i] && front[k] == members[k]);
        lemma_holders_count(front, i, k);
    } else if i < last {
        assert(front[i] == members[i]);
        lemma_holders_count(front, i, i);
    } else if k < last {
        assert(front[k] == members[k]);
        lemma_holders_count(front, k, k);
    }
}

proof fn lemma_slot_holds(j: JsonModel, key: Seq<char>, value: JsonModel, place: nat)
    requires
        holds(j, key, value),
    ensures
        slot(j, key, place) == seq![value],
{
    let m = j->Object_0;
    let i = choose|i: int| 0 <= i < m.len() && (#[trigger] m[i]).0 == key && m[i].1 == value;
    lemma_one_holder(m, i);
}

proof fn lemma_slot_lacks(j: JsonModel, key: Seq<char>, place: nat)
    requires
        lacks(j, key),
    ensures
        slot(j, key, place) == Seq::<JsonModel>::empty(),
{
    lemma_no_holders(j->Object_0, key);
}

/// The document of a report names the fields of the report, each with its own value; it has
/// notes exactly if the report has some.
pub proof fn documents_name_the_report(r: ReportModel)
    ensures
        ({
            let j = report_tree(r);
            &&& holds(j, "name"@, JsonModel::Text(r.name))
            &&& r.status == BenchStatus::Ready ==> holds(
                j,
                "status"@,
                JsonModel::Text("ready"@),
            )
            &&& r.status == BenchStatus::Scaffold ==> holds(
                j,
                "status"@,
                JsonModel::Text("scaffold"@),
            )
            &&& holds(j, "phases"@, JsonModel::List(phase_trees(r.phases)))
            &&& r.notes matches Some(notes) ==> holds(j, "notes"@, JsonModel::Text(notes))
            &&& r.notes is None ==> lacks(j, "notes"@)
            &&& has_members(
                j,
                if r.notes is Some {
                    4
                } else {
                    3
                },
            )
        }),
{
    reveal_strlit("name");
    reveal_strlit("status");
    reveal_strlit("phases");
    reveal_strlit("notes");
    let (name, status, phases, notes) = ("name"@, "status"@, "phases"@, "notes"@);
    assert(name.len() == 4 && status.len() == 6 && phases.len() == 6 && notes.len() == 5);
    assert(status[0] == 's' && phases[0] == 'p');
    let m = report_tree(r)->Object_0;
    objects_hold_their_members(m);
    assert(m[0].0 == name && m[1].0 == status && m[2].0 == phases);
    if r.notes is Some {
        assert(m[3].0 == notes);
    }
}

/// The document of a phase names the fields of the phase, each with its own value; it has
/// metrics of the bench exactly if the phase has some.
pub proof fn documents_name_the_phase(p: PhaseModel)
    ensures
        ({
            let j = phase_tree(p);
            &&& holds(j, "name"@, JsonModel::Text(p.name))
            &&& holds(j, "samples"@, JsonModel::Unsigned(p.samples))
            &&& holds(j, "p50_ms"@, JsonModel::Real(p.p50_ms))
            &&& holds(j, "p95_ms"@, JsonModel::Real(p.p95_ms))
            &&& holds(j, "throughput_per_s"@, JsonModel::Real(p.throughput_per_s))
            &&& p.extra matches Some(extra) ==> holds(j, "extra"@, extra)
            &&& p.extra is None ==> lacks(j, "extra"@)
            &&& has_members(
                j,
                if p.extra is Some {
                    6
                } else {
                    5
                },
            )
        }),
{
    reveal_strlit("name");
    reveal_strlit("samples");
    reveal_strlit("p50_ms");
    reveal_strlit("p95_ms");
    reveal_strlit("throughput_per_s");
    reveal_strlit("extra");
    assert("name"@.len() == 4 && "samples"@.len() == 7 && "p50_ms"@.len() == 6);
    assert("p95_ms"@.len() == 6 && "p50_ms"@[1] == '5' && "p95_ms"@[1] == '9');
    assert("throughput_per_s"@.len() == 16 && "extra"@.len() == 5);
    let m = phase_tree(p)->Object_0;
    objects_hold_their_members(m);
    assert(m[0].0 == "name"@ && m[1].0 == "samples"@ && m[2].0 == "p50_ms"@);
    assert(m[3].0 == "p95_ms"@ && m[4].0 == "throughput_per_s"@);
    if p.extra is Some {
        assert(m[5].0 == "extra"@);
    }
}

/// Every phase of a document is read, and in its order; a document with something else among
/// its phases is none.
pub proof fn phases_are_read_in_order(items: Seq<JsonModel>)
    ensures
        phases_of(items) is None <==> exists|i: int|
            0 <= i < items.len() && phase_of(#[trigger] items[i]) is None,
        phases_of(items) matches Some(phases) ==> {
            &&& phases.len() == items.len()
            &&& forall|i: int|
                0 <= i < items.len() ==> phase_of(#[trigger] items[i]) == Some(phases[i])
        },
    decreases items.len(),
{
    if items.len() > 0 {
        let front = items.drop_last();
        phases_are_read_in_order(front);
        assert(forall|i: int| 0 <= i < front.len() ==> #[trigger] front[i] == items[i]);
        assert(items.last() == items[items.len() - 1]);
        if phases_of(items) is None {
            if phases_of(front) is None {
                let i = choose|i: int| 0 <= i < front.len() && phase_of(#[trigger] front[i]) is None;
                assert(phase_of(items[i]) is None);
            } else {
                assert(phase_of(items[items.len() - 1]) is None);
            }
        } else {
            assert forall|i: int| 0 <= i < items.len() implies phase_of(#[trigger] items[i])
                == Some(phases_of(items)->0[i]) by {
                if i < front.len() {
                    assert(phase_of(front[i]) == Some(phases_of(front)->0[i]));
                }
            }
        }
    }
}

/// A report is read from an object by the names of its members, in whatever order they stand
/// and whatever others there are. Notes may be missing or null.
pub proof fn reports_are_read_by_name(
    j: JsonModel,
    name: Seq<char>,
    ready: bool,
    items: Seq<JsonModel>,
    notes: Option<Seq<char>>,
)
    requires
        holds(j, "name"@, JsonModel::Text(name)),
        holds(
            j,
            "status"@,
            JsonModel::Text(
                if ready {
                    "ready"@
                } else {
                    "scaffold"@
                },
            ),
        ),
        holds(j, "phases"@, JsonModel::List(items)),
        match notes {
            Some(s) => holds(j, "notes"@, JsonModel::Text(s)),
            None => lacks(j, "notes"@) || holds(j, "notes"@, JsonModel::Null),
        },
    ensures
        report_of(j) is Some <==> phases_of(items) is Some,
        report_of(j) matches Some(r) ==> {
            &&& r.name == name
            &&& r.status is Ready <==> ready
            &&& phases_of(items) == Some(r.phases)
            &&& r.notes == notes
        },
{
    reveal_strlit("ready");
    reveal_strlit("scaffold");
    assert("ready"@.len() == 5 && "scaffold"@.len() == 8);
    let label = if ready {
        "ready"@
    } else {
        "scaffold"@
    };
    lemma_slot_holds(j, "name"@, JsonModel::Text(name), 0);
    lemma_slot_holds(j, "status"@, JsonModel::Text(label), 1);
    lemma_slot_holds(j, "phases"@, JsonModel::List(items), 2);
    match notes {
        Some(s) => {
            lemma_slot_holds(j, "notes"@, JsonModel::Text(s), 3);
        },
        None => {
            if lacks(j, "notes"@) {
                lemma_slot_lacks(j, "notes"@, 3);
            } else {
                lemma_slot_holds(j, "notes"@, JsonModel::Null, 3);
            }
        },
    }
}

/// A phase is read from an object by the names of its members, in whatever order they stand
/// and whatever others there are. Metrics of the bench may be missing or null.
pub proof fn phases_are_read_by_name(
    j: JsonModel,
    name: Seq<char>,
    samples: u64,
    p50_ms: Quantity,
    p95_ms: Quantity,
    rate: Quantity,
    extra: Option<JsonModel>,
)
    requires
        holds(j, "name"@, JsonModel::Text(name)),
        holds(j, "samples"@, JsonModel::Unsigned(samples)),
        holds(j, "p50_ms"@, JsonModel::Real(p50_ms)),
        holds(j, "p95_ms"@, JsonModel::Real(p95_ms)),
        holds(j, "throughput_per_s"@, JsonModel::Real(rate)),
        match extra {
            Some(x) => holds(j, "extra"@, x) && !(x is Null) && names_no_key_twice(x),
            None => lacks(j, "extra"@) || holds(j, "extra"@, JsonModel::Null),
        },
    ensures
        phase_of(j) == Some(
            PhaseModel { name, samples, p50_ms, p95_ms, throughput_per_s: rate, extra },
        ),
{
    lemma_slot_holds(j, "name"@, JsonModel::Text(name), 0);
    lemma_slot_holds(j, "samples"@, JsonModel::Unsigned(samples), 1);
    lemma_slot_holds(j, "p50_ms"@, JsonModel::Real(p50_ms), 2);
    lemma_slot_holds(j, "p95_ms"@, JsonModel::Real(p95_ms), 3);
    lemma_slot_holds(j, "throughput_per_s"@, JsonModel::Real(rate), 4);
    match extra {
        Some(x) => {
            lemma_slot_holds(j, "extra"@, x, 5);
            settled_keeps_plain_documents(x);
        },
        None => {
            if lacks(j, "extra"@) {
                lemma_slot_lacks(j, "extra"@, 5);
            } else {
                lemma_slot_holds(j, "extra"@, JsonModel::Null, 5);
            }
        },
    }
}

/// An object without a name, a status or phases is no report, nor is one that has one of
/// these, or notes, twice.
pub proof fn reports_have_each_field_once(
    members: Seq<(Seq<char>, JsonModel)>,
    i: int,
    k: int,
)
    ensures
        ({
            let j = JsonModel::Object(members);
            &&& lacks(j, "name"@) || lacks(j, "status"@) || lacks(j, "phases"@)
                ==> report_of(j) is None
            &&& 0 <= i < k < members.len() && members[i].0 == members[k].0 && (members[i].0
                == "name"@ || members[i].0 == "status"@ || members[i].0 == "phases"@
                || members[i].0 == "notes"@) ==> report_of(j) is None
        }),
{
    let j = JsonModel::Object(members);
    if lacks(j, "name"@) {
        lemma_slot_lacks(j, "name"@, 0);
    }
    if lacks(j, "status"@) {
        lemma_slot_lacks(j, "status"@, 1);
    }
    if lacks(j, "phases"@) {
        lemma_slot_lacks(j, "phases"@, 2);
    }
    if 0 <= i < k < members.len() && members[i].0 == members[k].0 {
        lemma_holders_count(members, i, k);
    }
}

/// An object without a name, a number of samples, a percentile or a throughput is no phase,
/// nor is one that has one of these, or metrics of the bench, twice.
pub proof fn phases_have_each_field_once(members: Seq<(Seq<char>, JsonModel)>, i: int, k: int)
    ensures
        ({
            let j = JsonModel::Object(members);
            &&& lacks(j, "name"@) || lacks(j, "samples"@) || lacks(j, "p50_ms"@) || lacks(
                j,
                "p95_ms"@,
            ) || lacks(j, "throughput_per_s"@) ==> phase_of(j) is None
            &&& 0 <= i < k < members.len() && members[i].0 == members[k].0 && (members[i].0
                == "name"@ || members[i].0 == "samples"@ || members[i].0 == "p50_ms"@
                || members[i].0 == "p95_ms"@ || members[i].0 == "throughput_per_s"@
                || members[i].0 == "extra"@) ==> phase_of(j) is None
        }),
{
    let j = JsonModel::Object(members);
    if lacks(j, "name"@) {
        lemma_slot_lacks(j, "name"@, 0);
    }
    if lacks(j, "samples"@) {
        lemma_slot_lacks(j, "samples"@, 1);
    }
    if lacks(j, "p50_ms"@) {
        lemma_slot_lacks(j, "p50_ms"@, 2);
    }
    if lacks(j, "p95_ms"@) {
        lemma_slot_lacks(j, "p95_ms"@, 3);
    }
    if lacks(j, "throughput_per_s"@) {
        lemma_slot_lacks(j, "throughput_per_s"@, 4);
    }
    if 0 <= i < k < members.len() && members[i].0 == members[k].0 {
        lemma_holders_count(members, i, k);
    }
}

/// A status is read from its label, or from an object that maps its label to nothing; what
/// is no label is no status, and neither is anything else.
pub proof fn statuses_are_labels(label: Seq<char>, value: JsonModel, j: JsonModel)
    ensures
        ({
            let named = if label == "ready"@ {
                Some(BenchStatus::Ready)
            } else if label == "scaffold"@ {
                Some(BenchStatus::Scaffold)
            } else {
                None
            };
            &&& status_of(JsonModel::Text(label)) == named
            &&& status_of(JsonModel::Object(seq![(label, JsonModel::Null)])) == named
            &&& !(value is Null) ==> status_of(JsonModel::Object(seq![(label, value)])) is None
            &&& j is Object && !has_members(j, 1) ==> status_of(j) is None
            &&& !(j is Text || j is Object) ==> status_of(j) is None
        }),
{
    reveal_strlit("ready");
    reveal_strlit("scaffold");
    assert("ready"@.len() == 5 && "scaffold"@.len() == 8);
}

/// A count is a whole number that is not negative, and nothing else; a measured value is any
/// number, whole or not, and nothing else.
pub proof fn numbers_are_read_as_such(n: u64, i: i64, q: Quantity, j: JsonModel)
    ensures
        count_of(JsonModel::Unsigned(n)) == Some(n),
        count_of(JsonModel::Signed(i)) is Some <==> i >= 0,
        count_of(JsonModel::Signed(i)) matches Some(m) ==> m == i,
        count_of(JsonModel::Real(q)) is None,
        real_of(JsonModel::Real(q)) == Some(q),
        real_of(JsonModel::Unsigned(n)) == Some(Quantity::Whole(n as i128)),
        real_of(JsonModel::Signed(i)) == Some(Quantity::Whole(i as i128)),
        !(j is Unsigned || j is Signed || j is Real) ==> count_of(j) is None && real_of(j) is None,
{
}

/// A report may be a list of its fields too, in their order, of which the notes may be left
/// out; and so may a phase, of which the metrics of the bench may be left out. What is
/// neither a list nor an object is no report and no phase.
pub proof fn records_may_be_lists(
    items: Seq<JsonModel>,
    members: Seq<(Seq<char>, JsonModel)>,
    j: JsonModel,
)
    ensures
        keys_differ(members) && items.len() == 4 && members.len() == 4 && members[0] == (
            "name"@,
            items[0],
        ) && members[1] == ("status"@, items[1]) && members[2] == ("phases"@, items[2])
            && members[3] == ("notes"@, items[3]) ==> report_of(JsonModel::List(items))
            == report_of(JsonModel::Object(members)),
        keys_differ(members) && items.len() == 3 && members.len() == 3 && members[0] == (
            "name"@,
            items[0],
        ) && members[1] == ("status"@, items[1]) && members[2] == ("phases"@, items[2])
            ==> report_of(JsonModel::List(items)) == report_of(JsonModel::Object(members)),
        keys_differ(members) && items.len() == 6 && members.len() == 6 && members[0] == (
            "name"@,
            items[0],
        ) && members[1] == ("samples"@, items[1]) && members[2] == ("p50_ms"@, items[2])
            && members[3] == ("p95_ms"@, items[3]) && members[4] == (
            "throughput_per_s"@,
            items[4],
        ) && members[5] == ("extra"@, items[5]) ==> phase_of(JsonModel::List(items)) == phase_of(
            JsonModel::Object(members),
        ),
        items.len() < 3 || items.len() > 4 ==> report_of(JsonModel::List(items)) is None,
        items.len() < 5 || items.len() > 6 ==> phase_of(JsonModel::List(items)) is None,
        !(j is List || j is Object) ==> report_of(j) is None && phase_of(j) is None,
{
    let object = JsonModel::Object(members);
    if keys_differ(members) && items.len() == 6 && members.len() == 6 {
        lemma_one_holder(members, 0);
        lemma_one_holder(members, 1);
        lemma_one_holder(members, 2);
        lemma_one_holder(members, 3);
        lemma_one_holder(members, 4);
        lemma_one_holder(members, 5);
    }
    if keys_differ(members) && items.len() == members.len() && (items.len() == 4 || items.len()
        == 3) && members[0] == ("name"@, items[0]) && members[1] == ("status"@, items[1])
        && members[2] == ("phases"@, items[2]) {
        lemma_one_holder(members, 0);
        lemma_one_holder(members, 1);
        lemma_one_holder(members, 2);
        if items.len() == 4 && members[3] == ("notes"@, items[3]) {
            lemma_one_holder(members, 3);
        }
        if items.len() == 3 {
            reveal_strlit("name");
            reveal_strlit("status");
            reveal_strlit("phases");
            reveal_strlit("notes");
            assert("name"@.len() == 4 && "status"@.len() == 6 && "phases"@.len() == 6);
            assert("notes"@.len() == 5);
            lemma_slot_lacks(object, "notes"@, 3);
        }
    }
}

} // verus!
