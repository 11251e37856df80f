//! The columns of the data files.

use vstd::prelude::*;

verus! {

/// The kind of a column's values.
#[derive(Debug, Clone, Copy, PartialEq, Eq, Structural)]
pub enum ColumnKind {
    Int64,
    Float64,
    Utf8,
}

/// A column of a data file.
#[derive(Debug, Clone, Copy)]
pub struct Column {
    pub name: &'static str,
    pub kind: ColumnKind,
    pub nullable: bool,
}

/// What the columns say: name, kind, and whether values may be missing.
pub open spec fn columns_model(v: Seq<Column>) -> Seq<(Seq<char>, ColumnKind, bool)> {
    Seq::new(v.len(), |i: int| (v[i].name@, v[i].kind, v[i].nullable))
}

/// The columns of a written data file.
pub open spec fn batch_schema() -> Seq<(Seq<char>, ColumnKind, bool)> {
    seq![
        ("id"@, ColumnKind::Int64, false),
        ("name"@, ColumnKind::Utf8, false),
        ("value"@, ColumnKind::Float64, false),
    ]
}

/// The columns of a written data file.
pub fn batch_columns() -> (r: Vec<Column>)
    ensures
        columns_model(r@) == batch_schema(),
{
    let mut r: Vec<Column> = Vec::new();
    r.push(Column { name: "id", kind: ColumnKind::Int64, nullable: false });
    r.push(Column { name: "name", kind: ColumnKind::Utf8, nullable: false });
    r.push(Column { name: "value", kind: ColumnKind::Float64, nullable: false });
    r
}

/// The columns of the dataset that is scanned.
pub open spec fn dataset_columns() -> Seq<(Seq<char>, ColumnKind, bool)> {
    seq![
        ("id"@, ColumnKind::Int64, false),
        ("measure_a"@, ColumnKind::Int64, false),
        ("measure_b"@, ColumnKind::Float64, false),
        ("grp"@, ColumnKind::Utf8, false),
    ]
}

/// The columns of the dataset that is scanned. They are given to the reader, so that it
/// need not read any file to find them out.
pub fn dataset_schema() -> (r: Vec<Column>)
    ensures
        columns_model(r@) == dataset_columns(),
{
    let mut r: Vec<Column> = Vec::new();
    r.push(Column { name: "id", kind: ColumnKind::Int64, nullable: false });
    r.push(Column { name: "measure_a", kind: ColumnKind::Int64, nullable: false });
    r.push(Column { name: "measure_b", kind: ColumnKind::Float64, nullable: false });
    r.push(Column { name: "grp", kind: ColumnKind::Utf8, nullable: false });
    r
}

/// The scanned dataset has a key, two measures and a group, under names that differ, and no
/// value of it is missing; whole numbers, decimals and text stand in columns of their kind.
pub proof fn datasets_are_complete(i: int, k: int)
    ensures
        ({
            let columns = dataset_columns();
            &&& columns.len() == 4
            &&& 0 <= i < k < 4 ==> columns[i].0 != columns[k].0
            &&& 0 <= i < 4 ==> !columns[i].2
            &&& 0 <= i < 4 ==> (columns[i].1 == ColumnKind::Int64 <==> columns[i].0 == "id"@
                || columns[i].0 == "measure_a"@)
            &&& 0 <= i < 4 ==> (columns[i].1 == ColumnKind::Float64 <==> columns[i].0
                == "measure_b"@)
            &&& 0 <= i < 4 ==> (columns[i].1 == ColumnKind::Utf8 <==> columns[i].0 == "grp"@)
        }),
{
    reveal_strlit("id");
    reveal_strlit("measure_a");
    reveal_strlit("measure_b");
    reveal_strlit("grp");
    assert("id"@.len() == 2 && "measure_a"@.len() == 9 && "grp"@.len() == 3);
    assert("measure_a"@[8] == 'a' && "measure_b"@[8] == 'b' && "measure_b"@.len() == 9);
}

} // verus!
