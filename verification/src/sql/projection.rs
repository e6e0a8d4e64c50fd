//! Projections: what a query reads for each column of its result.
use vstd::prelude::*;
use vstd::string::*;

use crate::search;
use crate::storage::column;
use crate::storage::column::ColumnDef;
use crate::storage::value;
use crate::storage::value::{Value, ValueType};

verus! {

/// Where the values of a projection come from: a literal or a column.
#[derive(Debug)]
pub enum ProjectionValue {
    Value(Value),
    ColumnDef(ColumnDef),
}

/// Equality of sources.
pub open spec fn source_eq(a: ProjectionValue, b: ProjectionValue) -> bool {
    match (a, b) {
        (ProjectionValue::Value(x), ProjectionValue::Value(y)) => value::value_eq(x, y),
        (ProjectionValue::ColumnDef(x), ProjectionValue::ColumnDef(y)) => column::column_def_eq(x, y),
        _ => false,
    }
}

impl Clone for ProjectionValue {
    fn clone(&self) -> (r: Self)
        ensures
            r == *self,
    {
        match self {
            ProjectionValue::Value(v) => ProjectionValue::Value(v.clone()),
            ProjectionValue::ColumnDef(c) => ProjectionValue::ColumnDef(c.clone()),
        }
    }
}

impl PartialEq for ProjectionValue {
    fn eq(&self, other: &Self) -> (r: bool) {
        match (self, other) {
            (ProjectionValue::Value(x), ProjectionValue::Value(y)) => *x == *y,
            (ProjectionValue::ColumnDef(x), ProjectionValue::ColumnDef(y)) => *x == *y,
            _ => false,
        }
    }
}

impl vstd::std_specs::cmp::PartialEqSpecImpl for ProjectionValue {
    open spec fn obeys_eq_spec() -> bool {
        true
    }

    open spec fn eq_spec(&self, other: &Self) -> bool {
        source_eq(*self, *other)
    }
}

impl ProjectionValue {
    /// The column, where the source is one.
    pub fn get_col_def(&self) -> (r: Option<&ColumnDef>)
        ensures
            match *self {
                ProjectionValue::ColumnDef(c) => r matches Some(d) && *d == c,
                ProjectionValue::Value(_) => r is None,
            },
    {
        match self {
            ProjectionValue::ColumnDef(col_def) => Some(col_def),
            ProjectionValue::Value(_) => None,
        }
    }

    /// The type of the values of this source.
    pub fn get_field_type(&self) -> (r: ValueType)
        ensures
            r == field_type_of(*self),
    {
        match self {
            ProjectionValue::ColumnDef(col_def) => col_def.field_type,
            ProjectionValue::Value(v) => v.get_type(),
        }
    }
}

/// The type of the values of a source.
pub open spec fn field_type_of(s: ProjectionValue) -> ValueType {
    match s {
        ProjectionValue::ColumnDef(c) => c.field_type,
        ProjectionValue::Value(v) => value::type_of(v),
    }
}

/// A column of a result: its source and the name it was given.
#[derive(Debug)]
pub struct Projection {
    pub alias: Option<String>,
    pub source: ProjectionValue,
}

/// Equality of optional names.
pub open spec fn alias_eq(a: Option<String>, b: Option<String>) -> bool {
    match (a, b) {
        (Some(x), Some(y)) => x@ == y@,
        (None, None) => true,
        _ => false,
    }
}

/// Equality of projections.
pub open spec fn projection_eq(a: Projection, b: Projection) -> bool {
    alias_eq(a.alias, b.alias) && source_eq(a.source, b.source)
}

/// A copy of an optional name.
pub fn clone_alias(alias: &Option<String>) -> (r: Option<String>)
    ensures
        r == *alias,
{
    match alias {
        Some(a) => Some(a.clone()),
        None => None,
    }
}

impl Clone for Projection {
    fn clone(&self) -> (r: Self)
        ensures
            r == *self,
    {
        Projection { alias: clone_alias(&self.alias), source: self.source.clone() }
    }
}

impl PartialEq for Projection {
    fn eq(&self, other: &Self) -> (r: bool) {
        let same_alias = match (&self.alias, &other.alias) {
            (Some(x), Some(y)) => *x == *y,
            (None, None) => true,
            _ => false,
        };
        same_alias && self.source == other.source
    }
}

impl vstd::std_specs::cmp::PartialEqSpecImpl for Projection {
    open spec fn obeys_eq_spec() -> bool {
        true
    }

    open spec fn eq_spec(&self, other: &Self) -> bool {
        projection_eq(*self, *other)
    }
}

/// The projection that reads a column under its own name.
pub open spec fn column_projection(c: ColumnDef) -> Projection {
    Projection { alias: None, source: ProjectionValue::ColumnDef(c) }
}

/// The projections of columns under their own names.
pub open spec fn column_projections(columns: Seq<ColumnDef>) -> Seq<Projection> {
    columns.map_values(|c: ColumnDef| column_projection(c))
}

/// The projections of columns under their own names.
pub fn projections_of(columns: &[ColumnDef]) -> (r: Vec<Projection>)
    ensures
        r@ == column_projections(columns@),
{
    let mut r: Vec<Projection> = Vec::new();
    let mut i: usize = 0;
    while i < columns.len()
        invariant
            i <= columns@.len(),
            r@.len() == i,
            forall|k: int| 0 <= k < i ==> #[trigger] r@[k] == column_projection(columns@[k]),
        decreases columns@.len() - i,
    {
        r.push(Projection::from_column(columns[i].clone()));
        i += 1;
    }
    assert(r@ =~= column_projections(columns@));
    r
}

/// The property of being equal to a given projection.
pub open spec fn equal_to(d: Projection) -> spec_fn(Projection) -> bool {
    |p: Projection| projection_eq(p, d)
}

/// The property of answering to a name: the alias where there is one, else the column's name.
pub open spec fn answers_to(name: Seq<char>) -> spec_fn(Projection) -> bool {
    |p: Projection|
        match p.alias {
            Some(alias) => alias@ == name,
            None => p.source matches ProjectionValue::ColumnDef(c) && c.name@ == name,
        }
}

/// The position of the first projection that answers to a name.
pub fn position_answering(projections: &[Projection], name: &str) -> (r: Option<usize>)
    ensures
        match r {
            Some(i) => i < projections@.len() && search::position(projections@, answers_to(name@))
                == Some(i as int),
            None => search::position(projections@, answers_to(name@)) is None,
        },
{
    let mut i: usize = 0;
    while i < projections.len()
        invariant
            i <= projections@.len(),
            search::position(projections@, answers_to(name@)) == search::position_from(
                projections@,
                answers_to(name@),
                i as int,
            ),
        decreases projections@.len() - i,
    {
        let found = match &projections[i].alias {
            Some(alias) => crate::text::same_text(alias.as_str(), name),
            None => match &projections[i].source {
                ProjectionValue::ColumnDef(c) => crate::text::same_text(c.name.as_str(), name),
                ProjectionValue::Value(_) => false,
            },
        };
        if found {
            return Some(i);
        }
        i += 1;
    }
    None
}

/// Whether a projection occurs in a list.
pub fn contains_projection(projections: &[Projection], proj: &Projection) -> (r: bool)
    ensures
        r == search::position(projections@, equal_to(*proj)) is Some,
{
    let mut i: usize = 0;
    while i < projections.len()
        invariant
            i <= projections@.len(),
            search::position(projections@, equal_to(*proj)) == search::position_from(
                projections@,
                equal_to(*proj),
                i as int,
            ),
        decreases projections@.len() - i,
    {
        if projections[i] == *proj {
            return true;
        }
        i += 1;
    }
    false
}

/// A copy of a list of projections.
pub fn clone_projections(projections: &[Projection]) -> (r: Vec<Projection>)
    ensures
        r@ == projections@,
{
    let mut r: Vec<Projection> = Vec::new();
    let mut i: usize = 0;
    while i < projections.len()
        invariant
            i <= projections@.len(),
            r@ == projections@.take(i as int),
        decreases projections@.len() - i,
    {
        r.push(projections[i].clone());
        i += 1;
        assert(projections@.take(i as int) =~= projections@.take(i - 1).push(projections@[i - 1]));
    }
    assert(projections@.take(projections@.len() as int) =~= projections@);
    r
}

impl Projection {
    /// The projection that reads a column under its own name.
    pub fn from_column(column_def: ColumnDef) -> (r: Self)
        ensures
            r == column_projection(column_def),
    {
        Projection { alias: None, source: ProjectionValue::ColumnDef(column_def) }
    }
}

} // verus!
