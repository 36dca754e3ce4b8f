//! Column and table definitions.

use crate::text::text_equal;
use vstd::prelude::*;

verus! {

/// The declared type of a column.
#[derive(Debug, Clone, Copy)]
pub enum DataType {
    Integer,
    Float,
    /// Text, with an optional maximum length.
    String(Option<usize>),
    Boolean,
    Date,
    Timestamp,
    /// A declared type outside the families above; such a column holds only `Null`.
    Other,
}

/// A constraint attached to one column. Constraints are recorded, not enforced.
#[derive(Debug)]
pub enum ColumnConstraint {
    PrimaryKey,
    NotNull,
    Unique,
    /// `(referenced_table, referenced_column)`
    ForeignKey(String, String),
    /// The checked expression, as text.
    Check(String),
    /// The default value, as text.
    Default(String),
}

/// The contents of a [`ColumnConstraint`].
pub ghost enum ConstraintView {
    PrimaryKey,
    NotNull,
    Unique,
    ForeignKey(Seq<char>, Seq<char>),
    Check(Seq<char>),
    Default(Seq<char>),
}

impl View for ColumnConstraint {
    type V = ConstraintView;

    open spec fn view(&self) -> ConstraintView {
        match self {
            ColumnConstraint::PrimaryKey => ConstraintView::PrimaryKey,
            ColumnConstraint::NotNull => ConstraintView::NotNull,
            ColumnConstraint::Unique => ConstraintView::Unique,
            ColumnConstraint::ForeignKey(table, column) => ConstraintView::ForeignKey(
                table@,
                column@,
            ),
            ColumnConstraint::Check(text) => ConstraintView::Check(text@),
            ColumnConstraint::Default(text) => ConstraintView::Default(text@),
        }
    }
}

impl Clone for ColumnConstraint {
    fn clone(&self) -> (r: Self)
        ensures
            r@ == self@,
    {
        match self {
            ColumnConstraint::PrimaryKey => ColumnConstraint::PrimaryKey,
            ColumnConstraint::NotNull => ColumnConstraint::NotNull,
            ColumnConstraint::Unique => ColumnConstraint::Unique,
            ColumnConstraint::ForeignKey(table, column) => ColumnConstraint::ForeignKey(
                table.clone(),
                column.clone(),
            ),
            ColumnConstraint::Check(text) => ColumnConstraint::Check(text.clone()),
            ColumnConstraint::Default(text) => ColumnConstraint::Default(text.clone()),
        }
    }
}

/// The contents of a list of constraints, in order.
pub open spec fn constraints_view(constraints: Seq<ColumnConstraint>) -> Seq<ConstraintView> {
    Seq::new(constraints.len(), |i: int| constraints[i]@)
}

/// Copies a list of constraints.
pub fn clone_constraints(constraints: &Vec<ColumnConstraint>) -> (r: Vec<ColumnConstraint>)
    ensures
        constraints_view(r@) == constraints_view(constraints@),
{
    let mut out: Vec<ColumnConstraint> = Vec::new();
    let mut i: usize = 0;
    while i < constraints.len()
        invariant
            i <= constraints.len(),
            out.len() == i,
            forall|j: int| 0 <= j < i ==> (#[trigger] out[j])@ == constraints[j]@,
        decreases constraints.len() - i,
    {
        out.push(constraints[i].clone());
        i = i + 1;
    }
    assert(constraints_view(out@) =~= constraints_view(constraints@));
    out
}

/// A constraint attached to a whole table. Constraints are recorded, not enforced.
#[derive(Debug, Clone)]
pub enum TableConstraint {
    PrimaryKey(Vec<String>),
    ForeignKey { columns: Vec<String>, referenced_table: String, referenced_columns: Vec<String> },
    Unique(Vec<String>),
    Check(String),
}

/// One column of a table.
#[derive(Debug)]
pub struct ColumnDefinition {
    pub name: String,
    pub data_type: DataType,
    pub constraints: Vec<ColumnConstraint>,
}

/// The contents of a column: its name, its declared type and its
/// constraints.
pub ghost struct ColumnView {
    pub name: Seq<char>,
    pub data_type: DataType,
    pub constraints: Seq<ConstraintView>,
}

impl View for ColumnDefinition {
    type V = ColumnView;

    open spec fn view(&self) -> ColumnView {
        ColumnView {
            name: self.name@,
            data_type: self.data_type,
            constraints: constraints_view(self.constraints@),
        }
    }
}

impl Clone for ColumnDefinition {
    fn clone(&self) -> (r: Self)
        ensures
            r@ == self@,
    {
        ColumnDefinition {
            name: self.name.clone(),
            data_type: self.data_type,
            constraints: clone_constraints(&self.constraints),
        }
    }
}

/// The views of a list of columns, in declaration order.
pub open spec fn columns_view(columns: Seq<ColumnDefinition>) -> Seq<ColumnView> {
    Seq::new(columns.len(), |i: int| columns[i]@)
}

/// The position of the first column called `name`.
pub open spec fn column_index(columns: Seq<ColumnView>, name: Seq<char>) -> Option<int>
    decreases columns.len(),
{
    if columns.len() == 0 {
        None
    } else if columns[0].name == name {
        Some(0int)
    } else {
        match column_index(columns.drop_first(), name) {
            Some(i) => Some(i + 1),
            None => None,
        }
    }
}

/// What [`column_index`] finds is the first column of that name, and where
/// it finds none there is none.
pub proof fn lemma_column_index(columns: Seq<ColumnView>, name: Seq<char>)
    ensures
        match column_index(columns, name) {
            Some(i) => 0 <= i < columns.len() && columns[i].name == name && forall|j: int|
                0 <= j < i ==> columns[j].name != name,
            None => forall|j: int| 0 <= j < columns.len() ==> columns[j].name != name,
        },
    decreases columns.len(),
{
    if columns.len() > 0 && columns[0].name != name {
        let rest = columns.drop_first();
        lemma_column_index(rest, name);
        match column_index(rest, name) {
            Some(i) => {
                assert forall|j: int| 0 <= j < i + 1 implies columns[j].name != name by {
                    if j > 0 {
                        assert(rest[j - 1] == columns[j]);
                    }
                }
            },
            None => {
                assert forall|j: int| 0 <= j < columns.len() implies columns[j].name != name by {
                    if j > 0 {
                        assert(rest[j - 1] == columns[j]);
                    }
                }
            },
        }
    }
}

/// Finds the first column called `name`.
pub fn find_column(columns: &Vec<ColumnDefinition>, name: &str) -> (r: Option<usize>)
    ensures
        match r {
            Some(i) => column_index(columns_view(columns@), name@) == Some(i as int),
            None => column_index(columns_view(columns@), name@) is None,
        },
{
    let mut i: usize = 0;
    while i < columns.len()
        invariant
            i <= columns.len(),
            forall|j: int| 0 <= j < i ==> columns_view(columns@)[j].name != name@,
        decreases columns.len() - i,
    {
        if text_equal(columns[i].name.as_str(), name) {
            proof {
                lemma_column_index(columns_view(columns@), name@);
                assert(columns_view(columns@)[i as int].name == name@);
            }
            return Some(i);
        }
        i = i + 1;
    }
    proof {
        lemma_column_index(columns_view(columns@), name@);
    }
    None
}

/// Copies a list of columns.
pub fn clone_columns(columns: &Vec<ColumnDefinition>) -> (r: Vec<ColumnDefinition>)
    ensures
        columns_view(r@) == columns_view(columns@),
{
    let mut out: Vec<ColumnDefinition> = Vec::new();
    let mut i: usize = 0;
    while i < columns.len()
        invariant
            i <= columns.len(),
            out.len() == i,
            forall|j: int| 0 <= j < i ==> out[j]@ == columns[j]@,
        decreases columns.len() - i,
    {
        out.push(columns[i].clone());
        i = i + 1;
    }
    out
}

} // verus!
