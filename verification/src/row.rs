//! One decoded row: an ordered value sequence sharing its result's
//! column metadata, with positional and name-based lookup.

use vstd::prelude::*;

use crate::column::{ColumnView, Columns};
use crate::value::Value;

verus! {

/// A position to look up in a row: a column name or a value index.
pub enum ValueIndex<'i> {
    ColumnName(&'i str),
    ColumnIndex(usize),
}

/// The mathematical content of a lookup position.
pub enum IndexKey {
    Name(Seq<char>),
    Pos(int),
}

impl<'i> View for ValueIndex<'i> {
    type V = IndexKey;

    open spec fn view(&self) -> IndexKey {
        match self {
            ValueIndex::ColumnName(s) => IndexKey::Name(s@),
            ValueIndex::ColumnIndex(i) => IndexKey::Pos(*i as int),
        }
    }
}

/// Anything a row can be indexed by: a position, a column name, or a
/// [`ValueIndex`] itself.
pub trait IntoValueIndex<'i>: Sized {
    /// Which lookup this value stands for.
    spec fn key(&self) -> IndexKey;

    fn into_index(self) -> (r: ValueIndex<'i>)
        ensures
            r@ == self.key(),
    ;
}

impl<'i> IntoValueIndex<'i> for usize {
    open spec fn key(&self) -> IndexKey {
        IndexKey::Pos(*self as int)
    }

    fn into_index(self) -> (r: ValueIndex<'i>) {
        ValueIndex::ColumnIndex(self)
    }
}

impl<'i> IntoValueIndex<'i> for &'i str {
    open spec fn key(&self) -> IndexKey {
        IndexKey::Name((*self)@)
    }

    fn into_index(self) -> (r: ValueIndex<'i>) {
        ValueIndex::ColumnName(self)
    }
}

impl<'i> IntoValueIndex<'i> for ValueIndex<'i> {
    open spec fn key(&self) -> IndexKey {
        self@
    }

    fn into_index(self) -> (r: ValueIndex<'i>) {
        self
    }
}

/// The position of the first column whose name is `name`, if any.
pub open spec fn first_match(cols: Seq<ColumnView>, name: Seq<char>) -> Option<int>
    decreases cols.len(),
{
    if cols.len() == 0 {
        None
    } else if cols[0].name == name {
        Some(0)
    } else {
        match first_match(cols.skip(1), name) {
            Some(i) => Some(i + 1),
            None => None,
        }
    }
}

/// Name lookup returns the first column bearing the requested name —
/// the column there bears it, no earlier column does — and it fails
/// exactly when no column bears the name.
pub proof fn lemma_name_lookup(cols: Seq<ColumnView>, name: Seq<char>)
    ensures
        match first_match(cols, name) {
            Some(i) => 0 <= i < cols.len() && cols[i].name == name && (forall|j: int|
                0 <= j < i ==> cols[j].name != name),
            None => forall|j: int| 0 <= j < cols.len() ==> cols[j].name != name,
        },
    decreases cols.len(),
{
    if cols.len() == 0 {
    } else if cols[0].name == name {
    } else {
        let rest = cols.skip(1);
        lemma_name_lookup(rest, name);
        assert(forall|j: int| 0 <= j < rest.len() ==> rest[j] == cols[j + 1]);
        assert(forall|j: int| 1 <= j < cols.len() ==> cols[j] == rest[j - 1]);
    }
}

/// Which value position a lookup key selects, if any: a direct index
/// for positional lookup, the first matching column for a name.
pub open spec fn spec_lookup(cols: Seq<ColumnView>, nvalues: int, key: IndexKey) -> Option<int> {
    match key {
        IndexKey::Pos(i) => if 0 <= i < nvalues {
            Some(i)
        } else {
            None
        },
        IndexKey::Name(n) => first_match(cols, n),
    }
}

/// Positional lookup selects exactly the requested position: `get(i)`
/// returns the same value as the row's value sequence at `i`.
pub proof fn lemma_index_lookup(cols: Seq<ColumnView>, nvalues: int, i: int)
    requires
        0 <= i < nvalues,
    ensures
        spec_lookup(cols, nvalues, IndexKey::Pos(i)) == Some(i),
{
}

/// Relies on `str`'s `PartialEq`: two string slices compare equal
/// exactly when their characters do.
#[verifier::external_body]
fn str_eq(a: &str, b: &str) -> (r: bool)
    ensures
        r == (a@ == b@),
{
    a == b
}

/// One fetched row: the decoded values, in column order, and a shared
/// handle to the result's column metadata. `values` and `columns`
/// always have the same length.
#[derive(Debug)]
pub struct Row {
    pub(crate) columns: Columns,
    pub(crate) values: Vec<Value>,
}

impl Row {
    /// The row's column metadata.
    pub closed spec fn spec_columns(&self) -> Seq<ColumnView> {
        self.columns@
    }

    /// The row's decoded values, in column order.
    pub closed spec fn spec_values(&self) -> Seq<Value> {
        self.values@
    }

    /// A row is well-formed when it holds one value per column. Every
    /// row this crate produces is.
    pub open spec fn wf(&self) -> bool {
        self.spec_values().len() == self.spec_columns().len()
    }

    /// Assembles a fetched row from its decoded values and a shared
    /// handle to the result's column metadata.
    pub(crate) fn new(columns: Columns, values: Vec<Value>) -> (r: Row)
        ensures
            r.spec_columns() == columns@,
            r.spec_values() == values@,
    {
        Row { columns, values }
    }

    /// A shared handle to the row's column metadata.
    pub fn columns(&self) -> (r: Columns)
        ensures
            r@ == self.spec_columns(),
    {
        self.columns.clone()
    }

    /// The row's full value sequence.
    pub fn values(&self) -> (r: &Vec<Value>)
        ensures
            r@ == self.spec_values(),
    {
        &self.values
    }

    /// Looks a value up by position or by name, `None` when the
    /// position is out of bounds or no column bears the name. Name
    /// lookup returns the value at the first column whose name matches.
    pub fn try_get<'i, I: IntoValueIndex<'i>>(&self, index: I) -> (r: Option<&Value>)
        requires
            self.wf(),
        ensures
            match spec_lookup(self.spec_columns(), self.spec_values().len() as int, index.key()) {
                Some(i) => r matches Some(v) && *v == self.spec_values()[i],
                None => r is None,
            },
    {
        let vi = index.into_index();
        match vi {
            ValueIndex::ColumnName(name) => {
                let n: usize = self.columns.len();
                let mut i: usize = 0;
                while i < n
                    invariant
                        0 <= i <= n == self.spec_columns().len(),
                        self.wf(),
                        index.key() == IndexKey::Name(name@),
                        forall|j: int| 0 <= j < i ==> self.spec_columns()[j].name != name@,
                    decreases n - i,
                {
                    if str_eq(self.columns.name(i), name) {
                        proof {
                            lemma_name_lookup(self.spec_columns(), name@);
                            assert(self.spec_columns()[i as int].name == name@);
                            match first_match(self.spec_columns(), name@) {
                                Some(k) => {
                                    assert(!(k < i));
                                    assert(!(i < k));
                                    assert(k == i as int);
                                },
                                None => {
                                    assert(false);
                                },
                            }
                        }
                        return Some(&self.values[i]);
                    }
                    i = i + 1;
                }
                proof {
                    lemma_name_lookup(self.spec_columns(), name@);
                    if let Some(k) = first_match(self.spec_columns(), name@) {
                        assert(self.spec_columns()[k].name != name@);
                    }
                }
                None
            },
            ValueIndex::ColumnIndex(i) => {
                if i < self.values.len() {
                    Some(&self.values[i])
                } else {
                    None
                }
            },
        }
    }

    /// Looks a value up by position or by name; the position must be in
    /// bounds and the name present. Callers wanting graceful handling
    /// of a missing position use [`Row::try_get`].
    pub fn get<'i, I: IntoValueIndex<'i>>(&self, index: I) -> (r: &Value)
        requires
            self.wf(),
            spec_lookup(self.spec_columns(), self.spec_values().len() as int, index.key())
                is Some,
        ensures
            spec_lookup(self.spec_columns(), self.spec_values().len() as int, index.key())
                matches Some(i) && *r == self.spec_values()[i],
    {
        match self.try_get(index) {
            Some(v) => v,
            None => vstd::pervasive::unreached(),
        }
    }
}

} // verus!
