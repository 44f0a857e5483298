//! Column metadata: the engine's column type tags and the per-result
//! column list shared by every row of that result.

use std::rc::Rc;
use vstd::prelude::*;

use crate::error::Error;
use crate::value::{first_nul, utf8_decode};

verus! {

/// The closed set of column type tags the engine can report.
///
/// The engine identifies a column's type by a small numeric code; the
/// codes are assigned in declaration order starting at zero (see
/// [`DataType::from_code`]). A code outside this set means the client and
/// the engine disagree about their shared wire contract.
#[derive(Clone, Copy, Debug, PartialEq, Eq, Structural)]
pub enum DataType {
    Null,
    TinyInt,
    SmallInt,
    Int,
    BigInt,
    UTinyInt,
    USmallInt,
    UInt,
    UBigInt,
    Float,
    Double,
    Timestamp,
    Char,
    Binary,
    VChar,
    VBinary,
    Bool,
    Inet,
    Mac,
    Json,
    Array,
    Max,
}

/// The numeric wire code for each type tag, in declaration order.
pub open spec fn spec_type_code(t: DataType) -> u32 {
    match t {
        DataType::Null => 0,
        DataType::TinyInt => 1,
        DataType::SmallInt => 2,
        DataType::Int => 3,
        DataType::BigInt => 4,
        DataType::UTinyInt => 5,
        DataType::USmallInt => 6,
        DataType::UInt => 7,
        DataType::UBigInt => 8,
        DataType::Float => 9,
        DataType::Double => 10,
        DataType::Timestamp => 11,
        DataType::Char => 12,
        DataType::Binary => 13,
        DataType::VChar => 14,
        DataType::VBinary => 15,
        DataType::Bool => 16,
        DataType::Inet => 17,
        DataType::Mac => 18,
        DataType::Json => 19,
        DataType::Array => 20,
        DataType::Max => 21,
    }
}

impl DataType {
    /// Maps a raw type code from the engine to its tag.
    ///
    /// Every code the engine may legally report maps to exactly one tag;
    /// `None` marks a code outside the documented set, which callers must
    /// treat as a violation of the engine's wire contract.
    pub fn from_code(code: u32) -> (r: Option<DataType>)
        ensures
            r matches Some(t) ==> spec_type_code(t) == code,
            r is None <==> code > 21,
    {
        match code {
            0 => Some(DataType::Null),
            1 => Some(DataType::TinyInt),
            2 => Some(DataType::SmallInt),
            3 => Some(DataType::Int),
            4 => Some(DataType::BigInt),
            5 => Some(DataType::UTinyInt),
            6 => Some(DataType::USmallInt),
            7 => Some(DataType::UInt),
            8 => Some(DataType::UBigInt),
            9 => Some(DataType::Float),
            10 => Some(DataType::Double),
            11 => Some(DataType::Timestamp),
            12 => Some(DataType::Char),
            13 => Some(DataType::Binary),
            14 => Some(DataType::VChar),
            15 => Some(DataType::VBinary),
            16 => Some(DataType::Bool),
            17 => Some(DataType::Inet),
            18 => Some(DataType::Mac),
            19 => Some(DataType::Json),
            20 => Some(DataType::Array),
            21 => Some(DataType::Max),
            _ => None,
        }
    }

    /// The numeric wire code of this tag.
    pub fn code(self) -> (c: u32)
        ensures
            c == spec_type_code(self),
    {
        match self {
            DataType::Null => 0,
            DataType::TinyInt => 1,
            DataType::SmallInt => 2,
            DataType::Int => 3,
            DataType::BigInt => 4,
            DataType::UTinyInt => 5,
            DataType::USmallInt => 6,
            DataType::UInt => 7,
            DataType::UBigInt => 8,
            DataType::Float => 9,
            DataType::Double => 10,
            DataType::Timestamp => 11,
            DataType::Char => 12,
            DataType::Binary => 13,
            DataType::VChar => 14,
            DataType::VBinary => 15,
            DataType::Bool => 16,
            DataType::Inet => 17,
            DataType::Mac => 18,
            DataType::Json => 19,
            DataType::Array => 20,
            DataType::Max => 21,
        }
    }
}

/// One column of a result set: its name and its declared type.
/// Immutable once constructed.
#[derive(Debug, Clone)]
pub struct Column {
    name: String,
    datatype: DataType,
}

/// The mathematical content of a [`Column`]: the name's characters and
/// the type tag.
pub struct ColumnView {
    pub name: Seq<char>,
    pub datatype: DataType,
}

impl View for Column {
    type V = ColumnView;

    closed spec fn view(&self) -> ColumnView {
        ColumnView { name: self.name@, datatype: self.datatype }
    }
}

impl Column {
    pub fn new(name: String, datatype: DataType) -> (c: Column)
        ensures
            c@.name == name@,
            c@.datatype == datatype,
    {
        Column { name, datatype }
    }

    pub fn name(&self) -> (n: &str)
        ensures
            n@ == self@.name,
    {
        self.name.as_str()
    }

    pub fn datatype(&self) -> (d: DataType)
        ensures
            d == self@.datatype,
    {
        self.datatype
    }
}

/// What a raw engine name buffer means: the characters of its
/// NUL-terminated, UTF-8 prefix; bad text is an encoding error and a
/// missing terminator a wire-contract violation.
pub open spec fn spec_column_name(bytes: Seq<u8>) -> Result<Seq<char>, Error> {
    match first_nul(bytes) {
        Some(end) => match utf8_decode(bytes.take(end)) {
            Some(name) => Ok(name),
            None => Err(Error::Utf8),
        },
        None => Err(Error::ContractViolation),
    }
}

/// Whether one raw column is acceptable: a decodable name and a type
/// code in the documented set.
pub open spec fn column_ok(bytes: Seq<u8>, code: u32) -> bool {
    spec_column_name(bytes) is Ok && code <= 21
}

/// Which error an unacceptable raw column reports: the name's own
/// error, or a wire-contract violation for an unmapped type code.
pub open spec fn column_err(bytes: Seq<u8>, code: u32) -> Error
    recommends
        !column_ok(bytes, code),
{
    match spec_column_name(bytes) {
        Err(e) => e,
        Ok(_) => Error::ContractViolation,
    }
}

/// The view of a sequence of columns: each column's view, in order.
pub open spec fn columns_view(s: Seq<Column>) -> Seq<ColumnView> {
    Seq::new(s.len(), |i: int| s[i]@)
}

/// The ordered column list of one result set.
///
/// Built once per result and shared, not copied, across every row the
/// result produces: the list is reference-counted, so cloning it is
/// cheap and all rows see the same metadata. Declaration order is
/// significant: it is the positional basis for decoding and for
/// name-based lookup.
#[derive(Debug)]
pub struct Columns {
    inner: Rc<Vec<Column>>,
}

impl View for Columns {
    type V = Seq<ColumnView>;

    closed spec fn view(&self) -> Seq<ColumnView> {
        columns_view(self.inner@)
    }
}

impl Clone for Columns {
    fn clone(&self) -> (r: Self)
        ensures
            r@ == self@,
    {
        Columns { inner: self.inner.clone() }
    }
}

impl Columns {
    /// Wraps a column list read from the engine's result metadata.
    pub fn new(columns: Vec<Column>) -> (r: Columns)
        ensures
            r@ == columns_view(columns@),
    {
        Columns { inner: Rc::new(columns) }
    }

    pub fn len(&self) -> (n: usize)
        ensures
            n == self@.len(),
    {
        self.inner.len()
    }

    pub fn name(&self, i: usize) -> (n: &str)
        requires
            i < self@.len(),
        ensures
            n@ == self@[i as int].name,
    {
        self.inner[i].name()
    }

    pub fn datatype(&self, i: usize) -> (d: DataType)
        requires
            i < self@.len(),
        ensures
            d == self@[i as int].datatype,
    {
        self.inner[i].datatype()
    }

    /// Borrows the column at position `i`.
    pub fn column(&self, i: usize) -> (c: &Column)
        requires
            i < self@.len(),
        ensures
            c@ == self@[i as int],
    {
        &self.inner[i]
    }

    /// Walks the columns in declaration order.
    pub fn iter(&self) -> (it: ColumnsIter<'_>)
        ensures
            it.cols() == self@,
            it.pos() == 0,
    {
        ColumnsIter { columns: self, pos: 0 }
    }

    /// Recovers the owned column list, if this handle is the last one
    /// sharing it.
    pub fn into_inner(self) -> (r: Option<Vec<Column>>)
        ensures
            r matches Some(v) ==> columns_view(v@) == self@,
    {
        Rc::into_inner(self.inner)
    }

    /// Builds the column list from the engine's raw result metadata:
    /// one NUL-terminated name buffer and one type code per column, in
    /// declaration order, each read from the engine exactly once.
    ///
    /// A name must be NUL-terminated, valid UTF-8 text; a type code
    /// must belong to the documented set. The first column violating
    /// that decides the error: bad text is an encoding error, a
    /// missing NUL or an unmapped code a wire-contract violation.
    pub fn from_raw(raw: Vec<(Vec<u8>, u32)>) -> (r: Result<Columns, Error>)
        ensures
            r matches Ok(cols) ==> {
                &&& cols@.len() == raw@.len()
                &&& forall|i: int|
                    0 <= i < raw@.len() ==> {
                        &&& (#[trigger] spec_column_name(raw@[i].0@)) == Ok::<Seq<char>, Error>(
                            cols@[i].name,
                        )
                        &&& spec_type_code(cols@[i].datatype) == raw@[i].1
                    }
            },
            r is Ok <==> forall|i: int|
                0 <= i < raw@.len() ==> #[trigger] column_ok(raw@[i].0@, raw@[i].1),
            r matches Err(e) ==> exists|i: int|
                {
                    &&& 0 <= i < raw@.len()
                    &&& !(#[trigger] column_ok(raw@[i].0@, raw@[i].1))
                    &&& e == column_err(raw@[i].0@, raw@[i].1)
                    &&& forall|j: int| 0 <= j < i ==> column_ok(raw@[j].0@, raw@[j].1)
                },
    {
        let n: usize = raw.len();
        let mut columns: Vec<Column> = Vec::new();
        let mut i: usize = 0;
        while i < n
            invariant
                0 <= i <= n == raw@.len(),
                columns@.len() == i,
                forall|j: int| 0 <= j < i ==> #[trigger] column_ok(raw@[j].0@, raw@[j].1),
                forall|j: int|
                    0 <= j < i ==> {
                        &&& (#[trigger] spec_column_name(raw@[j].0@)) == Ok::<Seq<char>, Error>(
                            columns@[j]@.name,
                        )
                        &&& spec_type_code(columns@[j]@.datatype) == raw@[j].1
                    },
            decreases n - i,
        {
            let bytes = &raw[i].0;
            let name = match crate::value::find_nul(bytes) {
                Some(end) => {
                    proof {
                        crate::value::lemma_first_nul(bytes@);
                        assert(bytes@.subrange(0, end as int) =~= bytes@.take(end as int));
                    }
                    let prefix = crate::value::copy_subrange(bytes, 0, end);
                    match crate::value::string_from_utf8(prefix) {
                        Some(s) => s,
                        None => {
                            proof {
                                assert(spec_column_name(raw@[i as int].0@) == Err::<
                                    Seq<char>,
                                    Error,
                                >(Error::Utf8));
                                assert(!column_ok(raw@[i as int].0@, raw@[i as int].1));
                            }
                            return Err(Error::Utf8);
                        },
                    }
                },
                None => {
                    proof {
                        assert(spec_column_name(raw@[i as int].0@) == Err::<Seq<char>, Error>(
                            Error::ContractViolation,
                        ));
                        assert(!column_ok(raw@[i as int].0@, raw@[i as int].1));
                    }
                    return Err(Error::ContractViolation);
                },
            };
            let datatype = match DataType::from_code(raw[i].1) {
                Some(t) => t,
                None => {
                    proof {
                        assert(spec_column_name(raw@[i as int].0@) == Ok::<Seq<char>, Error>(
                            name@,
                        ));
                        assert(raw@[i as int].1 > 21);
                        assert(!column_ok(raw@[i as int].0@, raw@[i as int].1));
                        assert(column_err(raw@[i as int].0@, raw@[i as int].1)
                            == Error::ContractViolation);
                    }
                    return Err(Error::ContractViolation);
                },
            };
            columns.push(Column::new(name, datatype));
            i = i + 1;
        }
        let cols = Columns::new(columns);
        proof {
            assert(cols@.len() == raw@.len());
            assert(forall|j: int| 0 <= j < raw@.len() ==> cols@[j] == #[trigger] columns@[j]@);
        }
        Ok(cols)
    }
}

/// A cursor over a [`Columns`] list, yielding each column in
/// declaration order and then `None`.
pub struct ColumnsIter<'a> {
    columns: &'a Columns,
    pos: usize,
}

impl<'a> ColumnsIter<'a> {
    /// The columns being walked.
    pub closed spec fn cols(&self) -> Seq<ColumnView> {
        self.columns@
    }

    /// How many columns have been yielded so far.
    pub closed spec fn pos(&self) -> int {
        self.pos as int
    }

    /// The next column, or `None` once all have been yielded.
    pub fn next(&mut self) -> (r: Option<&'a Column>)
        ensures
            final(self).cols() == old(self).cols(),
            old(self).pos() < old(self).cols().len() ==> {
                &&& r matches Some(c) && c@ == old(self).cols()[old(self).pos()]
                &&& final(self).pos() == old(self).pos() + 1
            },
            old(self).pos() >= old(self).cols().len() ==> {
                &&& r is None
                &&& final(self).pos() == old(self).pos()
            },
    {
        if self.pos < self.columns.len() {
            let c = self.columns.column(self.pos);
            self.pos = self.pos + 1;
            Some(c)
        } else {
            None
        }
    }
}

} // verus!
