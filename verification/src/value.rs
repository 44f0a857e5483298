//! Typed decoding of raw engine cell buffers.
//!
//! The engine owns each cell's memory and reports it as raw bytes plus a
//! null indicator (and, for binary columns, a separate length). The
//! decoder interprets one such buffer according to the column's declared
//! type: little-endian integers of four widths with their signedness
//! preserved, IEEE float bit patterns, null-terminated UTF-8 text,
//! length-prefixed binary, booleans, network addresses and hardware
//! addresses.

use vstd::prelude::*;

use crate::column::DataType;
use crate::error::Error;

verus! {

/// One raw cell as the engine's per-column accessors expose it: the
/// null indicator, the cell's payload bytes, and the engine-reported
/// payload length that accompanies the pointer of a binary cell (the
/// length is meaningful for `Binary`/`VBinary` only).
pub struct RawCell {
    pub null: bool,
    pub data: Vec<u8>,
    pub blob_len: i32,
}

/// The mathematical content of a [`RawCell`].
pub struct RawCellModel {
    pub null: bool,
    pub data: Seq<u8>,
    pub blob_len: int,
}

impl View for RawCell {
    type V = RawCellModel;

    open spec fn view(&self) -> RawCellModel {
        RawCellModel { null: self.null, data: self.data@, blob_len: self.blob_len as int }
    }
}

/// A network address with its prefix length, IPv4 or IPv6.
///
/// `octets` holds 4 address bytes when `is_v4` and 16 otherwise; the
/// prefix length never exceeds the address width.
#[derive(Debug, Clone, PartialEq)]
pub struct InetAddr {
    pub is_v4: bool,
    pub mask: u8,
    pub octets: Vec<u8>,
}

impl InetAddr {
    pub open spec fn wf(&self) -> bool {
        if self.is_v4 {
            self.octets@.len() == 4 && self.mask <= 32
        } else {
            self.octets@.len() == 16 && self.mask <= 128
        }
    }
}

/// A hardware address: a fixed six-byte record.
#[derive(Debug, Clone, PartialEq)]
pub struct MacAddr {
    pub octets: Vec<u8>,
}

impl MacAddr {
    pub open spec fn wf(&self) -> bool {
        self.octets@.len() == 6
    }
}

/// One decoded cell value.
///
/// The variant is determined by the column's declared type, except that
/// a null indicator decodes to `Null` regardless of the declared type.
/// Narrow signed integers keep their width (`I8`, `I16`); narrow
/// unsigned widths widen into the 32-bit member. `F32` and `F64` carry
/// the IEEE interchange bit patterns: this crate never computes with
/// floating point, it only transports the bits.
#[derive(Debug, Clone, PartialEq)]
pub enum Value {
    Null,
    I8(i8),
    I16(i16),
    I32(i32),
    I64(i64),
    U32(u32),
    U64(u64),
    F32(u32),
    F64(u64),
    Timestamp(i64),
    String(String),
    Binary(Vec<u8>),
    Bool(bool),
    Inet(InetAddr),
    Mac(MacAddr),
}

/// The mathematical content of a [`Value`].
pub enum ValueModel {
    Null,
    I8(i8),
    I16(i16),
    I32(i32),
    I64(i64),
    U32(u32),
    U64(u64),
    F32(u32),
    F64(u64),
    Timestamp(i64),
    Text(Seq<char>),
    Binary(Seq<u8>),
    Bool(bool),
    Inet { v4: bool, mask: u8, octets: Seq<u8> },
    Mac(Seq<u8>),
}

impl View for Value {
    type V = ValueModel;

    open spec fn view(&self) -> ValueModel {
        match self {
            Value::Null => ValueModel::Null,
            Value::I8(v) => ValueModel::I8(*v),
            Value::I16(v) => ValueModel::I16(*v),
            Value::I32(v) => ValueModel::I32(*v),
            Value::I64(v) => ValueModel::I64(*v),
            Value::U32(v) => ValueModel::U32(*v),
            Value::U64(v) => ValueModel::U64(*v),
            Value::F32(v) => ValueModel::F32(*v),
            Value::F64(v) => ValueModel::F64(*v),
            Value::Timestamp(v) => ValueModel::Timestamp(*v),
            Value::String(s) => ValueModel::Text(s@),
            Value::Binary(b) => ValueModel::Binary(b@),
            Value::Bool(b) => ValueModel::Bool(*b),
            Value::Inet(a) => ValueModel::Inet { v4: a.is_v4, mask: a.mask, octets: a.octets@ },
            Value::Mac(m) => ValueModel::Mac(m.octets@),
        }
    }
}

impl Value {
    /// The address payloads a decoded value may carry are well-formed.
    pub open spec fn wf(&self) -> bool {
        match self {
            Value::Inet(a) => a.wf(),
            Value::Mac(m) => m.wf(),
            _ => true,
        }
    }
}

/// The little-endian value of two bytes.
pub open spec fn le2(s: Seq<u8>) -> int
    recommends
        s.len() >= 2,
{
    s[0] + 0x100 * s[1]
}

/// The little-endian value of four bytes.
pub open spec fn le4(s: Seq<u8>) -> int
    recommends
        s.len() >= 4,
{
    s[0] + 0x100 * s[1] + 0x1_0000 * s[2] + 0x100_0000 * s[3]
}

/// The little-endian value of eight bytes.
pub open spec fn le8(s: Seq<u8>) -> int
    recommends
        s.len() >= 8,
{
    s[0] + 0x100 * s[1] + 0x1_0000 * s[2] + 0x100_0000 * s[3] + 0x1_0000_0000 * s[4]
        + 0x100_0000_0000 * s[5] + 0x1_0000_0000_0000 * s[6] + 0x100_0000_0000_0000 * s[7]
}

/// A byte reinterpreted as a two's-complement 8-bit integer.
pub open spec fn signed8(b: u8) -> int {
    if b < 0x80 {
        b as int
    } else {
        b - 0x100
    }
}

/// An unsigned 16-bit value reinterpreted as two's complement.
pub open spec fn signed16(n: int) -> int {
    if n < 0x8000 {
        n
    } else {
        n - 0x1_0000
    }
}

/// An unsigned 32-bit value reinterpreted as two's complement.
pub open spec fn signed32(n: int) -> int {
    if n < 0x8000_0000 {
        n
    } else {
        n - 0x1_0000_0000
    }
}

/// An unsigned 64-bit value reinterpreted as two's complement.
pub open spec fn signed64(n: int) -> int {
    if n < 0x8000_0000_0000_0000 {
        n
    } else {
        n - 0x1_0000_0000_0000_0000
    }
}

/// The position of the first zero byte, if any.
pub open spec fn first_nul(data: Seq<u8>) -> Option<int>
    decreases data.len(),
{
    if data.len() == 0 {
        None
    } else if data[0] == 0 {
        Some(0)
    } else {
        match first_nul(data.skip(1)) {
            Some(i) => Some(i + 1),
            None => None,
        }
    }
}

/// `first_nul` finds exactly the first zero byte: the byte there is
/// zero, every byte before it is not, and `None` means no byte is zero.
pub proof fn lemma_first_nul(data: Seq<u8>)
    ensures
        match first_nul(data) {
            Some(i) => 0 <= i < data.len() && data[i] == 0 && (forall|j: int|
                0 <= j < i ==> data[j] != 0),
            None => forall|j: int| 0 <= j < data.len() ==> data[j] != 0,
        },
    decreases data.len(),
{
    if data.len() == 0 {
    } else if data[0] == 0 {
    } else {
        let rest = data.skip(1);
        lemma_first_nul(rest);
        assert(forall|j: int| 0 <= j < rest.len() ==> rest[j] == data[j + 1]);
        assert(forall|j: int| 1 <= j < data.len() ==> data[j] == rest[j - 1]);
    }
}

/// What the engine's text was decoded to, when the bytes are valid
/// UTF-8; `None` when they are not. The result is a function of the
/// bytes alone.
pub uninterp spec fn utf8_decode(bytes: Seq<u8>) -> Option<Seq<char>>;

/// Relies on `String::from_utf8`: it succeeds exactly on valid UTF-8,
/// and the characters it produces depend on the bytes alone.
#[verifier::external_body]
pub(crate) fn string_from_utf8(bytes: Vec<u8>) -> (r: Option<String>)
    ensures
        r is Some <==> utf8_decode(bytes@) is Some,
        r matches Some(s) ==> utf8_decode(bytes@) == Some(s@),
{
    String::from_utf8(bytes).ok()
}

/// Copies `data[from..to]` into an owned buffer.
pub(crate) fn copy_subrange(data: &Vec<u8>, from: usize, to: usize) -> (r: Vec<u8>)
    requires
        from <= to <= data@.len(),
    ensures
        r@ == data@.subrange(from as int, to as int),
{
    let mut r: Vec<u8> = Vec::new();
    let mut i: usize = from;
    while i < to
        invariant
            from <= i <= to <= data@.len(),
            r@ == data@.subrange(from as int, i as int),
        decreases to - i,
    {
        r.push(data[i]);
        proof {
            assert(data@.subrange(from as int, i as int).push(data@[i as int]) =~= data@.subrange(
                from as int,
                i as int + 1,
            ));
        }
        i = i + 1;
    }
    r
}

/// Finds the first zero byte, reporting exactly what [`first_nul`] says.
pub(crate) fn find_nul(data: &Vec<u8>) -> (r: Option<usize>)
    ensures
        match r {
            Some(i) => first_nul(data@) == Some(i as int),
            None => first_nul(data@) is None,
        },
{
    let n: usize = data.len();
    let mut i: usize = 0;
    while i < n
        invariant
            0 <= i <= n == data@.len(),
            forall|j: int| 0 <= j < i ==> data@[j] != 0,
        decreases n - i,
    {
        if data[i] == 0 {
            proof {
                lemma_first_nul(data@);
                match first_nul(data@) {
                    Some(k) => {
                        assert(!(k < i));
                        assert(!(i < k));
                    },
                    None => {
                        assert(data@[i as int] == 0);
                    },
                }
            }
            return Some(i);
        }
        i = i + 1;
    }
    proof {
        lemma_first_nul(data@);
        if let Some(k) = first_nul(data@) {
            assert(data@[k] != 0);
        }
    }
    None
}

/// What decoding one raw cell under a declared type yields: the policy
/// table of the value decoder.
///
/// A set null indicator yields `Null` whatever the declared type. Each
/// integer width reads that many little-endian bytes, keeping its
/// signedness; floats keep their bit patterns; text is the bytes up to
/// the first NUL, which must be valid UTF-8; binary takes the
/// engine-reported length, where a non-positive length yields `Null`; a
/// boolean is a byte compared against 1; a network address is a mask
/// byte, a family byte (4 or 6) and the address bytes; a hardware
/// address is six bytes. A cell shorter than its declared type, a
/// missing NUL, an unknown address family or an over-long prefix is a
/// wire-contract violation; JSON, arrays and the sentinel tag are not
/// supported yet.
pub open spec fn spec_decode(c: RawCellModel, t: DataType) -> Result<ValueModel, Error> {
    if c.null {
        Ok(ValueModel::Null)
    } else {
        match t {
            DataType::Null => Ok(ValueModel::Null),
            DataType::TinyInt => if c.data.len() >= 1 {
                Ok(ValueModel::I8(signed8(c.data[0]) as i8))
            } else {
                Err(Error::ContractViolation)
            },
            DataType::SmallInt => if c.data.len() >= 2 {
                Ok(ValueModel::I16(signed16(le2(c.data)) as i16))
            } else {
                Err(Error::ContractViolation)
            },
            DataType::Int => if c.data.len() >= 4 {
                Ok(ValueModel::I32(signed32(le4(c.data)) as i32))
            } else {
                Err(Error::ContractViolation)
            },
            DataType::BigInt => if c.data.len() >= 8 {
                Ok(ValueModel::I64(signed64(le8(c.data)) as i64))
            } else {
                Err(Error::ContractViolation)
            },
            DataType::UTinyInt => if c.data.len() >= 1 {
                Ok(ValueModel::U32(c.data[0] as u32))
            } else {
                Err(Error::ContractViolation)
            },
            DataType::USmallInt => if c.data.len() >= 2 {
                Ok(ValueModel::U32(le2(c.data) as u32))
            } else {
                Err(Error::ContractViolation)
            },
            DataType::UInt => if c.data.len() >= 4 {
                Ok(ValueModel::U32(le4(c.data) as u32))
            } else {
                Err(Error::ContractViolation)
            },
            DataType::UBigInt => if c.data.len() >= 8 {
                Ok(ValueModel::U64(le8(c.data) as u64))
            } else {
                Err(Error::ContractViolation)
            },
            DataType::Float => if c.data.len() >= 4 {
                Ok(ValueModel::F32(le4(c.data) as u32))
            } else {
                Err(Error::ContractViolation)
            },
            DataType::Double => if c.data.len() >= 8 {
                Ok(ValueModel::F64(le8(c.data) as u64))
            } else {
                Err(Error::ContractViolation)
            },
            DataType::Timestamp => if c.data.len() >= 8 {
                Ok(ValueModel::Timestamp(signed64(le8(c.data)) as i64))
            } else {
                Err(Error::ContractViolation)
            },
            DataType::Char | DataType::VChar => match first_nul(c.data) {
                Some(end) => match utf8_decode(c.data.take(end)) {
                    Some(text) => Ok(ValueModel::Text(text)),
                    None => Err(Error::Utf8),
                },
                None => Err(Error::ContractViolation),
            },
            DataType::Binary | DataType::VBinary => if c.blob_len <= 0 {
                Ok(ValueModel::Null)
            } else if c.blob_len <= c.data.len() {
                Ok(ValueModel::Binary(c.data.take(c.blob_len)))
            } else {
                Err(Error::ContractViolation)
            },
            DataType::Bool => if c.data.len() >= 1 {
                Ok(ValueModel::Bool(c.data[0] == 1))
            } else {
                Err(Error::ContractViolation)
            },
            DataType::Inet => if c.data.len() >= 18 {
                if c.data[1] == 4 {
                    if c.data[0] <= 32 {
                        Ok(ValueModel::Inet { v4: true, mask: c.data[0], octets: c.data.subrange(2, 6) })
                    } else {
                        Err(Error::ContractViolation)
                    }
                } else if c.data[1] == 6 {
                    if c.data[0] <= 128 {
                        Ok(ValueModel::Inet { v4: false, mask: c.data[0], octets: c.data.subrange(2, 18) })
                    } else {
                        Err(Error::ContractViolation)
                    }
                } else {
                    Err(Error::ContractViolation)
                }
            } else {
                Err(Error::ContractViolation)
            },
            DataType::Mac => if c.data.len() >= 6 {
                Ok(ValueModel::Mac(c.data.subrange(0, 6)))
            } else {
                Err(Error::ContractViolation)
            },
            DataType::Json | DataType::Array | DataType::Max => Err(Error::Unsupported),
        }
    }
}

/// Which model variant the decoding policy assigns to each declared
/// type. Binary cells may also decode to `Null`, when the engine
/// reports a non-positive length.
pub open spec fn variant_matches(m: ValueModel, t: DataType) -> bool {
    match t {
        DataType::Null => m is Null,
        DataType::TinyInt => m is I8,
        DataType::SmallInt => m is I16,
        DataType::Int => m is I32,
        DataType::BigInt => m is I64,
        DataType::UTinyInt | DataType::USmallInt | DataType::UInt => m is U32,
        DataType::UBigInt => m is U64,
        DataType::Float => m is F32,
        DataType::Double => m is F64,
        DataType::Timestamp => m is Timestamp,
        DataType::Char | DataType::VChar => m is Text,
        DataType::Binary | DataType::VBinary => m is Binary || m is Null,
        DataType::Bool => m is Bool,
        DataType::Inet => m is Inet,
        DataType::Mac => m is Mac,
        DataType::Json | DataType::Array | DataType::Max => false,
    }
}

/// A set null indicator decodes to `Null` whatever the declared type;
/// and whenever decoding a non-null cell under a supported type other
/// than JSON, array or the sentinel tag succeeds, the value's variant
/// is the one the policy table assigns to that type.
pub proof fn lemma_decode_follows_policy(c: RawCellModel, t: DataType)
    ensures
        c.null ==> spec_decode(c, t) == Ok::<ValueModel, Error>(ValueModel::Null),
        !c.null && t != DataType::Json && t != DataType::Array && t != DataType::Max ==> (
        spec_decode(c, t) matches Ok(m) ==> variant_matches(m, t)),
{
}

/// A decode result seen at the model level.
pub open spec fn decode_result_view(r: Result<Value, Error>) -> Result<ValueModel, Error> {
    match r {
        Ok(v) => Ok(v@),
        Err(e) => Err(e),
    }
}

impl Value {
    /// Decodes one raw engine cell under the column's declared type,
    /// exactly as [`spec_decode`] says.
    pub fn decode(cell: &RawCell, datatype: DataType) -> (r: Result<Value, Error>)
        ensures
            decode_result_view(r) == spec_decode(cell@, datatype),
            r matches Ok(v) ==> v.wf(),
    {
        if cell.null {
            return Ok(Value::Null);
        }
        let data = &cell.data;
        let n: usize = data.len();
        match datatype {
            DataType::Null => Ok(Value::Null),
            DataType::TinyInt => {
                if n >= 1 {
                    let b: u8 = data[0];
                    let v: i8 = if b < 0x80 {
                        b as i8
                    } else {
                        (b as i16 - 0x100) as i8
                    };
                    Ok(Value::I8(v))
                } else {
                    Err(Error::ContractViolation)
                }
            },
            DataType::SmallInt => {
                if n >= 2 {
                    let u: u16 = data[0] as u16 + data[1] as u16 * 0x100;
                    let v: i16 = if u < 0x8000 {
                        u as i16
                    } else {
                        (u as i32 - 0x1_0000) as i16
                    };
                    Ok(Value::I16(v))
                } else {
                    Err(Error::ContractViolation)
                }
            },
            DataType::Int => {
                if n >= 4 {
                    let u: u32 = read_le4(data, 0);
                    let v: i32 = if u < 0x8000_0000 {
                        u as i32
                    } else {
                        (u as i64 - 0x1_0000_0000) as i32
                    };
                    Ok(Value::I32(v))
                } else {
                    Err(Error::ContractViolation)
                }
            },
            DataType::BigInt => {
                if n >= 8 {
                    let u: u64 = read_le8(data, 0);
                    Ok(Value::I64(to_signed64(u)))
                } else {
                    Err(Error::ContractViolation)
                }
            },
            DataType::UTinyInt => {
                if n >= 1 {
                    Ok(Value::U32(data[0] as u32))
                } else {
                    Err(Error::ContractViolation)
                }
            },
            DataType::USmallInt => {
                if n >= 2 {
                    let u: u16 = data[0] as u16 + data[1] as u16 * 0x100;
                    Ok(Value::U32(u as u32))
                } else {
                    Err(Error::ContractViolation)
                }
            },
            DataType::UInt => {
                if n >= 4 {
                    Ok(Value::U32(read_le4(data, 0)))
                } else {
                    Err(Error::ContractViolation)
                }
            },
            DataType::UBigInt => {
                if n >= 8 {
                    Ok(Value::U64(read_le8(data, 0)))
                } else {
                    Err(Error::ContractViolation)
                }
            },
            DataType::Float => {
                if n >= 4 {
                    Ok(Value::F32(read_le4(data, 0)))
                } else {
                    Err(Error::ContractViolation)
                }
            },
            DataType::Double => {
                if n >= 8 {
                    Ok(Value::F64(read_le8(data, 0)))
                } else {
                    Err(Error::ContractViolation)
                }
            },
            DataType::Timestamp => {
                if n >= 8 {
                    let u: u64 = read_le8(data, 0);
                    Ok(Value::Timestamp(to_signed64(u)))
                } else {
                    Err(Error::ContractViolation)
                }
            },
            DataType::Char | DataType::VChar => {
                match find_nul(data) {
                    Some(end) => {
                        proof {
                            lemma_first_nul(data@);
                        }
                        let prefix = copy_subrange(data, 0, end);
                        proof {
                            assert(data@.subrange(0, end as int) =~= data@.take(end as int));
                        }
                        match string_from_utf8(prefix) {
                            Some(s) => Ok(Value::String(s)),
                            None => Err(Error::Utf8),
                        }
                    },
                    None => Err(Error::ContractViolation),
                }
            },
            DataType::Binary | DataType::VBinary => {
                if cell.blob_len <= 0 {
                    Ok(Value::Null)
                } else if cell.blob_len as usize <= n {
                    let bytes = copy_subrange(data, 0, cell.blob_len as usize);
                    proof {
                        assert(data@.subrange(0, cell.blob_len as int) =~= data@.take(
                            cell.blob_len as int,
                        ));
                    }
                    Ok(Value::Binary(bytes))
                } else {
                    Err(Error::ContractViolation)
                }
            },
            DataType::Bool => {
                if n >= 1 {
                    Ok(Value::Bool(data[0] == 1))
                } else {
                    Err(Error::ContractViolation)
                }
            },
            DataType::Inet => {
                if n >= 18 {
                    let mask: u8 = data[0];
                    let family: u8 = data[1];
                    if family == 4 {
                        if mask <= 32 {
                            let octets = copy_subrange(data, 2, 6);
                            Ok(Value::Inet(InetAddr { is_v4: true, mask, octets }))
                        } else {
                            Err(Error::ContractViolation)
                        }
                    } else if family == 6 {
                        if mask <= 128 {
                            let octets = copy_subrange(data, 2, 18);
                            Ok(Value::Inet(InetAddr { is_v4: false, mask, octets }))
                        } else {
                            Err(Error::ContractViolation)
                        }
                    } else {
                        Err(Error::ContractViolation)
                    }
                } else {
                    Err(Error::ContractViolation)
                }
            },
            DataType::Mac => {
                if n >= 6 {
                    let octets = copy_subrange(data, 0, 6);
                    Ok(Value::Mac(MacAddr { octets }))
                } else {
                    Err(Error::ContractViolation)
                }
            },
            DataType::Json | DataType::Array | DataType::Max => Err(Error::Unsupported),
        }
    }
}

/// Reads four little-endian bytes starting at `at`.
fn read_le4(data: &Vec<u8>, at: usize) -> (r: u32)
    requires
        at + 4 <= data@.len(),
    ensures
        r == le4(data@.subrange(at as int, at as int + 4)),
{
    let n: usize = data.len();
    proof {
        assert(at + 4 <= n);
    }
    let r: u32 = data[at] as u32 + data[at + 1] as u32 * 0x100 + data[at + 2] as u32 * 0x1_0000
        + data[at + 3] as u32 * 0x100_0000;
    proof {
        let s = data@.subrange(at as int, at as int + 4);
        assert(s[0] == data@[at as int]);
        assert(s[1] == data@[at as int + 1]);
        assert(s[2] == data@[at as int + 2]);
        assert(s[3] == data@[at as int + 3]);
    }
    r
}

/// Reads eight little-endian bytes starting at `at`.
fn read_le8(data: &Vec<u8>, at: usize) -> (r: u64)
    requires
        at + 8 <= data@.len(),
    ensures
        r == le8(data@.subrange(at as int, at as int + 8)),
{
    let n: usize = data.len();
    proof {
        assert(at + 8 <= n);
    }
    let r: u64 = data[at] as u64 + data[at + 1] as u64 * 0x100 + data[at + 2] as u64 * 0x1_0000
        + data[at + 3] as u64 * 0x100_0000 + data[at + 4] as u64 * 0x1_0000_0000 + data[at
        + 5] as u64 * 0x100_0000_0000 + data[at + 6] as u64 * 0x1_0000_0000_0000 + data[at
        + 7] as u64 * 0x100_0000_0000_0000;
    proof {
        let s = data@.subrange(at as int, at as int + 8);
        assert(s[0] == data@[at as int]);
        assert(s[1] == data@[at as int + 1]);
        assert(s[2] == data@[at as int + 2]);
        assert(s[3] == data@[at as int + 3]);
        assert(s[4] == data@[at as int + 4]);
        assert(s[5] == data@[at as int + 5]);
        assert(s[6] == data@[at as int + 6]);
        assert(s[7] == data@[at as int + 7]);
    }
    r
}

/// Reinterprets an unsigned 64-bit value as two's complement.
fn to_signed64(u: u64) -> (r: i64)
    ensures
        r == signed64(u as int),
{
    if u < 0x8000_0000_0000_0000 {
        u as i64
    } else {
        (u as i128 - 0x1_0000_0000_0000_0000) as i64
    }
}

} // verus!

