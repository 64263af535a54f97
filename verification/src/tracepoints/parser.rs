//! Code taking the fields of a tracepoint format and making a parser to a
//! specific tracepoint struct.

use crate::byte_order::{
    i16_of, i32_of, i64_of, signed_16, signed_32, signed_64, u16_in, u32_in, u64_in, ByteOrder,
    Endianness,
};
use crate::error::{DecodeError, SchemaError, SchemaFault};
use crate::text::{
    chars_of, find, first_index, is_first_index, lemma_first_index_unique, push_chars, same_text,
};
use crate::tracepoints::format::{
    field_views, FieldView, TracepointArrayType, TracepointField,
};
use vstd::prelude::*;
use vstd::slice::slice_subrange;
use vstd::string::StringExecFns;
use vstd::utf8::{decode_utf8, valid_utf8};

verus! {

/// `memchr::memchr` returns where `needle` first occurs in `haystack`, or
/// nothing when it does not occur.
pub assume_specification[ memchr::memchr ](needle: u8, haystack: &[u8]) -> (r: Option<usize>)
    ensures
        match r {
            Some(i) => i < haystack@.len() && is_first_index(haystack@, needle, i as int),
            None => is_first_index(haystack@, needle, haystack@.len() as int),
        },
;

/// The text that `String::from_utf8_lossy` makes of bytes.
pub uninterp spec fn lossy_text(bytes: Seq<u8>) -> Seq<char>;

/// The text that `CompactString::from_utf8_lossy` makes of bytes.
pub uninterp spec fn compact_lossy_text(bytes: Seq<u8>) -> Seq<char>;

/// `String::from_utf8_lossy`: the text of `bytes`, with U+FFFD in place of
/// what is not UTF-8. Bytes that are UTF-8 throughout decode to their text.
#[verifier::external_body]
fn decode_lossy(bytes: &[u8]) -> (text: String)
    ensures
        text@ == lossy_text(bytes@),
        valid_utf8(bytes@) ==> text@ == decode_utf8(bytes@),
{
    String::from_utf8_lossy(bytes).into_owned()
}

/// `CompactString::from_utf8_lossy` of the crate `compact_str`: the text of
/// `bytes`, with U+FFFD in place of what is not UTF-8. Bytes that are UTF-8
/// throughout decode to their text.
#[verifier::external_body]
fn decode_lossy_compact(bytes: &[u8]) -> (text: String)
    ensures
        text@ == compact_lossy_text(bytes@),
        valid_utf8(bytes@) ==> text@ == decode_utf8(bytes@),
{
    compact_str::CompactString::from_utf8_lossy(bytes).into_string()
}

/// A parsing operation for a tracepoint field.
#[derive(Debug, Clone, Copy, PartialEq, Eq, Structural)]
pub struct ParseOp {
    pub offset: u32,
    pub size: u32,
    pub signed: bool,
    pub array_type: TracepointArrayType,
}

/// The `length` bytes of `record` that begin at `offset`, if `record` holds
/// them all.
pub open spec fn bytes_at(record: Seq<u8>, offset: int, length: int) -> Option<Seq<u8>> {
    if 0 <= offset && 0 <= length && offset + length <= record.len() {
        Some(record.subrange(offset, offset + length))
    } else {
        None
    }
}

/// The bytes of the field that `op` describes: for a plain or fixed field
/// its `size` bytes at `offset`; for a trailing one all bytes from `offset`
/// on; for an indirect one the bytes that the 32-bit number at `offset`
/// points to, whose low half is their offset in the record and whose high
/// half is their count.
pub open spec fn field_bytes(op: ParseOp, record: Seq<u8>, order: Endianness) -> Option<Seq<u8>> {
    match op.array_type {
        TracepointArrayType::NotArray | TracepointArrayType::Fixed => bytes_at(
            record,
            op.offset as int,
            op.size as int,
        ),
        TracepointArrayType::Trailing => bytes_at(
            record,
            op.offset as int,
            record.len() - op.offset,
        ),
        TracepointArrayType::DataLoc4 => match bytes_at(record, op.offset as int, 4) {
            Some(pointer) => {
                let p = u32_in(order, pointer);
                bytes_at(record, p as int % 0x1_0000, p as int / 0x1_0000)
            },
            None => None,
        },
    }
}

/// The bytes of `bytes` before its first zero byte; all of them when there
/// is none.
pub open spec fn until_nul(bytes: Seq<u8>) -> Seq<u8> {
    bytes.take(first_index(bytes, 0u8))
}

/// The operation that reads the field `field`.
pub open spec fn op_of(field: FieldView) -> ParseOp {
    ParseOp {
        offset: field.offset,
        size: field.size,
        signed: field.signed,
        array_type: field.array_type,
    }
}

/// The last field of `fields` that is named `name`.
pub open spec fn lookup(fields: Seq<FieldView>, name: Seq<char>) -> Option<FieldView>
    decreases fields.len(),
{
    if fields.len() == 0 {
        None
    } else if fields.last().field_name == name {
        Some(fields.last())
    } else {
        lookup(fields.drop_last(), name)
    }
}

/// The operations that read the fields named `names`, in that order, or the
/// first name that no field has.
pub open spec fn compiled(fields: Seq<FieldView>, names: Seq<Seq<char>>) -> Result<
    Seq<ParseOp>,
    Seq<char>,
>
    decreases names.len(),
{
    if names.len() == 0 {
        Ok(Seq::empty())
    } else {
        match compiled(fields, names.drop_last()) {
            Ok(ops) => match lookup(fields, names.last()) {
                Some(field) => Ok(ops.push(op_of(field))),
                None => Err(names.last()),
            },
            Err(name) => Err(name),
        }
    }
}

/// The texts of `names`, in order.
pub open spec fn texts(names: Seq<&str>) -> Seq<Seq<char>> {
    Seq::new(names.len(), |i: int| names[i]@)
}

impl From<TracepointField> for ParseOp {
    fn from(field: TracepointField) -> (op: ParseOp) {
        ParseOp {
            offset: field.offset,
            size: field.size,
            signed: field.signed,
            array_type: field.array_type,
        }
    }
}

impl vstd::std_specs::convert::FromSpecImpl<TracepointField> for ParseOp {
    open spec fn obeys_from_spec() -> bool {
        true
    }

    open spec fn from_spec(field: TracepointField) -> ParseOp {
        op_of(field@)
    }
}

impl<'a> From<&'a TracepointField> for ParseOp {
    fn from(field: &'a TracepointField) -> (op: ParseOp) {
        ParseOp {
            offset: field.offset,
            size: field.size,
            signed: field.signed,
            array_type: field.array_type,
        }
    }
}

impl<'a> vstd::std_specs::convert::FromSpecImpl<&'a TracepointField> for ParseOp {
    open spec fn obeys_from_spec() -> bool {
        true
    }

    open spec fn from_spec(field: &'a TracepointField) -> ParseOp {
        op_of(field@)
    }
}

impl ParseOp {
    /// The `size` bytes of `record` at `offset`.
    pub fn get_bytes<'data>(&self, record: &'data [u8]) -> (r: Result<&'data [u8], DecodeError>)
        ensures
            match r {
                Ok(bytes) => bytes_at(record@, self.offset as int, self.size as int) == Some(
                    bytes@,
                ),
                Err(e) => e == DecodeError::UnexpectedEof && bytes_at(
                    record@,
                    self.offset as int,
                    self.size as int,
                ) is None,
            },
    {
        let end: u64 = self.offset as u64 + self.size as u64;
        if end > record.len() as u64 {
            return Err(DecodeError::UnexpectedEof);
        }
        Ok(slice_subrange(record, self.offset as usize, end as usize))
    }

    /// The `length` bytes of `record` at `offset`.
    pub fn get_bytes_range<'data>(&self, record: &'data [u8], length: usize) -> (r: Result<
        &'data [u8],
        DecodeError,
    >)
        ensures
            match r {
                Ok(bytes) => bytes_at(record@, self.offset as int, length as int) == Some(bytes@),
                Err(e) => e == DecodeError::UnexpectedEof && bytes_at(
                    record@,
                    self.offset as int,
                    length as int,
                ) is None,
            },
    {
        if length > record.len() || self.offset as u64 > (record.len() - length) as u64 {
            return Err(DecodeError::UnexpectedEof);
        }
        let start = self.offset as usize;
        Ok(slice_subrange(record, start, start + length))
    }
}

/// Struct for applying parsing operations based on a tracepoint format.
#[derive(Debug, Clone)]
pub struct FormatParser {
    ops: Vec<ParseOp>,
}

impl View for FormatParser {
    type V = Seq<ParseOp>;

    closed spec fn view(&self) -> Seq<ParseOp> {
        self.ops@
    }
}

/// The last field of `fields` that is named `name`.
fn find_field<'a>(fields: &'a [TracepointField], name: &[char]) -> (r: Option<&'a TracepointField>)
    ensures
        match r {
            Some(field) => lookup(field_views(fields@), name@) == Some(field@),
            None => lookup(field_views(fields@), name@) is None,
        },
{
    let ghost views = field_views(fields@);
    let mut i: usize = fields.len();
    assert(views.take(i as int) =~= views);
    while i > 0
        invariant
            i <= fields@.len(),
            views == field_views(fields@),
            lookup(views, name@) == lookup(views.take(i as int), name@),
        decreases i,
    {
        proof {
            assert(views.take(i as int).last() == fields@[i - 1]@);
            assert(views.take(i as int).drop_last() =~= views.take(i - 1));
        }
        i -= 1;
        if same_text(name, fields[i].field_name.as_str()) {
            return Some(&fields[i]);
        }
    }
    None
}

impl FormatParser {
    /// Create a parser that reads the fields named `names`, in that order,
    /// from records laid out as `fields` says.
    pub fn new(fields: &[TracepointField], names: &[&str]) -> (r: Result<Self, SchemaError>)
        ensures
            match r {
                Ok(parser) => compiled(field_views(fields@), texts(names@)) == Ok::<
                    Seq<ParseOp>,
                    Seq<char>,
                >(parser@),
                Err(e) => e matches SchemaError::MissingField(name) && compiled(
                    field_views(fields@),
                    texts(names@),
                ) == Err::<Seq<ParseOp>, Seq<char>>(name@),
            },
    {
        let ghost views = field_views(fields@);
        let ghost wanted = texts(names@);
        let mut ops: Vec<ParseOp> = Vec::new();
        let mut k: usize = 0;
        assert(wanted.take(0) =~= Seq::<Seq<char>>::empty());
        while k < names.len()
            invariant
                k <= names@.len(),
                views == field_views(fields@),
                wanted == texts(names@),
                compiled(views, wanted.take(k as int)) == Ok::<Seq<ParseOp>, Seq<char>>(ops@),
            decreases names@.len() - k,
        {
            let name = chars_of(names[k]);
            proof {
                let next = wanted.take(k + 1);
                assert(next.drop_last() =~= wanted.take(k as int));
                assert(next.last() == name@);
            }
            match find_field(fields, name.as_slice()) {
                Some(field) => {
                    ops.push(ParseOp::from(field));
                },
                None => {
                    proof {
                        lemma_compiled_error(views, wanted, k + 1);
                    }
                    return Err(SchemaError::MissingField(names[k].to_owned()));
                },
            }
            k += 1;
        }
        assert(wanted.take(k as int) =~= wanted);
        Ok(FormatParser { ops })
    }
}

/// The number that the field read by `op` holds, taken as unsigned, if the
/// record holds all its bytes. `width` is 2, 4 or 8.
pub open spec fn scalar_in(op: ParseOp, record: Seq<u8>, order: Endianness, width: int) -> Option<
    int,
> {
    match bytes_at(record, op.offset as int, op.size as int) {
        Some(b) => Some(
            if width == 2 {
                u16_in(order, b) as int
            } else if width == 4 {
                u32_in(order, b) as int
            } else {
                u64_in(order, b) as int
            },
        ),
        None => None,
    }
}

/// `op` reads a plain number of `width` bytes.
pub open spec fn is_scalar(op: ParseOp, width: int) -> bool {
    op.array_type == TracepointArrayType::NotArray && op.size == width
}

impl FormatParser {
    /// How many fields the parser reads.
    pub fn len(&self) -> (n: usize)
        ensures
            n == self@.len(),
    {
        self.ops.len()
    }

    /// The operation that reads the field at `index`.
    pub fn op(&self, index: usize) -> (op: ParseOp)
        requires
            index < self@.len(),
        ensures
            op == self@[index as int],
    {
        self.ops[index]
    }

    /// Reads the signed byte of the field at `index`.
    pub fn parse_i8(&self, index: usize, record: &[u8]) -> (r: Result<i8, DecodeError>)
        requires
            index < self@.len(),
            is_scalar(self@[index as int], 1),
        ensures
            match r {
                Ok(v) => bytes_at(record@, self@[index as int].offset as int, 1) matches Some(b)
                    && v == if b[0] < 0x80 {
                    b[0] as int
                } else {
                    b[0] - 0x100
                },
                Err(e) => e == DecodeError::UnexpectedEof && bytes_at(
                    record@,
                    self@[index as int].offset as int,
                    1,
                ) is None,
            },
    {
        let data = self.ops[index].get_bytes(record)?;
        let b = data[0];
        if b < 0x80 {
            Ok(b as i8)
        } else {
            Ok(((b - 0x80) as i8) - 0x40 - 0x40)
        }
    }

    /// Reads the unsigned byte of the field at `index`.
    pub fn parse_u8(&self, index: usize, record: &[u8]) -> (r: Result<u8, DecodeError>)
        requires
            index < self@.len(),
            is_scalar(self@[index as int], 1),
        ensures
            match r {
                Ok(v) => bytes_at(record@, self@[index as int].offset as int, 1) matches Some(b)
                    && v == b[0],
                Err(e) => e == DecodeError::UnexpectedEof && bytes_at(
                    record@,
                    self@[index as int].offset as int,
                    1,
                ) is None,
            },
    {
        let data = self.ops[index].get_bytes(record)?;
        Ok(data[0])
    }

    /// Reads the signed 16-bit number of the field at `index`.
    pub fn parse_i16<O: ByteOrder>(&self, index: usize, record: &[u8]) -> (r: Result<
        i16,
        DecodeError,
    >)
        requires
            index < self@.len(),
            is_scalar(self@[index as int], 2),
        ensures
            match r {
                Ok(v) => scalar_in(self@[index as int], record@, O::endianness(), 2) matches Some(u)
                    && v == i16_of(u as u16),
                Err(e) => e == DecodeError::UnexpectedEof && scalar_in(
                    self@[index as int],
                    record@,
                    O::endianness(),
                    2,
                ) is None,
            },
    {
        let data = self.ops[index].get_bytes(record)?;
        Ok(signed_16(O::read_u16(data)))
    }

    /// Reads the unsigned 16-bit number of the field at `index`.
    pub fn parse_u16<O: ByteOrder>(&self, index: usize, record: &[u8]) -> (r: Result<
        u16,
        DecodeError,
    >)
        requires
            index < self@.len(),
            is_scalar(self@[index as int], 2),
        ensures
            match r {
                Ok(v) => scalar_in(self@[index as int], record@, O::endianness(), 2) == Some(
                    v as int,
                ),
                Err(e) => e == DecodeError::UnexpectedEof && scalar_in(
                    self@[index as int],
                    record@,
                    O::endianness(),
                    2,
                ) is None,
            },
    {
        let data = self.ops[index].get_bytes(record)?;
        Ok(O::read_u16(data))
    }

    /// Reads the signed 32-bit number of the field at `index`.
    pub fn parse_i32<O: ByteOrder>(&self, index: usize, record: &[u8]) -> (r: Result<
        i32,
        DecodeError,
    >)
        requires
            index < self@.len(),
            is_scalar(self@[index as int], 4),
        ensures
            match r {
                Ok(v) => scalar_in(self@[index as int], record@, O::endianness(), 4) matches Some(u)
                    && v == i32_of(u as u32),
                Err(e) => e == DecodeError::UnexpectedEof && scalar_in(
                    self@[index as int],
                    record@,
                    O::endianness(),
                    4,
                ) is None,
            },
    {
        let data = self.ops[index].get_bytes(record)?;
        Ok(signed_32(O::read_u32(data)))
    }

    /// Reads the unsigned 32-bit number of the field at `index`.
    pub fn parse_u32<O: ByteOrder>(&self, index: usize, record: &[u8]) -> (r: Result<
        u32,
        DecodeError,
    >)
        requires
            index < self@.len(),
            is_scalar(self@[index as int], 4),
        ensures
            match r {
                Ok(v) => scalar_in(self@[index as int], record@, O::endianness(), 4) == Some(
                    v as int,
                ),
                Err(e) => e == DecodeError::UnexpectedEof && scalar_in(
                    self@[index as int],
                    record@,
                    O::endianness(),
                    4,
                ) is None,
            },
    {
        let data = self.ops[index].get_bytes(record)?;
        Ok(O::read_u32(data))
    }

    /// Reads the signed 64-bit number of the field at `index`.
    pub fn parse_i64<O: ByteOrder>(&self, index: usize, record: &[u8]) -> (r: Result<
        i64,
        DecodeError,
    >)
        requires
            index < self@.len(),
            is_scalar(self@[index as int], 8),
        ensures
            match r {
                Ok(v) => scalar_in(self@[index as int], record@, O::endianness(), 8) matches Some(u)
                    && v == i64_of(u as u64),
                Err(e) => e == DecodeError::UnexpectedEof && scalar_in(
                    self@[index as int],
                    record@,
                    O::endianness(),
                    8,
                ) is None,
            },
    {
        let data = self.ops[index].get_bytes(record)?;
        Ok(signed_64(O::read_u64(data)))
    }

    /// Reads the unsigned 64-bit number of the field at `index`.
    pub fn parse_u64<O: ByteOrder>(&self, index: usize, record: &[u8]) -> (r: Result<
        u64,
        DecodeError,
    >)
        requires
            index < self@.len(),
            is_scalar(self@[index as int], 8),
        ensures
            match r {
                Ok(v) => scalar_in(self@[index as int], record@, O::endianness(), 8) == Some(
                    v as int,
                ),
                Err(e) => e == DecodeError::UnexpectedEof && scalar_in(
                    self@[index as int],
                    record@,
                    O::endianness(),
                    8,
                ) is None,
            },
    {
        let data = self.ops[index].get_bytes(record)?;
        Ok(O::read_u64(data))
    }

    /// The bytes of the field at `index`.
    pub fn parse_array<'data, O: ByteOrder>(&self, index: usize, record: &'data [u8]) -> (r: Result<
        &'data [u8],
        DecodeError,
    >)
        requires
            index < self@.len(),
        ensures
            match r {
                Ok(bytes) => field_bytes(self@[index as int], record@, O::endianness()) == Some(
                    bytes@,
                ),
                Err(e) => e == DecodeError::UnexpectedEof && field_bytes(
                    self@[index as int],
                    record@,
                    O::endianness(),
                ) is None,
            },
    {
        let op = self.ops[index];
        match op.array_type {
            TracepointArrayType::NotArray => op.get_bytes(record),
            TracepointArrayType::Fixed => op.get_bytes(record),
            TracepointArrayType::Trailing => {
                if op.offset as u64 > record.len() as u64 {
                    return Err(DecodeError::UnexpectedEof);
                }
                op.get_bytes_range(record, record.len() - op.offset as usize)
            },
            TracepointArrayType::DataLoc4 => {
                let pointer = op.get_bytes_range(record, 4)?;
                let p = O::read_u32(pointer);
                let length = p >> 16;
                let start = p & 0xFFFF;
                assert(length == p / 0x1_0000 && start == p % 0x1_0000) by (bit_vector)
                    requires
                        length == p >> 16,
                        start == p & 0xFFFF,
                ;
                let end: u64 = start as u64 + length as u64;
                if end > record.len() as u64 {
                    return Err(DecodeError::UnexpectedEof);
                }
                Ok(slice_subrange(record, start as usize, end as usize))
            },
        }
    }

    /// The text of the field at `index`: its bytes up to the first zero
    /// byte, read as UTF-8.
    pub fn parse_string<O: ByteOrder>(&self, index: usize, record: &[u8]) -> (r: Result<
        String,
        DecodeError,
    >)
        requires
            index < self@.len(),
        ensures
            match r {
                Ok(text) => field_bytes(self@[index as int], record@, O::endianness()) matches Some(
                    bytes,
                ) && text@ == lossy_text(until_nul(bytes)) && (valid_utf8(until_nul(bytes))
                    ==> text@ == decode_utf8(until_nul(bytes))),
                Err(e) => e == DecodeError::UnexpectedEof && field_bytes(
                    self@[index as int],
                    record@,
                    O::endianness(),
                ) is None,
            },
    {
        let data = self.parse_array::<O>(index, record)?;
        Ok(decode_lossy(before_nul(data)))
    }

    /// The text of the field at `index`: its bytes up to the first zero
    /// byte, read as UTF-8.
    pub fn parse_compact_string<O: ByteOrder>(&self, index: usize, record: &[u8]) -> (r: Result<
        String,
        DecodeError,
    >)
        requires
            index < self@.len(),
        ensures
            match r {
                Ok(text) => field_bytes(self@[index as int], record@, O::endianness()) matches Some(
                    bytes,
                ) && text@ == compact_lossy_text(until_nul(bytes)) && (valid_utf8(until_nul(bytes))
                    ==> text@ == decode_utf8(until_nul(bytes))),
                Err(e) => e == DecodeError::UnexpectedEof && field_bytes(
                    self@[index as int],
                    record@,
                    O::endianness(),
                ) is None,
            },
    {
        let data = self.parse_array::<O>(index, record)?;
        Ok(decode_lossy_compact(before_nul(data)))
    }
}

/// The bytes of `data` before its first zero byte.
pub fn before_nul<'a>(data: &'a [u8]) -> (r: &'a [u8])
    ensures
        r@ == until_nul(data@),
{
    let end = match memchr::memchr(0, data) {
        Some(i) => i,
        None => data.len(),
    };
    proof {
        lemma_first_index_unique(data@, 0u8, end as int);
    }
    slice_subrange(data, 0, end)
}

/// What a decoder reads from a field.
#[derive(Debug, Clone, Copy, PartialEq, Eq, Structural)]
pub enum FieldShape {
    /// A plain number of this many bytes.
    Number(u32),
    /// Bytes that hold text.
    Text,
}

/// `op` can be read as `shape`: a number needs a plain field of its width,
/// text can be read from a field of any kind.
pub open spec fn fits_shape(op: ParseOp, shape: FieldShape) -> bool {
    match shape {
        FieldShape::Number(width) => is_scalar(op, width as int),
        FieldShape::Text => true,
    }
}

/// Every operation of `ops` can be read as the shape at its place.
pub open spec fn fits(ops: Seq<ParseOp>, shapes: Seq<FieldShape>) -> bool {
    &&& ops.len() == shapes.len()
    &&& forall|i: int| 0 <= i < ops.len() ==> fits_shape(#[trigger] ops[i], shapes[i])
}

/// For each place, whether the operation there can be read as the shape
/// there.
pub open spec fn fit_flags(ops: Seq<ParseOp>, shapes: Seq<FieldShape>) -> Seq<bool> {
    Seq::new(ops.len(), |i: int| fits_shape(ops[i], shapes[i]))
}

/// The operations that read the fields named `names` as `shapes`, or the
/// first name that no field has, or else the first name whose field cannot
/// be read as its shape.
pub open spec fn bound(
    fields: Seq<FieldView>,
    names: Seq<Seq<char>>,
    shapes: Seq<FieldShape>,
) -> Result<Seq<ParseOp>, SchemaFault> {
    match compiled(fields, names) {
        Ok(ops) => {
            let misfit = first_index(fit_flags(ops, shapes), false);
            if 0 <= misfit < ops.len() {
                Err(SchemaFault::IncompatibleField(names[misfit]))
            } else {
                Ok(ops)
            }
        },
        Err(name) => Err(SchemaFault::MissingField(name)),
    }
}

/// There are as many operations as names, and the operation at each place
/// reads the field that is named at that place.
pub proof fn lemma_compiled_places(fields: Seq<FieldView>, names: Seq<Seq<char>>)
    ensures
        compiled(fields, names) matches Ok(ops) ==> {
            &&& ops.len() == names.len()
            &&& forall|k: int|
                0 <= k < names.len() ==> (lookup(fields, #[trigger] names[k]) matches Some(field)
                    && ops[k] == op_of(field))
        },
    decreases names.len(),
{
    if names.len() > 0 {
        let earlier = names.drop_last();
        lemma_compiled_places(fields, earlier);
        if let Ok(ops) = compiled(fields, names) {
            assert forall|k: int| 0 <= k < names.len() implies (lookup(
                fields,
                #[trigger] names[k],
            ) matches Some(field) && ops[k] == op_of(field)) by {
                if k < earlier.len() {
                    assert(earlier[k] == names[k]);
                }
            }
        }
    }
}

/// The name that an error gives is the first of the names that no field
/// has.
pub proof fn lemma_compiled_names_first_missing(fields: Seq<FieldView>, names: Seq<Seq<char>>)
    ensures
        compiled(fields, names) matches Err(name) ==> exists|k: int|
            {
                &&& 0 <= k < names.len()
                &&& #[trigger] names[k] == name
                &&& lookup(fields, names[k]) is None
                &&& forall|j: int| 0 <= j < k ==> lookup(fields, #[trigger] names[j]) is Some
            },
    decreases names.len(),
{
    if names.len() > 0 {
        let earlier = names.drop_last();
        lemma_compiled_names_first_missing(fields, earlier);
        lemma_compiled_places(fields, earlier);
        match compiled(fields, earlier) {
            Ok(_) => {
                if let Err(name) = compiled(fields, names) {
                    let k = names.len() - 1;
                    assert(names[k] == name);
                    assert forall|j: int| 0 <= j < k implies lookup(
                        fields,
                        #[trigger] names[j],
                    ) is Some by {
                        assert(earlier[j] == names[j]);
                    }
                }
            },
            Err(name) => {
                let k = choose|k: int|
                    {
                        &&& 0 <= k < earlier.len()
                        &&& #[trigger] earlier[k] == name
                        &&& lookup(fields, earlier[k]) is None
                        &&& forall|j: int|
                            0 <= j < k ==> lookup(fields, #[trigger] earlier[j]) is Some
                    };
                assert(names[k] == name);
                assert forall|j: int| 0 <= j < k implies lookup(
                    fields,
                    #[trigger] names[j],
                ) is Some by {
                    assert(earlier[j] == names[j]);
                }
            },
        }
    }
}

impl FormatParser {
    /// Create a parser that reads the fields named `names` as `shapes`
    /// from records laid out as `fields` says.
    pub fn bind(fields: &[TracepointField], names: &[&str], shapes: &[FieldShape]) -> (r: Result<
        Self,
        SchemaError,
    >)
        requires
            names@.len() == shapes@.len(),
        ensures
            match r {
                Ok(parser) => bound(field_views(fields@), texts(names@), shapes@) == Ok::<
                    Seq<ParseOp>,
                    SchemaFault,
                >(parser@) && fits(parser@, shapes@),
                Err(e) => bound(field_views(fields@), texts(names@), shapes@) == Err::<
                    Seq<ParseOp>,
                    SchemaFault,
                >(e@),
            },
    {
        let parser = match Self::new(fields, names) {
            Ok(parser) => parser,
            Err(e) => {
                return Err(e);
            },
        };
        proof {
            lemma_compiled_places(field_views(fields@), texts(names@));
        }
        let ghost flags = fit_flags(parser@, shapes@);
        let mut i: usize = 0;
        while i < parser.ops.len()
            invariant
                i <= parser@.len(),
                parser@.len() == shapes@.len(),
                parser@.len() == names@.len(),
                flags == fit_flags(parser@, shapes@),
                compiled(field_views(fields@), texts(names@)) == Ok::<Seq<ParseOp>, Seq<char>>(
                    parser@,
                ),
                forall|j: int| 0 <= j < i ==> flags[j] != false,
            decreases parser@.len() - i,
        {
            let op = parser.ops[i];
            let ok = match shapes[i] {
                FieldShape::Number(width) => op.array_type == TracepointArrayType::NotArray
                    && op.size == width,
                FieldShape::Text => true,
            };
            if !ok {
                proof {
                    assert(flags[i as int] == false);
                    lemma_first_index_unique(flags, false, i as int);
                }
                return Err(SchemaError::IncompatibleField(names[i].to_owned()));
            }
            i += 1;
        }
        proof {
            lemma_first_index_unique(flags, false, flags.len() as int);
            assert forall|j: int| 0 <= j < parser@.len() implies fits_shape(
                #[trigger] parser@[j],
                shapes@[j],
            ) by {
                assert(flags[j] != false);
            }
        }
        Ok(parser)
    }
}

impl FormatParser {
    /// Whether every field that the parser reads can be read as the shape
    /// at its place.
    pub fn accepts(&self, shapes: &[FieldShape]) -> (r: bool)
        ensures
            r == fits(self@, shapes@),
    {
        if self.ops.len() != shapes.len() {
            return false;
        }
        let mut i: usize = 0;
        while i < self.ops.len()
            invariant
                i <= self@.len(),
                self@.len() == shapes@.len(),
                forall|j: int| 0 <= j < i ==> fits_shape(#[trigger] self@[j], shapes@[j]),
            decreases self@.len() - i,
        {
            let op = self.ops[i];
            let ok = match shapes[i] {
                FieldShape::Number(width) => op.array_type == TracepointArrayType::NotArray
                    && op.size == width,
                FieldShape::Text => true,
            };
            if !ok {
                assert(!fits_shape(self@[i as int], shapes@[i as int]));
                return false;
            }
            i += 1;
        }
        true
    }
}

/// The text of the field read by `op`: its bytes up to the first zero byte,
/// read as UTF-8.
pub open spec fn text_at(op: ParseOp, record: Seq<u8>, order: Endianness) -> Option<Seq<char>> {
    match field_bytes(op, record, order) {
        Some(bytes) => Some(compact_lossy_text(until_nul(bytes))),
        None => None,
    }
}

/// Where the bytes of the field read by `op`, up to the first zero byte,
/// are UTF-8 throughout, the text of the field is what they decode to.
pub open spec fn text_is_plain(op: ParseOp, record: Seq<u8>, order: Endianness) -> bool {
    field_bytes(op, record, order) matches Some(bytes) ==> (valid_utf8(until_nul(bytes))
        ==> text_at(op, record, order) == Some(decode_utf8(until_nul(bytes))))
}

/// At each place where `shapes` asks for text, the text of the field is
/// what its bytes decode to, where they are UTF-8 throughout.
pub open spec fn texts_are_plain(
    ops: Seq<ParseOp>,
    shapes: Seq<FieldShape>,
    record: Seq<u8>,
    order: Endianness,
) -> bool {
    forall|i: int|
        0 <= i < ops.len() && i < shapes.len() && shapes[i] == FieldShape::Text ==> text_is_plain(
            #[trigger] ops[i],
            record,
            order,
        )
}

/// The signed 32-bit number of the field read by `op`.
pub open spec fn i32_at(op: ParseOp, record: Seq<u8>, order: Endianness) -> Option<i32> {
    match scalar_in(op, record, order, 4) {
        Some(u) => Some(i32_of(u as u32)),
        None => None,
    }
}

/// The signed 64-bit number of the field read by `op`.
pub open spec fn i64_at(op: ParseOp, record: Seq<u8>, order: Endianness) -> Option<i64> {
    match scalar_in(op, record, order, 8) {
        Some(u) => Some(i64_of(u as u64)),
        None => None,
    }
}

/// The unsigned 64-bit number of the field read by `op`.
pub open spec fn u64_at(op: ParseOp, record: Seq<u8>, order: Endianness) -> Option<u64> {
    match scalar_in(op, record, order, 8) {
        Some(u) => Some(u as u64),
        None => None,
    }
}

/// The path of the format file of the event named `event`, a category and
/// a name with a colon between them; nothing for a name without a colon.
pub open spec fn format_path_of(event: Seq<char>) -> Option<Seq<char>> {
    let colon = first_index(event, ':');
    if 0 <= colon < event.len() {
        Some(
            "/sys/kernel/tracing/events/"@ + event.take(colon) + "/"@ + event.skip(colon + 1)
                + "/format"@,
        )
    } else {
        None
    }
}

/// The path of the format file of the event named `event_name`, such as
/// `sched:sched_switch`.
pub fn format_path(event_name: &str) -> (path: Option<String>)
    ensures
        match path {
            Some(p) => format_path_of(event_name@) == Some(p@),
            None => format_path_of(event_name@) is None,
        },
{
    let chars = chars_of(event_name);
    let text = chars.as_slice();
    let colon = match find(text, ':') {
        Some(colon) => colon,
        None => {
            return None;
        },
    };
    assert(colon < text.len());
    let mut path = "/sys/kernel/tracing/events/".to_owned();
    push_chars(&mut path, slice_subrange(text, 0, colon));
    path.append("/");
    push_chars(&mut path, slice_subrange(text, colon + 1, text.len()));
    path.append("/format");
    Some(path)
}

/// A name that is missing among the first `n` names is missing among all.
proof fn lemma_compiled_error(fields: Seq<FieldView>, names: Seq<Seq<char>>, n: int)
    requires
        0 <= n <= names.len(),
        compiled(fields, names.take(n)) is Err,
    ensures
        compiled(fields, names) == compiled(fields, names.take(n)),
    decreases names.len() - n,
{
    if n == names.len() {
        assert(names.take(n) =~= names);
    } else {
        assert(names.take(n + 1).drop_last() =~= names.take(n));
        lemma_compiled_error(fields, names, n + 1);
    }
}

} // verus!
