//! Reading GGUF primitives and values out of a byte stream.

use vstd::prelude::*;
use vstd::utf8::{decode_utf8, valid_utf8};

verus! {

/// Why a GGUF stream cannot be read.
#[derive(Debug, Clone, Copy, PartialEq, Eq, Structural)]
pub enum GgufError {
    /// The stream does not begin with `GGUF`.
    InvalidMagic,
    /// The stream ends inside a value.
    UnexpectedEnd,
    /// A string is not valid UTF-8.
    InvalidUtf8,
    /// A value has a type code that GGUF does not define.
    UnknownValueType(u32),
    /// A skip would lead before the start of the stream, or beyond any position.
    SeekOutOfRange,
    /// Skipping an array leads back to the array itself, so that it never ends.
    EndlessNesting,
    /// A tensor's absolute offset does not fit 64 bits.
    OffsetOverflow,
    /// The tensor offsets of this layer cannot be packed.
    LayerOffsets(usize),
}

/// A GGUF metadata value. Floating-point values are held as their bit patterns.
#[derive(Debug, Clone)]
pub enum GgufValue {
    U8(u8),
    I8(i8),
    U16(u16),
    I16(i16),
    U32(u32),
    I32(i32),
    F32(u32),
    Bool(bool),
    String(String),
    /// An array: only its length is kept.
    ArrayLen(usize),
    U64(u64),
    I64(i64),
    F64(u64),
}

/// What a [`GgufValue`] stands for.
pub enum ValueModel {
    U8(u8),
    I8(i8),
    U16(u16),
    I16(i16),
    U32(u32),
    I32(i32),
    F32(u32),
    Bool(bool),
    Text(Seq<char>),
    ArrayLen(usize),
    U64(u64),
    I64(i64),
    F64(u64),
}

impl View for GgufValue {
    type V = ValueModel;

    open spec fn view(&self) -> ValueModel {
        match *self {
            GgufValue::U8(v) => ValueModel::U8(v),
            GgufValue::I8(v) => ValueModel::I8(v),
            GgufValue::U16(v) => ValueModel::U16(v),
            GgufValue::I16(v) => ValueModel::I16(v),
            GgufValue::U32(v) => ValueModel::U32(v),
            GgufValue::I32(v) => ValueModel::I32(v),
            GgufValue::F32(v) => ValueModel::F32(v),
            GgufValue::Bool(v) => ValueModel::Bool(v),
            GgufValue::String(v) => ValueModel::Text(v@),
            GgufValue::ArrayLen(v) => ValueModel::ArrayLen(v),
            GgufValue::U64(v) => ValueModel::U64(v),
            GgufValue::I64(v) => ValueModel::I64(v),
            GgufValue::F64(v) => ValueModel::F64(v),
        }
    }
}

/// A read position in a byte stream. Like any stream it may be moved past the
/// end; reading there fails.
#[derive(Debug, Clone, Copy)]
pub struct Cursor<'a> {
    pub data: &'a [u8],
    pub pos: u64,
}

/// The number that `bytes` spell, least significant byte first.
pub open spec fn le_value(bytes: Seq<u8>) -> nat
    decreases bytes.len(),
{
    if bytes.len() == 0 {
        0
    } else {
        bytes[0] as nat + 256 * le_value(bytes.skip(1))
    }
}

/// The next `n` bytes and the position behind them.
pub open spec fn take_at(data: Seq<u8>, pos: u64, n: int) -> Result<(Seq<u8>, u64), GgufError> {
    if pos + n <= data.len() {
        Ok((data.subrange(pos as int, pos + n), (pos + n) as u64))
    } else {
        Err(GgufError::UnexpectedEnd)
    }
}

/// An unsigned number of `n` bytes.
pub open spec fn uint_at(data: Seq<u8>, pos: u64, n: int) -> Result<(u64, u64), GgufError> {
    match take_at(data, pos, n) {
        Ok((bytes, next)) => Ok((le_value(bytes) as u64, next)),
        Err(e) => Err(e),
    }
}

/// A `u32`.
pub open spec fn u32_at(data: Seq<u8>, pos: u64) -> Result<(u32, u64), GgufError> {
    match uint_at(data, pos, 4) {
        Ok((v, next)) => Ok((v as u32, next)),
        Err(e) => Err(e),
    }
}

/// A string: its length in bytes as `u64`, then its UTF-8 bytes.
pub open spec fn string_at(data: Seq<u8>, pos: u64) -> Result<(Seq<char>, u64), GgufError> {
    match uint_at(data, pos, 8) {
        Err(e) => Err(e),
        Ok((len, start)) => match take_at(data, start, len as int) {
            Err(e) => Err(e),
            Ok((bytes, next)) => if valid_utf8(bytes) {
                Ok((decode_utf8(bytes), next))
            } else {
                Err(GgufError::InvalidUtf8)
            },
        },
    }
}

/// The position `n` bytes on; back, where `n` is negative.
pub open spec fn seek_from(pos: u64, n: int) -> Result<u64, GgufError> {
    if 0 <= pos + n <= u64::MAX {
        Ok((pos + n) as u64)
    } else {
        Err(GgufError::SeekOutOfRange)
    }
}

/// How far a length of a string moves a seek: lengths are taken as signed numbers,
/// so that one of more than 63 bits moves it back.
pub open spec fn seek_length(len: u64) -> int {
    if len <= i64::MAX {
        len as int
    } else {
        len - 0x1_0000_0000_0000_0000
    }
}

/// The bytes of a value of fixed size.
pub open spec fn fixed_size(ty: u32) -> Option<int> {
    match ty {
        0 => Some(1),
        1 => Some(1),
        2 => Some(2),
        3 => Some(2),
        4 => Some(4),
        5 => Some(4),
        6 => Some(4),
        7 => Some(1),
        10 => Some(8),
        11 => Some(8),
        12 => Some(8),
        _ => None,
    }
}

/// The position behind a value of type `ty`, where arrays may nest `depth` deep.
pub open spec fn skip_within(data: Seq<u8>, pos: u64, ty: u32, depth: nat) -> Result<
    u64,
    GgufError,
>
    decreases depth, 0nat,
{
    if fixed_size(ty) is Some {
        seek_from(pos, fixed_size(ty)->0)
    } else if ty == 8 {
        match uint_at(data, pos, 8) {
            Err(e) => Err(e),
            Ok((len, start)) => seek_from(start, seek_length(len)),
        }
    } else if ty == 9 {
        match array_header_at(data, pos) {
            Err(e) => Err(e),
            Ok((item_type, len, start)) => if depth == 0 {
                Err(GgufError::EndlessNesting)
            } else {
                skip_items(data, start, item_type, len as nat, (depth - 1) as nat)
            },
        }
    } else {
        Err(GgufError::UnknownValueType(ty))
    }
}

/// The position behind `n` values of type `ty`, where arrays may nest `depth` deep.
pub open spec fn skip_items(data: Seq<u8>, pos: u64, ty: u32, n: nat, depth: nat) -> Result<
    u64,
    GgufError,
>
    decreases depth, n,
{
    if n == 0 {
        Ok(pos)
    } else {
        match skip_within(data, pos, ty, depth) {
            Err(e) => Err(e),
            Ok(next) => skip_items(data, next, ty, (n - 1) as nat, depth),
        }
    }
}

/// The position behind a value of type `ty`. No value that can be skipped at all
/// nests deeper than the stream is long, see [`law_only_endless_nesting_is_refused`].
pub open spec fn skip_at(data: Seq<u8>, pos: u64, ty: u32) -> Result<u64, GgufError> {
    skip_within(data, pos, ty, data.len())
}

/// The item type and length of an array, and the position of its first item.
pub open spec fn array_header_at(data: Seq<u8>, pos: u64) -> Result<(u32, u64, u64), GgufError> {
    match u32_at(data, pos) {
        Err(e) => Err(e),
        Ok((item_type, p)) => match uint_at(data, p, 8) {
            Err(e) => Err(e),
            Ok((len, start)) => Ok((item_type, len, start)),
        },
    }
}

/// A value of type `ty` and the position behind it.
pub open spec fn value_at(data: Seq<u8>, pos: u64, ty: u32) -> Result<
    (ValueModel, u64),
    GgufError,
> {
    if ty == 8 {
        match string_at(data, pos) {
            Err(e) => Err(e),
            Ok((text, next)) => Ok((ValueModel::Text(text), next)),
        }
    } else if ty == 9 {
        match array_header_at(data, pos) {
            Err(e) => Err(e),
            Ok((_, len, _)) => match skip_at(data, pos, ty) {
                Err(e) => Err(e),
                Ok(next) => Ok((ValueModel::ArrayLen(len as usize), next)),
            },
        }
    } else if fixed_size(ty) is Some {
        match uint_at(data, pos, fixed_size(ty)->0) {
            Err(e) => Err(e),
            Ok((v, next)) => Ok((fixed_value(ty, v), next)),
        }
    } else {
        Err(GgufError::UnknownValueType(ty))
    }
}

/// What the bytes of a value of fixed size, read as the number `v`, stand for.
pub open spec fn fixed_value(ty: u32, v: u64) -> ValueModel {
    match ty {
        0 => ValueModel::U8(v as u8),
        1 => ValueModel::I8((v as u8) as i8),
        2 => ValueModel::U16(v as u16),
        3 => ValueModel::I16((v as u16) as i16),
        4 => ValueModel::U32(v as u32),
        5 => ValueModel::I32((v as u32) as i32),
        6 => ValueModel::F32(v as u32),
        7 => ValueModel::Bool(v as u8 != 0),
        10 => ValueModel::U64(v),
        11 => ValueModel::I64(v as i64),
        _ => ValueModel::F64(v),
    }
}

proof fn lemma_le_value_push(bytes: Seq<u8>, i: int)
    requires
        0 <= i < bytes.len(),
    ensures
        le_value(bytes.skip(i)) == bytes[i] + 256 * le_value(bytes.skip(i + 1)),
{
    assert(bytes.skip(i).skip(1) =~= bytes.skip(i + 1));
}

/// `n` bytes spell a number below `256^n`.
proof fn lemma_le_value_bound(bytes: Seq<u8>)
    ensures
        bytes.len() <= 1 ==> le_value(bytes) <= u8::MAX,
        bytes.len() <= 2 ==> le_value(bytes) <= u16::MAX,
        bytes.len() <= 4 ==> le_value(bytes) <= u32::MAX,
        bytes.len() <= 8 ==> le_value(bytes) <= u64::MAX,
{
    if bytes.len() <= 8 {
        reveal_with_fuel(le_value, 9);
    }
}

pub(crate) fn read_uint(data: &[u8], pos: u64, n: u64) -> (r: Result<(u64, u64), GgufError>)
    requires
        1 <= n <= 8,
    ensures
        r == uint_at(data@, pos, n as int),
        r matches Ok((v, next)) ==> {
            &&& n == 1 ==> v <= u8::MAX
            &&& n == 2 ==> v <= u16::MAX
            &&& n == 4 ==> v <= u32::MAX
            &&& next == pos + n
            &&& next <= data@.len()
        },
{
    let size: usize = data.len();
    let len: u64 = size as u64;
    if pos > len || n > len - pos {
        return Err(GgufError::UnexpectedEnd);
    }
    let start: usize = pos as usize;
    let width: usize = n as usize;
    let ghost bytes = data@.subrange(pos as int, pos + n);
    proof {
        lemma_le_value_bound(bytes);
        assert(bytes.skip(n as int) =~= Seq::<u8>::empty());
        assert(bytes.skip(0) =~= bytes);
    }
    let mut v: u64 = 0;
    let mut i: usize = width;
    while i > 0
        invariant
            i <= width,
            width == n,
            width <= 8,
            start == pos,
            size == data@.len(),
            pos + n <= size,
            bytes == data@.subrange(pos as int, pos + n),
            v == le_value(bytes.skip(i as int)),
            le_value(bytes) <= u64::MAX,
        decreases i,
    {
        i -= 1;
        proof {
            lemma_le_value_push(bytes, i as int);
            lemma_le_value_bound(bytes.skip(i as int));
            assert(bytes[i as int] == data@[pos + i]);
        }
        v = v * 256 + data[start + i] as u64;
    }
    assert(bytes.skip(0) =~= bytes);
    Ok((v, pos + n))
}

pub(crate) fn read_u32_at(data: &[u8], pos: u64) -> (r: Result<(u32, u64), GgufError>)
    ensures
        r == u32_at(data@, pos),
        r matches Ok((v, next)) ==> next == pos + 4 && next <= data@.len(),
{
    match read_uint(data, pos, 4) {
        Ok((v, next)) => Ok((v as u32, next)),
        Err(e) => Err(e),
    }
}

/// Makes a string of UTF-8 bytes, through `String::from_utf8`.
///
/// Trusted: the call succeeds exactly on valid UTF-8, and the string it gives
/// consists of the characters that the bytes encode.
#[verifier::external_body]
fn string_from_utf8(bytes: Vec<u8>) -> (r: Option<String>)
    ensures
        r is Some <==> valid_utf8(bytes@),
        r matches Some(s) ==> s@ == decode_utf8(bytes@),
{
    match String::from_utf8(bytes) {
        Ok(s) => Some(s),
        Err(_) => None,
    }
}

/// Whether `r` holds what `model` says, as text.
pub open spec fn text_outcome(
    r: Result<(String, u64), GgufError>,
    model: Result<(Seq<char>, u64), GgufError>,
) -> bool {
    match model {
        Ok((text, next)) => r matches Ok((s, p)) && s@ == text && p == next,
        Err(e) => r == Err::<(String, u64), GgufError>(e),
    }
}

pub(crate) fn read_string_at(data: &[u8], pos: u64) -> (r: Result<(String, u64), GgufError>)
    ensures
        text_outcome(r, string_at(data@, pos)),
        r matches Ok((s, next)) ==> pos < next <= data@.len(),
{
    let (len, start) = match read_uint(data, pos, 8) {
        Ok(v) => v,
        Err(e) => {
            return Err(e);
        },
    };
    if len > data.len() as u64 - start {
        return Err(GgufError::UnexpectedEnd);
    }
    let from: usize = start as usize;
    let to: usize = (start + len) as usize;
    let bytes = vstd::slice::slice_to_vec(vstd::slice::slice_subrange(data, from, to));
    match string_from_utf8(bytes) {
        Some(s) => Ok((s, start + len)),
        None => Err(GgufError::InvalidUtf8),
    }
}

fn seek(pos: u64, n: u64) -> (r: Result<u64, GgufError>)
    ensures
        r == seek_from(pos, n as int),
{
    if n > u64::MAX - pos {
        Err(GgufError::SeekOutOfRange)
    } else {
        Ok(pos + n)
    }
}

fn seek_back(pos: u64, n: u64) -> (r: Result<u64, GgufError>)
    ensures
        r == seek_from(pos, -n),
{
    if n > pos {
        Err(GgufError::SeekOutOfRange)
    } else {
        Ok(pos - n)
    }
}

fn read_array_header(data: &[u8], pos: u64) -> (r: Result<(u32, u64, u64), GgufError>)
    ensures
        r == array_header_at(data@, pos),
        r matches Ok((item_type, len, start)) ==> start == pos + 12 && start <= data@.len(),
{
    match read_u32_at(data, pos) {
        Err(e) => Err(e),
        Ok((item_type, p)) => match read_uint(data, p, 8) {
            Err(e) => Err(e),
            Ok((len, start)) => Ok((item_type, len, start)),
        },
    }
}

fn skip_array_items(data: &[u8], start: u64, ty: u32, n: u64, depth: usize) -> (r: Result<
    u64,
    GgufError,
>)
    ensures
        r == skip_items(data@, start, ty, n as nat, depth as nat),
    decreases depth, 1nat,
{
    let mut pos: u64 = start;
    let mut left: u64 = n;
    while left > 0
        invariant
            skip_items(data@, start, ty, n as nat, depth as nat) == skip_items(
                data@,
                pos,
                ty,
                left as nat,
                depth as nat,
            ),
        decreases left,
    {
        match skip_value_at(data, pos, ty, depth) {
            Err(e) => {
                return Err(e);
            },
            Ok(next) => {
                pos = next;
            },
        }
        left -= 1;
    }
    Ok(pos)
}

fn skip_value_at(data: &[u8], pos: u64, ty: u32, depth: usize) -> (r: Result<u64, GgufError>)
    ensures
        r == skip_within(data@, pos, ty, depth as nat),
    decreases depth, 0nat,
{
    match ty {
        0 | 1 | 7 => seek(pos, 1),
        2 | 3 => seek(pos, 2),
        4 | 5 | 6 => seek(pos, 4),
        10 | 11 | 12 => seek(pos, 8),
        8 => match read_uint(data, pos, 8) {
            Err(e) => Err(e),
            Ok((len, start)) => if len <= i64::MAX as u64 {
                seek(start, len)
            } else {
                seek_back(start, u64::MAX - len + 1)
            },
        },
        9 => match read_array_header(data, pos) {
            Err(e) => Err(e),
            Ok((item_type, len, start)) => if depth == 0 {
                Err(GgufError::EndlessNesting)
            } else {
                skip_array_items(data, start, item_type, len, depth - 1)
            },
        },
        _ => Err(GgufError::UnknownValueType(ty)),
    }
}

/// Whether `r` holds what `model` says, as a value.
pub open spec fn value_outcome(
    r: Result<(GgufValue, u64), GgufError>,
    model: Result<(ValueModel, u64), GgufError>,
) -> bool {
    match model {
        Ok((value, next)) => r matches Ok((v, p)) && v@ == value && p == next,
        Err(e) => r == Err::<(GgufValue, u64), GgufError>(e),
    }
}

pub(crate) fn read_value_at(data: &[u8], pos: u64, ty: u32) -> (r: Result<
    (GgufValue, u64),
    GgufError,
>)
    ensures
        value_outcome(r, value_at(data@, pos, ty)),
{
    let width: u64 = match ty {
        0 | 1 | 7 => 1,
        2 | 3 => 2,
        4 | 5 | 6 => 4,
        10 | 11 | 12 => 8,
        8 => {
            return match read_string_at(data, pos) {
                Err(e) => Err(e),
                Ok((s, next)) => Ok((GgufValue::String(s), next)),
            };
        },
        9 => {
            return match read_array_header(data, pos) {
                Err(e) => Err(e),
                Ok((_, len, _)) => match skip_value_at(data, pos, ty, data.len()) {
                    Err(e) => Err(e),
                    Ok(next) => Ok((GgufValue::ArrayLen(len as usize), next)),
                },
            };
        },
        _ => {
            return Err(GgufError::UnknownValueType(ty));
        },
    };
    match read_uint(data, pos, width) {
        Err(e) => Err(e),
        Ok((v, next)) => {
            let value = match ty {
                0 => GgufValue::U8(v as u8),
                1 => GgufValue::I8((v as u8) as i8),
                2 => GgufValue::U16(v as u16),
                3 => GgufValue::I16((v as u16) as i16),
                4 => GgufValue::U32(v as u32),
                5 => GgufValue::I32((v as u32) as i32),
                6 => GgufValue::F32(v as u32),
                7 => GgufValue::Bool(v as u8 != 0),
                10 => GgufValue::U64(v),
                11 => GgufValue::I64(v as i64),
                _ => GgufValue::F64(v),
            };
            Ok((value, next))
        },
    }
}

impl<'a> Cursor<'a> {
    /// A cursor at the start of `data`.
    pub fn new(data: &'a [u8]) -> (c: Self)
        ensures
            c.data@ == data@,
            c.pos == 0,
    {
        Cursor { data, pos: 0 }
    }

    /// Whether the cursor went from `self` to `after` by reading up to `next`.
    pub open spec fn moved(self, after: Self, next: u64) -> bool {
        after.data == self.data && after.pos == next
    }
}

/// Reads a `u32`. After a failure the cursor stands where it stood.
pub fn read_u32(r: &mut Cursor) -> (v: Result<u32, GgufError>)
    ensures
        match u32_at(old(r).data@, old(r).pos) {
            Ok((value, next)) => v == Ok::<u32, GgufError>(value) && old(r).moved(*final(r), next),
            Err(e) => v == Err::<u32, GgufError>(e) && *final(r) == *old(r),
        },
{
    match read_u32_at(r.data, r.pos) {
        Ok((value, next)) => {
            r.pos = next;
            Ok(value)
        },
        Err(e) => Err(e),
    }
}

/// Reads a `u64`. After a failure the cursor stands where it stood.
pub fn read_u64(r: &mut Cursor) -> (v: Result<u64, GgufError>)
    ensures
        match uint_at(old(r).data@, old(r).pos, 8) {
            Ok((value, next)) => v == Ok::<u64, GgufError>(value) && old(r).moved(*final(r), next),
            Err(e) => v == Err::<u64, GgufError>(e) && *final(r) == *old(r),
        },
{
    match read_uint(r.data, r.pos, 8) {
        Ok((value, next)) => {
            r.pos = next;
            Ok(value)
        },
        Err(e) => Err(e),
    }
}

/// Reads a string. After a failure the cursor stands where it stood.
pub fn read_string(r: &mut Cursor) -> (v: Result<String, GgufError>)
    ensures
        match string_at(old(r).data@, old(r).pos) {
            Ok((text, next)) => (v matches Ok(s) && s@ == text) && old(r).moved(*final(r), next),
            Err(e) => v == Err::<String, GgufError>(e) && *final(r) == *old(r),
        },
{
    match read_string_at(r.data, r.pos) {
        Ok((s, next)) => {
            r.pos = next;
            Ok(s)
        },
        Err(e) => Err(e),
    }
}

/// Reads a value of type `val_type`. After a failure the cursor stands where it
/// stood.
pub fn read_gguf_value(r: &mut Cursor, val_type: u32) -> (v: Result<GgufValue, GgufError>)
    ensures
        match value_at(old(r).data@, old(r).pos, val_type) {
            Ok((value, next)) => (v matches Ok(g) && g@ == value) && old(r).moved(*final(r), next),
            Err(e) => v == Err::<GgufValue, GgufError>(e) && *final(r) == *old(r),
        },
{
    match read_value_at(r.data, r.pos, val_type) {
        Ok((value, next)) => {
            r.pos = next;
            Ok(value)
        },
        Err(e) => Err(e),
    }
}

/// Moves past a value of type `val_type` without reading it. The cursor may come
/// to stand behind the end of the stream, and a string whose length has more than
/// 63 bits moves it back. After a failure it stands where it stood.
pub fn skip_value(r: &mut Cursor, val_type: u32) -> (v: Result<(), GgufError>)
    ensures
        match skip_at(old(r).data@, old(r).pos, val_type) {
            Ok(next) => v == Ok::<(), GgufError>(()) && old(r).moved(*final(r), next),
            Err(e) => v == Err::<(), GgufError>(e) && *final(r) == *old(r),
        },
{
    match skip_value_at(r.data, r.pos, val_type, r.data.len()) {
        Ok(next) => {
            r.pos = next;
            Ok(())
        },
        Err(e) => Err(e),
    }
}

/// The bytes of a value that can be read: those of its fixed size, or the length
/// word and the text of a string, or the header of an array and all of its items.
pub open spec fn value_size(data: Seq<u8>, pos: u64, ty: u32) -> int {
    if ty == 8 {
        8 + uint_at(data, pos, 8)->Ok_0.0
    } else if ty == 9 {
        let (item_type, len, start) = array_header_at(data, pos)->Ok_0;
        12 + (skip_items(data, start, item_type, len as nat, (data.len() - 1) as nat)->Ok_0 - start)
    } else {
        fixed_size(ty)->0
    }
}

/// Skipping a value ends where reading it does, right behind the value; and an
/// array reads as the number of its items. A string whose length has more than 63
/// bits is left out: reading it goes on, skipping it goes back.
pub proof fn law_skipping_ends_where_reading_does(data: Seq<u8>, pos: u64, ty: u32)
    requires
        data.len() <= u64::MAX,
        value_at(data, pos, ty) is Ok,
        ty == 8 ==> uint_at(data, pos, 8)->Ok_0.0 <= i64::MAX,
    ensures
        skip_at(data, pos, ty) == Ok::<u64, GgufError>(value_at(data, pos, ty)->Ok_0.1),
        value_at(data, pos, ty)->Ok_0.1 == pos + value_size(data, pos, ty),
        ty == 9 ==> value_at(data, pos, ty)->Ok_0.0 == ValueModel::ArrayLen(
            array_header_at(data, pos)->Ok_0.1 as usize,
        ),
{
    if ty == 8 {
        let (len, start) = uint_at(data, pos, 8)->Ok_0;
        assert(take_at(data, start, len as int) is Ok);
    } else if ty == 9 {
        let (item_type, len, start) = array_header_at(data, pos)->Ok_0;
        assert(start == pos + 12);
    }
}

/// The items of an array of fixed-size values lie one behind the other.
pub proof fn law_fixed_items_add_up(data: Seq<u8>, pos: u64, ty: u32, n: nat, depth: nat)
    requires
        fixed_size(ty) is Some,
        pos + n * fixed_size(ty)->0 <= u64::MAX,
    ensures
        skip_items(data, pos, ty, n, depth) == Ok::<u64, GgufError>(
            (pos + n * fixed_size(ty)->0) as u64,
        ),
    decreases n,
{
    let size = fixed_size(ty)->0;
    if n > 0 {
        assert(n * size == size + (n - 1) * size) by (nonlinear_arith);
        assert((n - 1) * size >= 0) by (nonlinear_arith)
            requires
                n > 0,
                size >= 0,
        ;
        law_fixed_items_add_up(data, (pos + size) as u64, ty, (n - 1) as nat, depth);
        assert(skip_within(data, pos, ty, depth) == Ok::<u64, GgufError>((pos + size) as u64));
    } else {
        assert(n * size == 0) by (nonlinear_arith)
            requires
                n == 0,
        ;
    }
}

/// Whether a skip ends within `depth` levels of arrays: with a position, or with
/// an error of another kind.
pub open spec fn ends_within(data: Seq<u8>, pos: u64, ty: u32, depth: nat) -> bool {
    skip_within(data, pos, ty, depth) != Err::<u64, GgufError>(GgufError::EndlessNesting)
}

spec fn items_end_within(data: Seq<u8>, pos: u64, ty: u32, n: nat, depth: nat) -> bool {
    skip_items(data, pos, ty, n, depth) != Err::<u64, GgufError>(GgufError::EndlessNesting)
}

/// A skip that ends does not depend on how deep arrays may nest beyond that.
proof fn lemma_deeper_is_the_same(data: Seq<u8>, pos: u64, ty: u32, depth: nat, deeper: nat)
    requires
        depth <= deeper,
        ends_within(data, pos, ty, depth),
    ensures
        skip_within(data, pos, ty, deeper) == skip_within(data, pos, ty, depth),
    decreases depth, 0nat,
{
    if fixed_size(ty) is None && ty == 9 {
        if let Ok((item_type, len, start)) = array_header_at(data, pos) {
            lemma_deeper_items_are_the_same(
                data,
                start,
                item_type,
                len as nat,
                (depth - 1) as nat,
                (deeper - 1) as nat,
            );
        }
    }
}

proof fn lemma_deeper_items_are_the_same(
    data: Seq<u8>,
    pos: u64,
    ty: u32,
    n: nat,
    depth: nat,
    deeper: nat,
)
    requires
        depth <= deeper,
        items_end_within(data, pos, ty, n, depth),
    ensures
        skip_items(data, pos, ty, n, deeper) == skip_items(data, pos, ty, n, depth),
    decreases depth, n,
{
    if n > 0 {
        lemma_deeper_is_the_same(data, pos, ty, depth, deeper);
        if let Ok(next) = skip_within(data, pos, ty, depth) {
            lemma_deeper_items_are_the_same(data, next, ty, (n - 1) as nat, depth, deeper);
        }
    }
}

/// Whether the array at `pos` nests just one level deeper than `depth`.
spec fn needs_more_than(data: Seq<u8>, pos: u64, depth: nat) -> bool {
    !ends_within(data, pos, 9, depth) && ends_within(data, pos, 9, depth + 1)
}

/// Where items need one more level, one of them is an array that does.
proof fn lemma_some_item_needs_more(data: Seq<u8>, pos: u64, ty: u32, n: nat, depth: nat) -> (q:
    u64)
    requires
        !items_end_within(data, pos, ty, n, depth),
        items_end_within(data, pos, ty, n, depth + 1),
    ensures
        needs_more_than(data, q, depth),
    decreases n,
{
    if ends_within(data, pos, ty, depth) {
        lemma_deeper_is_the_same(data, pos, ty, depth, depth + 1);
        let next = skip_within(data, pos, ty, depth)->Ok_0;
        lemma_some_item_needs_more(data, next, ty, (n - 1) as nat, depth)
    } else {
        pos
    }
}

/// An array that needs more than `depth` levels holds others that need more than
/// each smaller number of levels: as many different positions of the stream.
proof fn lemma_positions_of_nested_arrays(data: Seq<u8>, pos: u64, depth: nat) -> (places: Set<
    int,
>)
    requires
        needs_more_than(data, pos, depth),
    ensures
        places.finite(),
        places.len() == depth + 1,
        forall|p: int| #[trigger]
            places.contains(p) ==> 0 <= p < data.len() && p <= u64::MAX && exists|k: nat|
                k <= depth && #[trigger] needs_more_than(data, p as u64, k),
    decreases depth,
{
    let (item_type, len, start) = array_header_at(data, pos)->Ok_0;
    assert(pos < data.len());
    if depth == 0 {
        let places = Set::<int>::empty().insert(pos as int);
        assert forall|p: int| #[trigger] places.contains(p) implies 0 <= p < data.len() && p
            <= u64::MAX && exists|k: nat|
            k <= depth && #[trigger] needs_more_than(data, p as u64, k) by {
            assert(needs_more_than(data, p as u64, depth));
        }
        places
    } else {
        let inner = lemma_some_item_needs_more(
            data,
            start,
            item_type,
            len as nat,
            (depth - 1) as nat,
        );
        let others = lemma_positions_of_nested_arrays(data, inner, (depth - 1) as nat);
        if others.contains(pos as int) {
            let k = choose|k: nat|
                k <= depth - 1 && #[trigger] needs_more_than(data, pos as int as u64, k);
            lemma_deeper_is_the_same(data, pos, 9, k + 1, depth);
        }
        let places = others.insert(pos as int);
        assert forall|p: int| #[trigger] places.contains(p) implies 0 <= p < data.len() && p
            <= u64::MAX && exists|k: nat|
            k <= depth && #[trigger] needs_more_than(data, p as u64, k) by {
            if p == pos {
                assert(needs_more_than(data, p as u64, depth));
            } else {
                let k = choose|k: nat|
                    k <= depth - 1 && #[trigger] needs_more_than(data, p as u64, k);
                assert(needs_more_than(data, p as u64, k));
            }
        }
        places
    }
}

/// Only endless nesting is refused: a value whose skip ends at all, however deep
/// its arrays nest, is skipped.
pub proof fn law_only_endless_nesting_is_refused(data: Seq<u8>, pos: u64, ty: u32, depth: nat)
    requires
        ends_within(data, pos, ty, depth),
    ensures
        skip_at(data, pos, ty) == skip_within(data, pos, ty, depth),
    decreases depth,
{
    let n = data.len();
    if depth <= n {
        lemma_deeper_is_the_same(data, pos, ty, depth, n);
    } else if ends_within(data, pos, ty, (depth - 1) as nat) {
        law_only_endless_nesting_is_refused(data, pos, ty, (depth - 1) as nat);
        lemma_deeper_is_the_same(data, pos, ty, (depth - 1) as nat, depth);
    } else {
        let places = lemma_positions_of_nested_arrays(data, pos, (depth - 1) as nat);
        let all = vstd::set_lib::set_int_range(0, n as int);
        vstd::set_lib::lemma_int_range(0, n as int);
        assert(places.subset_of(all));
        vstd::set_lib::lemma_len_subset(places, all);
    }
}

/// Bytes that can be taken are the same whatever stands behind the stream.
proof fn lemma_take_extends(data: Seq<u8>, more: Seq<u8>, pos: u64, n: int)
    requires
        n >= 0,
        take_at(data, pos, n) is Ok,
    ensures
        take_at(data + more, pos, n) == take_at(data, pos, n),
{
    assert((data + more).subrange(pos as int, pos + n) =~= data.subrange(pos as int, pos + n));
}

pub(crate) proof fn lemma_uint_extends(data: Seq<u8>, more: Seq<u8>, pos: u64, n: int)
    requires
        n >= 0,
        uint_at(data, pos, n) is Ok,
    ensures
        uint_at(data + more, pos, n) == uint_at(data, pos, n),
{
    lemma_take_extends(data, more, pos, n);
}

pub(crate) proof fn lemma_string_extends(data: Seq<u8>, more: Seq<u8>, pos: u64)
    requires
        string_at(data, pos) is Ok,
    ensures
        string_at(data + more, pos) == string_at(data, pos),
{
    lemma_uint_extends(data, more, pos, 8);
    let (len, start) = uint_at(data, pos, 8)->Ok_0;
    lemma_take_extends(data, more, start, len as int);
}

proof fn lemma_array_header_extends(data: Seq<u8>, more: Seq<u8>, pos: u64)
    requires
        array_header_at(data, pos) is Ok,
    ensures
        array_header_at(data + more, pos) == array_header_at(data, pos),
{
    lemma_uint_extends(data, more, pos, 4);
    let p = u32_at(data, pos)->Ok_0.1;
    lemma_uint_extends(data, more, p, 8);
}

proof fn lemma_skip_extends(data: Seq<u8>, more: Seq<u8>, pos: u64, ty: u32, depth: nat)
    requires
        skip_within(data, pos, ty, depth) is Ok,
    ensures
        skip_within(data + more, pos, ty, depth) == skip_within(data, pos, ty, depth),
    decreases depth, 0nat,
{
    if fixed_size(ty) is Some {
    } else if ty == 8 {
        lemma_uint_extends(data, more, pos, 8);
    } else if ty == 9 {
        lemma_array_header_extends(data, more, pos);
        let (item_type, len, start) = array_header_at(data, pos)->Ok_0;
        lemma_skip_items_extends(data, more, start, item_type, len as nat, (depth - 1) as nat);
    }
}

proof fn lemma_skip_items_extends(
    data: Seq<u8>,
    more: Seq<u8>,
    pos: u64,
    ty: u32,
    n: nat,
    depth: nat,
)
    requires
        skip_items(data, pos, ty, n, depth) is Ok,
    ensures
        skip_items(data + more, pos, ty, n, depth) == skip_items(data, pos, ty, n, depth),
    decreases depth, n,
{
    if n > 0 {
        lemma_skip_extends(data, more, pos, ty, depth);
        let next = skip_within(data, pos, ty, depth)->Ok_0;
        lemma_skip_items_extends(data, more, next, ty, (n - 1) as nat, depth);
    }
}

pub(crate) proof fn lemma_value_extends(data: Seq<u8>, more: Seq<u8>, pos: u64, ty: u32)
    requires
        value_at(data, pos, ty) is Ok,
    ensures
        value_at(data + more, pos, ty) == value_at(data, pos, ty),
{
    if ty == 8 {
        lemma_string_extends(data, more, pos);
    } else if ty == 9 {
        lemma_array_header_extends(data, more, pos);
        lemma_skip_extends(data, more, pos, ty, data.len());
        lemma_deeper_is_the_same(data + more, pos, ty, data.len(), (data + more).len());
    } else if fixed_size(ty) is Some {
        lemma_uint_extends(data, more, pos, fixed_size(ty)->0);
    }
}

/// `256` to the power `i`, for the bytes of a number.
pub open spec fn byte_weight(i: nat) -> nat
    decreases i,
{
    if i == 0 {
        1
    } else {
        256 * byte_weight((i - 1) as nat)
    }
}

/// The bytes of a number are read least significant byte first: each of them can be
/// got back from the number, and the number has no others.
pub proof fn law_numbers_are_little_endian(bytes: Seq<u8>, i: nat)
    requires
        i < bytes.len(),
    ensures
        le_value(bytes) / byte_weight(i) % 256 == bytes[i as int],
        le_value(bytes) < byte_weight(bytes.len()),
    decreases bytes.len(),
{
    let rest = bytes.skip(1);
    let v = le_value(rest) as int;
    let first = bytes[0] as int;
    if rest.len() > 0 {
        law_numbers_are_little_endian(rest, if i == 0 {
            0
        } else {
            (i - 1) as nat
        });
    }
    assert(le_value(bytes) == first + 256 * v);
    if i > 0 {
        let w = byte_weight((i - 1) as nat) as int;
        lemma_weight_is_positive((i - 1) as nat);
        assert(rest[i - 1] == bytes[i as int]);
        assert((first + 256 * v) / (256 * w) == v / w) by {
            vstd::arithmetic::div_mod::lemma_div_denominator(first + 256 * v, 256, w);
            assert((first + 256 * v) / 256 == v);
        }
        assert(byte_weight(i) == 256 * w);
        assert(le_value(bytes) / byte_weight(i) == le_value(rest) / byte_weight((i - 1) as nat));
    } else {
        assert(byte_weight(i) == 1);
        let x = le_value(bytes);
        assert(x / 1 == x) by (nonlinear_arith);
        assert(x % 256 == first);
    }
}

proof fn lemma_weight_is_positive(i: nat)
    ensures
        byte_weight(i) > 0,
    decreases i,
{
    if i > 0 {
        lemma_weight_is_positive((i - 1) as nat);
    }
}

/// A number stands where the cursor is: it takes the next bytes, all of them, and the
/// cursor moves behind them; where the stream has fewer, nothing is read.
pub proof fn law_numbers_take_the_next_bytes(data: Seq<u8>, pos: u64, n: int)
    requires
        n == 1 || n == 2 || n == 4 || n == 8,
        data.len() <= u64::MAX,
    ensures
        uint_at(data, pos, n) is Ok <==> pos + n <= data.len(),
        pos + n > data.len() ==> uint_at(data, pos, n) == Err::<(u64, u64), GgufError>(
            GgufError::UnexpectedEnd,
        ),
        uint_at(data, pos, n) matches Ok((v, next)) ==> next == pos + n && v == le_value(
            data.subrange(pos as int, pos + n),
        ),
        u32_at(data, pos) is Ok <==> pos + 4 <= data.len(),
        u32_at(data, pos) matches Ok((v, next)) ==> next == pos + 4 && v == le_value(
            data.subrange(pos as int, pos + 4),
        ),
{
    if pos + n <= data.len() {
        lemma_le_value_bound(data.subrange(pos as int, pos + n));
    }
    if pos + 4 <= data.len() {
        lemma_le_value_bound(data.subrange(pos as int, pos + 4));
    }
}

/// A number that stands for itself below `half`, and for a negative one from there on.
pub open spec fn signed(v: int, half: int) -> int {
    if v < half {
        v
    } else {
        v - 2 * half
    }
}

/// A value of fixed size holds the number that its bytes spell: unsigned numbers and
/// the bits of floats as they are, signed ones in two's complement, and a boolean
/// whether it is not zero. It takes as many bytes as its kind has.
pub proof fn law_fixed_values_hold_their_numbers(v: u64)
    ensures
        fixed_size(0) == Some(1int),
        v < 0x100 ==> fixed_value(0, v) is U8 && fixed_value(0, v)->U8_0 == v,
        fixed_size(1) == Some(1int),
        v < 0x100 ==> fixed_value(1, v) is I8 && fixed_value(1, v)->I8_0 == signed(v as int, 0x80),
        fixed_size(2) == Some(2int),
        v < 0x1_0000 ==> fixed_value(2, v) is U16 && fixed_value(2, v)->U16_0 == v,
        fixed_size(3) == Some(2int),
        v < 0x1_0000 ==> fixed_value(3, v) is I16 && fixed_value(3, v)->I16_0
            == signed(v as int, 0x8000),
        fixed_size(4) == Some(4int),
        v < 0x1_0000_0000 ==> fixed_value(4, v) is U32 && fixed_value(4, v)->U32_0 == v,
        fixed_size(5) == Some(4int),
        v < 0x1_0000_0000 ==> fixed_value(5, v) is I32 && fixed_value(5, v)->I32_0
            == signed(v as int, 0x8000_0000),
        fixed_size(6) == Some(4int),
        v < 0x1_0000_0000 ==> fixed_value(6, v) is F32 && fixed_value(6, v)->F32_0 == v,
        fixed_size(7) == Some(1int),
        v < 0x100 ==> fixed_value(7, v) is Bool && fixed_value(7, v)->Bool_0 == (v != 0),
        fixed_size(10) == Some(8int),
        fixed_value(10, v) is U64 && fixed_value(10, v)->U64_0 == v,
        fixed_size(11) == Some(8int),
        fixed_value(11, v) is I64 && fixed_value(11, v)->I64_0
            == signed(v as int, 0x8000_0000_0000_0000),
        fixed_size(12) == Some(8int),
        fixed_value(12, v) is F64 && fixed_value(12, v)->F64_0 == v,
        forall|ty: u32| ty == 8 || ty == 9 || ty > 12 ==> #[trigger] fixed_size(ty) is None,
{
    assert(v < 0x80 ==> (v as u8) as i8 == v) by (bit_vector);
    assert(0x80 <= v && v < 0x100 ==> (v as u8) as i8 == v - 0x100) by (bit_vector);
    assert(v < 0x8000 ==> (v as u16) as i16 == v) by (bit_vector);
    assert(0x8000 <= v && v < 0x1_0000 ==> (v as u16) as i16 == v - 0x1_0000) by (bit_vector);
    assert(v < 0x8000_0000 ==> (v as u32) as i32 == v) by (bit_vector);
    assert(0x8000_0000 <= v && v < 0x1_0000_0000 ==> (v as u32) as i32 == v - 0x1_0000_0000)
        by (bit_vector);
    assert(v < 0x8000_0000_0000_0000 ==> v as i64 == v) by (bit_vector);
    assert(v >= 0x8000_0000_0000_0000 ==> v as i64 == v - 0x1_0000_0000_0000_0000) by (bit_vector);
}

/// Skipping a string whose length has more than 63 bits goes back from behind the
/// length, as far as the length lies below the next power of two. A type that is not
/// defined is refused, to read and to skip alike.
pub proof fn law_skipping_odd_values(data: Seq<u8>, pos: u64, ty: u32, len: u64)
    requires
        uint_at(data, pos, 8) == Ok::<(u64, u64), GgufError>((len, (pos + 8) as u64)),
        pos + 8 <= data.len() <= u64::MAX,
        len > i64::MAX,
    ensures
        ({
            let back = 0x1_0000_0000_0000_0000 - len;
            let r = skip_at(data, pos, 8);
            &&& back <= pos + 8 ==> r == Ok::<u64, GgufError>((pos + 8 - back) as u64)
            &&& back > pos + 8 ==> r == Err::<u64, GgufError>(GgufError::SeekOutOfRange)
        }),
        ty > 12 ==> skip_at(data, pos, ty) == Err::<u64, GgufError>(
            GgufError::UnknownValueType(ty),
        ) && value_at(data, pos, ty) == Err::<(ValueModel, u64), GgufError>(
            GgufError::UnknownValueType(ty),
        ),
{
}

/// A string is a length word and that many bytes of UTF-8; an array a type, a length
/// and its items.
pub proof fn law_strings_and_arrays_carry_their_length(data: Seq<u8>, pos: u64)
    requires
        data.len() <= u64::MAX,
    ensures
        string_at(data, pos) matches Ok((text, next)) ==> {
            let len = uint_at(data, pos, 8)->Ok_0.0;
            let bytes = data.subrange(pos + 8, pos + 8 + len);
            &&& next == pos + 8 + len
            &&& next <= data.len()
            &&& valid_utf8(bytes)
            &&& text == decode_utf8(bytes)
        },
        array_header_at(data, pos) matches Ok((item_type, len, start)) ==> {
            &&& start == pos + 12
            &&& start <= data.len()
            &&& item_type == le_value(data.subrange(pos as int, pos + 4))
            &&& len == le_value(data.subrange(pos + 4, pos + 12))
        },
{
    if pos + 12 <= data.len() {
        lemma_le_value_bound(data.subrange(pos as int, pos + 4));
        lemma_le_value_bound(data.subrange(pos + 4, pos + 12));
    }
}

/// Items are skipped one behind the other: skipping some and then the rest is skipping
/// all, and without items nothing is skipped.
pub proof fn law_items_are_skipped_in_order(
    data: Seq<u8>,
    pos: u64,
    ty: u32,
    m: nat,
    n: nat,
    depth: nat,
)
    ensures
        skip_items(data, pos, ty, 0, depth) == Ok::<u64, GgufError>(pos),
        skip_items(data, pos, ty, 1, depth) == skip_within(data, pos, ty, depth),
        skip_items(data, pos, ty, m + n, depth) == (match skip_items(data, pos, ty, m, depth) {
            Ok(next) => skip_items(data, next, ty, n, depth),
            Err(e) => Err(e),
        }),
    decreases m,
{
    match skip_within(data, pos, ty, depth) {
        Ok(next) => {
            assert(skip_items(data, next, ty, 0, depth) == Ok::<u64, GgufError>(next));
            if m > 0 {
                law_items_are_skipped_in_order(data, next, ty, (m - 1) as nat, n, depth);
            }
        },
        Err(_) => {},
    }
}

/// Skipping an array skips its items, from behind its header on; a string is skipped
/// from behind its length on.
pub proof fn law_skipping_goes_behind_headers(data: Seq<u8>, pos: u64, depth: nat)
    requires
        depth > 0,
    ensures
        array_header_at(data, pos) matches Ok((item_type, len, start)) ==> skip_within(
            data,
            pos,
            9,
            depth,
        ) == skip_items(data, start, item_type, len as nat, (depth - 1) as nat),
        uint_at(data, pos, 8) matches Ok((len, start)) ==> len <= i64::MAX && start + len
            <= u64::MAX ==> skip_within(data, pos, 8, depth) == Ok::<u64, GgufError>(
            (start + len) as u64,
        ),
{
}

/// A value is read by its type: a string as its text, an array as its length, and all
/// others as what their bytes stand for. It ends where its bytes do.
pub proof fn law_values_are_read_by_type(data: Seq<u8>, pos: u64, ty: u32)
    ensures
        string_at(data, pos) matches Ok((text, next)) ==> value_at(data, pos, 8) == Ok::<
            (ValueModel, u64),
            GgufError,
        >((ValueModel::Text(text), next)),
        fixed_size(ty) matches Some(n) ==> (uint_at(data, pos, n) matches Ok((v, next))
            ==> value_at(data, pos, ty) == Ok::<(ValueModel, u64), GgufError>(
            (fixed_value(ty, v), next),
        )),
        fixed_size(ty) matches Some(n) ==> (uint_at(data, pos, n) is Err ==> value_at(
            data,
            pos,
            ty,
        ) is Err),
{
}

} // verus!
