//! `Variant`: a signature-tagged wire container, and the codec between wire
//! bytes and typed values.
//!
//! Wire layout of one value, components laid out one after another:
//! a boolean is a 32-bit little-endian flag (1 or 0, any nonzero reads as
//! true); an integer is its own little-endian bit pattern; text is its UTF-8
//! bytes followed by one NUL byte.

use vstd::bytes::{
    lemma_auto_spec_u16_to_from_le_bytes, lemma_auto_spec_u32_to_from_le_bytes,
    lemma_auto_spec_u64_to_from_le_bytes, spec_u16_from_le_bytes, spec_u16_to_le_bytes,
    spec_u32_from_le_bytes, spec_u32_to_le_bytes, spec_u64_from_le_bytes, spec_u64_to_le_bytes,
    u16_from_le_bytes, u16_to_le_bytes, u32_from_le_bytes, u32_to_le_bytes, u64_from_le_bytes,
    u64_to_le_bytes,
};
use vstd::prelude::*;
use vstd::slice::slice_subrange;
use vstd::utf8::{
    char_is_scalar, decode_utf8, encode_scalar, encode_utf8, encode_utf8_decode_utf8,
    encode_utf8_valid_utf8, valid_utf8,
};

use crate::signature::{same_tags, signature_of, tuple_signature, TypeTag};

verus! {

/// A typed value of the signature-bearing type set.
#[derive(Clone, Debug, PartialEq, Eq)]
pub enum Value {
    /// `b`
    Boolean(bool),
    /// `y`
    Byte(u8),
    /// `n`
    Int16(i16),
    /// `q`
    UInt16(u16),
    /// `i`
    Int32(i32),
    /// `u`
    UInt32(u32),
    /// `x`
    Int64(i64),
    /// `t`
    UInt64(u64),
    /// `s`
    Text(String),
}

/// The mathematical content of a [`Value`]: text is a sequence of characters.
pub enum ValueView {
    Boolean(bool),
    Byte(u8),
    Int16(i16),
    UInt16(u16),
    Int32(i32),
    UInt32(u32),
    Int64(i64),
    UInt64(u64),
    Text(Seq<char>),
}

impl View for Value {
    type V = ValueView;

    open spec fn view(&self) -> ValueView {
        match self {
            Value::Boolean(b) => ValueView::Boolean(*b),
            Value::Byte(x) => ValueView::Byte(*x),
            Value::Int16(x) => ValueView::Int16(*x),
            Value::UInt16(x) => ValueView::UInt16(*x),
            Value::Int32(x) => ValueView::Int32(*x),
            Value::UInt32(x) => ValueView::UInt32(*x),
            Value::Int64(x) => ValueView::Int64(*x),
            Value::UInt64(x) => ValueView::UInt64(*x),
            Value::Text(s) => ValueView::Text(s@),
        }
    }
}

/// The views of a list of values, in order.
pub open spec fn views_of(vs: Seq<Value>) -> Seq<ValueView> {
    vs.map_values(|v: Value| v@)
}

/// The wire type of a value.
pub open spec fn value_tag(v: ValueView) -> TypeTag {
    match v {
        ValueView::Boolean(_) => TypeTag::Boolean,
        ValueView::Byte(_) => TypeTag::Byte,
        ValueView::Int16(_) => TypeTag::Int16,
        ValueView::UInt16(_) => TypeTag::UInt16,
        ValueView::Int32(_) => TypeTag::Int32,
        ValueView::UInt32(_) => TypeTag::UInt32,
        ValueView::Int64(_) => TypeTag::Int64,
        ValueView::UInt64(_) => TypeTag::UInt64,
        ValueView::Text(_) => TypeTag::Text,
    }
}

/// The wire types of a list of values, in order.
pub open spec fn tags_of(vs: Seq<ValueView>) -> Seq<TypeTag> {
    vs.map_values(|v: ValueView| value_tag(v))
}

/// A value has a wire form unless it is text with an embedded NUL.
pub open spec fn encodable(v: ValueView) -> bool {
    match v {
        ValueView::Text(s) => !s.contains('\0'),
        _ => true,
    }
}

/// Every value of the list has a wire form.
pub open spec fn all_encodable(vs: Seq<ValueView>) -> bool {
    forall|i: int| 0 <= i < vs.len() ==> encodable(#[trigger] vs[i])
}

/// The integer flag that stands for a boolean on the wire.
pub open spec fn flag_of(b: bool) -> u32 {
    if b {
        1
    } else {
        0
    }
}

/// The wire bytes of one value.
pub open spec fn encode_value(v: ValueView) -> Seq<u8> {
    match v {
        ValueView::Boolean(b) => spec_u32_to_le_bytes(flag_of(b)),
        ValueView::Byte(x) => seq![x],
        ValueView::Int16(x) => spec_u16_to_le_bytes(x as u16),
        ValueView::UInt16(x) => spec_u16_to_le_bytes(x),
        ValueView::Int32(x) => spec_u32_to_le_bytes(x as u32),
        ValueView::UInt32(x) => spec_u32_to_le_bytes(x),
        ValueView::Int64(x) => spec_u64_to_le_bytes(x as u64),
        ValueView::UInt64(x) => spec_u64_to_le_bytes(x),
        ValueView::Text(s) => encode_utf8(s).push(0u8),
    }
}

/// The wire bytes of a list of values: their encodings, one after another.
pub open spec fn encode_values(vs: Seq<ValueView>) -> Seq<u8>
    decreases vs.len(),
{
    if vs.len() == 0 {
        seq![]
    } else {
        encode_value(vs[0]) + encode_values(vs.drop_first())
    }
}

/// The number of bytes of a fixed-width wire type (text has no fixed width).
pub open spec fn fixed_width(t: TypeTag) -> nat {
    match t {
        TypeTag::Boolean => 4,
        TypeTag::Byte => 1,
        TypeTag::Int16 => 2,
        TypeTag::UInt16 => 2,
        TypeTag::Int32 => 4,
        TypeTag::UInt32 => 4,
        TypeTag::Int64 => 8,
        TypeTag::UInt64 => 8,
        TypeTag::Text => 0,
    }
}

/// The value of fixed-width wire type `t` that the bytes `b` (exactly
/// `fixed_width(t)` of them) stand for.
pub open spec fn decode_fixed(t: TypeTag, b: Seq<u8>) -> ValueView {
    match t {
        TypeTag::Boolean => ValueView::Boolean(spec_u32_from_le_bytes(b) != 0),
        TypeTag::Byte => ValueView::Byte(b[0]),
        TypeTag::Int16 => ValueView::Int16(spec_u16_from_le_bytes(b) as i16),
        TypeTag::UInt16 => ValueView::UInt16(spec_u16_from_le_bytes(b)),
        TypeTag::Int32 => ValueView::Int32(spec_u32_from_le_bytes(b) as i32),
        TypeTag::UInt32 => ValueView::UInt32(spec_u32_from_le_bytes(b)),
        TypeTag::Int64 => ValueView::Int64(spec_u64_from_le_bytes(b) as i64),
        TypeTag::UInt64 => ValueView::UInt64(spec_u64_from_le_bytes(b)),
        TypeTag::Text => ValueView::Text(seq![]),
    }
}

/// `n` is the position of the first NUL byte of `b`.
pub open spec fn is_first_nul(b: Seq<u8>, n: int) -> bool {
    &&& 0 <= n < b.len()
    &&& b[n] == 0
    &&& forall|j: int| 0 <= j < n ==> b[j] != 0
}

/// Reads one value of wire type `t` from the front of `b`: the value and the
/// number of bytes it takes, or `None` when `b` does not start with one.
pub open spec fn parse_one(t: TypeTag, b: Seq<u8>) -> Option<(ValueView, int)> {
    if t == TypeTag::Text {
        if exists|n: int| is_first_nul(b, n) {
            let n = choose|n: int| is_first_nul(b, n);
            if valid_utf8(b.take(n)) {
                Some((ValueView::Text(decode_utf8(b.take(n))), n + 1))
            } else {
                None
            }
        } else {
            None
        }
    } else if b.len() >= fixed_width(t) {
        Some((decode_fixed(t, b.take(fixed_width(t) as int)), fixed_width(t) as int))
    } else {
        None
    }
}

/// Reads values of the wire types `tags`, in order, that take up all of `b`.
pub open spec fn parse_values(tags: Seq<TypeTag>, b: Seq<u8>) -> Option<Seq<ValueView>>
    decreases tags.len(),
{
    if tags.len() == 0 {
        if b.len() == 0 {
            Some(seq![])
        } else {
            None
        }
    } else {
        match parse_one(tags[0], b) {
            Some((v, n)) => match parse_values(tags.drop_first(), b.skip(n)) {
                Some(rest) => Some(seq![v] + rest),
                None => None,
            },
            None => None,
        }
    }
}

/// The UTF-8 bytes of a character hold a NUL byte exactly when the character
/// is NUL.
proof fn lemma_scalar_nul(c: char)
    ensures
        encode_scalar(c as u32).contains(0u8) <==> c == '\0',
{
    char_is_scalar(c);
    let v = c as u32;
    let e = encode_scalar(v);
    assert(c == '\0' <==> v == 0);
    if v <= 0x7F {
        assert(v <= 0x7F ==> (((v & 0x7F) as u8 == 0) <==> v == 0)) by (bit_vector);
        assert(e[0] == (v & 0x7F) as u8);
        if v == 0 {
            assert(e[0] == 0);
        }
    } else {
        assert(forall|i: int| 0 <= i < e.len() ==> e[i] != 0) by {
            assert(forall|x: u32| (0xC0u8 | ((x >> 6) & 0x1F) as u8) != 0) by (bit_vector);
            assert(forall|x: u32| (0xE0u8 | ((x >> 12) & 0x0F) as u8) != 0) by (bit_vector);
            assert(forall|x: u32| (0xF0u8 | ((x >> 18) & 0x7) as u8) != 0) by (bit_vector);
            assert(forall|x: u32| (0x80u8 | (x & 0x3F) as u8) != 0) by (bit_vector);
            assert(forall|x: u32| (0x80u8 | ((x >> 6) & 0x3F) as u8) != 0) by (bit_vector);
            assert(forall|x: u32| (0x80u8 | ((x >> 12) & 0x3F) as u8) != 0) by (bit_vector);
        }
    }
}

/// The UTF-8 bytes of a text hold a NUL byte exactly when the text holds a
/// NUL character.
pub proof fn lemma_utf8_nul(s: Seq<char>)
    ensures
        encode_utf8(s).contains(0u8) <==> s.contains('\0'),
    decreases s.len(),
{
    if s.len() > 0 {
        let head = encode_scalar(s[0] as u32);
        let tail = encode_utf8(s.drop_first());
        lemma_scalar_nul(s[0]);
        lemma_utf8_nul(s.drop_first());
        assert(encode_utf8(s) == head + tail);
        if s.contains('\0') {
            let k = choose|k: int| 0 <= k < s.len() && s[k] == '\0';
            if k == 0 {
                let i = choose|i: int| 0 <= i < head.len() && head[i] == 0u8;
                assert((head + tail)[i] == 0u8);
            } else {
                assert(s.drop_first()[k - 1] == '\0');
                let i = choose|i: int| 0 <= i < tail.len() && tail[i] == 0u8;
                assert((head + tail)[head.len() + i] == 0u8);
            }
        }
        if encode_utf8(s).contains(0u8) {
            let i = choose|i: int| 0 <= i < (head + tail).len() && (head + tail)[i] == 0u8;
            if i < head.len() {
                assert(head[i] == 0u8);
                assert(s[0] == '\0');
            } else {
                assert(tail[i - head.len()] == 0u8);
                let k = choose|k: int| 0 <= k < s.len() - 1 && s.drop_first()[k] == '\0';
                assert(s[k + 1] == '\0');
            }
        }
    }
}

/// The first NUL byte of a sequence is at one position only.
proof fn lemma_first_nul_unique(b: Seq<u8>, n: int, m: int)
    requires
        is_first_nul(b, n),
        is_first_nul(b, m),
    ensures
        n == m,
{
    if n < m {
        assert(b[n] != 0);
    } else if m < n {
        assert(b[m] != 0);
    }
}

/// Reading a value of its own wire type from the front of its encoding,
/// whatever follows, gives the value back and takes exactly its encoding.
pub proof fn lemma_value_round_trip(v: ValueView, rest: Seq<u8>)
    requires
        encodable(v),
    ensures
        parse_one(value_tag(v), encode_value(v) + rest) == Some((v, encode_value(v).len() as int)),
{
    lemma_auto_spec_u16_to_from_le_bytes();
    lemma_auto_spec_u32_to_from_le_bytes();
    lemma_auto_spec_u64_to_from_le_bytes();
    let e = encode_value(v);
    let b = e + rest;
    match v {
        ValueView::Text(s) => {
            let u = encode_utf8(s);
            let n = u.len() as int;
            lemma_utf8_nul(s);
            assert(is_first_nul(b, n)) by {
                assert(b[n] == 0u8);
                assert forall|j: int| 0 <= j < n implies b[j] != 0 by {
                    assert(b[j] == u[j]);
                    if u[j] == 0 {
                        assert(u.contains(0u8));
                    }
                }
            }
            let m = choose|m: int| is_first_nul(b, m);
            lemma_first_nul_unique(b, n, m);
            assert(b.take(n) =~= u);
            encode_utf8_valid_utf8(s);
            encode_utf8_decode_utf8(s);
        },
        ValueView::Byte(x) => {
            assert(b.take(1) =~= e);
        },
        ValueView::Boolean(x) => {
            assert(b.take(4) =~= e);
        },
        ValueView::Int16(x) => {
            assert(b.take(2) =~= e);
            assert((x as u16) as i16 == x) by (bit_vector);
        },
        ValueView::UInt16(x) => {
            assert(b.take(2) =~= e);
        },
        ValueView::Int32(x) => {
            assert(b.take(4) =~= e);
            assert((x as u32) as i32 == x) by (bit_vector);
        },
        ValueView::UInt32(x) => {
            assert(b.take(4) =~= e);
        },
        ValueView::Int64(x) => {
            assert(b.take(8) =~= e);
            assert((x as u64) as i64 == x) by (bit_vector);
        },
        ValueView::UInt64(x) => {
            assert(b.take(8) =~= e);
        },
    }
}

/// Round trip: decoding the encoding of encodable values as their own wire
/// types gives back the same values, in the same positions.
pub proof fn lemma_values_round_trip(vs: Seq<ValueView>)
    requires
        all_encodable(vs),
    ensures
        parse_values(tags_of(vs), encode_values(vs)) == Some(vs),
    decreases vs.len(),
{
    if vs.len() > 0 {
        let rest = vs.drop_first();
        let e = encode_value(vs[0]);
        assert(all_encodable(rest)) by {
            assert forall|i: int| 0 <= i < rest.len() implies encodable(#[trigger] rest[i]) by {
                assert(rest[i] == vs[i + 1]);
            }
        }
        assert(encodable(vs[0]));
        lemma_value_round_trip(vs[0], encode_values(rest));
        lemma_values_round_trip(rest);
        assert(tags_of(vs)[0] == value_tag(vs[0]));
        assert(tags_of(vs).drop_first() =~= tags_of(rest));
        assert((e + encode_values(rest)).skip(e.len() as int) =~= encode_values(rest));
        assert(seq![vs[0]] + rest =~= vs);
    } else {
        assert(encode_values(vs) =~= seq![]);
    }
}

/// A native value that has no wire form.
#[derive(Clone, Copy, Debug, PartialEq, Eq, Structural)]
pub enum EncodingError {
    /// Text holds a NUL character, which cannot pass through the
    /// NUL-terminated text layout.
    EmbeddedNul,
}

/// A variant that does not hold what the reader expects.
#[derive(Clone, Copy, Debug, PartialEq, Eq, Structural)]
pub enum DecodingError {
    /// The variant's signature differs from the expected one, in arity or in
    /// the wire type of some position.
    SignatureMismatch,
    /// The signature matches but the bytes do not read as values of it:
    /// too short, too long, unterminated or invalid UTF-8 text.
    InvalidBody,
}

/// A boolean in its wire form: a C integer flag, nonzero for true.
pub struct CBool(pub libc::c_int);

impl CBool {
    /// The flag of `b`: 1 for true, 0 for false.
    pub fn from_bool(b: bool) -> (r: CBool)
        ensures
            r.0 as u32 == flag_of(b),
    {
        if b {
            CBool(1)
        } else {
            CBool(0)
        }
    }

    /// Appends the flag's little-endian bytes to `out`.
    pub fn write_to(&self, out: &mut Vec<u8>)
        ensures
            final(out)@ == old(out)@ + spec_u32_to_le_bytes(#[verifier::truncate] (self.0 as u32)),
    {
        let mut bytes = u32_to_le_bytes(#[verifier::truncate] (self.0 as u32));
        out.append(&mut bytes);
    }
}

/// Relies on `std::str::from_utf8`: it succeeds exactly on valid UTF-8, and
/// the text is the one those bytes encode.
#[verifier::external_body]
fn text_from_utf8(b: &[u8]) -> (r: Option<String>)
    ensures
        r is Some <==> valid_utf8(b@),
        r matches Some(t) ==> t@ == decode_utf8(b@),
{
    std::str::from_utf8(b).ok().map(|t| t.to_string())
}

impl Value {
    /// The wire type of this value.
    pub fn tag(&self) -> (t: TypeTag)
        ensures
            t == value_tag(self@),
    {
        match self {
            Value::Boolean(_) => TypeTag::Boolean,
            Value::Byte(_) => TypeTag::Byte,
            Value::Int16(_) => TypeTag::Int16,
            Value::UInt16(_) => TypeTag::UInt16,
            Value::Int32(_) => TypeTag::Int32,
            Value::UInt32(_) => TypeTag::UInt32,
            Value::Int64(_) => TypeTag::Int64,
            Value::UInt64(_) => TypeTag::UInt64,
            Value::Text(_) => TypeTag::Text,
        }
    }

    /// Appends the wire bytes of this value to `out`; fails, for text with an
    /// embedded NUL, with `EncodingError::EmbeddedNul`.
    pub fn write_to(&self, out: &mut Vec<u8>) -> (r: Result<(), EncodingError>)
        ensures
            r is Ok <==> encodable(self@),
            r is Ok ==> final(out)@ == old(out)@ + encode_value(self@),
    {
        match self {
            Value::Boolean(b) => {
                CBool::from_bool(*b).write_to(out);
            },
            Value::Byte(x) => {
                out.push(*x);
                proof {
                    assert(final(out)@ =~= old(out)@ + seq![*x]);
                }
            },
            Value::Int16(x) => {
                let mut bytes = u16_to_le_bytes(#[verifier::truncate] (*x as u16));
                out.append(&mut bytes);
            },
            Value::UInt16(x) => {
                let mut bytes = u16_to_le_bytes(*x);
                out.append(&mut bytes);
            },
            Value::Int32(x) => {
                let mut bytes = u32_to_le_bytes(#[verifier::truncate] (*x as u32));
                out.append(&mut bytes);
            },
            Value::UInt32(x) => {
                let mut bytes = u32_to_le_bytes(*x);
                out.append(&mut bytes);
            },
            Value::Int64(x) => {
                let mut bytes = u64_to_le_bytes(#[verifier::truncate] (*x as u64));
                out.append(&mut bytes);
            },
            Value::UInt64(x) => {
                let mut bytes = u64_to_le_bytes(*x);
                out.append(&mut bytes);
            },
            Value::Text(t) => {
                let bytes: &[u8] = t.as_str().as_bytes();
                let ghost start = out@;
                let ghost u = encode_utf8(t@);
                assert(bytes@ == u);
                let mut i: usize = 0;
                while i < bytes.len()
                    invariant
                        self@ == ValueView::Text(t@),
                        u == encode_utf8(t@),
                        bytes@ == u,
                        i <= u.len(),
                        out@ == start + u.take(i as int),
                        forall|j: int| 0 <= j < i ==> u[j] != 0,
                    decreases u.len() - i,
                {
                    let x = bytes[i];
                    assert(x == u[i as int]);
                    if x == 0 {
                        proof {
                            assert(u[i as int] == 0u8);
                            assert(u.contains(0u8));
                            lemma_utf8_nul(t@);
                        }
                        return Err(EncodingError::EmbeddedNul);
                    }
                    out.push(x);
                    proof {
                        assert(u.take(i + 1) =~= u.take(i as int).push(x));
                    }
                    i = i + 1;
                }
                out.push(0u8);
                proof {
                    assert(u.take(i as int) =~= u);
                    assert(out@ =~= start + u.push(0u8));
                    if u.contains(0u8) {
                        let j = choose|j: int| 0 <= j < u.len() && u[j] == 0u8;
                        assert(u[j] != 0);
                    }
                    lemma_utf8_nul(t@);
                }
            },
        }
        Ok(())
    }
}

/// What reads as one value of wire type `t` has that wire type.
proof fn lemma_parse_one_tag(t: TypeTag, b: Seq<u8>)
    ensures
        parse_one(t, b) matches Some((v, n)) ==> value_tag(v) == t && 0 < n <= b.len(),
{
}

/// What reads as values of the wire types `tags` has exactly those wire
/// types, in order.
pub proof fn lemma_parse_tags(tags: Seq<TypeTag>, b: Seq<u8>)
    ensures
        parse_values(tags, b) matches Some(vs) ==> tags_of(vs) == tags,
    decreases tags.len(),
{
    if tags.len() > 0 {
        lemma_parse_one_tag(tags[0], b);
        match parse_one(tags[0], b) {
            Some((v, n)) => {
                lemma_parse_tags(tags.drop_first(), b.skip(n));
                match parse_values(tags.drop_first(), b.skip(n)) {
                    Some(rest) => {
                        assert(tags_of(seq![v] + rest) =~= seq![value_tag(v)] + tags_of(rest));
                        assert(seq![tags[0]] + tags.drop_first() =~= tags);
                    },
                    None => {},
                }
            },
            None => {},
        }
    } else {
        match parse_values(tags, b) {
            Some(vs) => {
                assert(tags_of(vs) =~= tags);
            },
            None => {},
        }
    }
}

/// Encoding one more value appends its bytes.
proof fn lemma_encode_values_push(vs: Seq<ValueView>, v: ValueView)
    ensures
        encode_values(vs.push(v)) == encode_values(vs) + encode_value(v),
    decreases vs.len(),
{
    let w = vs.push(v);
    if vs.len() == 0 {
        assert(w.drop_first() =~= seq![]);
        assert(encode_values(w.drop_first()) =~= seq![]);
        assert(w[0] == v);
        assert(encode_values(w) == encode_value(v) + encode_values(w.drop_first()));
        assert(encode_value(v) + seq![] =~= encode_value(v));
        assert(encode_values(vs) =~= seq![]);
        assert(encode_values(vs) + encode_value(v) =~= encode_value(v));
    } else {
        assert(w[0] == vs[0]);
        assert(w.drop_first() =~= vs.drop_first().push(v));
        lemma_encode_values_push(vs.drop_first(), v);
        assert(encode_value(vs[0]) + (encode_values(vs.drop_first()) + encode_value(v))
            =~= (encode_value(vs[0]) + encode_values(vs.drop_first())) + encode_value(v));
    }
}

/// `o` with `p` put in front of the values it holds, if it holds any.
pub open spec fn prepend(p: Seq<ValueView>, o: Option<Seq<ValueView>>) -> Option<Seq<ValueView>> {
    match o {
        Some(rest) => Some(p + rest),
        None => None,
    }
}

/// The number of bytes of a fixed-width wire type.
fn width_of(t: TypeTag) -> (w: usize)
    ensures
        w == fixed_width(t),
{
    match t {
        TypeTag::Boolean => 4,
        TypeTag::Byte => 1,
        TypeTag::Int16 => 2,
        TypeTag::UInt16 => 2,
        TypeTag::Int32 => 4,
        TypeTag::UInt32 => 4,
        TypeTag::Int64 => 8,
        TypeTag::UInt64 => 8,
        TypeTag::Text => 0,
    }
}

/// Reads one value of wire type `t` from `body` at `pos`: the value and the
/// position just past it.
fn decode_one(t: TypeTag, body: &Vec<u8>, pos: usize) -> (r: Option<(Value, usize)>)
    requires
        pos <= body@.len(),
    ensures
        match parse_one(t, body@.skip(pos as int)) {
            Some((v, n)) => r matches Some((x, next)) && x@ == v && next == pos + n,
            None => r is None,
        },
{
    let ghost b = body@.skip(pos as int);
    if t == TypeTag::Text {
        let mut j: usize = pos;
        while j < body.len() && body[j] != 0
            invariant
                pos <= j <= body@.len(),
                forall|k: int| pos <= k < j ==> body@[k] != 0,
            decreases body@.len() - j,
        {
            j = j + 1;
        }
        if j == body.len() {
            proof {
                if exists|n: int| is_first_nul(b, n) {
                    let n = choose|n: int| is_first_nul(b, n);
                    assert(b[n] == body@[pos + n]);
                }
            }
            return None;
        }
        let ghost n = j - pos;
        proof {
            assert(is_first_nul(b, n)) by {
                assert(b[n] == body@[j as int]);
                assert forall|k: int| 0 <= k < n implies b[k] != 0 by {
                    assert(b[k] == body@[pos + k]);
                }
            }
            let m = choose|m: int| is_first_nul(b, m);
            lemma_first_nul_unique(b, n, m);
        }
        let bytes = slice_subrange(body.as_slice(), pos, j);
        assert(bytes@ =~= b.take(n));
        match text_from_utf8(bytes) {
            Some(text) => Some((Value::Text(text), j + 1)),
            None => None,
        }
    } else {
        let w = width_of(t);
        if body.len() - pos < w {
            return None;
        }
        let bytes = slice_subrange(body.as_slice(), pos, pos + w);
        assert(bytes@ =~= b.take(w as int));
        let v = match t {
            TypeTag::Boolean => Value::Boolean(u32_from_le_bytes(bytes) != 0),
            TypeTag::Byte => Value::Byte(bytes[0]),
            TypeTag::Int16 => Value::Int16(#[verifier::truncate] (u16_from_le_bytes(bytes) as i16)),
            TypeTag::UInt16 => Value::UInt16(u16_from_le_bytes(bytes)),
            TypeTag::Int32 => Value::Int32(#[verifier::truncate] (u32_from_le_bytes(bytes) as i32)),
            TypeTag::UInt32 => Value::UInt32(u32_from_le_bytes(bytes)),
            TypeTag::Int64 => Value::Int64(#[verifier::truncate] (u64_from_le_bytes(bytes) as i64)),
            TypeTag::UInt64 => Value::UInt64(u64_from_le_bytes(bytes)),
            TypeTag::Text => Value::Text(String::new()),
        };
        Some((v, pos + w))
    }
}

/// The mathematical content of a [`Variant`].
pub struct VariantView {
    /// The wire types of the components, in order.
    pub tags: Seq<TypeTag>,
    /// The components' bytes, one after another.
    pub body: Seq<u8>,
}

/// An owned wire container: the wire types of a tuple's components, in
/// order, and their bytes. Reading it back consumes it.
#[derive(Debug, PartialEq, Eq)]
pub struct Variant {
    tags: Vec<TypeTag>,
    body: Vec<u8>,
}

impl View for Variant {
    type V = VariantView;

    closed spec fn view(&self) -> VariantView {
        VariantView { tags: self.tags@, body: self.body@ }
    }
}

impl Variant {
    /// Creates a variant from the wire types of its components and their
    /// bytes, as received.
    pub fn new(tags: Vec<TypeTag>, body: Vec<u8>) -> (r: Variant)
        ensures
            r@.tags == tags@,
            r@.body == body@,
    {
        Variant { tags, body }
    }

    /// Encodes `values`, in order, into a variant whose signature is that of
    /// their wire types. Fails exactly when some text holds a NUL character.
    pub fn from_values(values: &Vec<Value>) -> (r: Result<Variant, EncodingError>)
        ensures
            r is Ok <==> all_encodable(views_of(values@)),
            r is Err ==> r == Err::<Variant, EncodingError>(EncodingError::EmbeddedNul),
            r matches Ok(v) ==> v@.tags == tags_of(views_of(values@)) && v@.body == encode_values(
                views_of(values@),
            ),
    {
        let ghost vs = views_of(values@);
        let mut tags: Vec<TypeTag> = Vec::new();
        let mut body: Vec<u8> = Vec::new();
        let mut i: usize = 0;
        while i < values.len()
            invariant
                vs == views_of(values@),
                i <= values@.len(),
                tags@ == tags_of(vs.take(i as int)),
                body@ == encode_values(vs.take(i as int)),
                all_encodable(vs.take(i as int)),
            decreases values@.len() - i,
        {
            let ghost before = body@;
            match values[i].write_to(&mut body) {
                Ok(()) => {},
                Err(e) => {
                    proof {
                        assert(!encodable(vs[i as int]));
                    }
                    return Err(e);
                },
            }
            tags.push(values[i].tag());
            proof {
                lemma_encode_values_push(vs.take(i as int), vs[i as int]);
                assert(vs.take(i + 1) =~= vs.take(i as int).push(vs[i as int]));
                assert(tags_of(vs.take(i + 1)) =~= tags_of(vs.take(i as int)).push(
                    value_tag(vs[i as int]),
                ));
                assert(all_encodable(vs.take(i + 1))) by {
                    assert forall|j: int| 0 <= j < i + 1 implies encodable(
                        #[trigger] vs.take(i + 1)[j],
                    ) by {
                        if j < i {
                            assert(vs.take(i + 1)[j] == vs.take(i as int)[j]);
                        }
                    }
                }
            }
            i = i + 1;
        }
        proof {
            assert(vs.take(i as int) =~= vs);
        }
        Ok(Variant { tags, body })
    }

    /// The parenthesised signature of this variant, such as `(xsb)`.
    pub fn signature(&self) -> (s: String)
        ensures
            s@ == signature_of(self@.tags),
    {
        tuple_signature(&self.tags)
    }

    /// Decodes this variant, consuming it, as a tuple of the wire types
    /// `expected`: the values, or why they cannot be read. Widths and
    /// signedness are never coerced.
    pub fn to_values(self, expected: &Vec<TypeTag>) -> (r: Result<Vec<Value>, DecodingError>)
        ensures
            self@.tags != expected@ ==> r == Err::<Vec<Value>, DecodingError>(
                DecodingError::SignatureMismatch,
            ),
            self@.tags == expected@ ==> match parse_values(expected@, self@.body) {
                Some(vs) => r matches Ok(out) && views_of(out@) == vs,
                None => r == Err::<Vec<Value>, DecodingError>(DecodingError::InvalidBody),
            },
    {
        if !same_tags(&self.tags, expected) {
            return Err(DecodingError::SignatureMismatch);
        }
        let ghost tags = expected@;
        let ghost b = self.body@;
        let mut out: Vec<Value> = Vec::new();
        let mut pos: usize = 0;
        let mut k: usize = 0;
        proof {
            assert(tags.skip(0) =~= tags);
            assert(b.skip(0) =~= b);
            assert(prepend(views_of(out@), parse_values(tags, b)) =~= parse_values(tags, b)) by {
                assert(views_of(out@) =~= seq![]);
                match parse_values(tags, b) {
                    Some(rest) => {
                        assert(seq![] + rest =~= rest);
                    },
                    None => {},
                }
            }
        }
        while k < expected.len()
            invariant
                tags == expected@,
                self.tags@ == expected@,
                b == self.body@,
                k <= tags.len(),
                pos <= b.len(),
                parse_values(tags, b) == prepend(
                    views_of(out@),
                    parse_values(tags.skip(k as int), b.skip(pos as int)),
                ),
            decreases tags.len() - k,
        {
            let ghost rest_t = tags.skip(k as int);
            let ghost rest_b = b.skip(pos as int);
            assert(rest_t[0] == tags[k as int]);
            match decode_one(expected[k], &self.body, pos) {
                None => {
                    return Err(DecodingError::InvalidBody);
                },
                Some((v, next)) => {
                    let ghost n = next - pos;
                    proof {
                        assert(rest_t.drop_first() =~= tags.skip(k + 1));
                        assert(rest_b.skip(n) =~= b.skip(next as int));
                        let after = parse_values(tags.skip(k + 1), b.skip(next as int));
                        assert(views_of(out@.push(v)) =~= views_of(out@).push(v@));
                        match after {
                            Some(r2) => {
                                assert(views_of(out@) + (seq![v@] + r2) =~= views_of(out@).push(v@)
                                    + r2);
                            },
                            None => {},
                        }
                    }
                    out.push(v);
                    pos = next;
                    k = k + 1;
                },
            }
        }
        proof {
            assert(tags.skip(k as int) =~= seq![]);
        }
        if pos < self.body.len() {
            return Err(DecodingError::InvalidBody);
        }
        proof {
            assert(b.skip(pos as int) =~= seq![]);
            assert(views_of(out@) + seq![] =~= views_of(out@));
        }
        Ok(out)
    }

    /// The wire types of the components, in order.
    pub fn tags(&self) -> (r: &Vec<TypeTag>)
        ensures
            r@ == self@.tags,
    {
        &self.tags
    }

    /// The components' bytes, one after another.
    pub fn body(&self) -> (r: &Vec<u8>)
        ensures
            r@ == self@.body,
    {
        &self.body
    }
}

} // verus!
