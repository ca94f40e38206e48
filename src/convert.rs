//! Typed conversions between native values, wire values and variants.

use vstd::bytes::spec_u32_to_le_bytes;
use vstd::prelude::*;

use crate::signature::TypeTag;
use crate::variant::{
    all_encodable, encodable, encode_value, encode_values, lemma_parse_tags,
    lemma_values_round_trip, parse_values, tags_of, value_tag, views_of, CBool, DecodingError,
    EncodingError, Value, ValueView, Variant,
};

verus! {

/// A native type with a wire type, for writing.
pub trait ToFormat {
    /// The wire type values of this type are written as.
    spec fn format_tag() -> TypeTag;

    /// The wire type values of this type are written as.
    fn to_format() -> (r: TypeTag)
        ensures
            r == Self::format_tag(),
    ;
}

/// A native type with a wire type, for reading: the one it is written as.
pub trait FromFormat: ToFormat {
    /// The wire type values of this type are read as.
    fn from_format() -> (r: TypeTag)
        ensures
            r == Self::format_tag(),
    ;
}

/// Conversion of a native value to its wire value.
pub trait ToFFI: ToFormat {
    /// The wire value that this native value stands for.
    spec fn spec_to_ffi(&self) -> ValueView;

    /// The wire value has the type's wire type.
    proof fn lemma_ffi_tag(&self)
        ensures
            value_tag(self.spec_to_ffi()) == Self::format_tag(),
    ;

    /// The wire value of this native value.
    fn to_ffi(&self) -> (r: Value)
        ensures
            r@ == self.spec_to_ffi(),
    ;
}

/// Conversion of a wire value back to a native value.
pub trait FromFFI: FromFormat + ToFFI + Sized {
    /// The native value that `input` stands for; `None` exactly when
    /// `input` is of another wire type.
    fn from_ffi(input: Value) -> (r: Option<Self>)
        ensures
            r is Some <==> value_tag(input@) == Self::format_tag(),
            r matches Some(x) ==> x.spec_to_ffi() == input@,
    ;
}

/// Writing of a wire value's bytes.
pub trait ToArg {
    /// Whether the value has a wire form.
    spec fn arg_ok(&self) -> bool;

    /// The value's wire bytes.
    spec fn arg_bytes(&self) -> Seq<u8>;

    /// Appends the value's wire bytes to `out`.
    fn to_arg(&self, out: &mut Vec<u8>) -> (r: Result<(), EncodingError>)
        ensures
            r is Ok <==> self.arg_ok(),
            r is Ok ==> final(out)@ == old(out)@ + self.arg_bytes(),
    ;
}

impl ToArg for Value {
    open spec fn arg_ok(&self) -> bool {
        encodable(self@)
    }

    open spec fn arg_bytes(&self) -> Seq<u8> {
        encode_value(self@)
    }

    fn to_arg(&self, out: &mut Vec<u8>) -> (r: Result<(), EncodingError>) {
        self.write_to(out)
    }
}

impl ToArg for CBool {
    open spec fn arg_ok(&self) -> bool {
        true
    }

    open spec fn arg_bytes(&self) -> Seq<u8> {
        spec_u32_to_le_bytes(self.0 as u32)
    }

    fn to_arg(&self, out: &mut Vec<u8>) -> (r: Result<(), EncodingError>) {
        self.write_to(out);
        Ok(())
    }
}

/// Conversion of a tuple of native values to a variant.
pub trait ToVariant {
    /// The wire values of the components, in order.
    spec fn spec_components(&self) -> Seq<ValueView>;

    /// Encodes the tuple; fails exactly when some text holds a NUL character.
    fn to_variant(&self) -> (r: Result<Variant, EncodingError>)
        ensures
            r is Ok <==> all_encodable(self.spec_components()),
            r is Err ==> r == Err::<Variant, EncodingError>(EncodingError::EmbeddedNul),
            r matches Ok(v) ==> v@.tags == tags_of(self.spec_components()) && v@.body
                == encode_values(self.spec_components()),
    ;
}

/// Conversion of a variant back to a tuple of native values.
pub trait FromVariant: ToVariant + Sized {
    /// The wire types the components are read as, in order.
    spec fn spec_tags() -> Seq<TypeTag>;

    /// A tuple's components have the wire types it is read as.
    proof fn lemma_tags(&self)
        ensures
            tags_of(self.spec_components()) == Self::spec_tags(),
    ;

    /// Decodes `variant`, consuming it: the tuple, or why it cannot be read.
    fn from_variant(variant: Variant) -> (r: Result<Self, DecodingError>)
        ensures
            variant@.tags != Self::spec_tags() ==> r == Err::<Self, DecodingError>(
                DecodingError::SignatureMismatch,
            ),
            variant@.tags == Self::spec_tags() ==> match parse_values(
                Self::spec_tags(),
                variant@.body,
            ) {
                Some(vs) => r matches Ok(x) && x.spec_components() == vs,
                None => r == Err::<Self, DecodingError>(DecodingError::InvalidBody),
            },
    ;
}

impl ToFormat for bool {
    open spec fn format_tag() -> TypeTag {
        TypeTag::Boolean
    }

    fn to_format() -> (r: TypeTag) {
        TypeTag::Boolean
    }
}

impl FromFormat for bool {
    fn from_format() -> (r: TypeTag) {
        TypeTag::Boolean
    }
}

impl ToFFI for bool {
    open spec fn spec_to_ffi(&self) -> ValueView {
        ValueView::Boolean(*self)
    }

    proof fn lemma_ffi_tag(&self) {
    }

    fn to_ffi(&self) -> (r: Value) {
        Value::Boolean(*self)
    }
}

impl FromFFI for bool {
    fn from_ffi(input: Value) -> (r: Option<Self>) {
        match input {
            Value::Boolean(b) => Some(b),
            _ => None,
        }
    }
}

impl ToFormat for u8 {
    open spec fn format_tag() -> TypeTag {
        TypeTag::Byte
    }

    fn to_format() -> (r: TypeTag) {
        TypeTag::Byte
    }
}

impl FromFormat for u8 {
    fn from_format() -> (r: TypeTag) {
        TypeTag::Byte
    }
}

impl ToFFI for u8 {
    open spec fn spec_to_ffi(&self) -> ValueView {
        ValueView::Byte(*self)
    }

    proof fn lemma_ffi_tag(&self) {
    }

    fn to_ffi(&self) -> (r: Value) {
        Value::Byte(*self)
    }
}

impl FromFFI for u8 {
    fn from_ffi(input: Value) -> (r: Option<Self>) {
        match input {
            Value::Byte(x) => Some(x),
            _ => None,
        }
    }
}

impl ToFormat for i16 {
    open spec fn format_tag() -> TypeTag {
        TypeTag::Int16
    }

    fn to_format() -> (r: TypeTag) {
        TypeTag::Int16
    }
}

impl FromFormat for i16 {
    fn from_format() -> (r: TypeTag) {
        TypeTag::Int16
    }
}

impl ToFFI for i16 {
    open spec fn spec_to_ffi(&self) -> ValueView {
        ValueView::Int16(*self)
    }

    proof fn lemma_ffi_tag(&self) {
    }

    fn to_ffi(&self) -> (r: Value) {
        Value::Int16(*self)
    }
}

impl FromFFI for i16 {
    fn from_ffi(input: Value) -> (r: Option<Self>) {
        match input {
            Value::Int16(x) => Some(x),
            _ => None,
        }
    }
}

impl ToFormat for u16 {
    open spec fn format_tag() -> TypeTag {
        TypeTag::UInt16
    }

    fn to_format() -> (r: TypeTag) {
        TypeTag::UInt16
    }
}

impl FromFormat for u16 {
    fn from_format() -> (r: TypeTag) {
        TypeTag::UInt16
    }
}

impl ToFFI for u16 {
    open spec fn spec_to_ffi(&self) -> ValueView {
        ValueView::UInt16(*self)
    }

    proof fn lemma_ffi_tag(&self) {
    }

    fn to_ffi(&self) -> (r: Value) {
        Value::UInt16(*self)
    }
}

impl FromFFI for u16 {
    fn from_ffi(input: Value) -> (r: Option<Self>) {
        match input {
            Value::UInt16(x) => Some(x),
            _ => None,
        }
    }
}

impl ToFormat for i32 {
    open spec fn format_tag() -> TypeTag {
        TypeTag::Int32
    }

    fn to_format() -> (r: TypeTag) {
        TypeTag::Int32
    }
}

impl FromFormat for i32 {
    fn from_format() -> (r: TypeTag) {
        TypeTag::Int32
    }
}

impl ToFFI for i32 {
    open spec fn spec_to_ffi(&self) -> ValueView {
        ValueView::Int32(*self)
    }

    proof fn lemma_ffi_tag(&self) {
    }

    fn to_ffi(&self) -> (r: Value) {
        Value::Int32(*self)
    }
}

impl FromFFI for i32 {
    fn from_ffi(input: Value) -> (r: Option<Self>) {
        match input {
            Value::Int32(x) => Some(x),
            _ => None,
        }
    }
}

impl ToFormat for u32 {
    open spec fn format_tag() -> TypeTag {
        TypeTag::UInt32
    }

    fn to_format() -> (r: TypeTag) {
        TypeTag::UInt32
    }
}

impl FromFormat for u32 {
    fn from_format() -> (r: TypeTag) {
        TypeTag::UInt32
    }
}

impl ToFFI for u32 {
    open spec fn spec_to_ffi(&self) -> ValueView {
        ValueView::UInt32(*self)
    }

    proof fn lemma_ffi_tag(&self) {
    }

    fn to_ffi(&self) -> (r: Value) {
        Value::UInt32(*self)
    }
}

impl FromFFI for u32 {
    fn from_ffi(input: Value) -> (r: Option<Self>) {
        match input {
            Value::UInt32(x) => Some(x),
            _ => None,
        }
    }
}

impl ToFormat for i64 {
    open spec fn format_tag() -> TypeTag {
        TypeTag::Int64
    }

    fn to_format() -> (r: TypeTag) {
        TypeTag::Int64
    }
}

impl FromFormat for i64 {
    fn from_format() -> (r: TypeTag) {
        TypeTag::Int64
    }
}

impl ToFFI for i64 {
    open spec fn spec_to_ffi(&self) -> ValueView {
        ValueView::Int64(*self)
    }

    proof fn lemma_ffi_tag(&self) {
    }

    fn to_ffi(&self) -> (r: Value) {
        Value::Int64(*self)
    }
}

impl FromFFI for i64 {
    fn from_ffi(input: Value) -> (r: Option<Self>) {
        match input {
            Value::Int64(x) => Some(x),
            _ => None,
        }
    }
}

impl ToFormat for u64 {
    open spec fn format_tag() -> TypeTag {
        TypeTag::UInt64
    }

    fn to_format() -> (r: TypeTag) {
        TypeTag::UInt64
    }
}

impl FromFormat for u64 {
    fn from_format() -> (r: TypeTag) {
        TypeTag::UInt64
    }
}

impl ToFFI for u64 {
    open spec fn spec_to_ffi(&self) -> ValueView {
        ValueView::UInt64(*self)
    }

    proof fn lemma_ffi_tag(&self) {
    }

    fn to_ffi(&self) -> (r: Value) {
        Value::UInt64(*self)
    }
}

impl FromFFI for u64 {
    fn from_ffi(input: Value) -> (r: Option<Self>) {
        match input {
            Value::UInt64(x) => Some(x),
            _ => None,
        }
    }
}

impl ToFormat for String {
    open spec fn format_tag() -> TypeTag {
        TypeTag::Text
    }

    fn to_format() -> (r: TypeTag) {
        TypeTag::Text
    }
}

impl FromFormat for String {
    fn from_format() -> (r: TypeTag) {
        TypeTag::Text
    }
}

impl ToFFI for String {
    open spec fn spec_to_ffi(&self) -> ValueView {
        ValueView::Text(self@)
    }

    proof fn lemma_ffi_tag(&self) {
    }

    fn to_ffi(&self) -> (r: Value) {
        Value::Text(self.clone())
    }
}

impl FromFFI for String {
    fn from_ffi(input: Value) -> (r: Option<Self>) {
        match input {
            Value::Text(x) => Some(x),
            _ => None,
        }
    }
}

impl<'a> ToFormat for &'a str {
    open spec fn format_tag() -> TypeTag {
        TypeTag::Text
    }

    fn to_format() -> (r: TypeTag) {
        TypeTag::Text
    }
}

impl<'a> ToFFI for &'a str {
    open spec fn spec_to_ffi(&self) -> ValueView {
        ValueView::Text(self@)
    }

    proof fn lemma_ffi_tag(&self) {
    }

    fn to_ffi(&self) -> (r: Value) {
        let text: &str = *self;
        Value::Text(text.to_owned())
    }
}

impl<P: ToFFI> ToVariant for (P,) {
    open spec fn spec_components(&self) -> Seq<ValueView> {
        seq![self.0.spec_to_ffi()]
    }

    fn to_variant(&self) -> (r: Result<Variant, EncodingError>) {
        let values = vec![self.0.to_ffi()];
        assert(views_of(values@) =~= self.spec_components());
        Variant::from_values(&values)
    }
}

impl<P: FromFFI> FromVariant for (P,) {
    open spec fn spec_tags() -> Seq<TypeTag> {
        seq![P::format_tag()]
    }

    proof fn lemma_tags(&self) {
        self.0.lemma_ffi_tag();
        assert(tags_of(self.spec_components()) =~= Self::spec_tags());
    }

    fn from_variant(variant: Variant) -> (r: Result<Self, DecodingError>) {
        let expected = vec![P::from_format()];
        assert(expected@ =~= Self::spec_tags());
        proof {
            lemma_parse_tags(expected@, variant@.body);
        }
        let mut values = match variant.to_values(&expected) {
            Ok(values) => values,
            Err(e) => {
                return Err(e);
            },
        };
        let ghost vs = views_of(values@);
        assert(values@.len() == 1);
        assert(value_tag(vs[0]) == P::format_tag());
        let a = values.pop().unwrap();
        match P::from_ffi(a) {
            Some(x) => {
                assert((x,).spec_components() =~= vs);
                Ok((x,))
            },
            None => Err(DecodingError::InvalidBody),
        }
    }
}

impl<P: ToFFI, Q: ToFFI> ToVariant for (P, Q) {
    open spec fn spec_components(&self) -> Seq<ValueView> {
        seq![self.0.spec_to_ffi(), self.1.spec_to_ffi()]
    }

    fn to_variant(&self) -> (r: Result<Variant, EncodingError>) {
        let values = vec![self.0.to_ffi(), self.1.to_ffi()];
        assert(views_of(values@) =~= self.spec_components());
        Variant::from_values(&values)
    }
}

impl<P: FromFFI, Q: FromFFI> FromVariant for (P, Q) {
    open spec fn spec_tags() -> Seq<TypeTag> {
        seq![P::format_tag(), Q::format_tag()]
    }

    proof fn lemma_tags(&self) {
        self.0.lemma_ffi_tag();
        self.1.lemma_ffi_tag();
        assert(tags_of(self.spec_components()) =~= Self::spec_tags());
    }

    fn from_variant(variant: Variant) -> (r: Result<Self, DecodingError>) {
        let expected = vec![P::from_format(), Q::from_format()];
        assert(expected@ =~= Self::spec_tags());
        proof {
            lemma_parse_tags(expected@, variant@.body);
        }
        let mut values = match variant.to_values(&expected) {
            Ok(values) => values,
            Err(e) => {
                return Err(e);
            },
        };
        let ghost vs = views_of(values@);
        assert(values@.len() == 2);
        assert(value_tag(vs[0]) == P::format_tag());
        assert(value_tag(vs[1]) == Q::format_tag());
        let b = values.pop().unwrap();
        let a = values.pop().unwrap();
        let a = P::from_ffi(a);
        let b = Q::from_ffi(b);
        match (a, b) {
            (Some(a), Some(b)) => {
                assert((a, b).spec_components() =~= vs);
                Ok((a, b))
            },
            _ => Err(DecodingError::InvalidBody),
        }
    }
}

impl<P: ToFFI, Q: ToFFI, R: ToFFI> ToVariant for (P, Q, R) {
    open spec fn spec_components(&self) -> Seq<ValueView> {
        seq![self.0.spec_to_ffi(), self.1.spec_to_ffi(), self.2.spec_to_ffi()]
    }

    fn to_variant(&self) -> (r: Result<Variant, EncodingError>) {
        let values = vec![self.0.to_ffi(), self.1.to_ffi(), self.2.to_ffi()];
        assert(views_of(values@) =~= self.spec_components());
        Variant::from_values(&values)
    }
}

impl<P: FromFFI, Q: FromFFI, R: FromFFI> FromVariant for (P, Q, R) {
    open spec fn spec_tags() -> Seq<TypeTag> {
        seq![P::format_tag(), Q::format_tag(), R::format_tag()]
    }

    proof fn lemma_tags(&self) {
        self.0.lemma_ffi_tag();
        self.1.lemma_ffi_tag();
        self.2.lemma_ffi_tag();
        assert(tags_of(self.spec_components()) =~= Self::spec_tags());
    }

    fn from_variant(variant: Variant) -> (r: Result<Self, DecodingError>) {
        let expected = vec![P::from_format(), Q::from_format(), R::from_format()];
        assert(expected@ =~= Self::spec_tags());
        proof {
            lemma_parse_tags(expected@, variant@.body);
        }
        let mut values = match variant.to_values(&expected) {
            Ok(values) => values,
            Err(e) => {
                return Err(e);
            },
        };
        let ghost vs = views_of(values@);
        assert(values@.len() == 3);
        assert(value_tag(vs[0]) == P::format_tag());
        assert(value_tag(vs[1]) == Q::format_tag());
        assert(value_tag(vs[2]) == R::format_tag());
        let c = values.pop().unwrap();
        let b = values.pop().unwrap();
        let a = values.pop().unwrap();
        let a = P::from_ffi(a);
        let b = Q::from_ffi(b);
        let c = R::from_ffi(c);
        match (a, b, c) {
            (Some(a), Some(b), Some(c)) => {
                assert((a, b, c).spec_components() =~= vs);
                Ok((a, b, c))
            },
            _ => Err(DecodingError::InvalidBody),
        }
    }
}

impl<P: ToFFI, Q: ToFFI, R: ToFFI, S: ToFFI> ToVariant for (P, Q, R, S) {
    open spec fn spec_components(&self) -> Seq<ValueView> {
        seq![self.0.spec_to_ffi(), self.1.spec_to_ffi(), self.2.spec_to_ffi(), self.3.spec_to_ffi()]
    }

    fn to_variant(&self) -> (r: Result<Variant, EncodingError>) {
        let values = vec![self.0.to_ffi(), self.1.to_ffi(), self.2.to_ffi(), self.3.to_ffi()];
        assert(views_of(values@) =~= self.spec_components());
        Variant::from_values(&values)
    }
}

impl<P: FromFFI, Q: FromFFI, R: FromFFI, S: FromFFI> FromVariant for (P, Q, R, S) {
    open spec fn spec_tags() -> Seq<TypeTag> {
        seq![P::format_tag(), Q::format_tag(), R::format_tag(), S::format_tag()]
    }

    proof fn lemma_tags(&self) {
        self.0.lemma_ffi_tag();
        self.1.lemma_ffi_tag();
        self.2.lemma_ffi_tag();
        self.3.lemma_ffi_tag();
        assert(tags_of(self.spec_components()) =~= Self::spec_tags());
    }

    fn from_variant(variant: Variant) -> (r: Result<Self, DecodingError>) {
        let expected = vec![P::from_format(), Q::from_format(), R::from_format(), S::from_format()];
        assert(expected@ =~= Self::spec_tags());
        proof {
            lemma_parse_tags(expected@, variant@.body);
        }
        let mut values = match variant.to_values(&expected) {
            Ok(values) => values,
            Err(e) => {
                return Err(e);
            },
        };
        let ghost vs = views_of(values@);
        assert(values@.len() == 4);
        assert(value_tag(vs[0]) == P::format_tag());
        assert(value_tag(vs[1]) == Q::format_tag());
        assert(value_tag(vs[2]) == R::format_tag());
        assert(value_tag(vs[3]) == S::format_tag());
        let d = values.pop().unwrap();
        let c = values.pop().unwrap();
        let b = values.pop().unwrap();
        let a = values.pop().unwrap();
        let a = P::from_ffi(a);
        let b = Q::from_ffi(b);
        let c = R::from_ffi(c);
        let d = S::from_ffi(d);
        match (a, b, c, d) {
            (Some(a), Some(b), Some(c), Some(d)) => {
                assert((a, b, c, d).spec_components() =~= vs);
                Ok((a, b, c, d))
            },
            _ => Err(DecodingError::InvalidBody),
        }
    }
}

impl<P: ToFFI, Q: ToFFI, R: ToFFI, S: ToFFI, T: ToFFI> ToVariant for (P, Q, R, S, T) {
    open spec fn spec_components(&self) -> Seq<ValueView> {
        seq![self.0.spec_to_ffi(), self.1.spec_to_ffi(), self.2.spec_to_ffi(), self.3.spec_to_ffi(), self.4.spec_to_ffi()]
    }

    fn to_variant(&self) -> (r: Result<Variant, EncodingError>) {
        let values = vec![self.0.to_ffi(), self.1.to_ffi(), self.2.to_ffi(), self.3.to_ffi(), self.4.to_ffi()];
        assert(views_of(values@) =~= self.spec_components());
        Variant::from_values(&values)
    }
}

impl<P: FromFFI, Q: FromFFI, R: FromFFI, S: FromFFI, T: FromFFI> FromVariant for (P, Q, R, S, T) {
    open spec fn spec_tags() -> Seq<TypeTag> {
        seq![P::format_tag(), Q::format_tag(), R::format_tag(), S::format_tag(), T::format_tag()]
    }

    proof fn lemma_tags(&self) {
        self.0.lemma_ffi_tag();
        self.1.lemma_ffi_tag();
        self.2.lemma_ffi_tag();
        self.3.lemma_ffi_tag();
        self.4.lemma_ffi_tag();
        assert(tags_of(self.spec_components()) =~= Self::spec_tags());
    }

    fn from_variant(variant: Variant) -> (r: Result<Self, DecodingError>) {
        let expected = vec![P::from_format(), Q::from_format(), R::from_format(), S::from_format(), T::from_format()];
        assert(expected@ =~= Self::spec_tags());
        proof {
            lemma_parse_tags(expected@, variant@.body);
        }
        let mut values = match variant.to_values(&expected) {
            Ok(values) => values,
            Err(e) => {
                return Err(e);
            },
        };
        let ghost vs = views_of(values@);
        assert(values@.len() == 5);
        assert(value_tag(vs[0]) == P::format_tag());
        assert(value_tag(vs[1]) == Q::format_tag());
        assert(value_tag(vs[2]) == R::format_tag());
        assert(value_tag(vs[3]) == S::format_tag());
        assert(value_tag(vs[4]) == T::format_tag());
        let e = values.pop().unwrap();
        let d = values.pop().unwrap();
        let c = values.pop().unwrap();
        let b = values.pop().unwrap();
        let a = values.pop().unwrap();
        let a = P::from_ffi(a);
        let b = Q::from_ffi(b);
        let c = R::from_ffi(c);
        let d = S::from_ffi(d);
        let e = T::from_ffi(e);
        match (a, b, c, d, e) {
            (Some(a), Some(b), Some(c), Some(d), Some(e)) => {
                assert((a, b, c, d, e).spec_components() =~= vs);
                Ok((a, b, c, d, e))
            },
            _ => Err(DecodingError::InvalidBody),
        }
    }
}

/// Round trip for typed tuples: a tuple whose values all have a wire form is
/// read back, as its own type, from its encoding with the same component
/// values in the same positions.
pub proof fn lemma_tuple_round_trip<T: FromVariant>(t: T)
    requires
        all_encodable(t.spec_components()),
    ensures
        tags_of(t.spec_components()) == T::spec_tags(),
        parse_values(T::spec_tags(), encode_values(t.spec_components())) == Some(
            t.spec_components(),
        ),
{
    t.lemma_tags();
    lemma_values_round_trip(t.spec_components());
}

} // verus!
