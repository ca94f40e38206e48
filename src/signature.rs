//! Wire type tags and tuple signatures.

use vstd::prelude::*;

verus! {

/// One wire type of the signature-bearing type set.
#[derive(Clone, Copy, Debug, PartialEq, Eq, Structural)]
pub enum TypeTag {
    /// `b`: boolean.
    Boolean,
    /// `y`: unsigned byte.
    Byte,
    /// `n`: signed 16-bit integer.
    Int16,
    /// `q`: unsigned 16-bit integer.
    UInt16,
    /// `i`: signed 32-bit integer.
    Int32,
    /// `u`: unsigned 32-bit integer.
    UInt32,
    /// `x`: signed 64-bit integer.
    Int64,
    /// `t`: unsigned 64-bit integer.
    UInt64,
    /// `s`: UTF-8 text.
    Text,
}

/// The signature character of a wire type.
pub open spec fn tag_code(t: TypeTag) -> char {
    match t {
        TypeTag::Boolean => 'b',
        TypeTag::Byte => 'y',
        TypeTag::Int16 => 'n',
        TypeTag::UInt16 => 'q',
        TypeTag::Int32 => 'i',
        TypeTag::UInt32 => 'u',
        TypeTag::Int64 => 'x',
        TypeTag::UInt64 => 't',
        TypeTag::Text => 's',
    }
}

/// The wire type whose signature character is `c`, if any.
pub open spec fn tag_of_code(c: char) -> Option<TypeTag> {
    if c == 'b' {
        Some(TypeTag::Boolean)
    } else if c == 'y' {
        Some(TypeTag::Byte)
    } else if c == 'n' {
        Some(TypeTag::Int16)
    } else if c == 'q' {
        Some(TypeTag::UInt16)
    } else if c == 'i' {
        Some(TypeTag::Int32)
    } else if c == 'u' {
        Some(TypeTag::UInt32)
    } else if c == 'x' {
        Some(TypeTag::Int64)
    } else if c == 't' {
        Some(TypeTag::UInt64)
    } else if c == 's' {
        Some(TypeTag::Text)
    } else {
        None
    }
}

/// The signature characters of a list of wire types, in order.
pub open spec fn codes_of(tags: Seq<TypeTag>) -> Seq<char> {
    tags.map_values(|t: TypeTag| tag_code(t))
}

/// The parenthesised signature of a tuple whose components have the wire
/// types `tags`, in order.
pub open spec fn signature_of(tags: Seq<TypeTag>) -> Seq<char> {
    seq!['('] + codes_of(tags) + seq![')']
}

/// Each wire type has one character, and that character names it back.
pub proof fn lemma_code_round_trip(t: TypeTag)
    ensures
        tag_of_code(tag_code(t)) == Some(t),
{
}

impl TypeTag {
    /// The signature character of this wire type.
    pub fn code(&self) -> (c: char)
        ensures
            c == tag_code(*self),
    {
        match self {
            TypeTag::Boolean => 'b',
            TypeTag::Byte => 'y',
            TypeTag::Int16 => 'n',
            TypeTag::UInt16 => 'q',
            TypeTag::Int32 => 'i',
            TypeTag::UInt32 => 'u',
            TypeTag::Int64 => 'x',
            TypeTag::UInt64 => 't',
            TypeTag::Text => 's',
        }
    }

    /// The wire type named by the signature character `c`.
    pub fn from_code(c: char) -> (r: Option<TypeTag>)
        ensures
            r == tag_of_code(c),
    {
        if c == 'b' {
            Some(TypeTag::Boolean)
        } else if c == 'y' {
            Some(TypeTag::Byte)
        } else if c == 'n' {
            Some(TypeTag::Int16)
        } else if c == 'q' {
            Some(TypeTag::UInt16)
        } else if c == 'i' {
            Some(TypeTag::Int32)
        } else if c == 'u' {
            Some(TypeTag::UInt32)
        } else if c == 'x' {
            Some(TypeTag::Int64)
        } else if c == 't' {
            Some(TypeTag::UInt64)
        } else if c == 's' {
            Some(TypeTag::Text)
        } else {
            None
        }
    }
}

/// Whether two lists of wire types are the same.
pub fn same_tags(a: &Vec<TypeTag>, b: &Vec<TypeTag>) -> (r: bool)
    ensures
        r == (a@ == b@),
{
    if a.len() != b.len() {
        return false;
    }
    let mut i: usize = 0;
    while i < a.len()
        invariant
            a@.len() == b@.len(),
            i <= a@.len(),
            forall|j: int| 0 <= j < i ==> a@[j] == b@[j],
        decreases a@.len() - i,
    {
        if a[i] != b[i] {
            return false;
        }
        i = i + 1;
    }
    assert(a@ =~= b@);
    true
}

/// Relies on `String::push`: appends one character at the end.
#[verifier::external_body]
pub(crate) fn push_char(s: &mut String, c: char)
    ensures
        final(s)@ == old(s)@.push(c),
{
    s.push(c)
}

/// The parenthesised signature of a tuple with components of the wire types
/// `tags`, in order, such as `(xsb)`.
pub fn tuple_signature(tags: &Vec<TypeTag>) -> (s: String)
    ensures
        s@ == signature_of(tags@),
{
    let mut s = String::new();
    push_char(&mut s, '(');
    let mut i: usize = 0;
    while i < tags.len()
        invariant
            i <= tags@.len(),
            s@ == seq!['('] + codes_of(tags@.take(i as int)),
        decreases tags@.len() - i,
    {
        let c = tags[i].code();
        push_char(&mut s, c);
        proof {
            assert(codes_of(tags@.take(i + 1)) =~= codes_of(tags@.take(i as int)).push(c));
        }
        i = i + 1;
    }
    push_char(&mut s, ')');
    proof {
        assert(tags@.take(i as int) =~= tags@);
        assert(s@ =~= signature_of(tags@));
    }
    s
}

/// Reads a parenthesised tuple signature such as `(xsb)` into its wire types.
/// Gives `None` exactly when `s` is the signature of no tuple of wire types.
pub fn parse_signature(s: &str) -> (r: Option<Vec<TypeTag>>)
    ensures
        match r {
            Some(tags) => signature_of(tags@) == s@,
            None => forall|tags: Seq<TypeTag>| signature_of(tags) != s@,
        },
{
    let n = s.unicode_len();
    if n < 2 || s.get_char(0) != '(' || s.get_char(n - 1) != ')' {
        proof {
            assert forall|tags: Seq<TypeTag>| signature_of(tags) != s@ by {
                let sig = signature_of(tags);
                if sig == s@ {
                    assert(sig.len() == tags.len() + 2);
                    assert(sig[0] == '(');
                    assert(sig[sig.len() - 1] == ')');
                }
            }
        }
        return None;
    }
    let mut tags: Vec<TypeTag> = Vec::new();
    let mut i: usize = 1;
    while i < n - 1
        invariant
            n == s@.len(),
            2 <= n,
            1 <= i <= n - 1,
            tags@.len() == i - 1,
            codes_of(tags@) == s@.subrange(1, i as int),
        decreases n - i,
    {
        let c = s.get_char(i);
        match TypeTag::from_code(c) {
            Some(t) => {
                proof {
                    assert(codes_of(tags@.push(t)) =~= s@.subrange(1, i + 1));
                }
                tags.push(t);
            },
            None => {
                proof {
                    assert forall|other: Seq<TypeTag>| signature_of(other) != s@ by {
                        let sig = signature_of(other);
                        if sig == s@ {
                            assert(sig.len() == other.len() + 2);
                            assert(sig[i as int] == tag_code(other[i - 1]));
                            lemma_code_round_trip(other[i - 1]);
                        }
                    }
                }
                return None;
            },
        }
        i = i + 1;
    }
    proof {
        assert(signature_of(tags@) =~= s@);
    }
    Some(tags)
}

} // verus!
