//! Interface schemas: method descriptors, server-side dispatch and
//! client-side requests, all driven by the value codec.

use vstd::prelude::*;
use vstd::utf8::{encode_utf8, encode_utf8_decode_utf8};

use crate::signature::{same_tags, TypeTag};
use crate::variant::{
    all_encodable, encode_values, lemma_values_round_trip, parse_values, tags_of, views_of, DecodingError, EncodingError,
    Value, Variant,
};

verus! {

/// The mathematical content of a [`MethodDesc`].
pub struct MethodSpec {
    /// The method's name.
    pub name: Seq<char>,
    /// The wire types of its arguments, in order.
    pub args: Seq<TypeTag>,
    /// The wire types of its results, in order; none when it sends no reply.
    pub returns: Seq<TypeTag>,
}

/// One remote method: its name, the wire types of its arguments and those of
/// its results (none when the method sends no reply), in order.
pub struct MethodDesc {
    /// The method's name.
    pub name: String,
    /// The wire types of its arguments, in order.
    pub args: Vec<TypeTag>,
    /// The wire types of its results, in order; none when it sends no reply.
    pub returns: Vec<TypeTag>,
}

impl View for MethodDesc {
    type V = MethodSpec;

    open spec fn view(&self) -> MethodSpec {
        MethodSpec { name: self.name@, args: self.args@, returns: self.returns@ }
    }
}

/// No two methods share a name.
pub open spec fn names_distinct(ms: Seq<MethodSpec>) -> bool {
    forall|i: int, j: int| 0 <= i < ms.len() && 0 <= j < ms.len() && i != j ==> ms[i].name != ms[j].name
}

/// No method of `ms` is called `name`.
pub open spec fn absent(ms: Seq<MethodSpec>, name: Seq<char>) -> bool {
    forall|i: int| 0 <= i < ms.len() ==> ms[i].name != name
}

/// A schema that cannot be built.
#[derive(Clone, Copy, Debug, PartialEq, Eq, Structural)]
pub enum SchemaError {
    /// Two methods share a name.
    DuplicateMethod,
}

/// Why a call could not be handled or made.
#[derive(Clone, Copy, Debug, PartialEq, Eq, Structural)]
pub enum DispatchError {
    /// No method of the schema has the requested name.
    UnknownMethod,
    /// The inbound arguments do not read as the method's argument types.
    Decoding(DecodingError),
    /// The values to send have no wire form.
    Encoding(EncodingError),
    /// The values handed over do not have the method's declared wire types.
    TypeMismatch,
}

/// A routed inbound call: which method, and its decoded arguments.
pub struct Call {
    /// The position of the method in the schema.
    pub index: usize,
    /// The decoded arguments, in order.
    pub args: Vec<Value>,
}

/// An outbound call: which method, and its encoded arguments.
pub struct Request {
    /// The position of the method in the schema.
    pub index: usize,
    /// The encoded arguments.
    pub body: Variant,
}

/// What a reply to a call of `m` with the results `results` comes to: `None`
/// for a method without results, the encoded results otherwise.
pub open spec fn reply_outcome(
    m: MethodSpec,
    results: Seq<crate::variant::ValueView>,
    r: Result<Option<Variant>, DispatchError>,
) -> bool {
    if tags_of(results) != m.returns {
        r == Err::<Option<Variant>, DispatchError>(DispatchError::TypeMismatch)
    } else if m.returns.len() == 0 {
        r == Ok::<Option<Variant>, DispatchError>(None)
    } else if !all_encodable(results) {
        r == Err::<Option<Variant>, DispatchError>(DispatchError::Encoding(EncodingError::EmbeddedNul))
    } else {
        r matches Ok(Some(v)) && v@.tags == m.returns && v@.body == encode_values(results)
    }
}

/// What routing a call of `m`, at position `i`, with the inbound arguments
/// `a` comes to: the decoded arguments, or why they do not read as `m`'s.
pub open spec fn route_outcome(
    m: MethodSpec,
    i: int,
    a: crate::variant::VariantView,
    r: Result<Call, DispatchError>,
) -> bool {
    if a.tags != m.args {
        r == Err::<Call, DispatchError>(DispatchError::Decoding(DecodingError::SignatureMismatch))
    } else {
        match parse_values(m.args, a.body) {
            Some(vs) => r matches Ok(c) && c.index == i && views_of(c.args@) == vs,
            None => r == Err::<Call, DispatchError>(
                DispatchError::Decoding(DecodingError::InvalidBody),
            ),
        }
    }
}

/// What preparing a call of `m`, at position `i`, with the arguments `args`
/// comes to: the encoded arguments, or why they cannot be sent.
pub open spec fn request_outcome(
    m: MethodSpec,
    i: int,
    args: Seq<crate::variant::ValueView>,
    r: Result<Request, DispatchError>,
) -> bool {
    if tags_of(args) != m.args {
        r == Err::<Request, DispatchError>(DispatchError::TypeMismatch)
    } else if !all_encodable(args) {
        r == Err::<Request, DispatchError>(DispatchError::Encoding(EncodingError::EmbeddedNul))
    } else {
        r matches Ok(q) && q.index == i && q.body@.tags == m.args && q.body@.body == encode_values(
            args,
        )
    }
}

/// A call prepared by a client and routed by a server that share a method
/// description reaches the server with the client's argument values, in
/// order.
pub proof fn lemma_request_route(
    m: MethodSpec,
    i: int,
    args: Seq<crate::variant::ValueView>,
    q: Request,
    r: Result<Call, DispatchError>,
)
    requires
        request_outcome(m, i, args, Ok(q)),
        route_outcome(m, i, q.body@, r),
    ensures
        r matches Ok(c) && c.index == i && views_of(c.args@) == args,
{
    lemma_values_round_trip(args);
}

/// A reply made by a server reads back, at a client with the same method
/// description, as the handler's result values, in order.
pub proof fn lemma_reply_read(
    m: MethodSpec,
    results: Seq<crate::variant::ValueView>,
    v: Variant,
)
    requires
        reply_outcome(m, results, Ok(Some(v))),
    ensures
        v@.tags == m.returns,
        parse_values(m.returns, v@.body) == Some(results),
{
    lemma_values_round_trip(results);
}

/// Whether two texts are the same.
fn same_text(a: &str, b: &str) -> (r: bool)
    ensures
        r == (a@ == b@),
{
    let x = a.as_bytes();
    let y = b.as_bytes();
    proof {
        encode_utf8_decode_utf8(a@);
        encode_utf8_decode_utf8(b@);
    }
    if x.len() != y.len() {
        return false;
    }
    let mut i: usize = 0;
    while i < x.len()
        invariant
            x@ == encode_utf8(a@),
            y@ == encode_utf8(b@),
            x@.len() == y@.len(),
            i <= x@.len(),
            forall|j: int| 0 <= j < i ==> x@[j] == y@[j],
        decreases x@.len() - i,
    {
        if x[i] != y[i] {
            return false;
        }
        i = i + 1;
    }
    assert(x@ =~= y@);
    true
}

/// The wire types of `values`, in order.
fn tags_of_values(values: &Vec<Value>) -> (r: Vec<TypeTag>)
    ensures
        r@ == tags_of(views_of(values@)),
{
    let mut r: Vec<TypeTag> = Vec::new();
    let mut i: usize = 0;
    while i < values.len()
        invariant
            i <= values@.len(),
            r@ == tags_of(views_of(values@)).take(i as int),
        decreases values@.len() - i,
    {
        r.push(values[i].tag());
        proof {
            assert(r@ =~= tags_of(views_of(values@)).take(i + 1));
        }
        i = i + 1;
    }
    assert(r@ =~= tags_of(views_of(values@)));
    r
}

/// An interface: a list of remote methods with distinct names.
pub struct Schema {
    methods: Vec<MethodDesc>,
}

impl View for Schema {
    type V = Seq<MethodSpec>;

    closed spec fn view(&self) -> Seq<MethodSpec> {
        self.methods@.map_values(|m: MethodDesc| m@)
    }
}

impl Schema {
    #[verifier::type_invariant]
    spec fn inv(&self) -> bool {
        names_distinct(self@)
    }

    /// Builds a schema from its methods, in order; fails exactly when two of
    /// them share a name.
    pub fn new(methods: Vec<MethodDesc>) -> (r: Result<Schema, SchemaError>)
        ensures
            match r {
                Ok(s) => s@ == methods@.map_values(|m: MethodDesc| m@),
                Err(e) => e == SchemaError::DuplicateMethod && !names_distinct(
                    methods@.map_values(|m: MethodDesc| m@),
                ),
            },
    {
        let ghost ms = methods@.map_values(|m: MethodDesc| m@);
        let mut i: usize = 0;
        while i < methods.len()
            invariant
                ms == methods@.map_values(|m: MethodDesc| m@),
                i <= methods@.len(),
                forall|a: int, b: int| 0 <= a < i && 0 <= b < ms.len() && a != b ==> ms[a].name != ms[b].name,
            decreases methods@.len() - i,
        {
            let mut j: usize = i + 1;
            while j < methods.len()
                invariant
                    ms == methods@.map_values(|m: MethodDesc| m@),
                    i < methods@.len(),
                    i < j <= methods@.len(),
                    forall|a: int, b: int| 0 <= a < i && 0 <= b < ms.len() && a != b ==> ms[a].name != ms[b].name,
                    forall|b: int| i < b < j ==> ms[i as int].name != ms[b].name,
                decreases methods@.len() - j,
            {
                if same_text(methods[i].name.as_str(), methods[j].name.as_str()) {
                    proof {
                        assert(ms[i as int].name == ms[j as int].name);
                        assert(!names_distinct(ms));
                    }
                    return Err(SchemaError::DuplicateMethod);
                }
                j = j + 1;
            }
            proof {
                assert forall|a: int, b: int| 0 <= a < i + 1 && 0 <= b < ms.len() && a != b implies ms[a].name != ms[b].name by {
                    if a == i && b < i {
                        assert(ms[b].name != ms[a].name);
                    }
                }
            }
            i = i + 1;
        }
        Ok(Schema { methods })
    }

    /// The position of the method called `name`, if there is one.
    pub fn find(&self, name: &str) -> (r: Option<usize>)
        ensures
            match r {
                Some(i) => i < self@.len() && self@[i as int].name == name@,
                None => absent(self@, name@),
            },
    {
        let mut i: usize = 0;
        while i < self.methods.len()
            invariant
                i <= self@.len(),
                self@.len() == self.methods@.len(),
                forall|j: int| 0 <= j < i ==> self@[j].name != name@,
            decreases self@.len() - i,
        {
            if same_text(self.methods[i].name.as_str(), name) {
                return Some(i);
            }
            i = i + 1;
        }
        None
    }

    /// Routes an inbound call, consuming its arguments: the method called
    /// `method_name` and its decoded arguments, `UnknownMethod` when there is
    /// no such method, or why the arguments do not read as its argument types.
    pub fn route(&self, method_name: &str, args: Variant) -> (r: Result<Call, DispatchError>)
        ensures
            absent(self@, method_name@) ==> r == Err::<Call, DispatchError>(
                DispatchError::UnknownMethod,
            ),
            forall|i: int|
                0 <= i < self@.len() && self@[i].name == method_name@ ==> route_outcome(
                    #[trigger] self@[i],
                    i,
                    args@,
                    r,
                ),
    {
        let i = match self.find(method_name) {
            Some(i) => i,
            None => {
                return Err(DispatchError::UnknownMethod);
            },
        };
        proof {
            use_type_invariant(self);
        }
        let m = &self.methods[i];
        assert(m.args@ == self@[i as int].args);
        match args.to_values(&m.args) {
            Ok(values) => Ok(Call { index: i, args: values }),
            Err(e) => Err(DispatchError::Decoding(e)),
        }
    }

    /// Turns the results of a call of the method at `index` into its reply:
    /// `None` for a method without results, else the encoded results.
    pub fn reply(&self, index: usize, results: &Vec<Value>) -> (r: Result<
        Option<Variant>,
        DispatchError,
    >)
        requires
            index < self@.len(),
        ensures
            reply_outcome(self@[index as int], views_of(results@), r),
    {
        let m = &self.methods[index];
        assert(m@ == self@[index as int]);
        let tags = tags_of_values(results);
        if !same_tags(&tags, &m.returns) {
            return Err(DispatchError::TypeMismatch);
        }
        if m.returns.len() == 0 {
            return Ok(None);
        }
        match Variant::from_values(results) {
            Ok(v) => Ok(Some(v)),
            Err(e) => Err(DispatchError::Encoding(e)),
        }
    }

    /// Handles an inbound call: routes it, hands the decoded arguments to
    /// `handler` with the method's position, and turns what it returns into
    /// the reply. An unknown method name is reported, never fatal.
    pub fn dispatch<F: Fn(usize, Vec<Value>) -> Vec<Value>>(
        &self,
        method_name: &str,
        args: Variant,
        handler: F,
    ) -> (r: Result<Option<Variant>, DispatchError>)
        requires
            forall|i: usize, a: Vec<Value>| handler.requires((i, a)),
        ensures
            absent(self@, method_name@) ==> r == Err::<Option<Variant>, DispatchError>(
                DispatchError::UnknownMethod,
            ),
            forall|i: int|
                0 <= i < self@.len() && self@[i].name == method_name@ ==> {
                    let m = #[trigger] self@[i];
                    if args@.tags != m.args {
                        r == Err::<Option<Variant>, DispatchError>(
                            DispatchError::Decoding(DecodingError::SignatureMismatch),
                        )
                    } else {
                        match parse_values(m.args, args@.body) {
                            Some(vs) => exists|a: Vec<Value>, out: Vec<Value>|
                                views_of(a@) == vs && handler.ensures((i as usize, a), out)
                                    && reply_outcome(m, views_of(out@), r),
                            None => r == Err::<Option<Variant>, DispatchError>(
                                DispatchError::Decoding(DecodingError::InvalidBody),
                            ),
                        }
                    }
                },
    {
        let ghost a = args@;
        let call = match self.route(method_name, args) {
            Ok(call) => call,
            Err(e) => {
                return Err(e);
            },
        };
        let ghost i = call.index as int;
        assert(self@[i].name == method_name@) by {
            if self@[i].name != method_name@ {
                assert(route_outcome(self@[i], i, a, Ok::<Call, DispatchError>(call)));
            }
        }
        let ghost decoded = call.args;
        let out = handler(call.index, call.args);
        let r = self.reply(call.index, &out);
        proof {
            use_type_invariant(self);
            assert(route_outcome(self@[i], i, a, Ok::<Call, DispatchError>(call)));
        }
        r
    }

    /// Handles an inbound call on an object with state: like `dispatch`, but
    /// `handler` also takes the object's state and gives back its next state
    /// with the results. The state is unchanged when the call is not routed.
    pub fn dispatch_stateful<S, F: Fn(S, usize, Vec<Value>) -> (S, Vec<Value>)>(
        &self,
        state: S,
        method_name: &str,
        args: Variant,
        handler: F,
    ) -> (r: (S, Result<Option<Variant>, DispatchError>))
        requires
            forall|st: S, i: usize, a: Vec<Value>| handler.requires((st, i, a)),
        ensures
            absent(self@, method_name@) ==> r == (
                state,
                Err::<Option<Variant>, DispatchError>(DispatchError::UnknownMethod),
            ),
            forall|i: int|
                0 <= i < self@.len() && self@[i].name == method_name@ ==> {
                    let m = #[trigger] self@[i];
                    if args@.tags != m.args {
                        r == (
                            state,
                            Err::<Option<Variant>, DispatchError>(
                                DispatchError::Decoding(DecodingError::SignatureMismatch),
                            ),
                        )
                    } else {
                        match parse_values(m.args, args@.body) {
                            Some(vs) => exists|a: Vec<Value>, out: (S, Vec<Value>)|
                                views_of(a@) == vs && #[trigger] handler.ensures((state, i as usize, a), out)
                                    && r.0 == out.0 && reply_outcome(m, views_of(out.1@), r.1),
                            None => r == (
                                state,
                                Err::<Option<Variant>, DispatchError>(
                                    DispatchError::Decoding(DecodingError::InvalidBody),
                                ),
                            ),
                        }
                    }
                },
    {
        let ghost a = args@;
        let call = match self.route(method_name, args) {
            Ok(call) => call,
            Err(e) => {
                return (state, Err(e));
            },
        };
        let ghost i = call.index as int;
        assert(self@[i].name == method_name@) by {
            if self@[i].name != method_name@ {
                assert(route_outcome(self@[i], i, a, Ok::<Call, DispatchError>(call)));
            }
        }
        let ghost decoded = call.args;
        let ghost before = state;
        let ret = handler(state, call.index, call.args);
        let (next, out) = ret;
        let r = self.reply(call.index, &out);
        proof {
            use_type_invariant(self);
            assert(route_outcome(self@[i], i, a, Ok::<Call, DispatchError>(call)));
            assert(handler.ensures((before, i as usize, decoded), ret));
            assert(ret.0 == next && ret.1 == out);
        }
        (next, r)
    }

    /// Prepares an outbound call of the method called `method_name` with the
    /// arguments `args`: the method's position and the encoded arguments.
    pub fn request(&self, method_name: &str, args: &Vec<Value>) -> (r: Result<
        Request,
        DispatchError,
    >)
        ensures
            absent(self@, method_name@) ==> r == Err::<Request, DispatchError>(
                DispatchError::UnknownMethod,
            ),
            forall|i: int|
                0 <= i < self@.len() && self@[i].name == method_name@ ==> request_outcome(
                    #[trigger] self@[i],
                    i,
                    views_of(args@),
                    r,
                ),
    {
        let i = match self.find(method_name) {
            Some(i) => i,
            None => {
                return Err(DispatchError::UnknownMethod);
            },
        };
        proof {
            use_type_invariant(self);
        }
        let m = &self.methods[i];
        assert(m@ == self@[i as int]);
        let tags = tags_of_values(args);
        if !same_tags(&tags, &m.args) {
            return Err(DispatchError::TypeMismatch);
        }
        match Variant::from_values(args) {
            Ok(body) => Ok(Request { index: i, body }),
            Err(e) => Err(DispatchError::Encoding(e)),
        }
    }

    /// Reads the reply to a call of the method at `index`, consuming it, as
    /// that method's result types.
    pub fn read_reply(&self, index: usize, reply: Variant) -> (r: Result<Vec<Value>, DecodingError>)
        requires
            index < self@.len(),
        ensures
            reply@.tags != self@[index as int].returns ==> r == Err::<Vec<Value>, DecodingError>(
                DecodingError::SignatureMismatch,
            ),
            reply@.tags == self@[index as int].returns ==> match parse_values(
                self@[index as int].returns,
                reply@.body,
            ) {
                Some(vs) => r matches Ok(out) && views_of(out@) == vs,
                None => r == Err::<Vec<Value>, DecodingError>(DecodingError::InvalidBody),
            },
    {
        let m = &self.methods[index];
        assert(m@ == self@[index as int]);
        reply.to_values(&m.returns)
    }

    /// The number of methods.
    pub fn len(&self) -> (r: usize)
        ensures
            r == self@.len(),
    {
        self.methods.len()
    }

    /// The method at position `index`.
    pub fn method(&self, index: usize) -> (r: &MethodDesc)
        requires
            index < self@.len(),
        ensures
            r@ == self@[index as int],
    {
        &self.methods[index]
    }
}

} // verus!
