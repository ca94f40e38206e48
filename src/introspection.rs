//! Introspection XML of a schema, for the bus library to parse.

use vstd::prelude::*;

use crate::interface::{MethodSpec, Schema};
use crate::signature::{push_char, tag_code, TypeTag};

verus! {

/// A character as it stands in an XML attribute value.
pub open spec fn escape_char(c: char) -> Seq<char> {
    if c == '&' {
        seq!['&', 'a', 'm', 'p', ';']
    } else if c == '<' {
        seq!['&', 'l', 't', ';']
    } else if c == '>' {
        seq!['&', 'g', 't', ';']
    } else if c == '"' {
        seq!['&', 'q', 'u', 'o', 't', ';']
    } else {
        seq![c]
    }
}

/// A text as it stands in an XML attribute value.
pub open spec fn escaped(s: Seq<char>) -> Seq<char>
    decreases s.len(),
{
    if s.len() == 0 {
        seq![]
    } else {
        escaped(s.drop_last()) + escape_char(s.last())
    }
}

/// The `<arg>` elements of arguments (or results, when `inbound` is false)
/// of the wire types `tags`, in order.
pub open spec fn args_xml(tags: Seq<TypeTag>, inbound: bool) -> Seq<char>
    decreases tags.len(),
{
    if tags.len() == 0 {
        seq![]
    } else {
        args_xml(tags.drop_last(), inbound) + "<arg type=\""@ + seq![tag_code(tags.last())] + (
        if inbound {
            "\" direction=\"in\"/>"@
        } else {
            "\" direction=\"out\"/>"@
        })
    }
}

/// The `<method>` element of one method.
pub open spec fn method_xml(m: MethodSpec) -> Seq<char> {
    "<method name=\""@ + escaped(m.name) + "\">"@ + args_xml(m.args, true) + args_xml(
        m.returns,
        false,
    ) + "</method>"@
}

/// The `<method>` elements of methods, in order.
pub open spec fn methods_xml(ms: Seq<MethodSpec>) -> Seq<char>
    decreases ms.len(),
{
    if ms.len() == 0 {
        seq![]
    } else {
        methods_xml(ms.drop_last()) + method_xml(ms.last())
    }
}

/// The introspection document of one interface called `name` with the
/// methods `ms`.
pub open spec fn interface_xml(name: Seq<char>, ms: Seq<MethodSpec>) -> Seq<char> {
    "<node><interface name=\""@ + escaped(name) + "\">"@ + methods_xml(ms)
        + "</interface></node>"@
}

/// Relies on `String::push_str`: appends a text at the end.
#[verifier::external_body]
fn push_text(s: &mut String, t: &str)
    ensures
        final(s)@ == old(s)@ + t@,
{
    s.push_str(t)
}

/// Appends `t` to `out` as it stands in an XML attribute value.
fn push_escaped(out: &mut String, t: &str)
    ensures
        final(out)@ == old(out)@ + escaped(t@),
{
    let n = t.unicode_len();
    let ghost start = out@;
    let mut i: usize = 0;
    while i < n
        invariant
            n == t@.len(),
            i <= n,
            out@ == start + escaped(t@.take(i as int)),
        decreases n - i,
    {
        let c = t.get_char(i);
        if c == '&' {
            push_text(out, "&amp;");
            proof {
                reveal_strlit("&amp;");
            }
        } else if c == '<' {
            push_text(out, "&lt;");
            proof {
                reveal_strlit("&lt;");
            }
        } else if c == '>' {
            push_text(out, "&gt;");
            proof {
                reveal_strlit("&gt;");
            }
        } else if c == '"' {
            push_text(out, "&quot;");
            proof {
                reveal_strlit("&quot;");
            }
        } else {
            push_char(out, c);
        }
        proof {
            let p = t@.take(i + 1);
            assert(p.drop_last() =~= t@.take(i as int));
            assert(p.last() == c);
            assert(out@ =~= start + escaped(p));
        }
        i = i + 1;
    }
    proof {
        assert(t@.take(i as int) =~= t@);
    }
}

/// Appends the `<arg>` elements of the wire types `tags` to `out`.
fn push_args(out: &mut String, tags: &Vec<TypeTag>, inbound: bool)
    ensures
        final(out)@ == old(out)@ + args_xml(tags@, inbound),
{
    let ghost start = out@;
    let mut i: usize = 0;
    while i < tags.len()
        invariant
            i <= tags@.len(),
            out@ == start + args_xml(tags@.take(i as int), inbound),
        decreases tags@.len() - i,
    {
        push_text(out, "<arg type=\"");
        push_char(out, tags[i].code());
        if inbound {
            push_text(out, "\" direction=\"in\"/>");
        } else {
            push_text(out, "\" direction=\"out\"/>");
        }
        proof {
            let p = tags@.take(i + 1);
            assert(p.drop_last() =~= tags@.take(i as int));
            assert(out@ =~= start + args_xml(p, inbound));
        }
        i = i + 1;
    }
    proof {
        assert(tags@.take(i as int) =~= tags@);
    }
}

impl Schema {
    /// The introspection document of this schema as the interface called
    /// `interface_name`: one `<method>` element per method, in order, with
    /// its arguments and then its results.
    pub fn introspection_xml(&self, interface_name: &str) -> (r: String)
        ensures
            r@ == interface_xml(interface_name@, self@),
    {
        let mut out = String::new();
        push_text(&mut out, "<node><interface name=\"");
        push_escaped(&mut out, interface_name);
        push_text(&mut out, "\">");
        let ghost start = out@;
        let mut i: usize = 0;
        while i < self.len()
            invariant
                i <= self@.len(),
                out@ == start + methods_xml(self@.take(i as int)),
            decreases self@.len() - i,
        {
            let m = self.method(i);
            push_text(&mut out, "<method name=\"");
            push_escaped(&mut out, m.name.as_str());
            push_text(&mut out, "\">");
            push_args(&mut out, &m.args, true);
            push_args(&mut out, &m.returns, false);
            push_text(&mut out, "</method>");
            proof {
                let p = self@.take(i + 1);
                assert(p.drop_last() =~= self@.take(i as int));
                assert(p.last() == m@);
                assert(out@ =~= start + methods_xml(p));
            }
            i = i + 1;
        }
        push_text(&mut out, "</interface></node>");
        proof {
            assert(self@.take(i as int) =~= self@);
            assert(out@ =~= interface_xml(interface_name@, self@));
        }
        out
    }
}

} // verus!
