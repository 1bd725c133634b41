//! Reading test sources and compiled programs: the mocks a test function
//! declares, and the return types of each function.
use vstd::prelude::*;

use crate::hint::strings_view;
use crate::list::Identifier;
use crate::pattern::{
    capture, captures_all, is_match, option_view, regex_capture, regex_captures_all, regex_match,
};
use crate::text::str_eq;

verus! {

/// The start of a function; group 1 is its name.
pub const FUNC_RX: &'static str = r"func\s+(?P<func_test_name>[\w]*)";

/// A `mock_call` annotation; group 1 is the mocked function, group 2 the
/// bracketed values.
pub const MOCK_RX: &'static str =
    r"%\{\s+mock_call\((?P<func_to_mock>.*),\s*(?P<mock_value>\[.*\])\)\s+%\}";

/// A type that is a tuple, written in parentheses.
pub const TUPLE_RX: &'static str = r"^\(.*\)$";

/// A named member of a tuple type; group 1 is the member's type.
pub const TYPE_RX: &'static str = r"\w+\s*:\s*(?P<type_name>(\w+\.?)+\*?)";

/// One `mock_call` annotation of a test function: the function it mocks and
/// the values it gives, as written.
pub struct MockedCall {
    pub fn_name: String,
    pub fn_args: String,
}

/// The pairs of the first `n` positions at which both `a` and `b` hold a text.
pub open spec fn paired(a: Seq<Option<Seq<char>>>, b: Seq<Option<Seq<char>>>, n: nat) -> Seq<
    (Seq<char>, Seq<char>),
>
    decreases n,
{
    if n == 0 {
        Seq::empty()
    } else {
        let head = paired(a, b, (n - 1) as nat);
        let k = n - 1;
        if a[k] is Some && b[k] is Some {
            head.push((a[k].unwrap(), b[k].unwrap()))
        } else {
            head
        }
    }
}

pub open spec fn calls_view(calls: Seq<MockedCall>) -> Seq<(Seq<char>, Seq<char>)> {
    calls.map_values(|c: MockedCall| (c.fn_name@, c.fn_args@))
}

/// The mock annotations of `data`, in order.
pub open spec fn mock_calls_of(data: Seq<char>) -> Seq<(Seq<char>, Seq<char>)> {
    let names = regex_captures_all(MOCK_RX@, data, 1);
    let values = regex_captures_all(MOCK_RX@, data, 2);
    paired(names, values, if names.len() < values.len() { names.len() } else { values.len() })
}

/// The name of the first function of a test source, with the mock annotations
/// the source holds; `None` when it declares no function.
pub fn extract_fname_mock_values(data: &str) -> (r: Option<(String, Vec<MockedCall>)>)
    ensures
        match regex_capture(FUNC_RX@, data@, 1) {
            Some(name) => r matches Some((n, calls)) && n@ == name && calls_view(calls@)
                == mock_calls_of(data@),
            None => r is None,
        },
{
    let fn_name = match capture(FUNC_RX, data, 1) {
        Some(n) => n,
        None => {
            return None;
        },
    };
    let names = captures_all(MOCK_RX, data, 1);
    let values = captures_all(MOCK_RX, data, 2);
    let ghost gn = names@.map_values(|o: Option<String>| option_view(o));
    let ghost gv = values@.map_values(|o: Option<String>| option_view(o));
    let n = if names.len() < values.len() {
        names.len()
    } else {
        values.len()
    };
    let mut calls: Vec<MockedCall> = Vec::new();
    let mut i: usize = 0;
    while i < n
        invariant
            i <= n,
            n <= names@.len(),
            n <= values@.len(),
            gn == names@.map_values(|o: Option<String>| option_view(o)),
            gv == values@.map_values(|o: Option<String>| option_view(o)),
            calls_view(calls@) == paired(gn, gv, i as nat),
        decreases n - i,
    {
        proof {
            assert(gn[i as int] == option_view(names@[i as int]));
            assert(gv[i as int] == option_view(values@[i as int]));
        }
        match (&names[i], &values[i]) {
            (Some(f), Some(v)) => {
                calls.push(MockedCall { fn_name: f.clone(), fn_args: v.clone() });
                proof {
                    assert(calls_view(calls@) =~= paired(gn, gv, i as nat).push((f@, v@)));
                }
            },
            _ => {},
        }
        i = i + 1;
    }
    Some((fn_name, calls))
}

/// The texts that `found` holds, in order.
pub open spec fn present(found: Seq<Option<Seq<char>>>) -> Seq<Seq<char>>
    decreases found.len(),
{
    if found.len() == 0 {
        Seq::empty()
    } else {
        match found.last() {
            Some(t) => present(found.drop_last()).push(t),
            None => present(found.drop_last()),
        }
    }
}

/// The types a function with return type `cairo_type` returns: the member
/// types of a tuple, else the type itself.
pub open spec fn return_types_of(cairo_type: Seq<char>) -> Seq<Seq<char>> {
    if regex_match(TUPLE_RX@, cairo_type) {
        present(regex_captures_all(TYPE_RX@, cairo_type, 1))
    } else {
        seq![cairo_type]
    }
}

/// `key` without a final `.Return`.
pub open spec fn signature_key(key: Seq<char>) -> Seq<char> {
    let suffix = ".Return"@;
    if key.len() >= suffix.len() && key.subrange(key.len() - suffix.len(), key.len() as int)
        == suffix {
        key.subrange(0, key.len() - suffix.len())
    } else {
        key
    }
}

pub open spec fn is_type_definition(id: Identifier) -> bool {
    id.type_ matches Some(t) && t@ == "type_definition"@
}

/// The return signatures that `ids` define, in order.
pub open spec fn signatures(ids: Seq<Identifier>) -> Seq<(Seq<char>, Seq<Seq<char>>)>
    decreases ids.len(),
{
    if ids.len() == 0 {
        Seq::empty()
    } else {
        let head = signatures(ids.drop_last());
        let id = ids.last();
        if is_type_definition(id) {
            head.push((signature_key(id.name@), return_types_of(id.cairo_type.unwrap()@)))
        } else {
            head
        }
    }
}

pub open spec fn signatures_view(s: Seq<(String, Vec<String>)>) -> Seq<(Seq<char>, Seq<Seq<char>>)> {
    s.map_values(|p: (String, Vec<String>)| (p.0@, strings_view(p.1@)))
}

fn return_types(cairo_type: &str) -> (r: Vec<String>)
    ensures
        strings_view(r@) == return_types_of(cairo_type@),
{
    let mut types: Vec<String> = Vec::new();
    if is_match(TUPLE_RX, cairo_type) {
        let found = captures_all(TYPE_RX, cairo_type, 1);
        let ghost g = found@.map_values(|o: Option<String>| option_view(o));
        let mut i: usize = 0;
        while i < found.len()
            invariant
                i <= found@.len(),
                g == found@.map_values(|o: Option<String>| option_view(o)),
                strings_view(types@) == present(g.subrange(0, i as int)),
            decreases found@.len() - i,
        {
            proof {
                assert(g.subrange(0, i + 1).drop_last() =~= g.subrange(0, i as int));
                assert(g[i as int] == option_view(found@[i as int]));
            }
            match &found[i] {
                Some(t) => {
                    types.push(t.clone());
                    proof {
                        assert(strings_view(types@) =~= present(g.subrange(0, i as int)).push(t@));
                    }
                },
                None => {},
            }
            i = i + 1;
        }
        proof {
            assert(g.subrange(0, found@.len() as int) =~= g);
        }
    } else {
        types.push(cairo_type.to_string());
        proof {
            assert(strings_view(types@) =~= seq![cairo_type@]);
        }
    }
    types
}

fn strip_return_suffix(key: &str) -> (r: String)
    ensures
        r@ == signature_key(key@),
{
    let n = key.unicode_len();
    let suffix = ".Return";
    proof {
        reveal_strlit(".Return");
    }
    let m = suffix.unicode_len();
    if n >= m && str_eq(key.substring_char(n - m, n), suffix) {
        key.substring_char(0, n - m).to_string()
    } else {
        key.to_string()
    }
}

/// The return types of each function that `identifiers` define, keyed by
/// the function's name (a type definition's name without `.Return`).
pub fn retrieve_return_signatures(identifiers: &Vec<Identifier>) -> (r: Vec<(String, Vec<String>)>)
    requires
        forall|i: int|
            0 <= i < identifiers@.len() && is_type_definition(#[trigger] identifiers@[i])
                ==> identifiers@[i].cairo_type is Some,
    ensures
        signatures_view(r@) == signatures(identifiers@),
{
    let mut out: Vec<(String, Vec<String>)> = Vec::new();
    let mut i: usize = 0;
    while i < identifiers.len()
        invariant
            i <= identifiers@.len(),
            forall|k: int|
                0 <= k < identifiers@.len() && is_type_definition(#[trigger] identifiers@[k])
                    ==> identifiers@[k].cairo_type is Some,
            signatures_view(out@) == signatures(identifiers@.subrange(0, i as int)),
        decreases identifiers@.len() - i,
    {
        proof {
            assert(identifiers@.subrange(0, i + 1).drop_last() =~= identifiers@.subrange(0, i as int));
        }
        let id = &identifiers[i];
        let is_def = match &id.type_ {
            Some(t) => str_eq(t.as_str(), "type_definition"),
            None => false,
        };
        if is_def {
            let cairo_type = match &id.cairo_type {
                Some(t) => t,
                None => {
                    proof {
                        assert(is_type_definition(identifiers@[i as int]));
                    }
                    return out;
                },
            };
            let types = return_types(cairo_type.as_str());
            let key = strip_return_suffix(id.name.as_str());
            out.push((key, types));
            proof {
                assert(signatures_view(out@) =~= signatures(identifiers@.subrange(0, i as int)).push(
                    (signature_key(id.name@), return_types_of(id.cairo_type.unwrap()@)),
                ));
            }
        }
        i = i + 1;
    }
    proof {
        assert(identifiers@.subrange(0, identifiers@.len() as int) =~= identifiers@);
    }
    out
}

} // verus!
