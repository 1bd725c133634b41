//! Annotation text, parsed once into a tagged form: a call of a named
//! handler, or text for the engine's own evaluator.
use vstd::prelude::*;

use crate::text::{find, find_char, split, split_commas, trim, trim_str};

verus! {

/// The parsed form of one annotation.
pub enum Code {
    /// Text that is not a call; it goes to the engine's own evaluator as written.
    RawCode(String),
    /// `name(arg, ...)`, with each argument trimmed and left unevaluated.
    Function(String, Vec<String>),
}

pub open spec fn is_ident_start(c: char) -> bool {
    ('a' <= c && c <= 'z') || ('A' <= c && c <= 'Z') || c == '_'
}

pub open spec fn is_ident_char(c: char) -> bool {
    is_ident_start(c) || ('0' <= c && c <= '9')
}

pub open spec fn is_identifier(s: Seq<char>) -> bool {
    s.len() > 0 && is_ident_start(s[0]) && forall|k: int| 1 <= k < s.len() ==> is_ident_char(s[k])
}

/// `t` (already trimmed) reads `identifier '(' ... ')'`, the `)` being its
/// last character.
pub open spec fn is_call_shape(t: Seq<char>) -> bool {
    match find(t, '(') {
        Some(i) => i < t.len() - 1 && t.last() == ')' && is_identifier(t.subrange(0, i)),
        None => false,
    }
}

/// The name of a call-shaped `t`: what stands before its first `(`.
pub open spec fn call_name(t: Seq<char>) -> Seq<char> {
    t.subrange(0, find(t, '(').unwrap())
}

/// What stands between the first `(` and the final `)` of a call-shaped `t`.
pub open spec fn call_inner(t: Seq<char>) -> Seq<char> {
    t.subrange(find(t, '(').unwrap() + 1, t.len() - 1)
}

/// The arguments of a call-shaped `t`: none when the parentheses hold only
/// white space, else each comma-separated piece, trimmed.
pub open spec fn call_args(t: Seq<char>) -> Seq<Seq<char>> {
    let inner = call_inner(t);
    if trim(inner).len() == 0 {
        Seq::empty()
    } else {
        split(inner, ',').map_values(|a: Seq<char>| trim(a))
    }
}

pub open spec fn strings_view(v: Seq<String>) -> Seq<Seq<char>> {
    v.map_values(|a: String| a@)
}

/// What parsing `text` gives.
pub open spec fn compiled_as(text: Seq<char>, c: Code) -> bool {
    let t = trim(text);
    match c {
        Code::RawCode(raw) => !is_call_shape(t) && raw@ == text,
        Code::Function(name, args) => is_call_shape(t) && name@ == call_name(t) && strings_view(
            args@,
        ) == call_args(t),
    }
}

fn char_is_ident_start(c: char) -> (r: bool)
    ensures
        r == is_ident_start(c),
{
    ('a' <= c && c <= 'z') || ('A' <= c && c <= 'Z') || c == '_'
}

fn char_is_ident_char(c: char) -> (r: bool)
    ensures
        r == is_ident_char(c),
{
    char_is_ident_start(c) || ('0' <= c && c <= '9')
}

/// True when `s` is an identifier.
pub fn check_identifier(s: &str) -> (r: bool)
    ensures
        r == is_identifier(s@),
{
    let n = s.unicode_len();
    if n == 0 || !char_is_ident_start(s.get_char(0)) {
        return false;
    }
    let mut i: usize = 1;
    while i < n
        invariant
            n == s@.len(),
            1 <= i <= n,
            forall|k: int| 1 <= k < i ==> is_ident_char(s@[k]),
        decreases n - i,
    {
        if !char_is_ident_char(s.get_char(i)) {
            return false;
        }
        i = i + 1;
    }
    true
}

/// Parses one annotation's text.
///
/// After trimming, text of the shape `identifier '(' ... ')'` becomes
/// `Function(name, args)`, where `name` precedes the first `(` and `args` are
/// the comma-separated pieces between that `(` and the final `)`, each
/// trimmed (none when only white space stands there). Any other text is kept
/// whole, untrimmed, as `RawCode`.
pub fn compile_hint(hint_code: &str) -> (r: Code)
    ensures
        compiled_as(hint_code@, r),
{
    let t = trim_str(hint_code);
    let n = t.unicode_len();
    let open = match find_char(t, '(') {
        Some(i) => i,
        None => {
            return Code::RawCode(hint_code.to_string());
        },
    };
    if open + 1 >= n || t.get_char(n - 1) != ')' {
        return Code::RawCode(hint_code.to_string());
    }
    let name = t.substring_char(0, open);
    if !check_identifier(name) {
        return Code::RawCode(hint_code.to_string());
    }
    let inner = t.substring_char(open + 1, n - 1);
    let mut args: Vec<String> = Vec::new();
    if trim_str(inner).unicode_len() > 0 {
        let pieces = split_commas(inner);
        let mut k: usize = 0;
        while k < pieces.len()
            invariant
                k <= pieces@.len(),
                pieces@.len() == split(inner@, ',').len(),
                forall|j: int| 0 <= j < pieces@.len() ==> #[trigger] pieces@[j]@ == split(inner@, ',')[j],
                args@.len() == k,
                forall|j: int| 0 <= j < k ==> #[trigger] args@[j]@ == trim(split(inner@, ',')[j]),
            decreases pieces@.len() - k,
        {
            let a = trim_str(pieces[k].as_str()).to_string();
            args.push(a);
            k = k + 1;
        }
        assert(strings_view(args@) =~= split(inner@, ',').map_values(|a: Seq<char>| trim(a)));
    } else {
        assert(strings_view(args@) =~= Seq::<Seq<char>>::empty());
    }
    Code::Function(name.to_string(), args)
}

} // verus!
