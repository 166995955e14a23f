//! Canonical signatures: `name(T1,T2,...)` over fully elaborated types.
use vstd::prelude::*;
use crate::model::{AbiType, Item, Param};
use crate::text::append_char;
use vstd::string::StringExecFns;

verus! {

broadcast use {vstd::std_specs::vec::axiom_vec_decreases_to_view, vstd::seq::axiom_seq_index_decreases, vstd::seq::axiom_seq_subrange_decreases};

/// The decimal digit `d` (below ten) as a character.
pub open spec fn digit_char(d: nat) -> char {
    (48 + d) as u8 as char
}

/// The decimal form of `n`, without leading zeros.
pub open spec fn decimal(n: nat) -> Seq<char>
    decreases n,
{
    if n < 10 {
        seq![digit_char(n)]
    } else {
        decimal(n / 10).push(digit_char(n % 10))
    }
}

/// `[]` for a dynamic array, `[N]` for one of fixed length `N`.
pub open spec fn array_suffix(len: Option<usize>) -> Seq<char> {
    match len {
        None => seq!['[', ']'],
        Some(n) => seq!['['] + decimal(n as nat) + seq![']'],
    }
}

/// The canonical form of a type.
pub open spec fn type_sig(t: AbiType) -> Seq<char>
    decreases t,
{
    match t {
        AbiType::Elementary(name) => name@,
        AbiType::Array(inner, len) => type_sig(*inner) + array_suffix(len),
        AbiType::Tuple(ps) => seq!['('] + list_sig(ps@) + seq![')'],
    }
}

/// The canonical types of `ps`, joined by commas.
pub open spec fn list_sig(ps: Seq<Param>) -> Seq<char>
    decreases ps,
{
    if ps.len() == 0 {
        Seq::empty()
    } else if ps.len() == 1 {
        type_sig(ps[0].ty)
    } else {
        list_sig(ps.subrange(0, ps.len() - 1)) + seq![','] + type_sig(ps[ps.len() - 1].ty)
    }
}

/// `name(T1,...,Tn)`: the name and the canonical parameter types.
pub open spec fn call_sig(name: Seq<char>, ps: Seq<Param>) -> Seq<char> {
    name + seq!['('] + list_sig(ps) + seq![')']
}

/// The canonical signature of a selectable item; constructors, fallback and
/// receive functions have none.
pub open spec fn item_sig(item: Item) -> Option<Seq<char>> {
    match item {
        Item::Function { name, inputs, .. } => Some(call_sig(name@, inputs@)),
        Item::Event { name, inputs, .. } => Some(call_sig(name@, inputs@)),
        Item::Error { name, inputs } => Some(call_sig(name@, inputs@)),
        _ => None,
    }
}

/// The decimal form of `n`.
pub fn decimal_text(n: usize) -> (r: String)
    ensures
        r@ == decimal(n as nat),
    decreases n,
{
    let d = ((n % 10) as u8 + 48u8) as char;
    if n < 10 {
        let mut s = String::new();
        append_char(&mut s, d);
        s
    } else {
        let mut s = decimal_text(n / 10);
        append_char(&mut s, d);
        s
    }
}

/// The canonical form of a type: elementary keyword, `T[]`, `T[N]`, or
/// `(T1,...,Tn)` for a tuple.
pub fn type_signature(t: &AbiType) -> (r: String)
    ensures
        r@ == type_sig(*t),
    decreases t,
{
    match t {
        AbiType::Elementary(name) => name.clone(),
        AbiType::Array(inner, len) => {
            let mut s = type_signature(inner);
            match len {
                None => {
                    append_char(&mut s, '[');
                    append_char(&mut s, ']');
                },
                Some(n) => {
                    append_char(&mut s, '[');
                    let d = decimal_text(*n);
                    s.append(d.as_str());
                    append_char(&mut s, ']');
                },
            }
            s
        },
        AbiType::Tuple(ps) => {
            let mut s = String::new();
            append_char(&mut s, '(');
            let l = list_signature(ps);
            s.append(l.as_str());
            append_char(&mut s, ')');
            s
        },
    }
}

/// The canonical types of `ps`, joined by commas.
pub fn list_signature(ps: &Vec<Param>) -> (r: String)
    ensures
        r@ == list_sig(ps@),
    decreases ps,
{
    let mut s = String::new();
    let mut i: usize = 0;
    while i < ps.len()
        invariant
            i <= ps@.len(),
            s@ == list_sig(ps@.subrange(0, i as int)),
        decreases ps@.len() - i,
    {
        if i > 0 {
            append_char(&mut s, ',');
        }
        let t = type_signature(&ps[i].ty);
        s.append(t.as_str());
        assert(ps@.subrange(0, i + 1).subrange(0, i as int) =~= ps@.subrange(0, i as int));
        i = i + 1;
    }
    assert(ps@.subrange(0, ps@.len() as int) =~= ps@);
    s
}

/// `name(T1,...,Tn)` for a name and its parameters.
pub fn call_signature(name: &str, ps: &Vec<Param>) -> (r: String)
    ensures
        r@ == call_sig(name@, ps@),
{
    let mut s = name.to_owned();
    append_char(&mut s, '(');
    let l = list_signature(ps);
    s.append(l.as_str());
    append_char(&mut s, ')');
    s
}

/// The canonical signature of a function, event or error: its name and its
/// parameter types, without parameter names, qualifiers or return types.
pub fn signature_of(item: &Item) -> (r: Option<String>)
    ensures
        item_sig(*item) matches Some(s) ==> r matches Some(t) && t@ == s,
        item_sig(*item) is None ==> r is None,
{
    match item {
        Item::Function { name, inputs, .. } => Some(call_signature(name.as_str(), inputs)),
        Item::Event { name, inputs, .. } => Some(call_signature(name.as_str(), inputs)),
        Item::Error { name, inputs } => Some(call_signature(name.as_str(), inputs)),
        _ => None,
    }
}

} // verus!
