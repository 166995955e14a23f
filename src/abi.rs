//! Structured ABI entries: one per function, event, error, constructor,
//! fallback or receive function, re-rendering the resolved types.
use vstd::prelude::*;
use crate::model::{AbiType, Item, Mutability, Param};
use crate::signature::{array_suffix, decimal_text};
use crate::text::{text_less, text_lt};
use crate::text::append_char;
use vstd::string::StringExecFns;

verus! {

broadcast use {vstd::std_specs::vec::axiom_vec_decreases_to_view, vstd::seq::axiom_seq_index_decreases, vstd::seq::axiom_seq_subrange_decreases};

#[derive(Clone, Copy, PartialEq, Eq, Structural, Debug)]
pub enum EntryKind {
    Function,
    Event,
    Error,
    Constructor,
    Fallback,
    Receive,
}

/// The ABI `type` tag of an entry kind.
pub open spec fn kind_tag(k: EntryKind) -> Seq<char> {
    match k {
        EntryKind::Function => "function"@,
        EntryKind::Event => "event"@,
        EntryKind::Error => "error"@,
        EntryKind::Constructor => "constructor"@,
        EntryKind::Fallback => "fallback"@,
        EntryKind::Receive => "receive"@,
    }
}

impl EntryKind {
    /// The ABI `type` tag: `function`, `event`, `error`, `constructor`,
    /// `fallback` or `receive`.
    pub fn tag(&self) -> (r: String)
        ensures
            r@ == kind_tag(*self),
    {
        match self {
            EntryKind::Function => "function".to_owned(),
            EntryKind::Event => "event".to_owned(),
            EntryKind::Error => "error".to_owned(),
            EntryKind::Constructor => "constructor".to_owned(),
            EntryKind::Fallback => "fallback".to_owned(),
            EntryKind::Receive => "receive".to_owned(),
        }
    }
}

/// The ABI `stateMutability` keyword.
pub open spec fn mutability_keyword(m: Mutability) -> Seq<char> {
    match m {
        Mutability::Pure => "pure"@,
        Mutability::View => "view"@,
        Mutability::NonPayable => "nonpayable"@,
        Mutability::Payable => "payable"@,
    }
}

/// The ABI `stateMutability` keyword: `pure`, `view`, `nonpayable` or `payable`.
pub fn mutability_text(m: Mutability) -> (r: String)
    ensures
        r@ == mutability_keyword(m),
{
    match m {
        Mutability::Pure => "pure".to_owned(),
        Mutability::View => "view".to_owned(),
        Mutability::NonPayable => "nonpayable".to_owned(),
        Mutability::Payable => "payable".to_owned(),
    }
}

/// One input or output of an ABI entry.
pub struct AbiParam {
    pub name: String,
    /// The ABI type: elementary keyword, `tuple`, with array suffixes.
    pub ty: String,
    /// The components of a tuple type (of the element type, for arrays).
    pub components: Vec<AbiParam>,
    /// Present on event inputs only.
    pub indexed: Option<bool>,
}

/// The ABI description of one item.
pub struct AbiEntry {
    pub kind: EntryKind,
    /// Absent for constructor, fallback and receive.
    pub name: Option<String>,
    pub inputs: Vec<AbiParam>,
    pub outputs: Vec<AbiParam>,
    /// Present for functions, constructor, fallback and receive.
    pub state_mutability: Option<Mutability>,
    /// Present for events only.
    pub anonymous: Option<bool>,
}

/// The ABI type text: tuples render as `tuple`, arrays keep their suffixes.
pub open spec fn abi_type_name(t: AbiType) -> Seq<char>
    decreases t,
{
    match t {
        AbiType::Elementary(name) => name@,
        AbiType::Array(inner, len) => abi_type_name(*inner) + array_suffix(len),
        AbiType::Tuple(_) => seq!['t', 'u', 'p', 'l', 'e'],
    }
}

/// `cs` describes the components of the tuple type within `t` (that of its
/// element type, for arrays; none, for elementary types).
pub open spec fn components_describe(cs: Seq<AbiParam>, t: AbiType) -> bool
    decreases t, 1nat,
{
    match t {
        AbiType::Elementary(_) => cs.len() == 0,
        AbiType::Array(inner, _) => components_describe(cs, *inner),
        AbiType::Tuple(ps) => describes_all(cs, ps@, false),
    }
}

/// `r` describes parameter `p`; `event` says whether `p` is an event input.
pub open spec fn describes(r: AbiParam, p: Param, event: bool) -> bool
    decreases p, 2nat,
{
    &&& r.name@ == p.name@
    &&& r.ty@ == abi_type_name(p.ty)
    &&& r.indexed == (if event { Some(p.indexed) } else { None })
    &&& components_describe(r.components@, p.ty)
}

/// `rs` describes `ps`, one for one and in order.
pub open spec fn describes_all(rs: Seq<AbiParam>, ps: Seq<Param>, event: bool) -> bool
    decreases ps, 0nat,
{
    &&& rs.len() == ps.len()
    &&& ps.len() > 0 ==> {
        &&& describes_all(rs.subrange(0, rs.len() - 1), ps.subrange(0, ps.len() - 1), event)
        &&& describes(rs[rs.len() - 1], ps[ps.len() - 1], event)
    }
}

/// `e` is the ABI entry of `item`.
pub open spec fn entry_describes(e: AbiEntry, item: Item) -> bool {
    match item {
        Item::Function { name, inputs, outputs, mutability, .. } => {
            &&& e.kind == EntryKind::Function
            &&& e.name matches Some(n) && n@ == name@
            &&& describes_all(e.inputs@, inputs@, false)
            &&& describes_all(e.outputs@, outputs@, false)
            &&& e.state_mutability == Some(mutability)
            &&& e.anonymous is None
        },
        Item::Event { name, inputs, anonymous } => {
            &&& e.kind == EntryKind::Event
            &&& e.name matches Some(n) && n@ == name@
            &&& describes_all(e.inputs@, inputs@, true)
            &&& e.outputs@.len() == 0
            &&& e.state_mutability is None
            &&& e.anonymous == Some(anonymous)
        },
        Item::Error { name, inputs } => {
            &&& e.kind == EntryKind::Error
            &&& e.name matches Some(n) && n@ == name@
            &&& describes_all(e.inputs@, inputs@, false)
            &&& e.outputs@.len() == 0
            &&& e.state_mutability is None
            &&& e.anonymous is None
        },
        Item::Constructor { inputs, mutability } => {
            &&& e.kind == EntryKind::Constructor
            &&& e.name is None
            &&& describes_all(e.inputs@, inputs@, false)
            &&& e.outputs@.len() == 0
            &&& e.state_mutability == Some(mutability)
            &&& e.anonymous is None
        },
        Item::Fallback { mutability } => {
            &&& e.kind == EntryKind::Fallback
            &&& e.name is None
            &&& e.inputs@.len() == 0
            &&& e.outputs@.len() == 0
            &&& e.state_mutability == Some(mutability)
            &&& e.anonymous is None
        },
        Item::Receive => {
            &&& e.kind == EntryKind::Receive
            &&& e.name is None
            &&& e.inputs@.len() == 0
            &&& e.outputs@.len() == 0
            &&& e.state_mutability == Some(Mutability::Payable)
            &&& e.anonymous is None
        },
    }
}

/// Position of an entry kind in the ABI order: its tag's place among
/// `constructor`, `error`, `event`, `fallback`, `function`, `receive`.
pub open spec fn kind_rank(k: EntryKind) -> nat {
    match k {
        EntryKind::Constructor => 0,
        EntryKind::Error => 1,
        EntryKind::Event => 2,
        EntryKind::Fallback => 3,
        EntryKind::Function => 4,
        EntryKind::Receive => 5,
    }
}

/// The name of an entry; empty for constructor, fallback and receive.
pub open spec fn entry_name(e: AbiEntry) -> Seq<char> {
    match e.name {
        Some(n) => n@,
        None => Seq::empty(),
    }
}

/// `a` orders strictly before `b` in the ABI: by tag, then by name.
pub open spec fn entry_before(a: AbiEntry, b: AbiEntry) -> bool {
    kind_rank(a.kind) < kind_rank(b.kind) || (kind_rank(a.kind) == kind_rank(b.kind) && text_lt(
        entry_name(a),
        entry_name(b),
    ))
}

/// The rank of the entry kind of an item.
pub open spec fn item_rank(x: Item) -> nat {
    match x {
        Item::Constructor { .. } => 0,
        Item::Error { .. } => 1,
        Item::Event { .. } => 2,
        Item::Fallback { .. } => 3,
        Item::Function { .. } => 4,
        Item::Receive => 5,
    }
}

/// The name of an item; empty for constructor, fallback and receive.
pub open spec fn item_name(x: Item) -> Seq<char> {
    match x {
        Item::Function { name, .. } => name@,
        Item::Event { name, .. } => name@,
        Item::Error { name, .. } => name@,
        _ => Seq::empty(),
    }
}

/// The entry of `a` orders strictly before that of `b`.
pub open spec fn item_before(a: Item, b: Item) -> bool {
    item_rank(a) < item_rank(b) || (item_rank(a) == item_rank(b) && text_lt(
        item_name(a),
        item_name(b),
    ))
}

/// `x` placed into `s` before the first element it orders strictly before
/// (after all that order before it or tie with it).
pub open spec fn sorted_insert(s: Seq<Item>, x: Item) -> Seq<Item>
    decreases s.len(),
{
    if s.len() == 0 {
        seq![x]
    } else if item_before(x, s[0]) {
        seq![x] + s
    } else {
        seq![s[0]] + sorted_insert(s.drop_first(), x)
    }
}

/// The items in ABI order: by tag, then by name; items that tie keep their
/// order in `s`.
pub open spec fn abi_order(s: Seq<Item>) -> Seq<Item>
    decreases s.len(),
{
    if s.len() == 0 {
        Seq::empty()
    } else {
        sorted_insert(abi_order(s.drop_last()), s.last())
    }
}

/// `es` holds the entries of `xs`, position by position.
pub open spec fn entries_describe(es: Seq<AbiEntry>, xs: Seq<Item>) -> bool {
    &&& es.len() == xs.len()
    &&& forall|i: int| 0 <= i < es.len() ==> entry_describes(#[trigger] es[i], xs[i])
}

/// The ABI order key of an entry is that of the item it describes.
pub proof fn lemma_entry_key(e: AbiEntry, x: Item)
    requires
        entry_describes(e, x),
    ensures
        kind_rank(e.kind) == item_rank(x),
        entry_name(e) == item_name(x),
{
}

proof fn lemma_sorted_insert_at(s: Seq<Item>, x: Item, p: int)
    requires
        0 <= p <= s.len(),
        forall|i: int| 0 <= i < p ==> !item_before(x, #[trigger] s[i]),
        p == s.len() || item_before(x, s[p]),
    ensures
        sorted_insert(s, x) == s.insert(p, x),
    decreases s.len(),
{
    if s.len() == 0 {
        assert(s.insert(p, x) =~= seq![x]);
    } else if p == 0 {
        assert(s.insert(p, x) =~= seq![x] + s);
    } else {
        assert(!item_before(x, s[0]));
        let t = s.drop_first();
        assert forall|i: int| 0 <= i < p - 1 implies !item_before(x, #[trigger] t[i]) by {
            assert(t[i] == s[i + 1]);
        }
        lemma_sorted_insert_at(t, x, p - 1);
        assert(s.insert(p, x) =~= seq![s[0]] + t.insert(p - 1, x));
    }
}

/// Whether entry `a` orders strictly before entry `b`.
pub fn entry_precedes(a: &AbiEntry, b: &AbiEntry) -> (r: bool)
    ensures
        r == entry_before(*a, *b),
{
    let ra = rank_of(a.kind);
    let rb = rank_of(b.kind);
    if ra != rb {
        return ra < rb;
    }
    match (&a.name, &b.name) {
        (Some(x), Some(y)) => text_less(x.as_str(), y.as_str()),
        (None, Some(y)) => {
            proof {
                lemma_empty_lt(y@);
            }
            y.unicode_len() > 0
        },
        (_, None) => false,
    }
}

proof fn lemma_empty_lt(y: Seq<char>)
    ensures
        text_lt(Seq::empty(), y) == (y.len() > 0),
{
}

fn rank_of(k: EntryKind) -> (r: u8)
    ensures
        r as nat == kind_rank(k),
{
    match k {
        EntryKind::Constructor => 0,
        EntryKind::Error => 1,
        EntryKind::Event => 2,
        EntryKind::Fallback => 3,
        EntryKind::Function => 4,
        EntryKind::Receive => 5,
    }
}

/// Inserts the entry `e` of item `x` into `v`, the entries of `s`, at its
/// place in ABI order.
pub(crate) fn insert_entry(v: &mut Vec<AbiEntry>, e: AbiEntry, Ghost(s): Ghost<Seq<Item>>, Ghost(x): Ghost<Item>)
    requires
        entries_describe(old(v)@, s),
        entry_describes(e, x),
    ensures
        entries_describe(final(v)@, sorted_insert(s, x)),
{
    let mut p: usize = 0;
    while p < v.len() && !entry_precedes(&e, &v[p])
        invariant
            p <= v@.len(),
            entries_describe(v@, s),
            entry_describes(e, x),
            forall|i: int| 0 <= i < p ==> !item_before(x, #[trigger] s[i]),
        decreases v@.len() - p,
    {
        proof {
            lemma_entry_key(e, x);
            lemma_entry_key(v@[p as int], s[p as int]);
        }
        p = p + 1;
    }
    proof {
        if p < v@.len() {
            lemma_entry_key(e, x);
            lemma_entry_key(v@[p as int], s[p as int]);
        }
        lemma_sorted_insert_at(s, x, p as int);
    }
    let ghost before = v@;
    v.insert(p, e);
    assert forall|i: int| 0 <= i < v@.len() implies entry_describes(
        #[trigger] v@[i],
        s.insert(p as int, x)[i],
    ) by {
        if i < p {
            assert(v@[i] == before[i]);
        } else if i > p {
            assert(v@[i] == before[i - 1]);
        }
    }
}

/// The ABI type text of `t`.
pub fn abi_type_text(t: &AbiType) -> (r: String)
    ensures
        r@ == abi_type_name(*t),
    decreases t,
{
    match t {
        AbiType::Elementary(name) => name.clone(),
        AbiType::Array(inner, len) => {
            let mut s = abi_type_text(inner);
            append_char(&mut s, '[');
            match len {
                None => {},
                Some(n) => {
                    let d = decimal_text(*n);
                    s.append(d.as_str());
                },
            }
            append_char(&mut s, ']');
            s
        },
        AbiType::Tuple(_) => {
            let mut s = String::new();
            append_char(&mut s, 't');
            append_char(&mut s, 'u');
            append_char(&mut s, 'p');
            append_char(&mut s, 'l');
            append_char(&mut s, 'e');
            s
        },
    }
}

/// The tuple components within `t`, described for the ABI.
pub fn tuple_components(t: &AbiType) -> (r: Vec<AbiParam>)
    ensures
        components_describe(r@, *t),
    decreases t,
{
    match t {
        AbiType::Elementary(_) => Vec::new(),
        AbiType::Array(inner, _) => tuple_components(inner),
        AbiType::Tuple(ps) => abi_params(ps, false),
    }
}

/// The ABI description of one parameter.
pub fn abi_param(p: &Param, event: bool) -> (r: AbiParam)
    ensures
        describes(r, *p, event),
    decreases p,
{
    AbiParam {
        name: p.name.clone(),
        ty: abi_type_text(&p.ty),
        components: tuple_components(&p.ty),
        indexed: if event {
            Some(p.indexed)
        } else {
            None
        },
    }
}

/// The ABI descriptions of a parameter list, in order.
pub fn abi_params(ps: &Vec<Param>, event: bool) -> (r: Vec<AbiParam>)
    ensures
        describes_all(r@, ps@, event),
    decreases ps,
{
    let mut r: Vec<AbiParam> = Vec::new();
    let mut i: usize = 0;
    while i < ps.len()
        invariant
            i <= ps@.len(),
            describes_all(r@, ps@.subrange(0, i as int), event),
        decreases ps@.len() - i,
    {
        let a = abi_param(&ps[i], event);
        let ghost before = r@;
        r.push(a);
        assert(r@.subrange(0, r@.len() - 1) =~= before);
        assert(ps@.subrange(0, i + 1).subrange(0, i as int) =~= ps@.subrange(0, i as int));
        i = i + 1;
    }
    assert(ps@.subrange(0, ps@.len() as int) =~= ps@);
    r
}

/// The ABI entry of one item.
pub fn assemble(item: &Item) -> (r: AbiEntry)
    ensures
        entry_describes(r, *item),
{
    match item {
        Item::Function { name, inputs, outputs, mutability, .. } => AbiEntry {
            kind: EntryKind::Function,
            name: Some(name.clone()),
            inputs: abi_params(inputs, false),
            outputs: abi_params(outputs, false),
            state_mutability: Some(*mutability),
            anonymous: None,
        },
        Item::Event { name, inputs, anonymous } => AbiEntry {
            kind: EntryKind::Event,
            name: Some(name.clone()),
            inputs: abi_params(inputs, true),
            outputs: Vec::new(),
            state_mutability: None,
            anonymous: Some(*anonymous),
        },
        Item::Error { name, inputs } => AbiEntry {
            kind: EntryKind::Error,
            name: Some(name.clone()),
            inputs: abi_params(inputs, false),
            outputs: Vec::new(),
            state_mutability: None,
            anonymous: None,
        },
        Item::Constructor { inputs, mutability } => AbiEntry {
            kind: EntryKind::Constructor,
            name: None,
            inputs: abi_params(inputs, false),
            outputs: Vec::new(),
            state_mutability: Some(*mutability),
            anonymous: None,
        },
        Item::Fallback { mutability } => AbiEntry {
            kind: EntryKind::Fallback,
            name: None,
            inputs: Vec::new(),
            outputs: Vec::new(),
            state_mutability: Some(*mutability),
            anonymous: None,
        },
        Item::Receive => AbiEntry {
            kind: EntryKind::Receive,
            name: None,
            inputs: Vec::new(),
            outputs: Vec::new(),
            state_mutability: Some(Mutability::Payable),
            anonymous: None,
        },
    }
}

} // verus!
