//! Per-contract interface outputs: ABI entries, function selectors, event
//! topics, error selectors and, for interfaces, the interface identifier.
use vstd::prelude::*;
use crate::abi::{abi_order, assemble, entries_describe, insert_entry, AbiEntry};
use crate::hash::{
    hex_of, hex_string, selector_of, selector_spec, selector_views, topic_of, topic_spec,
    xor_id, xor_selectors,
};
use crate::keyed::{has_key, insert_sorted, keys_sorted, lists_map};
use crate::model::{is_external_function, is_externally_callable, Contract, ContractKind, Item};
use crate::signature::{call_sig, call_signature, item_sig};

verus! {

/// The interface of one contract. Each hash list is keyed by canonical
/// signature, in increasing key order; values are lowercase hex.
pub struct ContractOutput {
    pub name: String,
    pub abi: Vec<AbiEntry>,
    pub function_hashes: Vec<(String, String)>,
    pub event_hashes: Vec<(String, String)>,
    pub error_hashes: Vec<(String, String)>,
    /// Present for interfaces only.
    pub interface_id: Option<String>,
}

/// The selectors, by signature, of the externally callable functions of `items`.
pub open spec fn function_map(items: Seq<Item>) -> Map<Seq<char>, Seq<char>>
    decreases items.len(),
{
    if items.len() == 0 {
        Map::empty()
    } else {
        let m = function_map(items.drop_last());
        match item_sig(items.last()) {
            Some(sig) if is_external_function(items.last()) => m.insert(
                sig,
                hex_of(selector_spec(sig)),
            ),
            _ => m,
        }
    }
}

/// The topics, by signature, of the events of `items`.
pub open spec fn event_map(items: Seq<Item>) -> Map<Seq<char>, Seq<char>>
    decreases items.len(),
{
    if items.len() == 0 {
        Map::empty()
    } else {
        let m = event_map(items.drop_last());
        match item_sig(items.last()) {
            Some(sig) if items.last() is Event => m.insert(sig, hex_of(topic_spec(sig))),
            _ => m,
        }
    }
}

/// The selectors, by signature, of the errors of `items`.
pub open spec fn error_map(items: Seq<Item>) -> Map<Seq<char>, Seq<char>>
    decreases items.len(),
{
    if items.len() == 0 {
        Map::empty()
    } else {
        let m = error_map(items.drop_last());
        match item_sig(items.last()) {
            Some(sig) if items.last() is Error => m.insert(sig, hex_of(selector_spec(sig))),
            _ => m,
        }
    }
}

/// The selectors of the externally callable functions of `items`, in order.
pub open spec fn external_selectors(items: Seq<Item>) -> Seq<Seq<u8>>
    decreases items.len(),
{
    if items.len() == 0 {
        Seq::empty()
    } else {
        let s = external_selectors(items.drop_last());
        match item_sig(items.last()) {
            Some(sig) if is_external_function(items.last()) => s.push(selector_spec(sig)),
            _ => s,
        }
    }
}

/// The interface identifier of a contract: the XOR of the selectors of its
/// directly declared externally callable functions, for interfaces only.
pub open spec fn interface_id_spec(c: Contract) -> Option<Seq<char>> {
    if c.kind == ContractKind::Interface {
        Some(hex_of(xor_id(external_selectors(c.items@))))
    } else {
        None
    }
}

/// `prev` holds an externally callable function with signature `sig`.
pub open spec fn has_sig(prev: Seq<Item>, sig: Seq<char>) -> bool {
    exists|j: int|
        0 <= j < prev.len() && is_external_function(prev[j]) && #[trigger] item_sig(prev[j]) == Some(
            sig,
        )
}

/// `prev` holds a fallback function.
pub open spec fn has_fallback(prev: Seq<Item>) -> bool {
    exists|j: int| 0 <= j < prev.len() && #[trigger] prev[j] is Fallback
}

/// `prev` holds a receive function.
pub open spec fn has_receive(prev: Seq<Item>) -> bool {
    exists|j: int| 0 <= j < prev.len() && #[trigger] prev[j] is Receive
}

/// Whether `x` joins the interface after the items `prev` already in it;
/// `own` says whether the contract itself declares `x`. The first function
/// with a signature wins (an override shadows what it overrides), as do the
/// first fallback and receive; constructors come from the contract itself
/// only, and not for an abstract contract; events and errors of the contract
/// and of every base all join.
pub open spec fn admits(prev: Seq<Item>, x: Item, own: bool, is_abstract: bool) -> bool {
    match x {
        Item::Function { name, inputs, .. } => is_external_function(x) && !has_sig(
            prev,
            call_sig(name@, inputs@),
        ),
        Item::Fallback { .. } => !has_fallback(prev),
        Item::Receive => !has_receive(prev),
        Item::Constructor { .. } => own && !is_abstract,
        _ => true,
    }
}

/// The items of `s` that join the interface, in order; the first `own_len`
/// are the contract's own.
pub open spec fn select(s: Seq<Item>, own_len: int, is_abstract: bool) -> Seq<Item>
    decreases s.len(),
{
    if s.len() == 0 {
        Seq::empty()
    } else {
        let prev = select(s.drop_last(), own_len, is_abstract);
        if admits(prev, s.last(), s.len() <= own_len, is_abstract) {
            prev.push(s.last())
        } else {
            prev
        }
    }
}

/// The interface items of a contract: its own, then the inherited ones.
pub open spec fn interface_items(c: Contract) -> Seq<Item> {
    select(c.items@ + c.inherited@, c.items@.len() as int, c.is_abstract)
}

/// `o` is the interface output of contract `c`.
pub open spec fn output_describes(o: ContractOutput, c: Contract) -> bool {
    let xs = interface_items(c);
    &&& o.name@ == c.name@
    &&& entries_describe(o.abi@, abi_order(xs))
    &&& keys_sorted(o.function_hashes@)
    &&& lists_map(o.function_hashes@, function_map(xs))
    &&& keys_sorted(o.event_hashes@)
    &&& lists_map(o.event_hashes@, event_map(c.items@))
    &&& keys_sorted(o.error_hashes@)
    &&& lists_map(o.error_hashes@, error_map(c.items@))
    &&& forall|i: int|
        0 <= i < o.function_hashes@.len() ==> (#[trigger] o.function_hashes@[i]).1@.len() == 8
    &&& forall|i: int|
        0 <= i < o.event_hashes@.len() ==> (#[trigger] o.event_hashes@[i]).1@.len() == 64
    &&& forall|i: int|
        0 <= i < o.error_hashes@.len() ==> (#[trigger] o.error_hashes@[i]).1@.len() == 8
    &&& match interface_id_spec(c) {
        Some(id) => o.interface_id matches Some(x) && x@ == id,
        None => o.interface_id is None,
    }
}

proof fn lemma_function_map_keys(s: Seq<Item>, k: Seq<char>)
    ensures
        function_map(s).contains_key(k) == has_sig(s, k),
    decreases s.len(),
{
    if s.len() > 0 {
        let d = s.drop_last();
        lemma_function_map_keys(d, k);
        if has_sig(d, k) {
            let j = choose|j: int|
                0 <= j < d.len() && is_external_function(d[j]) && #[trigger] item_sig(d[j]) == Some(
                    k,
                );
            assert(s[j] == d[j]);
        }
        if has_sig(s, k) {
            let j = choose|j: int|
                0 <= j < s.len() && is_external_function(s[j]) && #[trigger] item_sig(s[j]) == Some(
                    k,
                );
            if j < s.len() - 1 {
                assert(d[j] == s[j]);
            }
        }
    }
}

proof fn lemma_push_flags(prev: Seq<Item>, x: Item)
    ensures
        has_fallback(prev.push(x)) == (has_fallback(prev) || x is Fallback),
        has_receive(prev.push(x)) == (has_receive(prev) || x is Receive),
{
    let t = prev.push(x);
    if has_fallback(prev) {
        let j = choose|j: int| 0 <= j < prev.len() && #[trigger] prev[j] is Fallback;
        assert(t[j] == prev[j]);
    }
    if has_receive(prev) {
        let j = choose|j: int| 0 <= j < prev.len() && #[trigger] prev[j] is Receive;
        assert(t[j] == prev[j]);
    }
    if x is Fallback {
        assert(t[prev.len() as int] == x);
    }
    if x is Receive {
        assert(t[prev.len() as int] == x);
    }
    if has_fallback(t) {
        let j = choose|j: int| 0 <= j < t.len() && #[trigger] t[j] is Fallback;
        if j < prev.len() {
            assert(prev[j] == t[j]);
        }
    }
    if has_receive(t) {
        let j = choose|j: int| 0 <= j < t.len() && #[trigger] t[j] is Receive;
        if j < prev.len() {
            assert(prev[j] == t[j]);
        }
    }
}

/// The selectors of the externally callable functions among `items`, in order.
pub fn own_selectors(items: &Vec<Item>) -> (r: Vec<[u8; 4]>)
    ensures
        selector_views(r@) == external_selectors(items@),
{
    let mut sels: Vec<[u8; 4]> = Vec::new();
    let mut i: usize = 0;
    while i < items.len()
        invariant
            i <= items@.len(),
            selector_views(sels@) == external_selectors(items@.subrange(0, i as int)),
        decreases items@.len() - i,
    {
        let item = &items[i];
        assert(items@.subrange(0, i + 1).drop_last() =~= items@.subrange(0, i as int));
        let ghost sels0 = sels@;
        match item {
            Item::Function { name, inputs, .. } => {
                if is_externally_callable(item) {
                    let sig = call_signature(name.as_str(), inputs);
                    let sel = selector_of(sig.as_str());
                    sels.push(sel);
                    assert(selector_views(sels@) =~= selector_views(sels0).push(sel@));
                }
            },
            _ => {},
        }
        i = i + 1;
    }
    assert(items@.subrange(0, items@.len() as int) =~= items@);
    sels
}

/// Builds the interface output of one contract.
pub fn collect_contract(c: &Contract) -> (r: ContractOutput)
    ensures
        output_describes(r, *c),
{
    let mut abi: Vec<AbiEntry> = Vec::new();
    let mut fh: Vec<(String, String)> = Vec::new();
    let mut eh: Vec<(String, String)> = Vec::new();
    let mut erh: Vec<(String, String)> = Vec::new();
    let mut seen_fallback = false;
    let mut seen_receive = false;
    let ghost all = c.items@ + c.inherited@;
    let n_own = c.items.len();
    let n_inh = c.inherited.len();
    let ghost mut chosen: Seq<Item> = Seq::empty();
    let mut i: usize = 0;
    let mut j: usize = 0;
    while i < n_own || j < n_inh
        invariant
            all == c.items@ + c.inherited@,
            n_own == c.items@.len(),
            n_inh == c.inherited@.len(),
            i <= n_own,
            j <= n_inh,
            j > 0 ==> i == n_own,
            chosen == select(all.subrange(0, i + j), n_own as int, c.is_abstract),
            entries_describe(abi@, abi_order(chosen)),
            seen_fallback == has_fallback(chosen),
            seen_receive == has_receive(chosen),
            keys_sorted(fh@),
            lists_map(fh@, function_map(chosen)),
            keys_sorted(eh@),
            lists_map(eh@, event_map(c.items@.subrange(0, i as int))),
            keys_sorted(erh@),
            lists_map(erh@, error_map(c.items@.subrange(0, i as int))),
            forall|j: int| 0 <= j < fh@.len() ==> (#[trigger] fh@[j]).1@.len() == 8,
            forall|j: int| 0 <= j < eh@.len() ==> (#[trigger] eh@[j]).1@.len() == 64,
            forall|j: int| 0 <= j < erh@.len() ==> (#[trigger] erh@[j]).1@.len() == 8,
        decreases n_own + n_inh - i - j,
    {
        let own = i < n_own;
        let item = if own {
            &c.items[i]
        } else {
            &c.inherited[j]
        };
        let ghost k = i + j;
        assert(*item == all[k]);
        let ghost cur = all.subrange(0, k + 1);
        assert(cur.drop_last() =~= all.subrange(0, k));
        assert(cur.last() == *item);
        let ghost prev = chosen;
        proof {
            if own {
                assert(c.items@.subrange(0, i + 1).drop_last() =~= c.items@.subrange(0, i as int));
                assert(c.items@.subrange(0, i + 1).last() == *item);
            }
        }
        let joins = match item {
            Item::Function { name, inputs, .. } => {
                if is_externally_callable(item) {
                    let sig = call_signature(name.as_str(), inputs);
                    let known = has_key(&fh, &sig);
                    proof {
                        lemma_function_map_keys(prev, sig@);
                    }
                    if !known {
                        let sel = selector_of(sig.as_str());
                        let hex = hex_string(sel.as_slice());
                        insert_sorted(&mut fh, sig, hex);
                    }
                    !known
                } else {
                    false
                }
            },
            Item::Event { name, inputs, .. } => {
                if own {
                    let sig = call_signature(name.as_str(), inputs);
                    let topic = topic_of(sig.as_str());
                    let hex = hex_string(topic.as_slice());
                    insert_sorted(&mut eh, sig, hex);
                }
                true
            },
            Item::Error { name, inputs } => {
                if own {
                    let sig = call_signature(name.as_str(), inputs);
                    let sel = selector_of(sig.as_str());
                    let hex = hex_string(sel.as_slice());
                    insert_sorted(&mut erh, sig, hex);
                }
                true
            },
            Item::Constructor { .. } => own && !c.is_abstract,
            Item::Fallback { .. } => {
                let first = !seen_fallback;
                seen_fallback = true;
                first
            },
            Item::Receive => {
                let first = !seen_receive;
                seen_receive = true;
                first
            },
        };
        assert(joins == admits(prev, *item, cur.len() <= n_own as int, c.is_abstract));
        if joins {
            let e = assemble(item);
            insert_entry(&mut abi, e, Ghost(abi_order(prev)), Ghost(*item));
            proof {
                chosen = prev.push(*item);
                assert(chosen.drop_last() =~= prev);
                lemma_push_flags(prev, *item);
            }
        }
        if own {
            i = i + 1;
        } else {
            j = j + 1;
        }
    }
    assert(all.subrange(0, all.len() as int) =~= all);
    assert(c.items@.subrange(0, n_own as int) =~= c.items@);
    let interface_id = match c.kind {
        ContractKind::Interface => {
            let sels = own_selectors(&c.items);
            let id = xor_selectors(&sels);
            Some(hex_string(id.as_slice()))
        },
        _ => None,
    };
    ContractOutput {
        name: c.name.clone(),
        abi,
        function_hashes: fh,
        event_hashes: eh,
        error_hashes: erh,
        interface_id,
    }
}

/// The interface outputs of all contracts, in declaration order.
pub fn collect(contracts: &Vec<Contract>) -> (r: Vec<ContractOutput>)
    ensures
        r@.len() == contracts@.len(),
        forall|i: int| 0 <= i < r@.len() ==> output_describes(#[trigger] r@[i], contracts@[i]),
{
    let mut r: Vec<ContractOutput> = Vec::new();
    let mut i: usize = 0;
    while i < contracts.len()
        invariant
            i <= contracts@.len(),
            r@.len() == i,
            forall|j: int| 0 <= j < i ==> output_describes(#[trigger] r@[j], contracts@[j]),
        decreases contracts@.len() - i,
    {
        let o = collect_contract(&contracts[i]);
        r.push(o);
        i = i + 1;
    }
    r
}

} // verus!
