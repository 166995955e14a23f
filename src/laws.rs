//! Properties that relate several derivations: determinism of the outputs,
//! independence of the interface identifier from declaration order, and
//! distinctness of signatures.
use vstd::prelude::*;
use vstd::multiset::Multiset;
use crate::collect::{
    error_map, event_map, external_selectors, function_map, interface_id_spec, output_describes,
    ContractOutput,
};
use crate::hash::{lemma_xor_id_order_independent, selector_spec};
use crate::abi::{abi_order, entry_describes, entry_name, lemma_entry_key};
use crate::keyed::{keys_sorted, lists_map};
use crate::text::{lemma_text_lt_irreflexive, lemma_text_lt_transitive, text_lt};
use crate::model::{is_external_function, Contract, Item, Param};
use crate::signature::{call_sig, item_sig};

verus! {

/// `a` and `b` hold the same key and value texts, position by position.
pub open spec fn same_entries(a: Seq<(String, String)>, b: Seq<(String, String)>) -> bool {
    &&& a.len() == b.len()
    &&& forall|i: int| 0 <= i < a.len() ==> (#[trigger] a[i]).0@ == b[i].0@ && a[i].1@ == b[i].1@
}

proof fn lemma_sorted_lists_agree(
    a: Seq<(String, String)>,
    b: Seq<(String, String)>,
    m: Map<Seq<char>, Seq<char>>,
)
    requires
        keys_sorted(a),
        keys_sorted(b),
        lists_map(a, m),
        lists_map(b, m),
    ensures
        same_entries(a, b),
    decreases a.len(),
{
    if a.len() == 0 {
        if b.len() > 0 {
            assert(m.contains_key(b[0].0@));
        }
    } else if b.len() == 0 {
        assert(m.contains_key(a[0].0@));
    } else {
        let k = a[0].0@;
        assert(m.contains_key(k));
        let j = choose|j: int| 0 <= j < b.len() && #[trigger] b[j].0@ == k;
        assert(m.contains_key(b[0].0@));
        let i = choose|i: int| 0 <= i < a.len() && #[trigger] a[i].0@ == b[0].0@;
        if j > 0 {
            assert(text_lt(b[0].0@, b[j].0@));
            if i > 0 {
                assert(text_lt(a[0].0@, a[i].0@));
                lemma_text_lt_transitive(k, a[i].0@, k);
            }
            lemma_text_lt_irreflexive(k);
        }
        let m2 = m.remove(k);
        let a2 = a.drop_first();
        let b2 = b.drop_first();
        assert forall|x: int| 0 <= x < a2.len() implies #[trigger] a2[x].0@ != k by {
            assert(text_lt(a[0].0@, a[x + 1].0@));
            lemma_text_lt_irreflexive(k);
        }
        assert forall|x: int| 0 <= x < b2.len() implies #[trigger] b2[x].0@ != k by {
            assert(text_lt(b[0].0@, b[x + 1].0@));
            lemma_text_lt_irreflexive(k);
        }
        assert forall|x: int, y: int| 0 <= x < y < a2.len() implies text_lt(
            #[trigger] a2[x].0@,
            #[trigger] a2[y].0@,
        ) by {
            assert(text_lt(a[x + 1].0@, a[y + 1].0@));
        }
        assert forall|x: int, y: int| 0 <= x < y < b2.len() implies text_lt(
            #[trigger] b2[x].0@,
            #[trigger] b2[y].0@,
        ) by {
            assert(text_lt(b[x + 1].0@, b[y + 1].0@));
        }
        assert forall|kk: Seq<char>| m2.contains_key(kk) implies exists|x: int|
            0 <= x < a2.len() && #[trigger] a2[x].0@ == kk by {
            let x = choose|x: int| 0 <= x < a.len() && #[trigger] a[x].0@ == kk;
            assert(a2[x - 1].0@ == kk);
        }
        assert forall|kk: Seq<char>| m2.contains_key(kk) implies exists|x: int|
            0 <= x < b2.len() && #[trigger] b2[x].0@ == kk by {
            let x = choose|x: int| 0 <= x < b.len() && #[trigger] b[x].0@ == kk;
            assert(b2[x - 1].0@ == kk);
        }
        assert forall|x: int| 0 <= x < a2.len() implies m2.contains_key(#[trigger] a2[x].0@)
            && m2[a2[x].0@] == a2[x].1@ by {
            assert(a2[x] == a[x + 1]);
        }
        assert forall|x: int| 0 <= x < b2.len() implies m2.contains_key(#[trigger] b2[x].0@)
            && m2[b2[x].0@] == b2[x].1@ by {
            assert(b2[x] == b[x + 1]);
        }
        lemma_sorted_lists_agree(a2, b2, m2);
        assert forall|x: int| 0 <= x < a.len() implies (#[trigger] a[x]).0@ == b[x].0@ && a[x].1@
            == b[x].1@ by {
            if x > 0 {
                assert(a[x] == a2[x - 1] && b[x] == b2[x - 1]);
            }
        }
    }
}

/// Derivation is a function of the resolved contract: two outputs derived
/// from the same contract carry the same name, the same selectors, topics
/// and error selectors under the same signatures in the same order, and the
/// same interface id, and ABI entries of the same kinds and names in the
/// same order.
pub proof fn lemma_outputs_deterministic(o1: ContractOutput, o2: ContractOutput, c: Contract)
    requires
        output_describes(o1, c),
        output_describes(o2, c),
    ensures
        o1.name@ == o2.name@,
        o1.abi@.len() == o2.abi@.len(),
        forall|i: int|
            0 <= i < o1.abi@.len() ==> (#[trigger] o1.abi@[i]).kind == o2.abi@[i].kind
                && entry_name(o1.abi@[i]) == entry_name(o2.abi@[i]),
        same_entries(o1.function_hashes@, o2.function_hashes@),
        same_entries(o1.event_hashes@, o2.event_hashes@),
        same_entries(o1.error_hashes@, o2.error_hashes@),
        o1.interface_id is Some <==> o2.interface_id is Some,
        o1.interface_id matches Some(x) ==> o2.interface_id matches Some(y) && x@ == y@,
{
    let items = crate::collect::interface_items(c);
    let xs = abi_order(items);
    assert forall|i: int| 0 <= i < o1.abi@.len() implies (#[trigger] o1.abi@[i]).kind
        == o2.abi@[i].kind && entry_name(o1.abi@[i]) == entry_name(o2.abi@[i]) by {
        assert(entry_describes(o1.abi@[i], xs[i]));
        assert(entry_describes(o2.abi@[i], xs[i]));
        lemma_entry_key(o1.abi@[i], xs[i]);
        lemma_entry_key(o2.abi@[i], xs[i]);
    }
    lemma_sorted_lists_agree(o1.function_hashes@, o2.function_hashes@, function_map(items));
    lemma_sorted_lists_agree(o1.event_hashes@, o2.event_hashes@, event_map(c.items@));
    lemma_sorted_lists_agree(o1.error_hashes@, o2.error_hashes@, error_map(c.items@));
}

/// The selector an item contributes to the interface identifier, if any.
pub open spec fn contributed(item: Item) -> Multiset<Seq<u8>> {
    match item_sig(item) {
        Some(sig) if is_external_function(item) => Multiset::singleton(selector_spec(sig)),
        _ => Multiset::empty(),
    }
}

proof fn lemma_selectors_remove(items: Seq<Item>, j: int)
    requires
        0 <= j < items.len(),
    ensures
        external_selectors(items).to_multiset() == external_selectors(items.remove(j)).to_multiset().add(
            contributed(items[j]),
        ),
    decreases items.len(),
{
    broadcast use vstd::seq_lib::group_to_multiset_ensures, vstd::multiset::group_multiset_axioms;

    let last = items.last();
    if j == items.len() - 1 {
        assert(items.remove(j) =~= items.drop_last());
        let s = external_selectors(items.drop_last());
        assert(external_selectors(items).to_multiset() =~= s.to_multiset().add(contributed(last)))
            by {
            match item_sig(last) {
                Some(sig) => {
                    if is_external_function(last) {
                        assert(s.push(selector_spec(sig)).to_multiset() =~= s.to_multiset().insert(
                            selector_spec(sig),
                        ));
                    }
                },
                None => {},
            }
        }
    } else {
        lemma_selectors_remove(items.drop_last(), j);
        assert(items.remove(j).drop_last() =~= items.drop_last().remove(j));
        assert(items.remove(j).last() == last);
        let a = external_selectors(items.drop_last());
        let b = external_selectors(items.drop_last().remove(j));
        match item_sig(last) {
            Some(sig) => {
                if is_external_function(last) {
                    let x = selector_spec(sig);
                    assert(a.push(x).to_multiset() =~= a.to_multiset().insert(x));
                    assert(b.push(x).to_multiset() =~= b.to_multiset().insert(x));
                    assert(external_selectors(items).to_multiset() =~= external_selectors(
                        items.remove(j),
                    ).to_multiset().add(contributed(items[j])));
                }
            },
            None => {},
        }
    }
}

proof fn lemma_selectors_permutation(a: Seq<Item>, b: Seq<Item>)
    requires
        a.to_multiset() == b.to_multiset(),
    ensures
        external_selectors(a).to_multiset() == external_selectors(b).to_multiset(),
    decreases a.len(),
{
    broadcast use vstd::seq_lib::group_to_multiset_ensures, vstd::multiset::group_multiset_axioms;

    if a.len() == 0 {
        assert(b.to_multiset().len() == 0);
        assert(b =~= a);
    } else {
        let x = a.last();
        assert(a.to_multiset().count(x) > 0) by {
            assert(a.contains(x));
        }
        assert(b.contains(x));
        let j = choose|j: int| 0 <= j < b.len() && b[j] == x;
        assert(a =~= a.drop_last().push(x));
        assert(a.drop_last().to_multiset() =~= a.to_multiset().remove(x)) by {
            vstd::seq_lib::to_multiset_build(a.drop_last(), x);
        }
        vstd::seq_lib::to_multiset_remove(b, j);
        lemma_selectors_permutation(a.drop_last(), b.remove(j));
        lemma_selectors_remove(b, j);
        lemma_selectors_remove(a, a.len() - 1);
        assert(a.remove(a.len() - 1) =~= a.drop_last());
    }
}

/// The interface identifier does not depend on the order in which a
/// contract declares its items: any reordering of the same items, in a
/// contract of the same kind, gives the same identifier.
pub proof fn lemma_interface_id_order_independent(c1: Contract, c2: Contract)
    requires
        c1.kind == c2.kind,
        c1.items@.to_multiset() == c2.items@.to_multiset(),
    ensures
        interface_id_spec(c1) == interface_id_spec(c2),
{
    lemma_selectors_permutation(c1.items@, c2.items@);
    lemma_xor_id_order_independent(external_selectors(c1.items@), external_selectors(c2.items@));
}

/// Two declarations with the same parameters but different names (names
/// hold no parenthesis) have different canonical signatures.
pub proof fn lemma_distinct_names_distinct_signatures(
    n1: Seq<char>,
    n2: Seq<char>,
    ps: Seq<Param>,
)
    requires
        n1 != n2,
        !n1.contains('('),
        !n2.contains('('),
    ensures
        call_sig(n1, ps) != call_sig(n2, ps),
{
    let s1 = call_sig(n1, ps);
    let s2 = call_sig(n2, ps);
    if n1.len() == n2.len() {
        assert(!(n1 =~= n2));
        let i = choose|i: int| 0 <= i < n1.len() && n1[i] != n2[i];
        assert(s1[i] == n1[i]);
        assert(s2[i] == n2[i]);
    } else if n1.len() < n2.len() {
        let i = n1.len() as int;
        assert(s1[i] == '(');
        assert(n2.contains(n2[i]));
        assert(s2[i] == n2[i]);
    } else {
        let i = n2.len() as int;
        assert(s2[i] == '(');
        assert(n1.contains(n1[i]));
        assert(s1[i] == n1[i]);
    }
}

} // verus!
