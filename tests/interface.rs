use solar_abi::abi::{abi_type_text, assemble, mutability_text, EntryKind};
use solar_abi::collect::{collect, collect_contract};
use solar_abi::hash::{hex_string, selector_of, topic_of, xor_selectors};
use solar_abi::model::{AbiType, Contract, ContractKind, Item, Mutability, Param, Visibility};
use solar_abi::signature::{decimal_text, signature_of, type_signature};

fn elem(name: &str) -> AbiType {
    AbiType::Elementary(name.to_string())
}

fn param(name: &str, ty: AbiType) -> Param {
    Param { name: name.to_string(), ty, indexed: false }
}

fn func(name: &str, inputs: Vec<Param>, visibility: Visibility) -> Item {
    Item::Function {
        name: name.to_string(),
        inputs,
        outputs: vec![param("", elem("bool"))],
        mutability: Mutability::NonPayable,
        visibility,
    }
}

fn erc20_functions() -> Vec<Item> {
    vec![
        func("totalSupply", vec![], Visibility::External),
        func("balanceOf", vec![param("owner", elem("address"))], Visibility::External),
        func(
            "transfer",
            vec![param("to", elem("address")), param("amount", elem("uint256"))],
            Visibility::External,
        ),
        func(
            "transferFrom",
            vec![
                param("from", elem("address")),
                param("to", elem("address")),
                param("amount", elem("uint256")),
            ],
            Visibility::External,
        ),
        func(
            "approve",
            vec![param("spender", elem("address")), param("amount", elem("uint256"))],
            Visibility::External,
        ),
        func(
            "allowance",
            vec![param("owner", elem("address")), param("spender", elem("address"))],
            Visibility::External,
        ),
    ]
}

#[test]
fn transfer_selector_known_vector() {
    let sel = selector_of("transfer(address,uint256)");
    assert_eq!(sel, [0xa9, 0x05, 0x9c, 0xbb]);
    assert_eq!(hex_string(&sel), "a9059cbb");
}

#[test]
fn selector_and_topic_lengths() {
    for sig in ["f()", "transfer(address,uint256)", "Transfer(address,address,uint256)"] {
        assert_eq!(hex_string(&selector_of(sig)).len(), 8);
        assert_eq!(hex_string(&topic_of(sig)).len(), 64);
    }
}

#[test]
fn transfer_event_topic() {
    let topic = topic_of("Transfer(address,address,uint256)");
    assert_eq!(
        hex_string(&topic),
        "ddf252ad1be2c89b69c2b068fc378daa952ba7f163c4a11628f55a4df523b3ef"
    );
}

#[test]
fn error_selector_known_vector() {
    assert_eq!(hex_string(&selector_of("Error(string)")), "08c379a0");
}

#[test]
fn hex_is_lowercase_two_digits_per_byte() {
    assert_eq!(hex_string(&[0x00, 0x0f, 0xab, 0xff]), "000fabff");
    assert_eq!(hex_string(&[]), "");
}

#[test]
fn decimal_forms() {
    assert_eq!(decimal_text(0), "0");
    assert_eq!(decimal_text(7), "7");
    assert_eq!(decimal_text(10), "10");
    assert_eq!(decimal_text(1234), "1234");
}

#[test]
fn nested_type_signatures() {
    let tuple = AbiType::Tuple(vec![param("a", elem("uint256")), param("b", elem("address"))]);
    let arr = AbiType::Array(Box::new(tuple), None);
    assert_eq!(type_signature(&arr), "(uint256,address)[]");
    assert_eq!(abi_type_text(&arr), "tuple[]");
    let fixed = AbiType::Array(Box::new(elem("bytes32")), Some(3));
    assert_eq!(type_signature(&fixed), "bytes32[3]");
    let item = Item::Error { name: "Bad".to_string(), inputs: vec![param("xs", arr), param("", fixed)] };
    assert_eq!(signature_of(&item).unwrap(), "Bad((uint256,address)[],bytes32[3])");
}

#[test]
fn signature_excludes_names_outputs_and_mutability() {
    let item = func(
        "transfer",
        vec![param("to", elem("address")), param("amount", elem("uint256"))],
        Visibility::Public,
    );
    assert_eq!(signature_of(&item).unwrap(), "transfer(address,uint256)");
}

#[test]
fn unselectable_items_have_no_signature() {
    assert!(signature_of(&Item::Receive).is_none());
    assert!(signature_of(&Item::Fallback { mutability: Mutability::Payable }).is_none());
    let ctor = Item::Constructor { inputs: vec![], mutability: Mutability::NonPayable };
    assert!(signature_of(&ctor).is_none());
}

#[test]
fn erc165_interface_id() {
    let c = Contract {
        name: "IERC165".to_string(),
        kind: ContractKind::Interface, is_abstract: false, inherited: vec![],
        items: vec![func("supportsInterface", vec![param("id", elem("bytes4"))], Visibility::External)],
    };
    let out = collect_contract(&c);
    assert_eq!(out.interface_id.as_deref(), Some("01ffc9a7"));
}

#[test]
fn erc20_interface_id() {
    let c = Contract { name: "IERC20".to_string(), kind: ContractKind::Interface, is_abstract: false, inherited: vec![], items: erc20_functions() };
    let out = collect_contract(&c);
    assert_eq!(out.interface_id.as_deref(), Some("36372b07"));
}

#[test]
fn interface_id_independent_of_order() {
    let mut items = erc20_functions();
    items.reverse();
    items.swap(1, 4);
    let c = Contract { name: "IERC20".to_string(), kind: ContractKind::Interface, is_abstract: false, inherited: vec![], items };
    assert_eq!(collect_contract(&c).interface_id.as_deref(), Some("36372b07"));
}

#[test]
fn interface_id_absent_for_contracts() {
    let c = Contract { name: "Token".to_string(), kind: ContractKind::Contract, is_abstract: false, inherited: vec![], items: erc20_functions() };
    assert!(collect_contract(&c).interface_id.is_none());
    let l = Contract { name: "Lib".to_string(), kind: ContractKind::Library, is_abstract: false, inherited: vec![], items: vec![] };
    assert!(collect_contract(&l).interface_id.is_none());
}

#[test]
fn xor_of_no_selectors_is_zero() {
    assert_eq!(xor_selectors(&vec![]), [0, 0, 0, 0]);
    assert_eq!(xor_selectors(&vec![[1, 2, 3, 4], [1, 2, 3, 4]]), [0, 0, 0, 0]);
}

#[test]
fn same_parameters_different_names_give_different_selectors() {
    let a = func("foo", vec![param("x", elem("uint256"))], Visibility::External);
    let b = func("bar", vec![param("x", elem("uint256"))], Visibility::External);
    let c = Contract { name: "C".to_string(), kind: ContractKind::Contract, is_abstract: false, inherited: vec![], items: vec![a, b] };
    let out = collect_contract(&c);
    assert_eq!(out.function_hashes.len(), 2);
    assert_ne!(out.function_hashes[0].1, out.function_hashes[1].1);
}

#[test]
fn hashes_sorted_by_signature() {
    let items = vec![
        func("zeta", vec![], Visibility::External),
        func("alpha", vec![param("", elem("uint8"))], Visibility::Public),
        func("hidden", vec![], Visibility::Internal),
        func("alpha", vec![], Visibility::External),
        Item::Event {
            name: "Transfer".to_string(),
            inputs: vec![param("from", elem("address")), param("to", elem("address")), param("v", elem("uint256"))],
            anonymous: false,
        },
        Item::Event { name: "Approval".to_string(), inputs: vec![], anonymous: false },
        Item::Error { name: "Error".to_string(), inputs: vec![param("", elem("string"))] },
    ];
    let c = Contract { name: "src/T.sol:T".to_string(), kind: ContractKind::Contract, is_abstract: false, inherited: vec![], items };
    let out = collect_contract(&c);
    assert_eq!(out.name, "src/T.sol:T");
    let keys: Vec<&str> = out.function_hashes.iter().map(|(k, _)| k.as_str()).collect();
    assert_eq!(keys, vec!["alpha()", "alpha(uint8)", "zeta()"]);
    let ekeys: Vec<&str> = out.event_hashes.iter().map(|(k, _)| k.as_str()).collect();
    assert_eq!(ekeys, vec!["Approval()", "Transfer(address,address,uint256)"]);
    assert_eq!(out.event_hashes[1].1, "ddf252ad1be2c89b69c2b068fc378daa952ba7f163c4a11628f55a4df523b3ef");
    assert_eq!(out.error_hashes.len(), 1);
    assert_eq!(out.error_hashes[0].0, "Error(string)");
    assert_eq!(out.error_hashes[0].1, "08c379a0");
    // internal functions stay out of the ABI; the rest is ordered by tag,
    // then name, ties in declaration order
    let order: Vec<(String, Option<String>)> =
        out.abi.iter().map(|e| (e.kind.tag(), e.name.clone())).collect();
    let want: Vec<(String, Option<String>)> = vec![
        ("error".to_string(), Some("Error".to_string())),
        ("event".to_string(), Some("Approval".to_string())),
        ("event".to_string(), Some("Transfer".to_string())),
        ("function".to_string(), Some("alpha".to_string())),
        ("function".to_string(), Some("alpha".to_string())),
        ("function".to_string(), Some("zeta".to_string())),
    ];
    assert_eq!(order, want);
    assert_eq!(out.abi[3].inputs.len(), 1);
    assert_eq!(out.abi[4].inputs.len(), 0);
    assert_eq!(out.abi[0].kind, EntryKind::Error);
}

#[test]
fn repeated_signature_keeps_one_entry() {
    let items = vec![
        Item::Event { name: "E".to_string(), inputs: vec![], anonymous: false },
        Item::Event { name: "E".to_string(), inputs: vec![], anonymous: true },
    ];
    let c = Contract { name: "C".to_string(), kind: ContractKind::Contract, is_abstract: false, inherited: vec![], items };
    let out = collect_contract(&c);
    assert_eq!(out.event_hashes.len(), 1);
    assert_eq!(out.event_hashes[0].0, "E()");
}

#[test]
fn derivation_is_deterministic() {
    let c = Contract { name: "IERC20".to_string(), kind: ContractKind::Interface, is_abstract: false, inherited: vec![], items: erc20_functions() };
    let a = collect_contract(&c);
    let b = collect_contract(&c);
    assert_eq!(a.function_hashes, b.function_hashes);
    assert_eq!(a.interface_id, b.interface_id);
}

#[test]
fn collect_keeps_declaration_order() {
    let cs = vec![
        Contract { name: "B".to_string(), kind: ContractKind::Contract, is_abstract: false, inherited: vec![], items: vec![] },
        Contract { name: "A".to_string(), kind: ContractKind::Interface, is_abstract: false, inherited: vec![], items: vec![] },
    ];
    let out = collect(&cs);
    assert_eq!(out.len(), 2);
    assert_eq!(out[0].name, "B");
    assert_eq!(out[1].name, "A");
    assert_eq!(out[1].interface_id.as_deref(), Some("00000000"));
}

#[test]
fn abi_entries_per_kind() {
    let ev = Item::Event {
        name: "Deposit".to_string(),
        inputs: vec![Param { name: "who".to_string(), ty: elem("address"), indexed: true }],
        anonymous: true,
    };
    let e = assemble(&ev);
    assert_eq!(e.kind.tag(), "event");
    assert_eq!(e.anonymous, Some(true));
    assert_eq!(e.inputs[0].indexed, Some(true));
    assert_eq!(e.inputs[0].ty, "address");
    assert!(e.state_mutability.is_none());

    let r = assemble(&Item::Receive);
    assert_eq!(r.kind.tag(), "receive");
    assert_eq!(r.state_mutability, Some(Mutability::Payable));
    assert!(r.name.is_none());

    let tuple = AbiType::Tuple(vec![param("x", elem("uint256")), param("y", elem("bool"))]);
    let f = Item::Function {
        name: "get".to_string(),
        inputs: vec![param("p", AbiType::Array(Box::new(tuple), Some(2)))],
        outputs: vec![param("", elem("uint256"))],
        mutability: Mutability::View,
        visibility: Visibility::External,
    };
    let e = assemble(&f);
    assert_eq!(e.kind.tag(), "function");
    assert_eq!(e.name.as_deref(), Some("get"));
    assert_eq!(e.inputs[0].ty, "tuple[2]");
    assert_eq!(e.inputs[0].indexed, None);
    assert_eq!(e.inputs[0].components.len(), 2);
    assert_eq!(e.inputs[0].components[1].name, "y");
    assert_eq!(e.inputs[0].components[1].ty, "bool");
    assert_eq!(e.outputs.len(), 1);
    assert_eq!(mutability_text(e.state_mutability.unwrap()), "view");
    assert_eq!(mutability_text(Mutability::NonPayable), "nonpayable");
}

#[test]
fn inherited_functions_join_hashes_and_abi() {
    // interface B is A: A's functions count for B's hashes and ABI, not its id
    let own = vec![func("balanceOf", vec![param("a", elem("address"))], Visibility::External)];
    let inherited = vec![func(
        "transfer",
        vec![param("to", elem("address")), param("v", elem("uint256"))],
        Visibility::External,
    )];
    let c = Contract { name: "B".to_string(), kind: ContractKind::Interface, is_abstract: false, items: own, inherited };
    let out = collect_contract(&c);
    let keys: Vec<&str> = out.function_hashes.iter().map(|(k, _)| k.as_str()).collect();
    assert_eq!(keys, vec!["balanceOf(address)", "transfer(address,uint256)"]);
    assert_eq!(out.function_hashes[1].1, "a9059cbb");
    assert_eq!(out.abi.len(), 2);
    assert_eq!(out.abi[1].name.as_deref(), Some("transfer"));
    assert_eq!(out.interface_id.as_deref(), Some("70a08231"));
}

#[test]
fn override_shadows_inherited_function() {
    let mine = Item::Function {
        name: "f".to_string(),
        inputs: vec![],
        outputs: vec![],
        mutability: Mutability::View,
        visibility: Visibility::Public,
    };
    let base = Item::Function {
        name: "f".to_string(),
        inputs: vec![],
        outputs: vec![],
        mutability: Mutability::NonPayable,
        visibility: Visibility::External,
    };
    let c = Contract {
        name: "D".to_string(),
        kind: ContractKind::Contract,
        is_abstract: false,
        items: vec![mine],
        inherited: vec![base, Item::Receive, Item::Receive, Item::Event { name: "E".to_string(), inputs: vec![], anonymous: false }],
    };
    let out = collect_contract(&c);
    assert_eq!(out.function_hashes.len(), 1);
    assert!(out.event_hashes.is_empty());
    let tags: Vec<String> = out.abi.iter().map(|e| e.kind.tag()).collect();
    assert_eq!(tags, vec!["event", "function", "receive"]);
    assert_eq!(out.abi[1].state_mutability, Some(Mutability::View));
}

#[test]
fn abstract_contract_has_no_constructor_entry() {
    let items = vec![
        func("g", vec![], Visibility::External),
        Item::Constructor { inputs: vec![], mutability: Mutability::NonPayable },
        Item::Fallback { mutability: Mutability::Payable },
    ];
    let c = Contract { name: "A".to_string(), kind: ContractKind::Contract, is_abstract: true, items, inherited: vec![] };
    let tags: Vec<String> = collect_contract(&c).abi.iter().map(|e| e.kind.tag()).collect();
    assert_eq!(tags, vec!["fallback", "function"]);
    let items = vec![
        func("g", vec![], Visibility::External),
        Item::Receive,
        Item::Constructor { inputs: vec![], mutability: Mutability::NonPayable },
    ];
    let c = Contract { name: "K".to_string(), kind: ContractKind::Contract, is_abstract: false, items, inherited: vec![] };
    let tags: Vec<String> = collect_contract(&c).abi.iter().map(|e| e.kind.tag()).collect();
    assert_eq!(tags, vec!["constructor", "function", "receive"]);
}

#[test]
fn reordered_interface_keeps_id_and_hashes() {
    let t = func("transfer", vec![param("to", elem("address")), param("v", elem("uint256"))], Visibility::External);
    let b = func("balanceOf", vec![param("a", elem("address"))], Visibility::External);
    let t2 = func("transfer", vec![param("to", elem("address")), param("v", elem("uint256"))], Visibility::External);
    let b2 = func("balanceOf", vec![param("a", elem("address"))], Visibility::External);
    let c1 = Contract { name: "I".to_string(), kind: ContractKind::Interface, is_abstract: false, items: vec![t, b], inherited: vec![] };
    let c2 = Contract { name: "I".to_string(), kind: ContractKind::Interface, is_abstract: false, items: vec![b2, t2], inherited: vec![] };
    let (o1, o2) = (collect_contract(&c1), collect_contract(&c2));
    assert_eq!(o1.interface_id.as_deref(), Some("d9a51e8a"));
    assert_eq!(o1.interface_id, o2.interface_id);
    assert_eq!(o1.function_hashes, o2.function_hashes);
}

#[test]
fn inherited_events_and_errors_join_abi_only() {
    // contract Token is IERC20: the base's events and errors are in the ABI,
    // while the hashes list the contract's own declarations only
    let own = vec![
        func("mint", vec![param("v", elem("uint256"))], Visibility::External),
        Item::Event { name: "Minted".to_string(), inputs: vec![], anonymous: false },
    ];
    let transfer_ev = Item::Event {
        name: "Transfer".to_string(),
        inputs: vec![
            Param { name: "from".to_string(), ty: elem("address"), indexed: true },
            Param { name: "to".to_string(), ty: elem("address"), indexed: true },
            param("value", elem("uint256")),
        ],
        anonymous: false,
    };
    let approval_ev = Item::Event { name: "Approval".to_string(), inputs: vec![], anonymous: false };
    let err = Item::Error { name: "Insufficient".to_string(), inputs: vec![param("", elem("uint256"))] };
    let base_ctor = Item::Constructor { inputs: vec![], mutability: Mutability::NonPayable };
    let c = Contract {
        name: "Token".to_string(),
        kind: ContractKind::Contract,
        is_abstract: false,
        items: own,
        inherited: vec![transfer_ev, approval_ev, err, base_ctor],
    };
    let out = collect_contract(&c);
    let order: Vec<(String, Option<String>)> =
        out.abi.iter().map(|e| (e.kind.tag(), e.name.clone())).collect();
    let want: Vec<(String, Option<String>)> = vec![
        ("error".to_string(), Some("Insufficient".to_string())),
        ("event".to_string(), Some("Approval".to_string())),
        ("event".to_string(), Some("Minted".to_string())),
        ("event".to_string(), Some("Transfer".to_string())),
        ("function".to_string(), Some("mint".to_string())),
    ];
    assert_eq!(order, want);
    assert_eq!(out.abi[3].inputs[0].indexed, Some(true));
    assert_eq!(out.abi[3].inputs[2].indexed, Some(false));
    let ekeys: Vec<&str> = out.event_hashes.iter().map(|(k, _)| k.as_str()).collect();
    assert_eq!(ekeys, vec!["Minted()"]);
    assert!(out.error_hashes.is_empty());
}

#[test]
fn inherited_fallback_and_receive() {
    let inherited = vec![
        Item::Fallback { mutability: Mutability::Payable },
        Item::Receive,
        Item::Fallback { mutability: Mutability::NonPayable },
    ];
    let c = Contract { name: "W".to_string(), kind: ContractKind::Contract, is_abstract: false, items: vec![], inherited };
    let out = collect_contract(&c);
    let tags: Vec<String> = out.abi.iter().map(|e| e.kind.tag()).collect();
    assert_eq!(tags, vec!["fallback", "receive"]);
    assert_eq!(out.abi[0].state_mutability, Some(Mutability::Payable));

    // a fallback of the contract's own shadows the inherited one
    let c = Contract {
        name: "V".to_string(),
        kind: ContractKind::Contract,
        is_abstract: false,
        items: vec![Item::Fallback { mutability: Mutability::NonPayable }],
        inherited: vec![Item::Fallback { mutability: Mutability::Payable }],
    };
    let out = collect_contract(&c);
    assert_eq!(out.abi.len(), 1);
    assert_eq!(out.abi[0].state_mutability, Some(Mutability::NonPayable));
}

#[test]
fn abstract_base_inherited_into_concrete_contract() {
    // an inherited constructor never joins; the contract's own does
    let c = Contract {
        name: "C".to_string(),
        kind: ContractKind::Contract,
        is_abstract: false,
        items: vec![Item::Constructor { inputs: vec![param("x", elem("uint256"))], mutability: Mutability::Payable }],
        inherited: vec![Item::Constructor { inputs: vec![], mutability: Mutability::NonPayable }],
    };
    let out = collect_contract(&c);
    assert_eq!(out.abi.len(), 1);
    assert_eq!(out.abi[0].kind, EntryKind::Constructor);
    assert_eq!(out.abi[0].inputs.len(), 1);
}
