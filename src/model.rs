//! The resolved shape of a compiled program, as plain values: contracts,
//! their declared items, parameters and canonical parameter types.
use vstd::prelude::*;

verus! {

/// A fully elaborated parameter type.
pub enum AbiType {
    /// An elementary type in its keyword form (`uint256`, `address`, `bytes32`, ...).
    Elementary(String),
    /// `T[]` when the length is `None`, `T[N]` otherwise.
    Array(Box<AbiType>, Option<usize>),
    /// A tuple (struct) of parameters.
    Tuple(Vec<Param>),
}

/// A parameter of a declaration or a component of a tuple.
pub struct Param {
    /// May be empty.
    pub name: String,
    pub ty: AbiType,
    /// Meaningful for event parameters only.
    pub indexed: bool,
}

#[derive(Clone, Copy, PartialEq, Eq, Structural, Debug)]
pub enum Mutability {
    Pure,
    View,
    NonPayable,
    Payable,
}

#[derive(Clone, Copy, PartialEq, Eq, Structural, Debug)]
pub enum Visibility {
    External,
    Public,
    Internal,
    Private,
}

/// A declared item of a contract.
pub enum Item {
    Function {
        name: String,
        inputs: Vec<Param>,
        outputs: Vec<Param>,
        mutability: Mutability,
        visibility: Visibility,
    },
    Event { name: String, inputs: Vec<Param>, anonymous: bool },
    Error { name: String, inputs: Vec<Param> },
    Constructor { inputs: Vec<Param>, mutability: Mutability },
    Fallback { mutability: Mutability },
    Receive,
}

#[derive(Clone, Copy, PartialEq, Eq, Structural, Debug)]
pub enum ContractKind {
    Contract,
    Interface,
    Library,
}

/// A contract with its directly declared items, in declaration order, and
/// what it inherits.
pub struct Contract {
    /// Fully qualified name.
    pub name: String,
    pub kind: ContractKind,
    /// Declared `abstract`: such a contract has no constructor in its ABI.
    pub is_abstract: bool,
    pub items: Vec<Item>,
    /// The items of the base contracts, base by base in linearization order
    /// (most derived first), each base's in declaration order. All but their
    /// constructors join the ABI; only the contract's own events and errors
    /// are hashed.
    pub inherited: Vec<Item>,
}

/// A function that callers outside the contract can select.
pub open spec fn is_external_function(item: Item) -> bool {
    match item {
        Item::Function { visibility, .. } => visibility == Visibility::External || visibility
            == Visibility::Public,
        _ => false,
    }
}

pub fn is_externally_callable(item: &Item) -> (r: bool)
    ensures
        r == is_external_function(*item),
{
    match item {
        Item::Function { visibility, .. } => match visibility {
            Visibility::External | Visibility::Public => true,
            _ => false,
        },
        _ => false,
    }
}

} // verus!
