//! The extracted interface: a contract name and its methods.

use vstd::prelude::*;

verus! {

/// One callable operation of a contract.
#[derive(Debug, Clone, PartialEq, Eq)]
pub struct AbiMethod {
    pub name: String,
    pub opcode: u64,
    pub inputs: Vec<String>,
    pub outputs: Vec<String>,
}

/// The interface of one contract: its name and its methods in dispatch order.
#[derive(Debug, Clone, PartialEq, Eq)]
pub struct AlkanesABI {
    pub name: String,
    pub methods: Vec<AbiMethod>,
}

/// Why an extraction was abandoned.
#[derive(Debug, Clone, Copy, PartialEq, Eq, Structural)]
pub enum ExtractError {
    /// The text is not a syntactically valid module.
    Syntax,
    /// A responder implementation is written for a type without a name.
    UnresolvedType,
    /// An opcode literal does not fit in 64 unsigned bits.
    LiteralRange,
}

pub struct AbiMethodView {
    pub name: Seq<char>,
    pub opcode: u64,
    pub inputs: Seq<Seq<char>>,
    pub outputs: Seq<Seq<char>>,
}

pub struct AbiView {
    pub name: Seq<char>,
    pub methods: Seq<AbiMethodView>,
}

pub open spec fn strings_view(v: Seq<String>) -> Seq<Seq<char>> {
    Seq::new(v.len(), |i: int| v[i]@)
}

pub open spec fn methods_view(v: Seq<AbiMethod>) -> Seq<AbiMethodView> {
    Seq::new(v.len(), |i: int| v[i]@)
}

impl View for AbiMethod {
    type V = AbiMethodView;

    open spec fn view(&self) -> AbiMethodView {
        AbiMethodView {
            name: self.name@,
            opcode: self.opcode,
            inputs: strings_view(self.inputs@),
            outputs: strings_view(self.outputs@),
        }
    }
}

impl View for AlkanesABI {
    type V = AbiView;

    open spec fn view(&self) -> AbiView {
        AbiView { name: self.name@, methods: methods_view(self.methods@) }
    }
}

/// The decimal digit that writes `d`, for `d` below ten.
pub open spec fn digit_char(d: nat) -> char {
    if d == 0 {
        '0'
    } else if d == 1 {
        '1'
    } else if d == 2 {
        '2'
    } else if d == 3 {
        '3'
    } else if d == 4 {
        '4'
    } else if d == 5 {
        '5'
    } else if d == 6 {
        '6'
    } else if d == 7 {
        '7'
    } else if d == 8 {
        '8'
    } else {
        '9'
    }
}

/// `n` written in base ten, without sign or leading zeros (zero is "0").
pub open spec fn decimal_digits(n: nat) -> Seq<char>
    decreases n,
{
    if n < 10 {
        seq![digit_char(n)]
    } else {
        decimal_digits(n / 10).push(digit_char(n % 10))
    }
}

/// The name given to the method of an opcode: `method_` and the opcode in
/// base ten.
pub open spec fn method_name_of(opcode: u64) -> Seq<char> {
    "method_"@ + decimal_digits(opcode as nat)
}

/// The method recorded for an opcode. Nothing is known of its inputs and
/// outputs, so both are empty.
pub open spec fn method_of(opcode: u64) -> AbiMethodView {
    AbiMethodView {
        name: method_name_of(opcode),
        opcode,
        inputs: Seq::empty(),
        outputs: Seq::empty(),
    }
}

/// The interface of a module without a responder implementation.
pub open spec fn unknown_contract() -> AbiView {
    AbiView { name: "UnknownContract"@, methods: Seq::empty() }
}

/// `std::fmt`'s rendering of a string slice followed by an unsigned integer,
/// as `format!("{}{}", ..)` gives it. `Display` for `&str` writes the slice
/// as it is; `Display` for `u64` writes the number in base ten with no sign
/// and no padding. The result is the one followed by the other.
#[verifier::external_body]
fn prefixed_decimal(prefix: &str, n: u64) -> (res: String)
    ensures
        res@ == prefix@ + decimal_digits(n as nat),
{
    format!("{}{}", prefix, n)
}

impl AbiMethod {
    /// The method recorded for `opcode`.
    pub fn for_opcode(opcode: u64) -> (res: AbiMethod)
        ensures
            res@ == method_of(opcode),
    {
        let name = prefixed_decimal("method_", opcode);
        let inputs: Vec<String> = Vec::new();
        let outputs: Vec<String> = Vec::new();
        proof {
            assert(strings_view(inputs@) =~= Seq::<Seq<char>>::empty());
            assert(strings_view(outputs@) =~= Seq::<Seq<char>>::empty());
        }
        AbiMethod { name, opcode, inputs, outputs }
    }
}

impl AlkanesABI {
    /// The interface of a module without a responder implementation.
    pub fn unknown() -> (res: AlkanesABI)
        ensures
            res@ == unknown_contract(),
    {
        let methods: Vec<AbiMethod> = Vec::new();
        proof {
            assert(methods_view(methods@) =~= Seq::<AbiMethodView>::empty());
        }
        AlkanesABI { name: "UnknownContract".to_string(), methods }
    }
}

} // verus!
