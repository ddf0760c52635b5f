//! From a module's declarations to the interface of the contract in it.

use vstd::prelude::*;
use crate::abi::{
    methods_view, method_of, AbiMethod, AbiMethodView, AbiView, AlkanesABI, ExtractError,
};
use crate::syntax::{
    items_view, members_view, stmts_view, ImplView, Item, ItemView, Member, MemberView, Pattern,
    Stmt, StmtView,
};

verus! {

/// What one arm contributes: a method for an opcode, nothing for any other
/// pattern.
pub open spec fn arm_methods(p: Pattern) -> Seq<AbiMethodView> {
    match p {
        Pattern::Opcode(v) => seq![method_of(v)],
        _ => Seq::empty(),
    }
}

/// The methods of the arms of one `match`, in the order of the arms.
pub open spec fn arms_methods(arms: Seq<Pattern>) -> Seq<AbiMethodView>
    decreases arms.len(),
{
    if arms.len() == 0 {
        Seq::empty()
    } else {
        arms_methods(arms.drop_last()) + arm_methods(arms.last())
    }
}

/// No arm holds a literal that is out of range.
pub open spec fn arms_valid(arms: Seq<Pattern>) -> bool {
    forall|i: int| 0 <= i < arms.len() ==> arms[i] != Pattern::Unrepresentable
}

pub open spec fn stmt_methods(s: StmtView) -> Seq<AbiMethodView> {
    match s {
        StmtView::Match(arms) => arms_methods(arms),
        StmtView::Other => Seq::empty(),
    }
}

pub open spec fn stmt_valid(s: StmtView) -> bool {
    match s {
        StmtView::Match(arms) => arms_valid(arms),
        StmtView::Other => true,
    }
}

/// The methods of every `match` statement of a body, in the order of the
/// statements.
pub open spec fn stmts_methods(stmts: Seq<StmtView>) -> Seq<AbiMethodView>
    decreases stmts.len(),
{
    if stmts.len() == 0 {
        Seq::empty()
    } else {
        stmts_methods(stmts.drop_last()) + stmt_methods(stmts.last())
    }
}

pub open spec fn stmts_valid(stmts: Seq<StmtView>) -> bool {
    forall|i: int| 0 <= i < stmts.len() ==> stmt_valid(#[trigger] stmts[i])
}

/// A member is an entry method when it is a function named `execute`.
pub open spec fn is_entry(m: MemberView) -> bool {
    m matches MemberView::Fn { name, .. } && name == "execute"@
}

pub open spec fn member_methods(m: MemberView) -> Seq<AbiMethodView> {
    if is_entry(m) {
        stmts_methods(m->Fn_stmts)
    } else {
        Seq::empty()
    }
}

pub open spec fn member_valid(m: MemberView) -> bool {
    is_entry(m) ==> stmts_valid(m->Fn_stmts)
}

/// The methods of every entry method among the members, in their order.
pub open spec fn members_methods(members: Seq<MemberView>) -> Seq<AbiMethodView>
    decreases members.len(),
{
    if members.len() == 0 {
        Seq::empty()
    } else {
        members_methods(members.drop_last()) + member_methods(members.last())
    }
}

pub open spec fn members_valid(members: Seq<MemberView>) -> bool {
    forall|i: int| 0 <= i < members.len() ==> member_valid(#[trigger] members[i])
}

/// An implementation is a responder when the last segment of its trait's
/// path is `AlkaneResponder`. An inherent implementation never is.
pub open spec fn is_responder(im: ImplView) -> bool {
    im.trait_name == Some("AlkaneResponder"@)
}

pub open spec fn is_responder_item(item: ItemView) -> bool {
    item matches ItemView::Impl(im) && is_responder(im)
}

pub open spec fn item_methods(item: ItemView) -> Seq<AbiMethodView> {
    match item {
        ItemView::Impl(im) => if is_responder(im) {
            members_methods(im.members)
        } else {
            Seq::empty()
        },
        ItemView::Other => Seq::empty(),
    }
}

/// What is wrong with one declaration, if anything. Only a responder
/// implementation can be at fault: its type has no name, or, its type being
/// named, one of its dispatch literals is out of range.
pub open spec fn item_fault(item: ItemView) -> Option<ExtractError> {
    match item {
        ItemView::Impl(im) => if !is_responder(im) {
            None
        } else if im.self_type.is_none() {
            Some(ExtractError::UnresolvedType)
        } else if !members_valid(im.members) {
            Some(ExtractError::LiteralRange)
        } else {
            None
        },
        ItemView::Other => None,
    }
}

/// The methods of all responder implementations, in source order.
pub open spec fn items_methods(items: Seq<ItemView>) -> Seq<AbiMethodView>
    decreases items.len(),
{
    if items.len() == 0 {
        Seq::empty()
    } else {
        items_methods(items.drop_last()) + item_methods(items.last())
    }
}

/// The name of the type of the last responder implementation that has one,
/// and `UnknownContract` where there is none.
pub open spec fn contract_name(items: Seq<ItemView>) -> Seq<char>
    decreases items.len(),
{
    if items.len() == 0 {
        "UnknownContract"@
    } else {
        match items.last() {
            ItemView::Impl(im) => if is_responder(im) && im.self_type.is_some() {
                im.self_type.unwrap()
            } else {
                contract_name(items.drop_last())
            },
            ItemView::Other => contract_name(items.drop_last()),
        }
    }
}

/// The fault of the first declaration that has one.
pub open spec fn first_fault(items: Seq<ItemView>) -> Option<ExtractError>
    decreases items.len(),
{
    if items.len() == 0 {
        None
    } else {
        match first_fault(items.drop_last()) {
            Some(e) => Some(e),
            None => item_fault(items.last()),
        }
    }
}

/// The interface of a module: the first fault where a declaration has one,
/// else the contract's name and all its methods.
pub open spec fn interface_of(items: Seq<ItemView>) -> Result<AbiView, ExtractError> {
    match first_fault(items) {
        Some(e) => Err(e),
        None => Ok(AbiView { name: contract_name(items), methods: items_methods(items) }),
    }
}

/// Whether an executable result is the one that `expected` describes.
pub open spec fn result_is(
    res: Result<AlkanesABI, ExtractError>,
    expected: Result<AbiView, ExtractError>,
) -> bool {
    match expected {
        Ok(abi) => res matches Ok(a) && a@ == abi,
        Err(e) => res matches Err(x) && x == e,
    }
}

proof fn lemma_fault_stays(items: Seq<ItemView>, i: int)
    requires
        0 <= i <= items.len(),
        first_fault(items.take(i)).is_some(),
    ensures
        first_fault(items) == first_fault(items.take(i)),
    decreases items.len() - i,
{
    if i == items.len() {
        assert(items.take(i) =~= items);
    } else {
        assert(items.drop_last().take(i) =~= items.take(i));
        lemma_fault_stays(items.drop_last(), i);
    }
}

fn same_text(s: &String, text: &str) -> (res: bool)
    ensures
        res == (s@ == text@),
{
    let t = text.to_string();
    *s == t
}

/// Reads the arms of one `match`. `None` when a literal is out of range.
pub fn extract_arms(arms: &Vec<Pattern>) -> (res: Option<Vec<AbiMethod>>)
    ensures
        res.is_some() == arms_valid(arms@),
        res matches Some(v) ==> methods_view(v@) == arms_methods(arms@),
{
    let mut out: Vec<AbiMethod> = Vec::new();
    let n: usize = arms.len();
    let mut i: usize = 0;
    proof {
        assert(methods_view(out@) =~= arms_methods(arms@.take(0)));
    }
    while i < n
        invariant
            n == arms@.len(),
            i <= n,
            arms_valid(arms@.take(i as int)),
            methods_view(out@) == arms_methods(arms@.take(i as int)),
        decreases n - i,
    {
        let ghost before = out@;
        proof {
            assert(arms@.take(i + 1).drop_last() =~= arms@.take(i as int));
        }
        match arms[i] {
            Pattern::Opcode(v) => {
                out.push(AbiMethod::for_opcode(v));
                proof {
                    assert(methods_view(out@) =~= methods_view(before) + seq![method_of(v)]);
                }
            },
            Pattern::Unrepresentable => {
                return None;
            },
            Pattern::Other => {
                proof {
                    assert(methods_view(out@) =~= methods_view(before) + Seq::empty());
                }
            },
        }
        i = i + 1;
    }
    proof {
        assert(arms@.take(n as int) =~= arms@);
    }
    Some(out)
}

/// Reads the statements of an entry method's body: every `match` that
/// stands as a statement of its own. `None` when a literal is out of range.
pub fn extract_stmts(stmts: &Vec<Stmt>) -> (res: Option<Vec<AbiMethod>>)
    ensures
        res.is_some() == stmts_valid(stmts_view(stmts@)),
        res matches Some(v) ==> methods_view(v@) == stmts_methods(stmts_view(stmts@)),
{
    let ghost sv = stmts_view(stmts@);
    let mut out: Vec<AbiMethod> = Vec::new();
    let n: usize = stmts.len();
    let mut i: usize = 0;
    proof {
        assert(methods_view(out@) =~= stmts_methods(sv.take(0)));
    }
    while i < n
        invariant
            sv == stmts_view(stmts@),
            n == stmts@.len(),
            i <= n,
            stmts_valid(sv.take(i as int)),
            methods_view(out@) == stmts_methods(sv.take(i as int)),
        decreases n - i,
    {
        let ghost before = out@;
        proof {
            assert(sv.take(i + 1).drop_last() =~= sv.take(i as int));
            assert(sv[i as int] == stmts@[i as int]@);
        }
        match &stmts[i] {
            Stmt::Match(arms) => {
                match extract_arms(arms) {
                    Some(mut found) => {
                        let ghost added = found@;
                        out.append(&mut found);
                        proof {
                            assert(methods_view(out@) =~= methods_view(before) + methods_view(
                                added,
                            ));
                        }
                    },
                    None => {
                        return None;
                    },
                }
            },
            Stmt::Other => {
                proof {
                    assert(methods_view(out@) =~= methods_view(before) + Seq::empty());
                }
            },
        }
        i = i + 1;
    }
    proof {
        assert(sv.take(n as int) =~= sv);
    }
    Some(out)
}

/// Reads the members of a responder implementation: the body of every
/// function named `execute`. `None` when a literal is out of range.
pub fn extract_members(members: &Vec<Member>) -> (res: Option<Vec<AbiMethod>>)
    ensures
        res.is_some() == members_valid(members_view(members@)),
        res matches Some(v) ==> methods_view(v@) == members_methods(members_view(members@)),
{
    let ghost mv = members_view(members@);
    let mut out: Vec<AbiMethod> = Vec::new();
    let n: usize = members.len();
    let mut i: usize = 0;
    proof {
        assert(methods_view(out@) =~= members_methods(mv.take(0)));
    }
    while i < n
        invariant
            mv == members_view(members@),
            n == members@.len(),
            i <= n,
            members_valid(mv.take(i as int)),
            methods_view(out@) == members_methods(mv.take(i as int)),
        decreases n - i,
    {
        let ghost before = out@;
        proof {
            assert(mv.take(i + 1).drop_last() =~= mv.take(i as int));
            assert(mv[i as int] == members@[i as int]@);
            assert(methods_view(out@) =~= methods_view(before) + Seq::empty());
        }
        match &members[i] {
            Member::Fn { name, stmts } => {
                if same_text(name, "execute") {
                    match extract_stmts(stmts) {
                        Some(mut found) => {
                            let ghost added = found@;
                            out.append(&mut found);
                            proof {
                                assert(methods_view(out@) =~= methods_view(before) + methods_view(
                                    added,
                                ));
                            }
                        },
                        None => {
                            return None;
                        },
                    }
                }
            },
            Member::Other => {},
        }
        i = i + 1;
    }
    proof {
        assert(mv.take(n as int) =~= mv);
    }
    Some(out)
}

/// Extracts the interface of the contract that a module declares.
///
/// Every responder implementation is read, in source order. The contract's
/// name is the type of the last of them; the methods of all of them are kept,
/// one after the other, duplicates included. The first declaration at fault
/// ends the extraction with its error.
pub fn extract_from_items(items: &Vec<Item>) -> (res: Result<AlkanesABI, ExtractError>)
    ensures
        result_is(res, interface_of(items_view(items@))),
{
    let ghost iv = items_view(items@);
    let mut abi = AlkanesABI::unknown();
    let n: usize = items.len();
    let mut i: usize = 0;
    proof {
        assert(iv.take(0) =~= Seq::<ItemView>::empty());
    }
    while i < n
        invariant
            iv == items_view(items@),
            n == items@.len(),
            i <= n,
            first_fault(iv.take(i as int)).is_none(),
            abi.name@ == contract_name(iv.take(i as int)),
            methods_view(abi.methods@) == items_methods(iv.take(i as int)),
        decreases n - i,
    {
        let ghost before = abi.methods@;
        proof {
            assert(iv.take(i + 1).drop_last() =~= iv.take(i as int));
            assert(iv[i as int] == items@[i as int]@);
            assert(methods_view(abi.methods@) =~= methods_view(before) + Seq::empty());
        }
        match &items[i] {
            Item::Impl(im) => {
                let responder = match &im.trait_name {
                    Some(t) => same_text(t, "AlkaneResponder"),
                    None => false,
                };
                if responder {
                    match &im.self_type {
                        Some(name) => {
                            abi.name = name.clone();
                        },
                        None => {
                            proof {
                                lemma_fault_stays(iv, i + 1);
                            }
                            return Err(ExtractError::UnresolvedType);
                        },
                    }
                    match extract_members(&im.members) {
                        Some(mut found) => {
                            let ghost added = found@;
                            abi.methods.append(&mut found);
                            proof {
                                assert(methods_view(abi.methods@) =~= methods_view(before)
                                    + methods_view(added));
                            }
                        },
                        None => {
                            proof {
                                lemma_fault_stays(iv, i + 1);
                            }
                            return Err(ExtractError::LiteralRange);
                        },
                    }
                }
            },
            Item::Other => {},
        }
        i = i + 1;
    }
    proof {
        assert(iv.take(n as int) =~= iv);
    }
    Ok(abi)
}

} // verus!
