//! What holds of extraction on every module.

use vstd::prelude::*;
use crate::abi::{method_of, unknown_contract, AbiMethodView, AbiView, ExtractError};
use crate::extract::{
    arms_methods, arms_valid, contract_name, first_fault, interface_of, is_entry, is_responder,
    is_responder_item, item_fault, items_methods, member_valid, members_methods, members_valid,
    stmt_valid, stmts_valid,
};
use crate::source::source_interface;
use crate::syntax::{items_view, ImplView, Item, ItemView, Pattern, StmtView};

verus! {

/// A declaration that gives the contract its name: a responder
/// implementation for a named type.
pub open spec fn names_contract(item: ItemView) -> bool {
    item matches ItemView::Impl(im) && is_responder(im) && im.self_type.is_some()
}

/// A module without a responder implementation has the interface of the
/// unknown contract: the default name and no method.
pub proof fn law_no_responder(items: Seq<ItemView>)
    requires
        forall|i: int| 0 <= i < items.len() ==> !is_responder_item(#[trigger] items[i]),
    ensures
        interface_of(items) == Ok::<AbiView, ExtractError>(unknown_contract()),
    decreases items.len(),
{
    if items.len() > 0 {
        let front = items.drop_last();
        assert forall|i: int| 0 <= i < front.len() implies !is_responder_item(
            #[trigger] front[i],
        ) by {
            assert(front[i] == items[i]);
        }
        law_no_responder(front);
        assert(!is_responder_item(items[items.len() - 1]));
        assert(items_methods(items) =~= Seq::<AbiMethodView>::empty());
    }
}

/// The methods of a `match` are those of its first arms followed by those of
/// its later arms, wherever the arms are split.
pub proof fn law_arms_concat(a: Seq<Pattern>, b: Seq<Pattern>)
    ensures
        arms_methods(a + b) == arms_methods(a) + arms_methods(b),
        arms_valid(a + b) == (arms_valid(a) && arms_valid(b)),
    decreases b.len(),
{
    if b.len() == 0 {
        assert(a + b =~= a);
        assert(arms_methods(a) + arms_methods(b) =~= arms_methods(a));
    } else {
        assert((a + b).drop_last() =~= a + b.drop_last());
        assert((a + b).last() == b.last());
        law_arms_concat(a, b.drop_last());
        assert(arms_methods(a + b) =~= arms_methods(a) + arms_methods(b));
    }
    if arms_valid(a + b) {
        assert forall|i: int| 0 <= i < a.len() implies a[i] != Pattern::Unrepresentable by {
            assert((a + b)[i] == a[i]);
        }
        assert forall|i: int| 0 <= i < b.len() implies b[i] != Pattern::Unrepresentable by {
            assert((a + b)[a.len() + i] == b[i]);
        }
    }
}

/// Where every arm is an opcode literal, the methods are those of the arms,
/// one for one and in the order of the arms, whatever the opcodes' values.
pub proof fn law_arms_keep_their_order(arms: Seq<Pattern>)
    requires
        forall|i: int| 0 <= i < arms.len() ==> #[trigger] arms[i] is Opcode,
    ensures
        arms_methods(arms).len() == arms.len(),
        forall|i: int|
            0 <= i < arms.len() ==> #[trigger] arms_methods(arms)[i] == method_of(
                arms[i]->Opcode_0,
            ),
    decreases arms.len(),
{
    if arms.len() > 0 {
        let front = arms.drop_last();
        assert forall|i: int| 0 <= i < front.len() implies #[trigger] front[i] is Opcode by {
            assert(front[i] == arms[i]);
        }
        law_arms_keep_their_order(front);
        assert(arms[arms.len() - 1] is Opcode);
        assert forall|i: int| 0 <= i < arms.len() implies #[trigger] arms_methods(arms)[i]
            == method_of(arms[i]->Opcode_0) by {
            if i < front.len() {
                assert(arms_methods(arms)[i] == arms_methods(front)[i]);
                assert(front[i] == arms[i]);
            }
        }
    }
}

/// An arm whose pattern is not a single integer literal gives no method and
/// leaves the arms before and after it as they are.
pub proof fn law_other_arm_is_skipped(before: Seq<Pattern>, after: Seq<Pattern>)
    ensures
        arms_methods(before + seq![Pattern::Other] + after) == arms_methods(before + after),
        arms_valid(before + seq![Pattern::Other] + after) == arms_valid(before + after),
{
    let one = seq![Pattern::Other];
    law_arms_concat(before, one);
    law_arms_concat(before + one, after);
    law_arms_concat(before, after);
    assert(one.drop_last() =~= Seq::<Pattern>::empty());
    assert(arms_methods(one.drop_last()) =~= Seq::<AbiMethodView>::empty());
    assert(arms_methods(one) =~= Seq::<AbiMethodView>::empty());
    assert(arms_methods(before) + arms_methods(one) =~= arms_methods(before));
    assert(arms_valid(one));
}

/// Extraction over two runs of declarations, one after the other: the first
/// fault of the first run, else of the second; the methods of the first run
/// followed by those of the second; the name that the second run gives,
/// else that of the first.
pub proof fn law_items_concat(a: Seq<ItemView>, b: Seq<ItemView>)
    ensures
        first_fault(a + b) == match first_fault(a) {
            Some(e) => Some(e),
            None => first_fault(b),
        },
        items_methods(a + b) == items_methods(a) + items_methods(b),
        contract_name(a + b) == if exists|i: int| 0 <= i < b.len() && names_contract(b[i]) {
            contract_name(b)
        } else {
            contract_name(a)
        },
    decreases b.len(),
{
    if b.len() == 0 {
        assert(a + b =~= a);
        assert(items_methods(a) + items_methods(b) =~= items_methods(a));
    } else {
        let front = b.drop_last();
        assert((a + b).drop_last() =~= a + front);
        assert((a + b).last() == b.last());
        law_items_concat(a, front);
        assert(items_methods(a + b) =~= items_methods(a) + items_methods(b));
        if names_contract(b.last()) {
            assert(names_contract(b[b.len() - 1]));
        } else if exists|i: int| 0 <= i < b.len() && names_contract(b[i]) {
            let i = choose|i: int| 0 <= i < b.len() && names_contract(b[i]);
            assert(front[i] == b[i]);
        } else {
            assert forall|i: int| 0 <= i < front.len() implies !names_contract(front[i]) by {
                assert(front[i] == b[i]);
            }
        }
    }
}

/// The contract is named by the last responder implementation for a named
/// type, whatever stands before it.
pub proof fn law_last_responder_names(items: Seq<ItemView>, i: int)
    requires
        0 <= i < items.len(),
        names_contract(items[i]),
        forall|j: int| i < j < items.len() ==> !names_contract(#[trigger] items[j]),
    ensures
        contract_name(items) == items[i]->Impl_0.self_type.unwrap(),
    decreases items.len(),
{
    if i < items.len() - 1 {
        let front = items.drop_last();
        assert(!names_contract(items[items.len() - 1]));
        assert(front[i] == items[i]);
        assert forall|j: int| i < j < front.len() implies !names_contract(
            #[trigger] front[j],
        ) by {
            assert(front[j] == items[j]);
        }
        law_last_responder_names(front, i);
    }
}

/// Two responder implementations in one module give one interface: it has
/// the name of the second and the methods of the first followed by those
/// of the second.
pub proof fn law_two_responders(x: ImplView, y: ImplView)
    requires
        is_responder(x),
        is_responder(y),
        x.self_type.is_some(),
        y.self_type.is_some(),
        members_valid(x.members),
        members_valid(y.members),
    ensures
        interface_of(seq![ItemView::Impl(x), ItemView::Impl(y)]) == Ok::<AbiView, ExtractError>(
            AbiView {
                name: y.self_type.unwrap(),
                methods: members_methods(x.members) + members_methods(y.members),
            },
        ),
{
    let a = seq![ItemView::Impl(x)];
    let b = seq![ItemView::Impl(y)];
    let none = Seq::<ItemView>::empty();
    assert(a.drop_last() =~= none);
    assert(b.drop_last() =~= none);
    assert(a + b =~= seq![ItemView::Impl(x), ItemView::Impl(y)]);
    law_items_concat(a, b);
    assert(names_contract(b[0]));
    assert(first_fault(none).is_none());
    assert(items_methods(none) =~= Seq::<AbiMethodView>::empty());
    assert(items_methods(a) =~= members_methods(x.members));
    assert(items_methods(b) =~= members_methods(y.members));
    assert(first_fault(a).is_none());
    assert(first_fault(b).is_none());
    assert(contract_name(b) == y.self_type.unwrap());
}

/// Extraction fails exactly when some declaration is at fault.
pub proof fn law_fault_is_fatal(items: Seq<ItemView>)
    ensures
        interface_of(items).is_err() <==> exists|i: int|
            0 <= i < items.len() && item_fault(items[i]).is_some(),
    decreases items.len(),
{
    if items.len() > 0 {
        let front = items.drop_last();
        law_fault_is_fatal(front);
        if first_fault(front).is_some() {
            let i = choose|i: int| 0 <= i < front.len() && item_fault(front[i]).is_some();
            assert(items[i] == front[i]);
        } else if item_fault(items.last()).is_some() {
            assert(item_fault(items[items.len() - 1]).is_some());
        } else {
            assert forall|i: int| 0 <= i < items.len() implies item_fault(items[i]).is_none() by {
                if i < front.len() {
                    assert(items[i] == front[i]);
                }
            }
        }
    }
}

/// A literal out of range in a dispatch arm of a responder implementation
/// makes extraction fail, wherever in the module it stands.
pub proof fn law_out_of_range_literal_is_fatal(
    items: Seq<ItemView>,
    i: int,
    j: int,
    k: int,
    l: int,
)
    requires
        0 <= i < items.len(),
        items[i] is Impl,
        is_responder(items[i]->Impl_0),
        0 <= j < items[i]->Impl_0.members.len(),
        is_entry(items[i]->Impl_0.members[j]),
        0 <= k < items[i]->Impl_0.members[j]->Fn_stmts.len(),
        items[i]->Impl_0.members[j]->Fn_stmts[k] matches StmtView::Match(arms) && 0 <= l
            < arms.len() && arms[l] == Pattern::Unrepresentable,
    ensures
        interface_of(items).is_err(),
{
    let im = items[i]->Impl_0;
    let stmts = im.members[j]->Fn_stmts;
    assert(!stmt_valid(stmts[k]));
    assert(!stmts_valid(stmts));
    assert(!member_valid(im.members[j]));
    assert(!members_valid(im.members));
    assert(item_fault(items[i]).is_some());
    law_fault_is_fatal(items);
}

/// Extraction depends on what the declarations hold and on nothing else:
/// two modules that hold the same give the same interface.
pub proof fn law_same_syntax_same_interface(a: Seq<Item>, b: Seq<Item>)
    requires
        items_view(a) == items_view(b),
    ensures
        interface_of(items_view(a)) == interface_of(items_view(b)),
{
}

/// Extraction depends on the text alone: the same text gives the same
/// interface, however often it is read.
pub proof fn law_same_text_same_interface(first: Seq<char>, second: Seq<char>)
    requires
        first == second,
    ensures
        source_interface(first) == source_interface(second),
{
}

} // verus!
