//! From source text to the interface, with `syn` as the parser.
//!
//! `syn` reads the text and keeps the tree. This module walks that tree
//! once, copies what extraction reads into the types of [`crate::syntax`],
//! and hands the declarations to [`crate::extract`]. Nothing of `syn` is
//! verified: what is believed of it is stated on the items below that carry
//! `external_body`, and named by the functions without a body.

use vstd::prelude::*;
use crate::abi::{AlkanesABI, AbiView, ExtractError};
use crate::extract::{extract_from_items, interface_of, result_is};
use crate::syntax::{
    items_view, members_view, name_view, stmts_view, ImplBlock, ImplView, Item, ItemView, Member,
    MemberView, Pattern, Stmt, StmtView,
};

verus! {

/// A parsed source file. Nothing inside it is visible to the proofs.
#[verifier::external_type_specification]
#[verifier::external_body]
pub struct ExFile(syn::File);

/// The parser's error. Nothing inside it is visible to the proofs.
#[verifier::external_type_specification]
#[verifier::external_body]
pub struct ExError(syn::Error);

/// An `impl` block of the tree. Nothing inside it is visible to the proofs.
#[verifier::external_type_specification]
#[verifier::external_body]
pub struct ExItemImpl(syn::ItemImpl);

/// A function of an `impl` block. Nothing inside it is visible to the proofs.
#[verifier::external_type_specification]
#[verifier::external_body]
pub struct ExImplItemFn(syn::ImplItemFn);

/// A `match` expression. Nothing inside it is visible to the proofs.
#[verifier::external_type_specification]
#[verifier::external_body]
pub struct ExExprMatch(syn::ExprMatch);

/// An integer literal. Nothing inside it is visible to the proofs.
#[verifier::external_type_specification]
#[verifier::external_body]
pub struct ExLitInt(syn::LitInt);

/// The declarations that `syn::parse_file` finds in a text; `None` where it
/// rejects the text.
pub uninterp spec fn parsed(source: Seq<char>) -> Option<Seq<ItemView>>;

/// The declarations of a parsed file, in order.
pub uninterp spec fn file_items(file: syn::File) -> Seq<ItemView>;

/// What an `impl` block of the tree holds.
pub uninterp spec fn impl_syntax(im: syn::ItemImpl) -> ImplView;

/// The name of a function of an `impl` block.
pub uninterp spec fn fn_name(f: syn::ImplItemFn) -> Seq<char>;

/// The statements directly in the body of a function of an `impl` block.
pub uninterp spec fn fn_body(f: syn::ImplItemFn) -> Seq<StmtView>;

/// The patterns of the arms of a `match`, in order.
pub uninterp spec fn match_arms(m: syn::ExprMatch) -> Seq<Pattern>;

/// The value that `LitInt::base10_parse::<u64>` gives for a literal; `None`
/// where it fails.
pub uninterp spec fn literal_value(lit: syn::LitInt) -> Option<u64>;

/// The pattern that stands for an integer literal with the given value.
pub open spec fn literal_pattern(value: Option<u64>) -> Pattern {
    match value {
        Some(v) => Pattern::Opcode(v),
        None => Pattern::Unrepresentable,
    }
}

/// The interface of the module that a text holds: a syntax error where the
/// parser rejects the text, else the interface of its declarations.
pub open spec fn source_interface(source: Seq<char>) -> Result<AbiView, ExtractError> {
    match parsed(source) {
        Some(items) => interface_of(items),
        None => Err(ExtractError::Syntax),
    }
}

/// `syn::parse_file`. The parser's result depends on the text alone; the
/// contract gives it the name `parsed` and claims nothing else.
#[verifier::external_body]
fn parse_file(source: &str) -> (res: Result<syn::File, syn::Error>)
    ensures
        match res {
            Ok(file) => parsed(source@) == Some(file_items(file)),
            Err(_) => parsed(source@).is_none(),
        },
{
    syn::parse_file(source)
}

/// The length of the field `items` of `syn::File`.
#[verifier::external_body]
fn item_count(file: &syn::File) -> (res: usize)
    ensures
        res == file_items(*file).len(),
{
    file.items.len()
}

/// The `i`-th entry of the field `items` of `syn::File`, where it is the
/// variant `syn::Item::Impl`. Every other variant is `ItemView::Other`.
#[verifier::external_body]
fn item_impl(file: &syn::File, i: usize) -> (res: Option<&syn::ItemImpl>)
    requires
        i < file_items(*file).len(),
    ensures
        file_items(*file)[i as int] == match res {
            Some(im) => ItemView::Impl(impl_syntax(*im)),
            None => ItemView::Other,
        },
{
    match &file.items[i] {
        syn::Item::Impl(im) => Some(im),
        _ => None,
    }
}

/// The identifier of the last segment of the path in the field `trait_` of
/// `syn::ItemImpl`, found with `Punctuated::last`; `None` where the field is
/// `None` or the path has no segment.
#[verifier::external_body]
fn impl_trait_name(im: &syn::ItemImpl) -> (res: Option<String>)
    ensures
        name_view(res) == impl_syntax(*im).trait_name,
{
    match &im.trait_ {
        Some((_, path, _)) => match path.segments.last() {
            Some(segment) => Some(segment.ident.to_string()),
            None => None,
        },
        None => None,
    }
}

/// The identifier of the last segment of the path in the field `self_ty` of
/// `syn::ItemImpl`, where that type is the variant `syn::Type::Path`; `None`
/// for every other variant, and for a path without a segment.
#[verifier::external_body]
fn impl_self_type(im: &syn::ItemImpl) -> (res: Option<String>)
    ensures
        name_view(res) == impl_syntax(*im).self_type,
{
    match &*im.self_ty {
        syn::Type::Path(ty) => match ty.path.segments.last() {
            Some(segment) => Some(segment.ident.to_string()),
            None => None,
        },
        _ => None,
    }
}

/// The length of the field `items` of `syn::ItemImpl`.
#[verifier::external_body]
fn member_count(im: &syn::ItemImpl) -> (res: usize)
    ensures
        res == impl_syntax(*im).members.len(),
{
    im.items.len()
}

/// The `i`-th entry of the field `items` of `syn::ItemImpl`, where it is the
/// variant `syn::ImplItem::Fn`. Every other variant is `MemberView::Other`.
#[verifier::external_body]
fn member_fn(im: &syn::ItemImpl, i: usize) -> (res: Option<&syn::ImplItemFn>)
    requires
        i < impl_syntax(*im).members.len(),
    ensures
        impl_syntax(*im).members[i as int] == match res {
            Some(f) => (MemberView::Fn { name: fn_name(*f), stmts: fn_body(*f) }),
            None => MemberView::Other,
        },
{
    match &im.items[i] {
        syn::ImplItem::Fn(f) => Some(f),
        _ => None,
    }
}

/// The identifier in the signature of a `syn::ImplItemFn`, as a string.
#[verifier::external_body]
fn member_name(f: &syn::ImplItemFn) -> (res: String)
    ensures
        res@ == fn_name(*f),
{
    f.sig.ident.to_string()
}

/// The length of the field `stmts` of the block of a `syn::ImplItemFn`.
#[verifier::external_body]
fn stmt_count(f: &syn::ImplItemFn) -> (res: usize)
    ensures
        res == fn_body(*f).len(),
{
    f.block.stmts.len()
}

/// The `i`-th statement of the block of a `syn::ImplItemFn`, where it is the
/// variant `syn::Stmt::Expr` holding the variant `syn::Expr::Match`. Every
/// other statement is `StmtView::Other`.
#[verifier::external_body]
fn stmt_match(f: &syn::ImplItemFn, i: usize) -> (res: Option<&syn::ExprMatch>)
    requires
        i < fn_body(*f).len(),
    ensures
        fn_body(*f)[i as int] == match res {
            Some(m) => StmtView::Match(match_arms(*m)),
            None => StmtView::Other,
        },
{
    match &f.block.stmts[i] {
        syn::Stmt::Expr(syn::Expr::Match(m), _) => Some(m),
        _ => None,
    }
}

/// The length of the field `arms` of `syn::ExprMatch`.
#[verifier::external_body]
fn arm_count(m: &syn::ExprMatch) -> (res: usize)
    ensures
        res == match_arms(*m).len(),
{
    m.arms.len()
}

/// The literal in the pattern of the `i`-th arm of a `syn::ExprMatch`,
/// where the pattern is the variant `syn::Pat::Lit` holding the variant
/// `syn::Lit::Int`. Every other pattern is `Pattern::Other`. The arm's guard
/// is not read.
#[verifier::external_body]
fn arm_literal(m: &syn::ExprMatch, i: usize) -> (res: Option<&syn::LitInt>)
    requires
        i < match_arms(*m).len(),
    ensures
        match_arms(*m)[i as int] == match res {
            Some(lit) => literal_pattern(literal_value(*lit)),
            None => Pattern::Other,
        },
{
    match &m.arms[i].pat {
        syn::Pat::Lit(syn::PatLit { lit: syn::Lit::Int(lit), .. }) => Some(lit),
        _ => None,
    }
}

/// `syn::LitInt::base10_parse` at `u64`. The result depends on the literal
/// alone; the contract gives it the name `literal_value`.
#[verifier::external_body]
fn literal_u64(lit: &syn::LitInt) -> (res: Result<u64, syn::Error>)
    ensures
        match res {
            Ok(v) => literal_value(*lit) == Some(v),
            Err(_) => literal_value(*lit).is_none(),
        },
{
    lit.base10_parse::<u64>()
}

fn lower_arms(m: &syn::ExprMatch) -> (res: Vec<Pattern>)
    ensures
        res@ == match_arms(*m),
{
    let mut out: Vec<Pattern> = Vec::new();
    let n: usize = arm_count(m);
    let mut i: usize = 0;
    while i < n
        invariant
            n == match_arms(*m).len(),
            i <= n,
            out@ == match_arms(*m).take(i as int),
        decreases n - i,
    {
        let pattern = match arm_literal(m, i) {
            Some(lit) => match literal_u64(lit) {
                Ok(v) => Pattern::Opcode(v),
                Err(_) => Pattern::Unrepresentable,
            },
            None => Pattern::Other,
        };
        out.push(pattern);
        proof {
            assert(out@ =~= match_arms(*m).take(i + 1));
        }
        i = i + 1;
    }
    proof {
        assert(out@ =~= match_arms(*m));
    }
    out
}

fn lower_stmts(f: &syn::ImplItemFn) -> (res: Vec<Stmt>)
    ensures
        stmts_view(res@) == fn_body(*f),
{
    let mut out: Vec<Stmt> = Vec::new();
    let n: usize = stmt_count(f);
    let mut i: usize = 0;
    proof {
        assert(stmts_view(out@) =~= fn_body(*f).take(0));
    }
    while i < n
        invariant
            n == fn_body(*f).len(),
            i <= n,
            stmts_view(out@) == fn_body(*f).take(i as int),
        decreases n - i,
    {
        let ghost before = out@;
        let stmt = match stmt_match(f, i) {
            Some(m) => Stmt::Match(lower_arms(m)),
            None => Stmt::Other,
        };
        out.push(stmt);
        proof {
            assert(stmts_view(out@) =~= stmts_view(before).push(stmt@));
            assert(stmts_view(out@) =~= fn_body(*f).take(i + 1));
        }
        i = i + 1;
    }
    proof {
        assert(stmts_view(out@) =~= fn_body(*f));
    }
    out
}

fn lower_members(im: &syn::ItemImpl) -> (res: Vec<Member>)
    ensures
        members_view(res@) == impl_syntax(*im).members,
{
    let ghost members = impl_syntax(*im).members;
    let mut out: Vec<Member> = Vec::new();
    let n: usize = member_count(im);
    let mut i: usize = 0;
    proof {
        assert(members_view(out@) =~= members.take(0));
    }
    while i < n
        invariant
            members == impl_syntax(*im).members,
            n == members.len(),
            i <= n,
            members_view(out@) == members.take(i as int),
        decreases n - i,
    {
        let ghost before = out@;
        let member = match member_fn(im, i) {
            Some(f) => Member::Fn { name: member_name(f), stmts: lower_stmts(f) },
            None => Member::Other,
        };
        out.push(member);
        proof {
            assert(members_view(out@) =~= members_view(before).push(member@));
            assert(members_view(out@) =~= members.take(i + 1));
        }
        i = i + 1;
    }
    proof {
        assert(members_view(out@) =~= members);
    }
    out
}

fn lower_impl(im: &syn::ItemImpl) -> (res: ImplBlock)
    ensures
        res@ == impl_syntax(*im),
{
    ImplBlock {
        trait_name: impl_trait_name(im),
        self_type: impl_self_type(im),
        members: lower_members(im),
    }
}

fn lower_items(file: &syn::File) -> (res: Vec<Item>)
    ensures
        items_view(res@) == file_items(*file),
{
    let mut out: Vec<Item> = Vec::new();
    let n: usize = item_count(file);
    let mut i: usize = 0;
    proof {
        assert(items_view(out@) =~= file_items(*file).take(0));
    }
    while i < n
        invariant
            n == file_items(*file).len(),
            i <= n,
            items_view(out@) == file_items(*file).take(i as int),
        decreases n - i,
    {
        let ghost before = out@;
        let item = match item_impl(file, i) {
            Some(im) => Item::Impl(lower_impl(im)),
            None => Item::Other,
        };
        out.push(item);
        proof {
            assert(items_view(out@) =~= items_view(before).push(item@));
            assert(items_view(out@) =~= file_items(*file).take(i + 1));
        }
        i = i + 1;
    }
    proof {
        assert(items_view(out@) =~= file_items(*file));
    }
    out
}

/// Parses a text and returns its declarations, as far as extraction reads
/// them. Fails with `Syntax` exactly where the parser rejects the text.
pub fn parse_items(source: &str) -> (res: Result<Vec<Item>, ExtractError>)
    ensures
        match parsed(source@) {
            Some(items) => res matches Ok(v) && items_view(v@) == items,
            None => res matches Err(e) && e == ExtractError::Syntax,
        },
{
    match parse_file(source) {
        Ok(file) => Ok(lower_items(&file)),
        Err(_) => Err(ExtractError::Syntax),
    }
}

/// Extracts the interface of the contract whose source is `source`.
pub fn extract_abi(source: &str) -> (res: Result<AlkanesABI, ExtractError>)
    ensures
        result_is(res, source_interface(source@)),
{
    match parse_items(source) {
        Ok(items) => extract_from_items(&items),
        Err(e) => Err(e),
    }
}

} // verus!
