//! The part of a module's syntax that extraction reads.
//!
//! Each node keeps its kind and, for the kinds that matter, what extraction
//! looks at. Every other kind of node is `Other`.

use vstd::prelude::*;

verus! {

/// The pattern of one arm of a `match`.
#[derive(Debug, Clone, Copy, PartialEq, Eq, Structural)]
pub enum Pattern {
    /// A single integer literal with a value in 64 unsigned bits.
    Opcode(u64),
    /// A single integer literal whose value is negative or too large.
    Unrepresentable,
    /// Anything else: a wildcard, a binding, a range, alternatives, ...
    Other,
}

/// A statement directly in a method's body.
#[derive(Debug, Clone, PartialEq, Eq)]
pub enum Stmt {
    /// A `match` standing as a statement, by the patterns of its arms.
    Match(Vec<Pattern>),
    Other,
}

/// A member of an implementation.
#[derive(Debug, Clone, PartialEq, Eq)]
pub enum Member {
    /// A function, by its name and the statements of its body.
    Fn { name: String, stmts: Vec<Stmt> },
    Other,
}

/// An `impl` block.
#[derive(Debug, Clone, PartialEq, Eq)]
pub struct ImplBlock {
    /// The last segment of the implemented trait's path; `None` for an
    /// inherent implementation, and for a path without segments.
    pub trait_name: Option<String>,
    /// The last segment of the implementing type's path; `None` where the
    /// type is not written as a path (a tuple, a reference, an array, ...).
    pub self_type: Option<String>,
    pub members: Vec<Member>,
}

/// A top-level declaration.
#[derive(Debug, Clone, PartialEq, Eq)]
pub enum Item {
    Impl(ImplBlock),
    Other,
}

pub enum StmtView {
    Match(Seq<Pattern>),
    Other,
}

pub enum MemberView {
    Fn { name: Seq<char>, stmts: Seq<StmtView> },
    Other,
}

pub struct ImplView {
    pub trait_name: Option<Seq<char>>,
    pub self_type: Option<Seq<char>>,
    pub members: Seq<MemberView>,
}

pub enum ItemView {
    Impl(ImplView),
    Other,
}

pub open spec fn name_view(name: Option<String>) -> Option<Seq<char>> {
    match name {
        Some(s) => Some(s@),
        None => None,
    }
}

pub open spec fn stmts_view(v: Seq<Stmt>) -> Seq<StmtView> {
    Seq::new(v.len(), |i: int| v[i]@)
}

pub open spec fn members_view(v: Seq<Member>) -> Seq<MemberView> {
    Seq::new(v.len(), |i: int| v[i]@)
}

pub open spec fn items_view(v: Seq<Item>) -> Seq<ItemView> {
    Seq::new(v.len(), |i: int| v[i]@)
}

impl View for Stmt {
    type V = StmtView;

    open spec fn view(&self) -> StmtView {
        match self {
            Stmt::Match(arms) => StmtView::Match(arms@),
            Stmt::Other => StmtView::Other,
        }
    }
}

impl View for Member {
    type V = MemberView;

    open spec fn view(&self) -> MemberView {
        match self {
            Member::Fn { name, stmts } => MemberView::Fn { name: name@, stmts: stmts_view(stmts@) },
            Member::Other => MemberView::Other,
        }
    }
}

impl View for ImplBlock {
    type V = ImplView;

    open spec fn view(&self) -> ImplView {
        ImplView {
            trait_name: name_view(self.trait_name),
            self_type: name_view(self.self_type),
            members: members_view(self.members@),
        }
    }
}

impl View for Item {
    type V = ItemView;

    open spec fn view(&self) -> ItemView {
        match self {
            Item::Impl(im) => ItemView::Impl(im@),
            Item::Other => ItemView::Other,
        }
    }
}

} // verus!
