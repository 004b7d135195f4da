//! The delegate-call detector for storage that is not lazily stored with
//! manual keys.
//!
//! A contract that delegates calls (an identifier `delegate`) runs other
//! code against its own storage layout; storage fields that are not `Lazy`
//! with a manual key are then at risk. The compiler calls the detector for
//! every item and every identifier, in source order.
use vstd::prelude::*;
use crate::mir::Span;
use crate::hir::{Attribute, FieldShape, Item, Token, TokenTree};
use crate::text::{contains_text, text_contains, text_eq};

verus! {

/// Whether an identifier containing `storage` occurs in the token trees.
pub open spec fn storage_present(ts: Seq<TokenTree>) -> bool
    decreases ts,
{
    exists|i: int| 0 <= i < ts.len() && tree_names_storage(#[trigger] ts[i])
}

/// Whether an identifier containing `storage` occurs in the token tree.
pub open spec fn tree_names_storage(t: TokenTree) -> bool
    decreases t,
{
    match t {
        TokenTree::Token(Token::Ident(n)) => contains_text(n@, "storage"@),
        TokenTree::Token(_) => false,
        TokenTree::Delimited(inner) => storage_present(inner@),
    }
}

/// Whether an identifier containing `storage` occurs in the token trees.
pub fn is_storage_present(ts: &Vec<TokenTree>) -> (b: bool)
    ensures
        b == storage_present(ts@),
    decreases ts,
{
    let mut i: usize = 0;
    while i < ts.len()
        invariant
            0 <= i <= ts@.len(),
            forall|j: int| 0 <= j < i ==> !tree_names_storage(#[trigger] ts@[j]),
        decreases ts@.len() - i,
    {
        assert(decreases_to!(ts => ts@[i as int]));
        let found = match &ts[i] {
            TokenTree::Token(Token::Ident(n)) => text_contains(n.as_str(), "storage"),
            TokenTree::Token(_) => false,
            TokenTree::Delimited(inner) => is_storage_present(inner),
        };
        if found {
            assert(tree_names_storage(ts@[i as int]));
            return true;
        }
        i = i + 1;
    }
    false
}

/// Whether an item is a storage item: some attribute's delimited arguments
/// mention `storage`.
pub open spec fn storage_item_spec(item: Item) -> bool {
    exists|i: int|
        0 <= i < item.attrs@.len() && (#[trigger] item.attrs@[i]).normal && match item.attrs@[i].delimited {
            Some(ts) => storage_present(ts@),
            None => false,
        }
}

/// Whether an item is a storage item.
pub fn is_storage_item(item: &Item) -> (b: bool)
    ensures
        b == storage_item_spec(*item),
{
    let mut i: usize = 0;
    while i < item.attrs.len()
        invariant
            0 <= i <= item.attrs@.len(),
            forall|j: int|
                0 <= j < i ==> !((#[trigger] item.attrs@[j]).normal && match item.attrs@[j].delimited {
                    Some(ts) => storage_present(ts@),
                    None => false,
                }),
        decreases item.attrs@.len() - i,
    {
        let a: &Attribute = &item.attrs[i];
        if a.normal {
            if let Some(ts) = &a.delimited {
                if is_storage_present(ts) {
                    return true;
                }
            }
        }
        i = i + 1;
    }
    false
}

/// Whether a field is named and `Lazy` with more than one generic argument
/// (a manual key).
pub open spec fn lazy_with_key(f: FieldShape) -> bool {
    f.named && match f.lazy_arg_count {
        Some(n) => n > 1,
        None => false,
    }
}

/// Whether a struct item is storage with a field that is not lazy with a
/// manual key.
pub open spec fn exposed_storage(item: Item) -> bool {
    storage_item_spec(item) && match item.struct_fields {
        Some(fs) => exists|k: int| 0 <= k < fs@.len() && !lazy_with_key(#[trigger] fs@[k]),
        None => false,
    }
}

fn has_exposed_field(fs: &Vec<FieldShape>) -> (b: bool)
    ensures
        b == exists|k: int| 0 <= k < fs@.len() && !lazy_with_key(#[trigger] fs@[k]),
{
    let mut k: usize = 0;
    while k < fs.len()
        invariant
            0 <= k <= fs@.len(),
            forall|j: int| 0 <= j < k ==> lazy_with_key(#[trigger] fs@[j]),
        decreases fs@.len() - k,
    {
        let f = &fs[k];
        let keyed = f.named && match f.lazy_arg_count {
            Some(n) => n > 1,
            None => false,
        };
        if !keyed {
            return true;
        }
        k = k + 1;
    }
    false
}

fn span_in(v: &Vec<Span>, s: Span) -> (b: bool)
    ensures
        b == v@.contains(s),
{
    let mut i: usize = 0;
    while i < v.len()
        invariant
            0 <= i <= v@.len(),
            forall|j: int| 0 <= j < i ==> v@[j] != s,
        decreases v@.len() - i,
    {
        if v[i] == s {
            assert(v@[i as int] == s);
            return true;
        }
        i = i + 1;
    }
    false
}

/// A warning of the detector: the `delegate` identifier, and the spans of
/// the storage items at risk, each warned about too.
#[derive(Debug)]
pub struct DelegateWarning {
    pub delegate: Span,
    pub storage: Vec<Span>,
}

/// The detector's state.
pub struct DelegateCall {
    /// The storage items with a field that is not lazy with a manual key.
    pub non_lazy_manual_storage_spans: Vec<Span>,
    pub delegate_uses: Vec<Span>,
}

impl DelegateCall {
    /// Nothing seen yet.
    pub fn new() -> (r: Self)
        ensures
            r.non_lazy_manual_storage_spans@.len() == 0,
            r.delegate_uses@.len() == 0,
    {
        DelegateCall { non_lazy_manual_storage_spans: Vec::new(), delegate_uses: Vec::new() }
    }

    /// The compiler reaches an item: a storage struct with an exposed field
    /// is recorded, once.
    pub fn check_item(&mut self, item: &Item)
        ensures
            final(self).delegate_uses@ == old(self).delegate_uses@,
            final(self).non_lazy_manual_storage_spans@ == if exposed_storage(*item)
                && !old(self).non_lazy_manual_storage_spans@.contains(item.span) {
                old(self).non_lazy_manual_storage_spans@.push(item.span)
            } else {
                old(self).non_lazy_manual_storage_spans@
            },
    {
        if is_storage_item(item) {
            if let Some(fs) = &item.struct_fields {
                if has_exposed_field(fs) && !span_in(&self.non_lazy_manual_storage_spans, item.span) {
                    self.non_lazy_manual_storage_spans.push(item.span);
                }
            }
        }
    }

    /// The compiler reaches an identifier: a `delegate` identifier becomes a
    /// pending use. While a use is pending and some storage item with an
    /// exposed field was recorded, the identifier is warned about, together
    /// with every such storage item, and no use stays pending. With only
    /// lazy, manually keyed storage nothing is warned about.
    pub fn check_ident(&mut self, name: &str, span: Span) -> (r: Option<DelegateWarning>)
        ensures
            final(self).non_lazy_manual_storage_spans@ == old(self).non_lazy_manual_storage_spans@,
            r is Some <==> ((name@ == "delegate"@ || old(self).delegate_uses@.len() > 0) && old(
                self,
            ).non_lazy_manual_storage_spans@.len() > 0),
            r matches Some(w) ==> w.delegate == span && w.storage@ == old(
                self,
            ).non_lazy_manual_storage_spans@,
            final(self).delegate_uses@ == if r is Some {
                Seq::empty()
            } else if name@ == "delegate"@ {
                old(self).delegate_uses@.push(span)
            } else {
                old(self).delegate_uses@
            },
    {
        if text_eq(name, "delegate") {
            self.delegate_uses.push(span);
        }
        if self.delegate_uses.len() > 0 && self.non_lazy_manual_storage_spans.len() > 0 {
            let mut storage: Vec<Span> = Vec::new();
            let mut i: usize = 0;
            while i < self.non_lazy_manual_storage_spans.len()
                invariant
                    0 <= i <= self.non_lazy_manual_storage_spans@.len(),
                    storage@ == self.non_lazy_manual_storage_spans@.take(i as int),
                decreases self.non_lazy_manual_storage_spans@.len() - i,
            {
                storage.push(self.non_lazy_manual_storage_spans[i]);
                i = i + 1;
                assert(storage@ =~= self.non_lazy_manual_storage_spans@.take(i as int));
            }
            assert(self.non_lazy_manual_storage_spans@.take(
                self.non_lazy_manual_storage_spans@.len() as int,
            ) =~= self.non_lazy_manual_storage_spans@);
            self.delegate_uses.clear();
            return Some(DelegateWarning { delegate: span, storage });
        }
        None
    }
}

} // verus!
