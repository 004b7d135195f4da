//! Detectors that run on the syntax tree before macro expansion: they look
//! at macro calls (`assert!`, `panic!`, `format!`), at calls of
//! `core::mem::forget`, at `unsafe` blocks, and at the attributes of items,
//! and stay silent inside test code.
//!
//! The compiler calls each detector once per item, statement and expression,
//! items before what they contain. The detectors that skip test code keep the
//! span of the test item they are in.
use vstd::prelude::*;
use crate::mir::Span;
use crate::hir::{Attribute, Expr, ExprKind, Item, MacCall, NestedMeta, QPath, Stmt, Token, TokenTree};
use crate::text::{
    char_is_whitespace, char_to_uppercase, chars_of, contains_text, is_white_space, join_with,
    push_char, push_chars, text_eq, unicode_uppercase,
};

verus! {

// ---------------------------------------------------------------------
// Tokens and attributes
// ---------------------------------------------------------------------

/// Whether an identifier named `find` occurs in the token trees `ts`, at any
/// depth.
pub open spec fn token_present(ts: Seq<TokenTree>, find: Seq<char>) -> bool
    decreases ts,
{
    exists|i: int| 0 <= i < ts.len() && tree_has(#[trigger] ts[i], find)
}

/// Whether an identifier named `find` occurs in the token tree `t`.
pub open spec fn tree_has(t: TokenTree, find: Seq<char>) -> bool
    decreases t,
{
    match t {
        TokenTree::Token(Token::Ident(n)) => n@ == find,
        TokenTree::Token(_) => false,
        TokenTree::Delimited(inner) => token_present(inner@, find),
    }
}

/// Whether an identifier named `find` occurs in the token trees `ts`.
pub fn is_token_present(ts: &Vec<TokenTree>, find: &str) -> (b: bool)
    ensures
        b == token_present(ts@, find@),
    decreases ts,
{
    let mut i: usize = 0;
    while i < ts.len()
        invariant
            0 <= i <= ts@.len(),
            forall|j: int| 0 <= j < i ==> !tree_has(#[trigger] ts@[j], find@),
        decreases ts@.len() - i,
    {
        assert(decreases_to!(ts => ts@[i as int]));
        let found = match &ts[i] {
            TokenTree::Token(Token::Ident(n)) => text_eq(n.as_str(), find),
            TokenTree::Token(_) => false,
            TokenTree::Delimited(inner) => is_token_present(inner, find),
        };
        if found {
            assert(tree_has(ts@[i as int], find@));
            return true;
        }
        i = i + 1;
    }
    false
}

/// Whether an identifier `test` occurs in the token trees `ts`.
pub fn is_test_token_present(ts: &Vec<TokenTree>) -> (b: bool)
    ensures
        b == token_present(ts@, "test"@),
{
    is_token_present(ts, "test")
}

/// Whether `path` is the single segment `name`.
pub open spec fn path_is(path: Seq<String>, name: Seq<char>) -> bool {
    path.len() == 1 && path[0]@ == name
}

/// Whether a normal attribute has the single-segment name `name`.
pub open spec fn has_name(a: Attribute, name: Seq<char>) -> bool {
    a.normal && path_is(a.path@, name)
}

/// Whether an attribute is `#[cfg(test)]`, read as a meta-item list.
pub open spec fn is_cfg_test(a: Attribute) -> bool {
    has_name(a, "cfg"@) && match a.meta_list {
        Some(ms) => ms@.len() == 1 && match ms@[0] {
            NestedMeta::Meta(p) => path_is(p@, "test"@),
            NestedMeta::Lit => false,
        },
        None => false,
    }
}

/// Whether an attribute marks test code: its delimited arguments mention
/// `test` (as in `#[cfg(all(test, feature = ".."))]`), or it is `#[test]` or
/// `#[cfg(test)]`.
pub open spec fn is_test_attr(a: Attribute) -> bool {
    (a.normal && match a.delimited {
        Some(ts) => token_present(ts@, "test"@),
        None => false,
    }) || has_name(a, "test"@) || is_cfg_test(a)
}

/// Whether an item is test code.
pub open spec fn test_item_spec(item: Item) -> bool {
    exists|i: int| 0 <= i < item.attrs@.len() && is_test_attr(#[trigger] item.attrs@[i])
}

/// Whether an item is `#[test]` or `#[cfg(test)]`.
pub open spec fn plain_test_item_spec(item: Item) -> bool {
    exists|i: int|
        0 <= i < item.attrs@.len() && (has_name(#[trigger] item.attrs@[i], "test"@) || is_cfg_test(
            item.attrs@[i],
        ))
}

fn path_is_exec(path: &Vec<String>, name: &str) -> (b: bool)
    ensures
        b == path_is(path@, name@),
{
    path.len() == 1 && text_eq(path[0].as_str(), name)
}

fn has_name_exec(a: &Attribute, name: &str) -> (b: bool)
    ensures
        b == has_name(*a, name@),
{
    a.normal && path_is_exec(&a.path, name)
}

fn is_cfg_test_exec(a: &Attribute) -> (b: bool)
    ensures
        b == is_cfg_test(*a),
{
    if !has_name_exec(a, "cfg") {
        return false;
    }
    match &a.meta_list {
        Some(ms) => ms.len() == 1 && match &ms[0] {
            NestedMeta::Meta(p) => path_is_exec(p, "test"),
            NestedMeta::Lit => false,
        },
        None => false,
    }
}

fn is_test_attr_exec(a: &Attribute) -> (b: bool)
    ensures
        b == is_test_attr(*a),
{
    let tokens = a.normal && match &a.delimited {
        Some(ts) => is_test_token_present(ts),
        None => false,
    };
    tokens || has_name_exec(a, "test") || is_cfg_test_exec(a)
}

/// Whether an item is test code: one of its attributes mentions `test`.
pub fn is_test_item(item: &Item) -> (b: bool)
    ensures
        b == test_item_spec(*item),
{
    let mut i: usize = 0;
    while i < item.attrs.len()
        invariant
            0 <= i <= item.attrs@.len(),
            forall|j: int| 0 <= j < i ==> !is_test_attr(#[trigger] item.attrs@[j]),
        decreases item.attrs@.len() - i,
    {
        if is_test_attr_exec(&item.attrs[i]) {
            return true;
        }
        i = i + 1;
    }
    false
}

/// Whether an item is `#[test]` or `#[cfg(test)]`.
pub fn is_plain_test_item(item: &Item) -> (b: bool)
    ensures
        b == plain_test_item_spec(*item),
{
    let mut i: usize = 0;
    while i < item.attrs.len()
        invariant
            0 <= i <= item.attrs@.len(),
            forall|j: int|
                0 <= j < i ==> !(has_name(#[trigger] item.attrs@[j], "test"@) || is_cfg_test(
                    item.attrs@[j],
                )),
        decreases item.attrs@.len() - i,
    {
        if has_name_exec(&item.attrs[i], "test") || is_cfg_test_exec(&item.attrs[i]) {
            return true;
        }
        i = i + 1;
    }
    false
}

/// Whether some `#[ink(..)]` attribute mentions `find` among its arguments.
pub open spec fn ink_attr_present(attrs: Seq<Attribute>, find: Seq<char>) -> bool {
    exists|i: int|
        0 <= i < attrs.len() && (#[trigger] attrs[i]).normal && path_is(attrs[i].path@, "ink"@)
            && match attrs[i].delimited {
            Some(ts) => token_present(ts@, find),
            None => false,
        }
}

/// Whether some `#[ink(..)]` attribute mentions `find` among its arguments.
pub fn attr_is_present(attrs: &Vec<Attribute>, find: &str) -> (b: bool)
    ensures
        b == ink_attr_present(attrs@, find@),
{
    let mut i: usize = 0;
    while i < attrs.len()
        invariant
            0 <= i <= attrs@.len(),
            forall|j: int|
                0 <= j < i ==> !((#[trigger] attrs@[j]).normal && path_is(attrs@[j].path@, "ink"@)
                    && match attrs@[j].delimited {
                    Some(ts) => token_present(ts@, find@),
                    None => false,
                }),
        decreases attrs@.len() - i,
    {
        let a = &attrs[i];
        if a.normal && path_is_exec(&a.path, "ink") {
            if let Some(ts) = &a.delimited {
                if is_token_present(ts, find) {
                    return true;
                }
            }
        }
        i = i + 1;
    }
    false
}

// ---------------------------------------------------------------------
// Being inside a test item
// ---------------------------------------------------------------------

/// The test item that the walk is in after it reaches an item at `span`
/// (`is_test` when that item is test code), when it was in `cur`: a test
/// item outside the current one becomes the current one, and an item outside
/// the current test item leaves it.
pub open spec fn next_test_span(cur: Option<Span>, span: Span, is_test: bool) -> Option<Span> {
    match cur {
        None => if is_test {
            Some(span)
        } else {
            None
        },
        Some(t) => if t.contains_spec(span) {
            cur
        } else if is_test {
            Some(span)
        } else {
            None
        },
    }
}

/// The test item that the walk is in after it reaches an item.
pub fn track_test_item(cur: Option<Span>, span: Span, is_test: bool) -> (r: Option<Span>)
    ensures
        r == next_test_span(cur, span, is_test),
{
    match (is_test, cur) {
        (true, None) => Some(span),
        (true, Some(t)) => if !t.contains(&span) {
            Some(span)
        } else {
            cur
        },
        (false, None) => None,
        (false, Some(t)) => if !t.contains(&span) {
            None
        } else {
            cur
        },
    }
}

/// Reaching a test item puts the walk inside test code.
pub proof fn lemma_test_item_enters(cur: Option<Span>, span: Span)
    ensures
        next_test_span(cur, span, true) is Some,
{
}

/// An item inside the current test item keeps the walk inside it.
pub proof fn lemma_nested_item_stays(t: Span, span: Span, is_test: bool)
    requires
        t.contains_spec(span),
    ensures
        next_test_span(Some(t), span, is_test) == Some(t),
{
}

/// An item that is not test code and lies outside the current test item
/// takes the walk out of test code.
pub proof fn lemma_outside_item_leaves(cur: Option<Span>, span: Span)
    requires
        cur is None || !cur->0.contains_spec(span),
    ensures
        next_test_span(cur, span, false) is None,
{
}

// ---------------------------------------------------------------------
// Macro calls
// ---------------------------------------------------------------------

/// Whether the macro call is one of the assertion macros.
pub open spec fn is_assert_macro(mac: MacCall) -> bool {
    path_is(mac.path@, "assert"@) || path_is(mac.path@, "assert_eq"@) || path_is(
        mac.path@,
        "assert_ne"@,
    ) || path_is(mac.path@, "debug_assert"@) || path_is(mac.path@, "debug_assert_eq"@) || path_is(
        mac.path@,
        "debug_assert_ne"@,
    )
}

/// Whether the macro call is one of the assertion macros.
pub fn check_assert_macro(mac: &MacCall) -> (b: bool)
    ensures
        b == is_assert_macro(*mac),
{
    path_is_exec(&mac.path, "assert") || path_is_exec(&mac.path, "assert_eq") || path_is_exec(
        &mac.path,
        "assert_ne",
    ) || path_is_exec(&mac.path, "debug_assert") || path_is_exec(&mac.path, "debug_assert_eq")
        || path_is_exec(&mac.path, "debug_assert_ne")
}

/// The assert-violation detector: assertions outside test code are
/// reported.
pub struct AssertViolation {
    pub in_test_span: Option<Span>,
}

impl AssertViolation {
    /// The detector, outside test code.
    pub fn new() -> (r: Self)
        ensures
            r.in_test_span is None,
    {
        AssertViolation { in_test_span: None }
    }

    /// Whether the walk is inside test code.
    pub fn in_test_item(&self) -> (b: bool)
        ensures
            b == self.in_test_span is Some,
    {
        self.in_test_span.is_some()
    }

    /// The walk reaches an item.
    pub fn check_item(&mut self, item: &Item)
        ensures
            final(self).in_test_span == next_test_span(
                old(self).in_test_span,
                item.span,
                test_item_spec(*item),
            ),
    {
        let t = is_test_item(item);
        self.in_test_span = track_test_item(self.in_test_span, item.span, t);
    }

    /// The span to report for a statement: an assertion macro outside test
    /// code.
    pub fn check_stmt(&self, stmt: &Stmt) -> (r: Option<Span>)
        ensures
            r == match *stmt {
                Stmt::MacCall(span, mac) => if self.in_test_span is None && is_assert_macro(mac) {
                    Some(span)
                } else {
                    None
                },
                _ => None,
            },
    {
        if self.in_test_item() {
            return None;
        }
        match stmt {
            Stmt::MacCall(span, mac) => if check_assert_macro(mac) {
                Some(*span)
            } else {
                None
            },
            _ => None,
        }
    }

    /// The span to report for an expression: an assertion macro outside test
    /// code.
    pub fn check_expr(&self, e: &Expr) -> (r: Option<Span>)
        ensures
            r == match e.kind {
                ExprKind::MacCall(mac) => if self.in_test_span is None && is_assert_macro(mac) {
                    Some(e.span)
                } else {
                    None
                },
                _ => None,
            },
    {
        if self.in_test_item() {
            return None;
        }
        match &e.kind {
            ExprKind::MacCall(mac) => if check_assert_macro(mac) {
                Some(e.span)
            } else {
                None
            },
            _ => None,
        }
    }
}

/// The avoid-format-string detector: `format!` outside test code is
/// reported.
pub struct AvoidFormatString {
    pub in_test_span: Option<Span>,
}

impl AvoidFormatString {
    /// The detector, outside test code.
    pub fn new() -> (r: Self)
        ensures
            r.in_test_span is None,
    {
        AvoidFormatString { in_test_span: None }
    }

    /// Whether the walk is inside test code.
    pub fn in_test_item(&self) -> (b: bool)
        ensures
            b == self.in_test_span is Some,
    {
        self.in_test_span.is_some()
    }

    /// The walk reaches an item.
    pub fn check_item(&mut self, item: &Item)
        ensures
            final(self).in_test_span == next_test_span(
                old(self).in_test_span,
                item.span,
                test_item_spec(*item),
            ),
    {
        let t = is_test_item(item);
        self.in_test_span = track_test_item(self.in_test_span, item.span, t);
    }

    /// The span to report for an expression: a `format!` call outside test
    /// code.
    pub fn check_expr(&self, e: &Expr) -> (r: Option<Span>)
        ensures
            r == match e.kind {
                ExprKind::MacCall(mac) => if self.in_test_span is None && path_is(
                    mac.path@,
                    "format"@,
                ) {
                    Some(e.span)
                } else {
                    None
                },
                _ => None,
            },
    {
        if self.in_test_item() {
            return None;
        }
        match &e.kind {
            ExprKind::MacCall(mac) => if path_is_exec(&mac.path, "format") {
                Some(e.span)
            } else {
                None
            },
            _ => None,
        }
    }
}

// ---------------------------------------------------------------------
// `panic!` with a message
// ---------------------------------------------------------------------

/// The words of `s`: its maximal runs of non-white-space characters
/// (`str::split_whitespace`).
pub open spec fn ws_words(s: Seq<char>) -> Seq<Seq<char>>
    decreases s.len(),
{
    if s.len() == 0 {
        Seq::empty()
    } else {
        let w = ws_words(s.drop_last());
        let c = s.last();
        if is_white_space(c) {
            w
        } else if s.len() >= 2 && !is_white_space(s[s.len() - 2]) {
            w.update(w.len() - 1, w.last().push(c))
        } else {
            w.push(seq![c])
        }
    }
}

/// A word with its first character upper-cased (which may give several
/// characters).
pub open spec fn capitalize_word(w: Seq<char>) -> Seq<char> {
    if w.len() == 0 {
        w
    } else {
        unicode_uppercase(w[0]) + w.drop_first()
    }
}

/// The message text with every word capitalized, words joined by one space.
pub open spec fn capitalized_message(s: Seq<char>) -> Seq<char> {
    join_with(ws_words(s).map_values(|w: Seq<char>| capitalize_word(w)), " "@)
}

/// `s` without its spaces (`str::replace(' ', "")`).
pub open spec fn without_spaces(s: Seq<char>) -> Seq<char>
    decreases s.len(),
{
    if s.len() == 0 {
        s
    } else if s.last() == ' ' {
        without_spaces(s.drop_last())
    } else {
        without_spaces(s.drop_last()).push(s.last())
    }
}

/// The help of the panic-error detector for a `panic!` with message `msg`.
pub open spec fn panic_help(msg: Seq<char>) -> Seq<char> {
    "You could use instead an Error enum and then 'return Err(Error::"@ + without_spaces(
        capitalized_message(msg),
    ) + ")'"@
}

proof fn lemma_words_nonempty(s: Seq<char>)
    requires
        s.len() > 0,
        !is_white_space(s.last()),
    ensures
        ws_words(s).len() > 0,
    decreases s.len(),
{
    let w = ws_words(s.drop_last());
    if s.len() >= 2 && !is_white_space(s[s.len() - 2]) {
        assert(s.drop_last().last() == s[s.len() - 2]);
        lemma_words_nonempty(s.drop_last());
    }
}

/// The index ranges `[start, end)` of the words of `v`.
fn word_ranges(v: &Vec<char>) -> (r: Vec<(usize, usize)>)
    ensures
        r@.len() == ws_words(v@).len(),
        forall|k: int|
            0 <= k < r@.len() ==> {
                &&& (#[trigger] r@[k]).0 < r@[k].1 <= v@.len()
                &&& v@.subrange(r@[k].0 as int, r@[k].1 as int) == ws_words(v@)[k]
            },
{
    let mut r: Vec<(usize, usize)> = Vec::new();
    let mut in_word = false;
    let mut i: usize = 0;
    assert(v@.take(0) =~= Seq::<char>::empty());
    while i < v.len()
        invariant
            0 <= i <= v@.len(),
            r@.len() == ws_words(v@.take(i as int)).len(),
            in_word == (i > 0 && !is_white_space(v@[i - 1])),
            in_word ==> r@.len() > 0 && r@.last().1 == i,
            forall|k: int|
                0 <= k < r@.len() ==> {
                    &&& (#[trigger] r@[k]).0 < r@[k].1 <= i
                    &&& v@.subrange(r@[k].0 as int, r@[k].1 as int) == ws_words(v@.take(i as int))[k]
                },
        decreases v@.len() - i,
    {
        let ghost prev = ws_words(v@.take(i as int));
        let c = v[i];
        assert(v@.take(i + 1).drop_last() =~= v@.take(i as int));
        assert(v@.take(i + 1).last() == c);
        if char_is_whitespace(c) {
            in_word = false;
        } else if in_word {
            let last = r.len() - 1;
            let start = r[last].0;
            r.set(last, (start, i + 1));
            assert(v@.take(i + 1)[i - 1] == v@[i - 1]);
            assert(v@.subrange(start as int, i + 1) =~= v@.subrange(start as int, i as int).push(c));
        } else {
            r.push((i, i + 1));
            assert(v@.subrange(i as int, i + 1) =~= seq![c]);
            if i > 0 {
                assert(v@.take(i + 1)[i - 1] == v@[i - 1]);
            }
            in_word = true;
        }
        i = i + 1;
        assert forall|k: int|
            0 <= k < r@.len() implies {
            &&& (#[trigger] r@[k]).0 < r@[k].1 <= i
            &&& v@.subrange(r@[k].0 as int, r@[k].1 as int) == ws_words(v@.take(i as int))[k]
        } by {
            if k < prev.len() - 1 {
            } else if k == prev.len() - 1 {
            } else {
            }
        }
    }
    assert(v@.take(v@.len() as int) =~= v@);
    r
}

/// Every word of `s` capitalized, joined by one space (`split_whitespace`,
/// each word's first character upper-cased, `join(" ")`).
pub fn capitalize_err_msg(s: &str) -> (r: String)
    ensures
        r@ == capitalized_message(s@),
{
    let v = chars_of(s);
    let ranges = word_ranges(&v);
    let ghost words = ws_words(v@);
    let ghost caps = words.map_values(|w: Seq<char>| capitalize_word(w));
    let mut r = String::new();
    let mut k: usize = 0;
    assert(caps.take(0) =~= Seq::<Seq<char>>::empty());
    while k < ranges.len()
        invariant
            0 <= k <= ranges@.len(),
            ranges@.len() == words.len(),
            v@ == s@,
            words == ws_words(v@),
            caps == words.map_values(|w: Seq<char>| capitalize_word(w)),
            forall|j: int|
                0 <= j < ranges@.len() ==> {
                    &&& (#[trigger] ranges@[j]).0 < ranges@[j].1 <= v@.len()
                    &&& v@.subrange(ranges@[j].0 as int, ranges@[j].1 as int) == words[j]
                },
            r@ == join_with(caps.take(k as int), " "@),
        decreases ranges@.len() - k,
    {
        let (start, end) = ranges[k];
        let ghost before = r@;
        if k > 0 {
            r.append(" ");
        }
        let up = char_to_uppercase(v[start]);
        r.append(up.as_str());
        push_chars(&mut r, v.as_slice(), start + 1, end);
        proof {
            let w = words[k as int];
            assert(w[0] == v@[start as int]);
            assert(w.drop_first() =~= v@.subrange(start + 1, end as int));
            assert(caps[k as int] == capitalize_word(w));
            assert(caps.take(k + 1).drop_last() =~= caps.take(k as int));
            if k == 0 {
                assert(caps.take(1) =~= seq![caps[0]]);
            }
        }
        assert(r@ =~= join_with(caps.take(k + 1), " "@));
        k = k + 1;
    }
    assert(caps.take(caps.len() as int) =~= caps);
    r
}

/// `s` without its spaces.
pub fn remove_spaces(s: &str) -> (r: String)
    ensures
        r@ == without_spaces(s@),
{
    let v = chars_of(s);
    let mut r = String::new();
    let mut i: usize = 0;
    while i < v.len()
        invariant
            0 <= i <= v@.len(),
            v@ == s@,
            r@ == without_spaces(v@.take(i as int)),
        decreases v@.len() - i,
    {
        assert(v@.take(i + 1).drop_last() =~= v@.take(i as int));
        if v[i] != ' ' {
            push_char(&mut r, v[i]);
        }
        i = i + 1;
    }
    assert(v@.take(v@.len() as int) =~= v@);
    r
}

/// The message of a `panic!` call that has a single string literal argument.
pub open spec fn panic_message(mac: MacCall) -> Option<Seq<char>> {
    if path_is(mac.path@, "panic"@) && mac.tokens@.len() == 1 {
        match mac.tokens@[0] {
            TokenTree::Token(Token::StrLit(m)) => Some(m@),
            _ => None,
        }
    } else {
        None
    }
}

/// The help text for a `panic!` call with a single string literal, if the
/// macro call is one.
pub fn check_panic_macro(mac: &MacCall) -> (r: Option<String>)
    ensures
        match panic_message(*mac) {
            Some(m) => r matches Some(h) && h@ == panic_help(m),
            None => r is None,
        },
{
    if path_is_exec(&mac.path, "panic") && mac.tokens.len() == 1 {
        if let TokenTree::Token(Token::StrLit(m)) = &mac.tokens[0] {
            let caps = capitalize_err_msg(m.as_str());
            let name = remove_spaces(caps.as_str());
            let mut h = String::from_str("You could use instead an Error enum and then 'return Err(Error::");
            h.append(name.as_str());
            h.append(")'");
            return Some(h);
        }
    }
    None
}

/// The panic-error detector: a `panic!` with a message outside test code is
/// reported, with a help that names an error variant after the message.
pub struct PanicError {
    pub in_test_span: Option<Span>,
}

impl PanicError {
    /// The detector, outside test code.
    pub fn new() -> (r: Self)
        ensures
            r.in_test_span is None,
    {
        PanicError { in_test_span: None }
    }

    /// Whether the walk is inside test code.
    pub fn in_test_item(&self) -> (b: bool)
        ensures
            b == self.in_test_span is Some,
    {
        self.in_test_span.is_some()
    }

    /// The walk reaches an item.
    pub fn check_item(&mut self, item: &Item)
        ensures
            final(self).in_test_span == next_test_span(
                old(self).in_test_span,
                item.span,
                test_item_spec(*item),
            ),
    {
        let t = is_test_item(item);
        self.in_test_span = track_test_item(self.in_test_span, item.span, t);
    }

    /// The span and help to report for a statement.
    pub fn check_stmt(&self, stmt: &Stmt) -> (r: Option<(Span, String)>)
        ensures
            match *stmt {
                Stmt::MacCall(span, mac) => match (if self.in_test_span is None {
                    panic_message(mac)
                } else {
                    None
                }) {
                    Some(m) => r matches Some((s, h)) && s == span && h@ == panic_help(m),
                    None => r is None,
                },
                _ => r is None,
            },
    {
        if self.in_test_item() {
            return None;
        }
        match stmt {
            Stmt::MacCall(span, mac) => match check_panic_macro(mac) {
                Some(h) => Some((*span, h)),
                None => None,
            },
            _ => None,
        }
    }

    /// The span and help to report for an expression.
    pub fn check_expr(&self, e: &Expr) -> (r: Option<(Span, String)>)
        ensures
            match e.kind {
                ExprKind::MacCall(mac) => match (if self.in_test_span is None {
                    panic_message(mac)
                } else {
                    None
                }) {
                    Some(m) => r matches Some((s, h)) && s == e.span && h@ == panic_help(m),
                    None => r is None,
                },
                _ => r is None,
            },
    {
        if self.in_test_item() {
            return None;
        }
        match &e.kind {
            ExprKind::MacCall(mac) => match check_panic_macro(mac) {
                Some(h) => Some((e.span, h)),
                None => None,
            },
            _ => None,
        }
    }
}

// ---------------------------------------------------------------------
// `core::mem::forget`, `unsafe` blocks, pseudo-random values
// ---------------------------------------------------------------------

/// Whether `e` calls `core::mem::forget`.
pub open spec fn mem_forget_call(e: Expr) -> bool {
    match e.kind {
        ExprKind::Call { func, .. } => match func.kind {
            ExprKind::Path(QPath::Resolved { segments, .. }) => segments@.len() == 3
                && segments@[0].name@ == "core"@ && segments@[1].name@ == "mem"@
                && segments@[2].name@ == "forget"@,
            _ => false,
        },
        _ => false,
    }
}

/// The avoid-`core::mem::forget` detector. Once the walk has reached a test
/// item, every later item is taken as test code too.
pub struct AvoidStdCoreMemForget {
    pub stack: Vec<u64>,
}

impl AvoidStdCoreMemForget {
    /// The detector, outside test code.
    pub fn new() -> (r: Self)
        ensures
            r.stack@.len() == 0,
    {
        AvoidStdCoreMemForget { stack: Vec::new() }
    }

    /// Whether the walk is inside test code.
    pub fn in_test_item(&self) -> (b: bool)
        ensures
            b == (self.stack@.len() > 0),
    {
        self.stack.len() > 0
    }

    /// The walk reaches an item: inside test code, or at a test item, the
    /// item is recorded.
    pub fn check_item(&mut self, item: &Item)
        ensures
            final(self).stack@ == if old(self).stack@.len() > 0 || plain_test_item_spec(*item) {
                old(self).stack@.push(item.id)
            } else {
                old(self).stack@
            },
    {
        if self.in_test_item() || is_plain_test_item(item) {
            self.stack.push(item.id);
        }
    }

    /// The span to report for an expression: a call of `core::mem::forget`
    /// outside test code.
    pub fn check_expr(&self, e: &Expr) -> (r: Option<Span>)
        ensures
            r == if self.stack@.len() == 0 && mem_forget_call(*e) {
                Some(e.span)
            } else {
                None
            },
    {
        if self.in_test_item() {
            return None;
        }
        if let ExprKind::Call { func, .. } = &e.kind {
            if let ExprKind::Path(QPath::Resolved { segments, .. }) = &func.kind {
                if segments.len() == 3 && text_eq(segments[0].name.as_str(), "core") && text_eq(
                    segments[1].name.as_str(),
                    "mem",
                ) && text_eq(segments[2].name.as_str(), "forget") {
                    return Some(e.span);
                }
            }
        }
        None
    }
}

/// The avoid-`unsafe`-block detector.
pub struct AvoidUnsafeBlock {}

impl AvoidUnsafeBlock {
    /// The detector.
    pub fn new() -> (r: Self) {
        AvoidUnsafeBlock {  }
    }

    /// The span to report for an expression: an `unsafe` block written by
    /// the user.
    pub fn check_expr(&self, e: &Expr) -> (r: Option<Span>)
        ensures
            r == if e.kind is UnsafeBlock {
                Some(e.span)
            } else {
                None
            },
    {
        match &e.kind {
            ExprKind::UnsafeBlock(_) => Some(e.span),
            _ => None,
        }
    }
}

/// Whether `e` takes the remainder of the block timestamp or block number.
pub open spec fn pseudo_random_spec(e: Expr) -> bool {
    match e.kind {
        ExprKind::Binary(op, l, _) => op == crate::hir::BinOp::Rem && match l.kind {
            ExprKind::MethodCall { name, .. } => name@ == "block_timestamp"@ || name@
                == "block_number"@,
            _ => false,
        },
        _ => false,
    }
}

/// The insufficiently-random-values detector.
pub struct InsufficientlyRandomValues {}

impl InsufficientlyRandomValues {
    /// The detector.
    pub fn new() -> (r: Self) {
        InsufficientlyRandomValues {  }
    }

    /// The span to report for an expression: a remainder of the block
    /// timestamp or block number, used as a random number.
    pub fn check_expr(&self, e: &Expr) -> (r: Option<Span>)
        ensures
            r == if pseudo_random_spec(*e) {
                Some(e.span)
            } else {
                None
            },
    {
        if let ExprKind::Binary(op, l, _) = &e.kind {
            if *op == crate::hir::BinOp::Rem {
                if let ExprKind::MethodCall { name, .. } = &l.kind {
                    if text_eq(name.as_str(), "block_timestamp") || text_eq(
                        name.as_str(),
                        "block_number",
                    ) {
                        return Some(e.span);
                    }
                }
            }
        }
        None
    }
}

/// Law: outside test code the assert-violation detector reports a macro
/// called by a single-segment path exactly when it is `assert`,
/// `assert_eq`, `assert_ne` or one of their `debug_` forms; a macro called
/// by a longer path is never one of them.
pub proof fn lemma_assertion_macros(mac: MacCall)
    ensures
        mac.path@.len() != 1 ==> !is_assert_macro(mac),
        mac.path@.len() == 1 ==> (is_assert_macro(mac) <==> {
            let n = mac.path@[0]@;
            ||| n == "assert"@
            ||| n == "assert_eq"@
            ||| n == "assert_ne"@
            ||| n == "debug_assert"@
            ||| n == "debug_assert_eq"@
            ||| n == "debug_assert_ne"@
        }),
{
}

/// Law: an assertion macro and its `debug_` form are alike: the macro
/// `name` (a name starting with `a`) is an assertion macro exactly when
/// `debug_name` is.
pub proof fn lemma_debug_forms_alike(m1: MacCall, m2: MacCall)
    requires
        m1.path@.len() == 1,
        m2.path@.len() == 1,
        m1.path@[0]@.len() > 0,
        m1.path@[0]@[0] == 'a',
        m2.path@[0]@ == "debug_"@ + m1.path@[0]@,
    ensures
        is_assert_macro(m1) <==> is_assert_macro(m2),
{
    reveal_strlit("debug_");
    reveal_strlit("assert");
    reveal_strlit("assert_eq");
    reveal_strlit("assert_ne");
    reveal_strlit("debug_assert");
    reveal_strlit("debug_assert_eq");
    reveal_strlit("debug_assert_ne");
    let x = m1.path@[0]@;
    let y = m2.path@[0]@;
    assert(y.subrange(6, y.len() as int) =~= x);
    assert(y[0] == 'd');
    if x == "assert"@ {
        assert(y =~= "debug_assert"@);
    } else if x == "assert_eq"@ {
        assert(y =~= "debug_assert_eq"@);
    } else if x == "assert_ne"@ {
        assert(y =~= "debug_assert_ne"@);
    }
    if y == "debug_assert"@ {
        assert(x =~= "debug_assert"@.subrange(6, 12));
        assert("debug_assert"@.subrange(6, 12) =~= "assert"@);
    } else if y == "debug_assert_eq"@ {
        assert(x =~= "debug_assert_eq"@.subrange(6, 15));
        assert("debug_assert_eq"@.subrange(6, 15) =~= "assert_eq"@);
    } else if y == "debug_assert_ne"@ {
        assert(x =~= "debug_assert_ne"@.subrange(6, 15));
        assert("debug_assert_ne"@.subrange(6, 15) =~= "assert_ne"@);
    }
    assert(y != "assert"@ && y != "assert_eq"@ && y != "assert_ne"@) by {
        assert("assert"@[0] == 'a');
        assert("assert_eq"@[0] == 'a');
        assert("assert_ne"@[0] == 'a');
    }
    assert(x != "debug_assert"@ && x != "debug_assert_eq"@ && x != "debug_assert_ne"@) by {
        assert("debug_assert"@[0] == 'd');
        assert("debug_assert_eq"@[0] == 'd');
        assert("debug_assert_ne"@[0] == 'd');
    }
}

} // verus!
