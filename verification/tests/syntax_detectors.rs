use cargo_scout_audit::early_lints::{
    attr_is_present, capitalize_err_msg, check_assert_macro, check_panic_macro,
    is_plain_test_item, is_test_item, is_test_token_present, is_token_present, remove_spaces,
    track_test_item, AssertViolation, AvoidFormatString, AvoidStdCoreMemForget, AvoidUnsafeBlock,
    InsufficientlyRandomValues, PanicError,
};
use cargo_scout_audit::hir::{
    Attribute, BinOp, Expr, ExprKind, FieldShape, Item, MacCall, NestedMeta, PathSegment, QPath,
    Stmt, Token, TokenTree,
};
use cargo_scout_audit::lazy_delegate::{is_storage_item, is_storage_present, DelegateCall};
use cargo_scout_audit::lazy_mut_get::{
    get_method_path_names, stmt_target_of, LazyMutGetNotSet, LazyMutGetNotSetVisitor,
};
use cargo_scout_audit::mir::Span;
use cargo_scout_audit::span_probes::{
    get_divisions_inside_expr, is_self_env_transferred_value, DivideBeforeMultiply,
    DontUseInstantiateContractV1, DontUseInvokeContractV1, IncorrectExponentiation,
    NonPayableTransferredValue, UnsafeUnwrap,
};
use cargo_scout_audit::storage_types::{
    is_lazy_type, is_lazy_type_with_unsized_generic_arg, method_is_wanted,
    AvoidAutokeyUpgradable, BufferingUnsizedTypes, FieldDef, GenericArg, TyPath, TySegment,
};

fn sp(lo: u32) -> Span {
    Span { lo, hi: lo + 1 }
}

fn ex(id: u64, kind: ExprKind) -> Expr {
    Expr { hir_id: id, span: sp(id as u32), kind }
}

fn path(id: u64, names: &[&str]) -> Expr {
    let segments = names
        .iter()
        .enumerate()
        .map(|(k, n)| PathSegment { name: n.to_string(), hir_id: id * 100 + k as u64 })
        .collect();
    ex(id, ExprKind::Path(QPath::Resolved { with_self_type: false, res_local: None, segments }))
}

fn method(id: u64, name: &str, receiver: Expr, args: Vec<Expr>) -> Expr {
    ex(id, ExprKind::MethodCall { name: name.to_string(), receiver: Box::new(receiver), args })
}

fn field(id: u64, base: Expr, name: &str) -> Expr {
    ex(id, ExprKind::Field(Box::new(base), name.to_string()))
}

fn binary(id: u64, op: BinOp, l: Expr, r: Expr) -> Expr {
    ex(id, ExprKind::Binary(op, Box::new(l), Box::new(r)))
}

fn block(id: u64, es: Vec<Expr>) -> Expr {
    ex(id, ExprKind::Other(es))
}

fn ident(n: &str) -> TokenTree {
    TokenTree::Token(Token::Ident(n.to_string()))
}

fn mac(path: &[&str], tokens: Vec<TokenTree>) -> MacCall {
    MacCall { path: path.iter().map(|s| s.to_string()).collect(), tokens }
}

fn attr(path: &str, delimited: Option<Vec<TokenTree>>, meta: Option<Vec<NestedMeta>>) -> Attribute {
    Attribute { normal: true, path: vec![path.to_string()], delimited, meta_list: meta }
}

fn item(id: u64, lo: u32, hi: u32, attrs: Vec<Attribute>) -> Item {
    Item { id, span: Span { lo, hi }, attrs, struct_fields: None }
}

// ---------------------------------------------------------------------
// Tokens, attributes and test code
// ---------------------------------------------------------------------

#[test]
fn tokens_are_searched_at_any_depth() {
    let ts = vec![ident("all"), TokenTree::Delimited(vec![ident("test"), TokenTree::Token(Token::Other)])];
    assert!(is_token_present(&ts, "test"));
    assert!(is_test_token_present(&ts));
    assert!(!is_token_present(&ts, "feature"));
    assert!(!is_test_token_present(&vec![TokenTree::Token(Token::StrLit("test".to_string()))]));
}

#[test]
fn test_items_are_recognised() {
    let cfg_all = attr("cfg", Some(vec![TokenTree::Delimited(vec![ident("test"), ident("feature")])]), None);
    assert!(is_test_item(&item(1, 0, 10, vec![cfg_all])));
    assert!(!is_plain_test_item(&item(1, 0, 10, vec![attr("cfg", Some(vec![ident("all")]), None)])));
    assert!(is_test_item(&item(2, 0, 10, vec![attr("test", None, None)])));
    assert!(is_plain_test_item(&item(2, 0, 10, vec![attr("test", None, None)])));
    let cfg_test = attr("cfg", None, Some(vec![NestedMeta::Meta(vec!["test".to_string()])]));
    assert!(is_plain_test_item(&item(3, 0, 10, vec![cfg_test])));
    let doc = Attribute { normal: false, path: vec!["test".to_string()], delimited: None, meta_list: None };
    assert!(!is_test_item(&item(4, 0, 10, vec![doc])));
    assert!(!is_test_item(&item(5, 0, 10, vec![])));
}

#[test]
fn ink_attributes() {
    let a = attr("ink", Some(vec![ident("message"), ident("payable")]), None);
    assert!(attr_is_present(&vec![a], "payable"));
    let b = attr("ink", Some(vec![ident("message")]), None);
    assert!(!attr_is_present(&vec![b], "payable"));
    let c = attr("other", Some(vec![ident("payable")]), None);
    assert!(!attr_is_present(&vec![c], "payable"));
}

#[test]
fn test_item_tracking() {
    let outer = Span { lo: 0, hi: 100 };
    let inside = Span { lo: 10, hi: 20 };
    let after = Span { lo: 200, hi: 300 };
    assert_eq!(track_test_item(None, outer, true), Some(outer));
    assert_eq!(track_test_item(Some(outer), inside, false), Some(outer));
    assert_eq!(track_test_item(Some(outer), after, false), None);
    assert_eq!(track_test_item(Some(outer), after, true), Some(after));
    assert_eq!(track_test_item(None, after, false), None);
}

// ---------------------------------------------------------------------
// Macro-based detectors
// ---------------------------------------------------------------------

#[test]
fn assertions_outside_tests_are_reported() {
    let mut d = AssertViolation::new();
    let stmt = Stmt::MacCall(sp(5), mac(&["assert_eq"], vec![]));
    assert!(check_assert_macro(&mac(&["debug_assert_ne"], vec![])));
    assert!(!check_assert_macro(&mac(&["std", "assert"], vec![])));
    assert_eq!(d.check_stmt(&stmt), Some(sp(5)));
    assert_eq!(d.check_expr(&ex(6, ExprKind::MacCall(mac(&["assert"], vec![])))), Some(sp(6)));
    d.check_item(&item(1, 0, 100, vec![attr("test", None, None)]));
    assert!(d.in_test_item());
    assert_eq!(d.check_stmt(&stmt), None);
    d.check_item(&item(2, 200, 300, vec![]));
    assert_eq!(d.check_stmt(&stmt), Some(sp(5)));
}

#[test]
fn format_outside_tests_is_reported() {
    let mut d = AvoidFormatString::new();
    let e = ex(7, ExprKind::MacCall(mac(&["format"], vec![])));
    assert_eq!(d.check_expr(&e), Some(sp(7)));
    assert_eq!(d.check_expr(&ex(8, ExprKind::MacCall(mac(&["println"], vec![])))), None);
    d.check_item(&item(1, 0, 100, vec![attr("test", None, None)]));
    assert_eq!(d.check_expr(&e), None);
}

#[test]
fn panic_messages_become_error_names() {
    assert_eq!(capitalize_err_msg("  not enough   funds "), "Not Enough Funds");
    assert_eq!(capitalize_err_msg(""), "");
    assert_eq!(capitalize_err_msg("ßig"), "SSig");
    assert_eq!(remove_spaces("Not Enough Funds"), "NotEnoughFunds");
    let m = mac(&["panic"], vec![TokenTree::Token(Token::StrLit("not enough funds".to_string()))]);
    assert_eq!(
        check_panic_macro(&m).unwrap(),
        "You could use instead an Error enum and then 'return Err(Error::NotEnoughFunds)'"
    );
    assert!(check_panic_macro(&mac(&["panic"], vec![])).is_none());
    assert!(check_panic_macro(&mac(&["panic"], vec![ident("x")])).is_none());
    let mut d = PanicError::new();
    let stmt = Stmt::MacCall(sp(3), m);
    let (s, h) = d.check_stmt(&stmt).unwrap();
    assert_eq!(s, sp(3));
    assert!(h.ends_with("Error::NotEnoughFunds)'"));
    d.check_item(&item(1, 0, 100, vec![attr("cfg", None, Some(vec![NestedMeta::Meta(vec!["test".to_string()])]))]));
    assert!(d.check_stmt(&stmt).is_none());
}

#[test]
fn mem_forget_outside_tests_is_reported() {
    let mut d = AvoidStdCoreMemForget::new();
    let call = ex(9, ExprKind::Call { func: Box::new(path(10, &["core", "mem", "forget"])), args: vec![] });
    assert_eq!(d.check_expr(&call), Some(sp(9)));
    let other = ex(11, ExprKind::Call { func: Box::new(path(12, &["std", "mem", "forget"])), args: vec![] });
    assert_eq!(d.check_expr(&other), None);
    d.check_item(&item(1, 0, 10, vec![]));
    assert!(!d.in_test_item());
    d.check_item(&item(2, 20, 30, vec![attr("test", None, None)]));
    d.check_item(&item(3, 40, 50, vec![]));
    assert_eq!(d.stack, vec![2, 3]);
    assert_eq!(d.check_expr(&call), None);
}

#[test]
fn unsafe_blocks_and_pseudo_random_values() {
    let u = ex(1, ExprKind::UnsafeBlock(vec![]));
    assert_eq!(AvoidUnsafeBlock::new().check_expr(&u), Some(sp(1)));
    assert_eq!(AvoidUnsafeBlock::new().check_expr(&block(2, vec![])), None);
    let env = method(3, "env", path(4, &["self"]), vec![]);
    let ts = method(5, "block_timestamp", env, vec![]);
    let r = binary(6, BinOp::Rem, ts, path(7, &["n"]));
    assert_eq!(InsufficientlyRandomValues::new().check_expr(&r), Some(sp(6)));
    let d = binary(8, BinOp::Div, method(9, "block_number", path(10, &["x"]), vec![]), path(11, &["n"]));
    assert_eq!(InsufficientlyRandomValues::new().check_expr(&d), None);
}

// ---------------------------------------------------------------------
// Shapes found anywhere in a body
// ---------------------------------------------------------------------

#[test]
fn divisions_inside_a_multiplication() {
    let div1 = binary(2, BinOp::Div, path(3, &["a"]), path(4, &["b"]));
    let div2 = binary(5, BinOp::Div, path(6, &["c"]), path(7, &["d"]));
    let mul = binary(1, BinOp::Mul, div1, div2);
    assert_eq!(get_divisions_inside_expr(&mul), vec![sp(2), sp(5)]);
    assert_eq!(DivideBeforeMultiply::new().check_expr(&mul), vec![sp(2), sp(5)]);
    let add = binary(8, BinOp::Add, binary(9, BinOp::Div, path(10, &["a"]), path(11, &["b"])), path(12, &["c"]));
    assert_eq!(DivideBeforeMultiply::new().check_expr(&add), vec![]);
}

#[test]
fn xor_unwrap_and_v1_calls_are_found() {
    let xor = binary(2, BinOp::BitXor, path(3, &["a"]), path(4, &["b"]));
    let unwrap = method(5, "unwrap", path(6, &["x"]), vec![]);
    let inst = method(7, "instantiate_contract_v1", path(8, &["env"]), vec![]);
    let invoke = ex(9, ExprKind::Call { func: Box::new(path(10, &["ink", "env", "invoke_contract_v1"])), args: vec![] });
    let body = block(1, vec![xor, unwrap, inst, invoke]);
    assert_eq!(IncorrectExponentiation::new().check_fn(&body), vec![sp(2)]);
    assert_eq!(UnsafeUnwrap::new().check_fn(&body), vec![sp(5)]);
    assert_eq!(DontUseInstantiateContractV1::new().check_fn(&body), vec![sp(7)]);
    assert_eq!(DontUseInvokeContractV1::new().check_fn(&body), vec![sp(10)]);
    assert_eq!(UnsafeUnwrap::new().check_fn(&block(11, vec![])), vec![]);
}

#[test]
fn transferred_value_in_a_non_payable_message() {
    let tv = method(2, "transferred_value", method(3, "env", path(4, &["self"]), vec![]), vec![]);
    assert!(is_self_env_transferred_value(&tv));
    let body = block(1, vec![tv]);
    let d = NonPayableTransferredValue::new();
    let message = vec![attr("ink", Some(vec![ident("message")]), None)];
    assert_eq!(d.check_impl_item(&message, true, Some(&body)), vec![sp(2)]);
    let payable = vec![attr("ink", Some(vec![ident("message"), ident("payable")]), None)];
    assert_eq!(d.check_impl_item(&payable, true, Some(&body)), vec![]);
    assert_eq!(d.check_impl_item(&message, false, Some(&body)), vec![]);
    let not_self = method(5, "transferred_value", method(6, "env", path(7, &["other"]), vec![]), vec![]);
    assert!(!is_self_env_transferred_value(&not_self));
}

// ---------------------------------------------------------------------
// Lazy fields read and never written back
// ---------------------------------------------------------------------

#[test]
fn lazy_get_without_set_is_reported() {
    let mut d = LazyMutGetNotSet::new();
    d.check_field_def("balance".to_string(), sp(90));
    d.check_field_def("owner".to_string(), sp(91));
    let get = method(2, "get", field(3, path(4, &["self"]), "balance"), vec![]);
    assert_eq!(get_method_path_names(&get), vec!["self", "balance", "get"]);
    let mut v = LazyMutGetNotSetVisitor::new();
    assert!(!v.visit_expr(&d.lazy_fields, &get));
    let other = method(5, "len", path(6, &["v"]), vec![]);
    assert!(v.visit_expr(&d.lazy_fields, &other));
    assert!(!v.visit_expr(&d.lazy_fields, &path(7, &["x"])));
    let gets = v.unset_gets();
    assert_eq!(gets.len(), 1);
    assert_eq!(gets[0].0, "balance");
    assert_eq!(gets[0].1, sp(2));
    let set = method(8, "set", field(9, path(10, &["self"]), "balance"), vec![]);
    assert!(!v.visit_expr(&d.lazy_fields, &set));
    assert!(v.unset_gets().is_empty());
}

#[test]
fn statements_looked_into() {
    let e = path(1, &["x"]);
    assert!(stmt_target_of(&Stmt::Local { mutable: false, init: Some(path(2, &["y"])) }).is_none());
    assert_eq!(stmt_target_of(&Stmt::Local { mutable: true, init: Some(path(3, &["y"])) }).unwrap().hir_id, 3);
    assert_eq!(stmt_target_of(&Stmt::Semi(e)).unwrap().hir_id, 1);
    assert!(stmt_target_of(&Stmt::Other).is_none());
}

// ---------------------------------------------------------------------
// Storage types
// ---------------------------------------------------------------------

fn ty(def: Option<&[&str]>, segments: Vec<TySegment>) -> TyPath {
    TyPath { def_path: def.map(|d| d.iter().map(|s| s.to_string()).collect()), segments }
}

fn seg(name: &str, args: Option<Vec<GenericArg>>) -> TySegment {
    TySegment { name: name.to_string(), args }
}

fn string_arg() -> GenericArg {
    GenericArg::Type(ty(None, vec![seg("String", None)]))
}

#[test]
fn unsized_mapping_fields_are_found() {
    let mapping = FieldDef {
        name: "names".to_string(),
        span: sp(50),
        storage_type: Some(ty(
            Some(&["ink_storage", "lazy", "mapping", "Mapping"]),
            vec![seg("Mapping", Some(vec![GenericArg::Type(ty(None, vec![seg("AccountId", None)])), string_arg()]))],
        )),
    };
    assert_eq!(
        is_lazy_type_with_unsized_generic_arg(&mapping).as_deref(),
        Some("ink_storage::lazy::mapping::Mapping")
    );
    let sized = FieldDef {
        name: "counts".to_string(),
        span: sp(51),
        storage_type: Some(ty(
            Some(&["ink_storage", "lazy", "mapping", "Mapping"]),
            vec![seg("Mapping", Some(vec![GenericArg::Type(ty(None, vec![seg("u32", None)]))]))],
        )),
    };
    assert!(is_lazy_type_with_unsized_generic_arg(&sized).is_none());
    let mut d = BufferingUnsizedTypes::new();
    assert!(d.is_lazy_storage(&mapping));
    d.check_field_def(&mapping);
    d.check_field_def(&sized);
    assert!(method_is_wanted("insert") && method_is_wanted("peek") && !method_is_wanted("contains"));
    let call = method(2, "insert", field(3, path(4, &["self"]), "names"), vec![]);
    let other = method(5, "insert", field(6, path(7, &["self"]), "counts"), vec![]);
    let lints = d.check_fn(&block(1, vec![call, other]));
    assert_eq!(lints.len(), 1);
    assert_eq!((lints[0].span, lints[0].field_span), (sp(2), sp(50)));
    assert_eq!(lints[0].message(), "Do not use `insert` with an unsized type. Use the `try_insert` method instead.");
    assert_eq!(lints[0].help(), "The variable `names` is a storage type with a dinamically sized value.");
}

#[test]
fn lazy_fields_without_a_manual_key() {
    assert!(is_lazy_type(&"ink_storage::lazy::Lazy".to_string()));
    assert!(!is_lazy_type(&"ink_storage::lazy::Other".to_string()));
    let auto = FieldDef {
        name: "a".to_string(),
        span: sp(60),
        storage_type: Some(ty(Some(&["ink_storage", "lazy", "Lazy"]), vec![seg("Lazy", Some(vec![GenericArg::Type(ty(None, vec![seg("u8", None)]))]))])),
    };
    let manual = FieldDef {
        name: "b".to_string(),
        span: sp(61),
        storage_type: Some(ty(
            Some(&["ink_storage", "lazy", "Lazy"]),
            vec![seg("Lazy", Some(vec![GenericArg::Type(ty(None, vec![seg("u8", None)])), GenericArg::Type(ty(None, vec![seg("ManualKey", None)]))]))],
        )),
    };
    let mut d = AvoidAutokeyUpgradable::new();
    assert!(d.lazy_value_has_manual_key(&auto));
    assert!(!d.lazy_value_has_manual_key(&manual));
    let upgrade = method(2, "set_code_hash", path(3, &["env"]), vec![]);
    assert!(d.check_fn(&block(1, vec![upgrade])).is_empty());
    d.check_field_def(&auto);
    d.check_field_def(&manual);
    d.check_field_def(&auto);
    let upgrade = method(2, "set_code_hash", path(3, &["env"]), vec![]);
    let lints = d.check_fn(&block(1, vec![upgrade]));
    assert_eq!(lints.len(), 1);
    assert_eq!(lints[0].call, sp(2));
    assert_eq!(lints[0].fields, vec![sp(60)]);
    assert_eq!(lints[0].last_field, sp(60));
}

// ---------------------------------------------------------------------
// Storage reachable through delegate calls
// ---------------------------------------------------------------------

#[test]
fn delegate_warns_about_exposed_storage() {
    let storage_attr = attr("ink", Some(vec![TokenTree::Delimited(vec![ident("storage")])]), None);
    assert!(is_storage_present(&vec![TokenTree::Delimited(vec![ident("my_storage")])]));
    let mut exposed = item(1, 0, 10, vec![storage_attr]);
    exposed.struct_fields = Some(vec![FieldShape { named: true, lazy_arg_count: Some(1) }]);
    assert!(is_storage_item(&exposed));
    let storage_attr2 = attr("ink", Some(vec![ident("storage")]), None);
    let mut keyed = item(2, 20, 30, vec![storage_attr2]);
    keyed.struct_fields = Some(vec![FieldShape { named: true, lazy_arg_count: Some(2) }]);
    let mut d = DelegateCall::new();
    d.check_item(&exposed);
    d.check_item(&keyed);
    d.check_item(&exposed);
    assert_eq!(d.non_lazy_manual_storage_spans, vec![Span { lo: 0, hi: 10 }]);
    assert!(d.check_ident("other", sp(40)).is_none());
    let w = d.check_ident("delegate", sp(41)).unwrap();
    assert_eq!(w.delegate, sp(41));
    assert_eq!(w.storage, vec![Span { lo: 0, hi: 10 }]);
}

#[test]
fn delegate_with_lazy_keyed_storage_is_not_warned() {
    let storage_attr = attr("ink", Some(vec![ident("storage")]), None);
    let mut keyed = item(2, 20, 30, vec![storage_attr]);
    keyed.struct_fields = Some(vec![FieldShape { named: true, lazy_arg_count: Some(2) }]);
    let mut d = DelegateCall::new();
    d.check_item(&keyed);
    assert!(d.non_lazy_manual_storage_spans.is_empty());
    assert!(d.check_ident("delegate", sp(41)).is_none());
    assert!(d.check_ident("other", sp(42)).is_none());
    assert_eq!(d.delegate_uses, vec![sp(41)]);
}
