use std::str::FromStr;

use using_param::join::join_with_comma;
use using_param::signature::{fn_generic, self_param, splice_params};
use using_param::token::{Delimiter, SpanId, Spacing, TokenTree};
use using_param::{using_generic, using_param, using_return, ExpandError};

/// Converts a token stream to the library's model, numbering the tokens'
/// locations from `next` on.
fn from_pm2(ts: proc_macro2::TokenStream, next: &mut usize) -> Vec<TokenTree> {
    let trees: Vec<proc_macro2::TokenTree> = ts.into_iter().collect();
    let mut out = Vec::new();
    for (i, tt) in trees.iter().enumerate() {
        let sp = SpanId(*next);
        *next += 1;
        out.push(match tt {
            proc_macro2::TokenTree::Group(g) => {
                let d = match g.delimiter() {
                    proc_macro2::Delimiter::Parenthesis => Delimiter::Parenthesis,
                    proc_macro2::Delimiter::Brace => Delimiter::Brace,
                    proc_macro2::Delimiter::Bracket => Delimiter::Bracket,
                    proc_macro2::Delimiter::None => Delimiter::Invisible,
                };
                TokenTree::Group(d, from_pm2(g.stream(), next), sp)
            }
            proc_macro2::TokenTree::Ident(id) => TokenTree::Ident(id.to_string(), sp),
            proc_macro2::TokenTree::Punct(p) => {
                // The compiler's lexer treats a lifetime as one token, so a
                // punctuation character before it is never joint.
                let before_lifetime = matches!(
                    trees.get(i + 1),
                    Some(proc_macro2::TokenTree::Punct(q)) if q.as_char() == '\''
                );
                let spacing = if p.spacing() == proc_macro2::Spacing::Joint && !before_lifetime {
                    Spacing::Joint
                } else {
                    Spacing::Alone
                };
                TokenTree::Punct(p.as_char(), spacing, sp)
            }
            proc_macro2::TokenTree::Literal(l) => TokenTree::Literal(l.to_string(), sp),
        });
    }
    out
}

fn to_pm2(v: &[TokenTree]) -> proc_macro2::TokenStream {
    v.iter()
        .map(|t| -> proc_macro2::TokenTree {
            match t {
                TokenTree::Group(d, inner, _) => {
                    let d = match d {
                        Delimiter::Parenthesis => proc_macro2::Delimiter::Parenthesis,
                        Delimiter::Brace => proc_macro2::Delimiter::Brace,
                        Delimiter::Bracket => proc_macro2::Delimiter::Bracket,
                        Delimiter::Invisible => proc_macro2::Delimiter::None,
                    };
                    proc_macro2::Group::new(d, to_pm2(inner)).into()
                }
                TokenTree::Ident(s, _) => {
                    proc_macro2::Ident::new(s, proc_macro2::Span::call_site()).into()
                }
                TokenTree::Punct(c, s, _) => {
                    let s = match s {
                        Spacing::Alone => proc_macro2::Spacing::Alone,
                        Spacing::Joint => proc_macro2::Spacing::Joint,
                    };
                    proc_macro2::Punct::new(*c, s).into()
                }
                TokenTree::Literal(s, _) => proc_macro2::Literal::from_str(s).unwrap().into(),
            }
        })
        .collect()
}

fn toks(s: &str) -> Vec<TokenTree> {
    from_pm2(s.parse().unwrap(), &mut 1)
}

fn text(v: &[TokenTree]) -> String {
    to_pm2(v).to_string()
}

/// The text of `s` after a round through the token model.
fn norm(s: &str) -> String {
    text(&toks(s))
}

fn expect_ok(r: Result<Vec<TokenTree>, ExpandError>) -> String {
    match r {
        Ok(v) => text(&v),
        Err(e) => panic!("unexpected error: {}", e.message()),
    }
}

#[test]
fn test_join() {
    let datas = [
        ("", "", ""),
        ("a", "", "a"),
        ("a,", "", "a,"),
        ("", "a", "a"),
        ("", "a,", "a,"),
        ("a", "b", "a, b"),
        ("a,", "b", "a, b"),
        ("a,", "b,", "a, b,"),
        ("a,", "b,", "a, b,"),
        ("a", "b,", "a, b,"),
    ];
    for (a, b, expected) in datas {
        let out = join_with_comma(toks(a), toks(b));
        assert_eq!(text(&out), norm(expected), "{a:?}, {b:?}");
    }
}

#[test]
fn test_before() {
    let out = expect_ok(using_param(toks("ctx: i32"), toks("
impl Foo {
    #[doc(hidden)]
    pub fn foo(&self, s: &str) -> &str {
        s
    }
    pub fn bar(&self) -> i32 {
        ctx
    }
    pub fn baz() -> i32 {
        ctx
    }
    pub fn f(self: &Self) -> i32 {
        ctx
    }
    pub fn a(x: i32) -> i32 {
        ctx+x
    }
    pub fn b(&mut self, a: i32, b: i32) -> i32 {
        ctx+a+b
    }
    pub fn c(&'a mut self, a: i32, b: i32) -> i32 {
        ctx+a+b
    }
    pub fn d(&'static mut self, a: i32, b: i32) -> i32 {
        ctx+a+b
    }
}
    ")));
    assert_eq!(out, norm("
impl Foo {
    #[doc(hidden)]
    pub fn foo(& self, ctx : i32, s : & str) -> & str {
        s
    }
    pub fn bar(& self, ctx : i32) -> i32 {
        ctx
    }
    pub fn baz(ctx : i32) -> i32 {
        ctx
    }
    pub fn f(self : & Self, ctx : i32) -> i32 {
        ctx
    }
    pub fn a(ctx : i32, x : i32) -> i32 {
        ctx+x
    }
    pub fn b(& mut self, ctx : i32, a : i32, b : i32) -> i32 {
        ctx+a+b
    }
    pub fn c(& 'a mut self, ctx : i32, a : i32, b : i32) -> i32 {
        ctx+a+b
    }
    pub fn d(& 'static mut self, ctx : i32, a : i32, b : i32) -> i32 {
        ctx+a+b
    }
}
    "));
}

#[test]
fn test_after() {
    let out = expect_ok(using_param(toks(", ctx: i32"), toks("
impl Foo {
    #[doc(hidden)]
    pub fn foo(&self, s: &str) -> &str {
        s
    }
    pub fn bar(&self) -> i32 {
        ctx
    }
    pub fn baz() -> i32 {
        ctx
    }
    pub fn f(self: &Self) -> i32 {
        ctx
    }
    pub fn a(x: i32) -> i32 {
        ctx+x
    }
    pub fn b(&mut self, a: i32, b: i32) -> i32 {
        ctx+a+b
    }
}
    ")));
    assert_eq!(out, norm("
impl Foo {
    #[doc(hidden)]
    pub fn foo(& self, s : & str, ctx : i32) -> & str {
        s
    }
    pub fn bar(& self, ctx : i32) -> i32 {
        ctx
    }
    pub fn baz(ctx : i32) -> i32 {
        ctx
    }
    pub fn f(self : & Self, ctx : i32) -> i32 {
        ctx
    }
    pub fn a(x : i32, ctx : i32) -> i32 {
        ctx+x
    }
    pub fn b(& mut self, a : i32, b : i32, ctx : i32) -> i32 {
        ctx+a+b
    }
}
    "));
}

#[test]
fn test_self_param() {
    let out = expect_ok(using_param(toks("&'static self, ctx: i32"), toks("
impl Foo {
    pub fn foo(&self, s: &str) -> &str {
        s
    }
    pub fn bar(&mut self) -> i32 {
        ctx
    }
    pub fn baz(self: &Self) -> i32 {
        ctx
    }
    pub fn a(this: &Self) -> i32 {
        ctx
    }
}
    ")));
    assert_eq!(out, norm("
impl Foo {
    pub fn foo(& self, ctx : i32, s : & str) -> & str {
        s
    }
    pub fn bar(& mut self, ctx : i32) -> i32 {
        ctx
    }
    pub fn baz(self : & Self, ctx : i32) -> i32 {
        ctx
    }
    pub fn a(& 'static self, ctx : i32, this : & Self) -> i32 {
        ctx
    }
}
    "));
}

#[test]
fn test_self_param_after() {
    let out = expect_ok(using_param(toks(", &'static self, ctx: i32"), toks("
impl Foo {
    pub fn foo(&self, s: &str) -> &str {
        s
    }
    pub fn bar(&mut self) -> i32 {
        ctx
    }
    pub fn baz(self: &Self) -> i32 {
        ctx
    }
    pub fn a(this: &Self) -> i32 {
        ctx
    }
}
    ")));
    assert_eq!(out, norm("
impl Foo {
    pub fn foo(& self, s : & str, ctx : i32) -> & str {
        s
    }
    pub fn bar(& mut self, ctx : i32) -> i32 {
        ctx
    }
    pub fn baz(self : & Self, ctx : i32) -> i32 {
        ctx
    }
    pub fn a(& 'static self, this : & Self, ctx : i32) -> i32 {
        ctx
    }
}
    "));
}

#[test]
fn test_generic_before() {
    let out = expect_ok(using_generic(toks("'a"), toks("
impl Foo {
    fn foo() {}
    fn bar<'b>() {}
    fn baz<'b, T>() {}
}
    ")));
    assert_eq!(out, norm("
impl Foo {
    fn foo < 'a > () {}
    fn bar < 'a, 'b > () {}
    fn baz < 'a, 'b, T > () {}
}
    "));
}

#[test]
fn test_generic_after() {
    let out = expect_ok(using_generic(toks(", 'a"), toks("
impl Foo {
    fn foo() {}
    fn bar<'b>() {}
}
    ")));
    assert_eq!(out, norm("
impl Foo {
    fn foo < 'a > () {}
    fn bar < 'b, 'a > () {}
}
    "));
}

#[test]
fn test_other_assoc_item() {
    let out = expect_ok(using_param(toks("ctx: i32"), toks("
impl Foo {
    pub const M: usize = 3;
    pub type C = i32;
    some_macro!();
    fn foo() {}
    fn bar(m: i32) { m+ctx }
    fn baz(self, m: i32) { m+ctx }
}
    ")));
    assert_eq!(out, norm("
impl Foo {
    pub const M : usize = 3;
    pub type C = i32;
    some_macro! ();
    fn foo(ctx : i32) {}
    fn bar(ctx : i32, m : i32) { m+ctx }
    fn baz(self, ctx : i32, m : i32) { m+ctx }
}
    "));
}

#[test]
fn test_return_type() {
    let out = expect_ok(using_return(toks("i32"), toks("
impl Foo {
    pub const M: usize = 3;
    pub type C = i32;
    some_macro!();
    fn foo() {}
    fn bar(m: i32) { m+ctx }
    fn baz(self, m: i32) { m+ctx }
    fn xfoo() -> u32 {}
    fn xbar(m: i32) -> u32 { m+ctx }
    fn xbaz(self, m: i32) -> u32 { m+ctx }
}
    ")));
    assert_eq!(out, norm("
impl Foo {
    pub const M : usize = 3;
    pub type C = i32;
    some_macro! ();
    fn foo() -> i32 {}
    fn bar(m : i32) -> i32 { m+ctx }
    fn baz(self, m : i32) -> i32 { m+ctx }
    fn xfoo() -> u32 {}
    fn xbar(m : i32) -> u32 { m+ctx }
    fn xbaz(self, m : i32) -> u32 { m+ctx }
}
    "));
}

#[test]
fn non_method_items_pass_through() {
    let src = "
impl Foo {
    #![allow(unused)]
    pub const M: usize = 3;
    pub type C = i32;
    some_macro!(fn inner(x: u8) {});
    #[cfg(test)] const N: u8 = 1;
}
    ";
    let expected = norm(src);
    assert_eq!(expect_ok(using_param(toks("ctx: i32"), toks(src))), expected);
    assert_eq!(expect_ok(using_generic(toks("'a"), toks(src))), expected);
    assert_eq!(expect_ok(using_return(toks("i32"), toks(src))), expected);
}

#[test]
fn non_impl_item_is_rejected() {
    let r = using_param(toks("ctx: i32"), toks("fn foo() {}"));
    assert_eq!(r.as_ref().err(), Some(&ExpandError::ExpectedImpl { at: 0 }));
    assert_eq!(r.unwrap_err().message(), "expected impl keyword");
    let r = using_generic(toks("'a"), toks("#[inline] struct Foo;"));
    assert_eq!(r.err(), Some(ExpandError::ExpectedImpl { at: 2 }));
    let r = using_return(toks("i32"), Vec::new());
    assert_eq!(r.err(), Some(ExpandError::ExpectedImpl { at: 0 }));
}

#[test]
fn attributes_before_impl_are_kept() {
    let out = expect_ok(using_return(
        toks("i32"),
        toks("#[allow(dead_code)] #[doc = \"x\"] impl<T> Foo<T> { fn foo() {} }"),
    ));
    assert_eq!(
        out,
        norm("#[allow(dead_code)] #[doc = \"x\"] impl<T> Foo<T> { fn foo() -> i32 {} }")
    );
}

#[test]
fn generic_bound_with_arrow() {
    let out = expect_ok(using_generic(toks(", 'a"), toks("
impl Foo {
    fn call<F: Fn() -> Vec<u8>>(f: F) -> u8 { 0 }
}
    ")));
    assert_eq!(out, norm("
impl Foo {
    fn call < F: Fn() -> Vec<u8>, 'a > (f: F) -> u8 { 0 }
}
    "));
}

#[test]
fn visibility_and_qualifiers_before_fn() {
    let out = expect_ok(using_param(toks("ctx: &Ctx,"), toks("
impl Foo {
    pub(crate) const unsafe fn a(x: u8,) {}
    async fn b(&'x self) {}
}
    ")));
    assert_eq!(out, norm("
impl Foo {
    pub(crate) const unsafe fn a(ctx: &Ctx, x: u8,) {}
    async fn b(&'x self, ctx: &Ctx,) {}
}
    "));
}

#[test]
fn generics_and_return_type_together() {
    let out = expect_ok(using_return(toks("Result<(), E>"), toks("
impl Foo {
    fn a<T>(t: T) where T: Copy {}
    fn b<T>(t: T) -> T { t }
}
    ")));
    assert_eq!(out, norm("
impl Foo {
    fn a<T>(t: T) -> Result<(), E> where T: Copy {}
    fn b<T>(t: T) -> T { t }
}
    "));
}

#[test]
fn empty_fragment_changes_nothing() {
    let src = "impl Foo { fn a<T>(&self, t: T) {} }";
    assert_eq!(expect_ok(using_param(Vec::new(), toks(src))), norm(src));
    assert_eq!(expect_ok(using_generic(Vec::new(), toks(src))), norm(src));
    assert_eq!(expect_ok(using_return(Vec::new(), toks(src))), norm(src));
}

#[test]
fn receiver_split() {
    let (recv, rest) = self_param(toks("&'a mut self, x: u8, y: u8"));
    assert_eq!(text(&recv), norm("&'a mut self,"));
    assert_eq!(text(&rest), norm("x: u8, y: u8"));
    let (recv, rest) = self_param(toks("self: Box<Self>"));
    assert_eq!(text(&recv), norm("self: Box<Self>"));
    assert!(rest.is_empty());
    let (recv, rest) = self_param(toks("this: &Self, x: u8"));
    assert!(recv.is_empty());
    assert_eq!(text(&rest), norm("this: &Self, x: u8"));
    let (recv, _) = self_param(toks("&'a T"));
    assert!(recv.is_empty());
}

#[test]
fn generic_scan_stops_before_params() {
    let s = toks("T: Into<Vec<u8>>, F: FnOnce(u8) -> u8>(x: T)");
    let end = fn_generic(&s, 0);
    assert_eq!(end, s.len() - 2);
    assert_eq!(text(&s[..end]), norm("T: Into<Vec<u8>>, F: FnOnce(u8) -> u8"));
    let s = toks("T");
    assert_eq!(fn_generic(&s, 0), 1);
}

#[test]
fn splice_keeps_own_receiver() {
    let out = splice_params(toks("&mut self, a: u8"), toks("&'static self, ctx: i32"), false);
    assert_eq!(text(&out), norm("&mut self, ctx: i32, a: u8"));
    let out = splice_params(toks("a: u8"), toks("&'static self, ctx: i32"), true);
    assert_eq!(text(&out), norm("&'static self, a: u8, ctx: i32"));
    let out = splice_params(Vec::new(), Vec::new(), true);
    assert!(out.is_empty());
}

#[test]
fn joint_comma_is_replaced() {
    let right = vec![
        TokenTree::Punct(',', Spacing::Joint, SpanId(7)),
        TokenTree::Ident("b".to_string(), SpanId(8)),
    ];
    let out = join_with_comma(toks("a,"), right);
    assert_eq!(out.len(), 3);
    assert!(matches!(out[1], TokenTree::Punct(',', Spacing::Alone, SpanId(0))));
}

#[test]
fn locations_are_kept() {
    // impl(1) Foo(2) {}(3): fn(4) a(5) ()(6)
    let out = using_return(toks("i32"), toks("impl Foo { fn a() }")).unwrap();
    let TokenTree::Group(Delimiter::Brace, body, SpanId(3)) = &out[2] else {
        panic!("body lost its location");
    };
    assert!(matches!(&body[0], TokenTree::Ident(k, SpanId(4)) if k == "fn"));
    assert!(matches!(&body[1], TokenTree::Ident(n, SpanId(5)) if n == "a"));
    assert!(matches!(&body[2], TokenTree::Group(Delimiter::Parenthesis, _, SpanId(6))));
    assert!(matches!(&body[3], TokenTree::Punct('-', Spacing::Joint, SpanId(0))));
    assert!(matches!(&body[4], TokenTree::Punct('>', Spacing::Alone, SpanId(0))));
    assert!(matches!(&body[5], TokenTree::Ident(t, SpanId(1)) if t == "i32"));
}
