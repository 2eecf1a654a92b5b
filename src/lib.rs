//! Rewrites the methods of an `impl` block: injects an extra parameter list,
//! generic parameter list or return type into every method signature, leaving
//! everything else token for token as it was.
//!
//! The three entry points take the configuration fragment and the decorated
//! item as token sequences and return the rewritten item, or the error that
//! the item is no `impl` block.

pub mod join;
pub mod laws;
pub mod rewrite;
pub mod signature;
pub mod token;

use vstd::prelude::*;
use crate::rewrite::{process_impl_block, rewritten_items, Conf, ConfModel};
use crate::token::{
    is_group, is_punct, is_word, lemma_view_group, lemma_view_seq_push, lemma_view_seq_subrange,
    view_seq, Delimiter, Token, TokenTree,
};

verus! {

/// Why an item could not be rewritten.
#[derive(Clone, Copy, Debug, PartialEq, Eq, Structural)]
pub enum ExpandError {
    /// The item (after its attributes) does not start with `impl`; `at` is
    /// the index of the token where `impl` was expected.
    ExpectedImpl { at: usize },
}

impl ExpandError {
    /// The diagnostic text of the error.
    pub fn message(&self) -> (r: &'static str)
        ensures
            r@ == "expected impl keyword"@,
    {
        match self {
            ExpandError::ExpectedImpl { .. } => "expected impl keyword",
        }
    }
}

/// Which of the three injections was asked for.
#[derive(Clone, Copy, Debug, PartialEq, Eq, Structural)]
enum Type {
    Param,
    Generic,
    Ret,
}

/// Where the outer attributes `#[...]` that start at `i` end.
pub open spec fn attrs_end(s: Seq<Token>, i: int) -> int
    decreases s.len() - i,
{
    if 0 <= i && i + 1 < s.len() && is_punct(s[i], '#') && is_group(s[i + 1], Delimiter::Bracket) {
        attrs_end(s, i + 2)
    } else {
        i
    }
}

/// After its outer attributes, the item starts with the keyword `impl`.
pub open spec fn is_impl_item(s: Seq<Token>) -> bool {
    let a = attrs_end(s, 0);
    0 <= a < s.len() && is_word(s[a], "impl"@)
}

/// An `impl` item ends with its body in braces.
pub open spec fn well_formed_item(s: Seq<Token>) -> bool {
    is_impl_item(s) ==> s.len() > 0 && is_group(s.last(), Delimiter::Brace)
}

/// The item with the items of its body rewritten under `c`.
pub open spec fn expanded(c: ConfModel, s: Seq<Token>) -> Seq<Token> {
    s.drop_last().push(
        Token::Group(Delimiter::Brace, rewritten_items(c, s.last()->Group_1), s.last()->Group_2),
    )
}

/// The configuration of a parameter injection: a leading comma places the
/// parameters after the method's own.
pub open spec fn param_conf(attr: Seq<Token>) -> ConfModel {
    let after = attr.len() > 0 && is_punct(attr[0], ',');
    ConfModel {
        params_after: after,
        param: if after {
            attr.drop_first()
        } else {
            attr
        },
        generics: seq![],
        generics_after: false,
        return_type: seq![],
    }
}

/// The configuration of a generic injection: a leading comma places the
/// generics after the method's own.
pub open spec fn generic_conf(attr: Seq<Token>) -> ConfModel {
    let after = attr.len() > 0 && is_punct(attr[0], ',');
    ConfModel {
        params_after: false,
        param: seq![],
        generics: if after {
            attr.drop_first()
        } else {
            attr
        },
        generics_after: after,
        return_type: seq![],
    }
}

/// The configuration of a return-type injection.
pub open spec fn return_conf(attr: Seq<Token>) -> ConfModel {
    ConfModel {
        params_after: false,
        param: seq![],
        generics: seq![],
        generics_after: false,
        return_type: attr,
    }
}

spec fn conf_of(ty: Type, attr: Seq<Token>) -> ConfModel {
    match ty {
        Type::Param => param_conf(attr),
        Type::Generic => generic_conf(attr),
        Type::Ret => return_conf(attr),
    }
}

/// What an entry point returns under the configuration `c`.
pub open spec fn outcome(c: ConfModel, item: Seq<Token>, r: Result<Vec<TokenTree>, ExpandError>) -> bool {
    &&& r is Ok <==> is_impl_item(item)
    &&& r matches Ok(out) ==> view_seq(out@) == expanded(c, item)
    &&& r matches Err(e) ==> e == (ExpandError::ExpectedImpl { at: attrs_end(item, 0) as usize })
}

/// Splits off a leading comma: whether there was one, and the rest.
fn split_leading_comma(attr: Vec<TokenTree>) -> (r: (bool, Vec<TokenTree>))
    ensures
        r.0 == (attr@.len() > 0 && is_punct(attr@[0]@, ',')),
        view_seq(r.1@) == if r.0 {
            view_seq(attr@).drop_first()
        } else {
            view_seq(attr@)
        },
{
    let mut rest = attr;
    if rest.len() > 0 && rest[0].is_punct(',') {
        rest.remove(0);
        proof {
            lemma_view_seq_subrange(attr@, 1, attr@.len() as int);
            assert(rest@ =~= attr@.subrange(1, attr@.len() as int));
            assert(view_seq(attr@).drop_first() =~= view_seq(attr@).subrange(1, attr@.len() as int));
        }
        (true, rest)
    } else {
        (false, rest)
    }
}

/// The configuration of a parameter injection.
fn param_cfg(attr: Vec<TokenTree>) -> (r: Conf)
    ensures
        r@ == param_conf(view_seq(attr@)),
{
    let (after, param) = split_leading_comma(attr);
    let r = Conf {
        params_after: after,
        param,
        generics: Vec::new(),
        generics_after: false,
        return_type: Vec::new(),
    };
    assert(r@.generics =~= seq![]);
    assert(r@.return_type =~= seq![]);
    r
}

/// The configuration of a generic injection.
fn generic_cfg(attr: Vec<TokenTree>) -> (r: Conf)
    ensures
        r@ == generic_conf(view_seq(attr@)),
{
    let (after, generics) = split_leading_comma(attr);
    let r = Conf {
        params_after: false,
        param: Vec::new(),
        generics,
        generics_after: after,
        return_type: Vec::new(),
    };
    assert(r@.param =~= seq![]);
    assert(r@.return_type =~= seq![]);
    r
}

/// The configuration of a return-type injection.
fn return_cfg(attr: Vec<TokenTree>) -> (r: Conf)
    ensures
        r@ == return_conf(view_seq(attr@)),
{
    let r = Conf {
        params_after: false,
        param: Vec::new(),
        generics: Vec::new(),
        generics_after: false,
        return_type: attr,
    };
    assert(r@.param =~= seq![]);
    assert(r@.generics =~= seq![]);
    r
}

/// How many leading tokens of `item` are outer attributes `#[...]`.
fn attrs_len(item: &Vec<TokenTree>) -> (r: usize)
    ensures
        r == attrs_end(view_seq(item@), 0),
        r <= item@.len(),
{
    let ghost v = view_seq(item@);
    let n = item.len();
    let mut a: usize = 0;
    while n - a > 1 && item[a].is_punct('#') && item[a + 1].is_group(Delimiter::Bracket)
        invariant
            n == item@.len(),
            v == view_seq(item@),
            a <= n,
            attrs_end(v, a as int) == attrs_end(v, 0),
        decreases n - a,
    {
        a += 2;
    }
    a
}

/// Whether `item` may be handed to the entry points: if it is an `impl`
/// item, its last token is its body in braces.
pub fn is_well_formed_item(item: &Vec<TokenTree>) -> (r: bool)
    ensures
        r == well_formed_item(view_seq(item@)),
{
    let n = item.len();
    let a = attrs_len(item);
    if a < n && item[a].is_word("impl") {
        item[n - 1].is_group(Delimiter::Brace)
    } else {
        true
    }
}

fn process(ty: Type, attr: Vec<TokenTree>, item: Vec<TokenTree>) -> (r: Result<
    Vec<TokenTree>,
    ExpandError,
>)
    requires
        well_formed_item(view_seq(item@)),
    ensures
        outcome(conf_of(ty, view_seq(attr@)), view_seq(item@), r),
{
    let cfg = match ty {
        Type::Param => param_cfg(attr),
        Type::Generic => generic_cfg(attr),
        Type::Ret => return_cfg(attr),
    };
    let n = item.len();
    let a = attrs_len(&item);
    let ghost v = view_seq(item@);
    if !(a < n && item[a].is_word("impl")) {
        return Err(ExpandError::ExpectedImpl { at: a });
    }
    let mut out = item;
    match out.pop() {
        Some(TokenTree::Group(Delimiter::Brace, body, sp)) => {
            let block = process_impl_block(&cfg, &body);
            let ghost head = out@;
            let group = TokenTree::Group(Delimiter::Brace, block, sp);
            out.push(group);
            proof {
                lemma_view_group(Delimiter::Brace, body, sp);
                lemma_view_group(Delimiter::Brace, block, sp);
                lemma_view_seq_push(head, group);
                lemma_view_seq_subrange(item@, 0, n - 1);
                assert(head =~= item@.subrange(0, n - 1));
                assert(v.drop_last() =~= v.subrange(0, n - 1));
            }
            Ok(out)
        },
        // `well_formed_item` leaves no other last token after `impl`.
        _ => Ok(out),
    }
}

/// Injects parameters into every method of an `impl` block. A leading comma
/// in `attr` places them after the method's own parameters, else before; a
/// receiver in `attr` is used by the methods that declare none.
pub fn using_param(attr: Vec<TokenTree>, item: Vec<TokenTree>) -> (r: Result<
    Vec<TokenTree>,
    ExpandError,
>)
    requires
        well_formed_item(view_seq(item@)),
    ensures
        outcome(param_conf(view_seq(attr@)), view_seq(item@), r),
{
    process(Type::Param, attr, item)
}

/// Injects generic parameters into every method of an `impl` block. A
/// leading comma in `attr` places them after the method's own generics,
/// else before.
pub fn using_generic(attr: Vec<TokenTree>, item: Vec<TokenTree>) -> (r: Result<
    Vec<TokenTree>,
    ExpandError,
>)
    requires
        well_formed_item(view_seq(item@)),
    ensures
        outcome(generic_conf(view_seq(attr@)), view_seq(item@), r),
{
    process(Type::Generic, attr, item)
}

/// Gives the return type `attr` to every method of an `impl` block that
/// declares none.
pub fn using_return(attr: Vec<TokenTree>, item: Vec<TokenTree>) -> (r: Result<
    Vec<TokenTree>,
    ExpandError,
>)
    requires
        well_formed_item(view_seq(item@)),
    ensures
        outcome(return_conf(view_seq(attr@)), view_seq(item@), r),
{
    process(Type::Ret, attr, item)
}

} // verus!
