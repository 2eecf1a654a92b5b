use vstd::prelude::*;
use crate::join::{join_with_comma, joined};
use crate::signature::{
    fn_generic, generic_end, is_arrow_at, lemma_generic_end_bounds, splice_params, spliced_params,
};
use crate::token::{
    copy_range, copy_tokens, is_group, is_punct, is_word, lemma_view_group, push_all, push_copy,
    push_token, view_seq, Delimiter, SpanId, Spacing, Token, TokenTree,
};

verus! {

/// What to inject into the methods of an impl block.
pub struct Conf {
    /// Inject the parameters after the method's own instead of before them.
    pub params_after: bool,
    /// Parameters to inject, possibly with a receiver of their own.
    pub param: Vec<TokenTree>,
    /// Generic parameters to inject.
    pub generics: Vec<TokenTree>,
    /// Inject the generic parameters after the method's own.
    pub generics_after: bool,
    /// Return type for the methods that declare none.
    pub return_type: Vec<TokenTree>,
}

/// The mathematical value of a [`Conf`].
pub struct ConfModel {
    pub params_after: bool,
    pub param: Seq<Token>,
    pub generics: Seq<Token>,
    pub generics_after: bool,
    pub return_type: Seq<Token>,
}

impl View for Conf {
    type V = ConfModel;

    open spec fn view(&self) -> ConfModel {
        ConfModel {
            params_after: self.params_after,
            param: view_seq(self.param@),
            generics: view_seq(self.generics@),
            generics_after: self.generics_after,
            return_type: view_seq(self.return_type@),
        }
    }
}

/// A method starts at `i`: the keyword `fn` followed by an identifier.
pub open spec fn is_method_at(s: Seq<Token>, i: int) -> bool {
    &&& 0 <= i
    &&& i + 1 < s.len()
    &&& is_word(s[i], "fn"@)
    &&& s[i + 1] is Ident
}

/// The generic parameter list of a method whose name ends before `j`, with
/// the configured generics joined in; a new list if the method has none and
/// generics are configured.
pub open spec fn generics_out(c: ConfModel, s: Seq<Token>, j: int) -> Seq<Token> {
    if 0 <= j < s.len() && is_punct(s[j], '<') {
        let e = generic_end(s, j + 1);
        let own = s.subrange(j + 1, e);
        let inner = if c.generics_after {
            joined(own, c.generics)
        } else {
            joined(c.generics, own)
        };
        if e < s.len() {
            seq![s[j]] + inner + seq![s[e]]
        } else {
            seq![s[j]] + inner
        }
    } else if c.generics.len() > 0 {
        seq![Token::Punct('<', Spacing::Alone, SpanId(0))] + c.generics + seq![
            Token::Punct('>', Spacing::Alone, SpanId(0)),
        ]
    } else {
        seq![]
    }
}

/// Where the tokens after a method's generic list (if any) start.
pub open spec fn generics_next(s: Seq<Token>, j: int) -> int {
    if 0 <= j < s.len() && is_punct(s[j], '<') {
        let e = generic_end(s, j + 1);
        if e < s.len() {
            e + 1
        } else {
            e
        }
    } else {
        j
    }
}

/// The parameter list at `k` with the configured parameters spliced in,
/// followed by `-> T` when a return type `T` is configured and the method
/// has no arrow of its own; nothing if no parameter list stands at `k`.
pub open spec fn params_out(c: ConfModel, s: Seq<Token>, k: int) -> Seq<Token> {
    if 0 <= k < s.len() && is_group(s[k], Delimiter::Parenthesis) {
        let group = Token::Group(
            Delimiter::Parenthesis,
            spliced_params(s[k]->Group_1, c.param, c.params_after),
            s[k]->Group_2,
        );
        if c.return_type.len() > 0 && !is_arrow_at(s, k + 1) {
            seq![
                group,
                Token::Punct('-', Spacing::Joint, SpanId(0)),
                Token::Punct('>', Spacing::Alone, SpanId(0)),
            ] + c.return_type
        } else {
            seq![group]
        }
    } else {
        seq![]
    }
}

/// Where the tokens after the parameter list at `k` (if any) start.
pub open spec fn params_next(s: Seq<Token>, k: int) -> int {
    if 0 <= k < s.len() && is_group(s[k], Delimiter::Parenthesis) {
        k + 1
    } else {
        k
    }
}

/// The rewritten signature of the method at `i`, up to its parameter list
/// (and injected return type).
pub open spec fn method_out(c: ConfModel, s: Seq<Token>, i: int) -> Seq<Token> {
    seq![s[i], s[i + 1]] + generics_out(c, s, i + 2) + params_out(c, s, generics_next(s, i + 2))
}

/// Where the tokens after the rewritten part of the method at `i` start.
pub open spec fn method_end(s: Seq<Token>, i: int) -> int {
    params_next(s, generics_next(s, i + 2))
}

/// The items `s[i..]` of an impl block, rewritten: every method signature as
/// [`method_out`] says, every other token as it is.
pub open spec fn rewritten_from(c: ConfModel, s: Seq<Token>, i: int) -> Seq<Token>
    decreases s.len() - i,
    via rewritten_from_decreases
{
    if i < 0 || i >= s.len() {
        seq![]
    } else if is_method_at(s, i) {
        method_out(c, s, i) + rewritten_from(c, s, method_end(s, i))
    } else {
        seq![s[i]] + rewritten_from(c, s, i + 1)
    }
}

/// The items of an impl block, rewritten.
pub open spec fn rewritten_items(c: ConfModel, s: Seq<Token>) -> Seq<Token> {
    rewritten_from(c, s, 0)
}

pub proof fn lemma_method_end_bounds(s: Seq<Token>, i: int)
    requires
        is_method_at(s, i),
    ensures
        i + 2 <= method_end(s, i) <= s.len(),
{
    if i + 2 < s.len() && is_punct(s[i + 2], '<') {
        lemma_generic_end_bounds(s, i + 3);
    }
}

#[via_fn]
proof fn rewritten_from_decreases(c: ConfModel, s: Seq<Token>, i: int) {
    if 0 <= i < s.len() && is_method_at(s, i) {
        lemma_method_end_bounds(s, i);
    }
}

/// Appends the generic list of the method whose name ends before `j`, as
/// [`generics_out`] says, and returns where the tokens after it start.
fn push_generics(cfg: &Conf, s: &Vec<TokenTree>, j: usize, out: &mut Vec<TokenTree>) -> (next:
    usize)
    requires
        j <= s@.len(),
    ensures
        view_seq(final(out)@) == view_seq(old(out)@) + generics_out(cfg@, view_seq(s@), j as int),
        next == generics_next(view_seq(s@), j as int),
{
    let ghost v = view_seq(s@);
    let ghost start = view_seq(out@);
    let n = s.len();
    if j < n && s[j].is_punct('<') {
        push_copy(out, &s[j]);
        let e = fn_generic(s, j + 1);
        proof {
            lemma_generic_end_bounds(v, j + 1);
        }
        let own = copy_range(s, j + 1, e);
        let extra = copy_tokens(&cfg.generics);
        let inner = if cfg.generics_after {
            join_with_comma(own, extra)
        } else {
            join_with_comma(extra, own)
        };
        push_all(out, inner);
        if e < n {
            push_copy(out, &s[e]);
            assert(view_seq(out@) =~= start + generics_out(cfg@, v, j as int));
            e + 1
        } else {
            assert(view_seq(out@) =~= start + generics_out(cfg@, v, j as int));
            e
        }
    } else {
        if cfg.generics.len() > 0 {
            push_token(out, TokenTree::Punct('<', Spacing::Alone, SpanId(0)));
            push_all(out, copy_tokens(&cfg.generics));
            push_token(out, TokenTree::Punct('>', Spacing::Alone, SpanId(0)));
        }
        assert(view_seq(out@) =~= start + generics_out(cfg@, v, j as int));
        j
    }
}

/// Appends the parameter list at `k` and the injected return type, as
/// [`params_out`] says, and returns where the tokens after them start.
fn push_params(cfg: &Conf, s: &Vec<TokenTree>, k: usize, out: &mut Vec<TokenTree>) -> (next:
    usize)
    requires
        k <= s@.len(),
    ensures
        view_seq(final(out)@) == view_seq(old(out)@) + params_out(cfg@, view_seq(s@), k as int),
        next == params_next(view_seq(s@), k as int),
{
    let ghost v = view_seq(s@);
    let ghost start = view_seq(out@);
    let n = s.len();
    if k < n && s[k].is_group(Delimiter::Parenthesis) {
        let (own, sp) = match &s[k] {
            TokenTree::Group(_, p, sp) => (copy_tokens(p), *sp),
            _ => (Vec::new(), SpanId(0)),
        };
        proof {
            lemma_view_group(Delimiter::Parenthesis, own, sp);
            assert(view_seq(own@) == v[k as int]->Group_1);
        }
        let params = splice_params(own, copy_tokens(&cfg.param), cfg.params_after);
        proof {
            lemma_view_group(Delimiter::Parenthesis, params, sp);
        }
        push_token(out, TokenTree::Group(Delimiter::Parenthesis, params, sp));
        let has_arrow = n - k > 2 && is_joint_minus(&s[k + 1]) && s[k + 2].is_punct('>');
        assert(has_arrow == is_arrow_at(v, k + 1));
        if cfg.return_type.len() > 0 && !has_arrow {
            push_token(out, TokenTree::Punct('-', Spacing::Joint, SpanId(0)));
            push_token(out, TokenTree::Punct('>', Spacing::Alone, SpanId(0)));
            push_all(out, copy_tokens(&cfg.return_type));
        }
        assert(view_seq(out@) =~= start + params_out(cfg@, v, k as int));
        k + 1
    } else {
        assert(view_seq(out@) =~= start + params_out(cfg@, v, k as int));
        k
    }
}

/// Rewrites the method at `i`, appending its new signature to `out`, and
/// returns where the tokens after it start.
fn rewrite_method(cfg: &Conf, s: &Vec<TokenTree>, i: usize, out: &mut Vec<TokenTree>) -> (next:
    usize)
    requires
        is_method_at(view_seq(s@), i as int),
    ensures
        view_seq(final(out)@) == view_seq(old(out)@) + method_out(cfg@, view_seq(s@), i as int),
        next == method_end(view_seq(s@), i as int),
{
    let ghost v = view_seq(s@);
    let ghost start = view_seq(out@);
    let n = s.len();
    assert(v.len() == n);
    push_copy(out, &s[i]);
    push_copy(out, &s[i + 1]);
    let j = push_generics(cfg, s, i + 2, out);
    proof {
        if i + 3 <= v.len() {
            lemma_generic_end_bounds(v, i + 3);
        }
    }
    let k = push_params(cfg, s, j, out);
    assert(view_seq(out@) =~= start + method_out(cfg@, v, i as int));
    k
}

/// Whether the token is a `-` joined to the next one.
fn is_joint_minus(t: &TokenTree) -> (r: bool)
    ensures
        r == (t@ matches Token::Punct(c, Spacing::Joint, _) && c == '-'),
{
    match t {
        TokenTree::Punct(c, Spacing::Joint, _) => *c == '-',
        _ => false,
    }
}

/// Rewrites the items of an impl block: injects the configured parameters,
/// generics and return type into every method signature, and copies every
/// other token unchanged.
pub fn process_impl_block(cfg: &Conf, items: &Vec<TokenTree>) -> (r: Vec<TokenTree>)
    ensures
        view_seq(r@) == rewritten_items(cfg@, view_seq(items@)),
{
    let ghost v = view_seq(items@);
    let n = items.len();
    let mut out: Vec<TokenTree> = Vec::new();
    let mut i: usize = 0;
    while i < n
        invariant
            n == items@.len(),
            v == view_seq(items@),
            i <= n,
            view_seq(out@) + rewritten_from(cfg@, v, i as int) == rewritten_items(cfg@, v),
        decreases n - i,
    {
        if i + 1 < n && items[i].is_word("fn") && items[i + 1].is_ident() {
            proof {
                lemma_method_end_bounds(v, i as int);
            }
            let ghost at = i as int;
            i = rewrite_method(cfg, items, i, &mut out);
            assert(rewritten_from(cfg@, v, at) == method_out(cfg@, v, at) + rewritten_from(
                cfg@,
                v,
                i as int,
            ));
        } else {
            push_copy(&mut out, &items[i]);
            assert(rewritten_from(cfg@, v, i as int) == seq![v[i as int]] + rewritten_from(
                cfg@,
                v,
                i + 1,
            ));
            i += 1;
        }
        assert(view_seq(out@) + rewritten_from(cfg@, v, i as int) =~= rewritten_items(cfg@, v));
    }
    assert(view_seq(out@) =~= rewritten_items(cfg@, v));
    out
}

} // verus!
