use vstd::prelude::*;
use crate::join::{join_with_comma, joined};
use crate::token::{
    is_group, is_punct, is_word, lemma_view_seq_subrange, view_seq, Delimiter, Spacing, Token,
    TokenTree,
};

verus! {

/// `s` opens with a method receiver: `self`, `&self`, `&mut self`,
/// `&'a self` or `&'a mut self` (a typed receiver `self: T` opens with `self`).
pub open spec fn starts_with_receiver(s: Seq<Token>) -> bool {
    if s.len() > 0 && is_punct(s[0], '&') {
        ||| s.len() > 3 && is_punct(s[1], '\'') && s[2] is Ident && is_word(s[3], "self"@)
        ||| s.len() > 4 && is_punct(s[1], '\'') && s[2] is Ident && is_word(s[3], "mut"@)
            && is_word(s[4], "self"@)
        ||| s.len() > 1 && is_word(s[1], "self"@)
        ||| s.len() > 2 && is_word(s[1], "mut"@) && is_word(s[2], "self"@)
    } else {
        s.len() > 0 && is_word(s[0], "self"@)
    }
}

/// The end of the first comma at or after `i`, or the length of `s` if there
/// is none.
pub open spec fn through_comma(s: Seq<Token>, i: int) -> int
    decreases s.len() - i,
{
    if i < 0 || i >= s.len() {
        s.len() as int
    } else if is_punct(s[i], ',') {
        i + 1
    } else {
        through_comma(s, i + 1)
    }
}

/// How many leading tokens of a parameter list form its receiver, the comma
/// after it included; 0 if it has none.
pub open spec fn receiver_len(s: Seq<Token>) -> int {
    if starts_with_receiver(s) {
        through_comma(s, 0)
    } else {
        0
    }
}

/// `s[i]` and `s[i + 1]` form the arrow `->`.
pub open spec fn is_arrow_at(s: Seq<Token>, i: int) -> bool {
    &&& 0 <= i
    &&& i + 1 < s.len()
    &&& s[i] matches Token::Punct(c, Spacing::Joint, _) && c == '-'
    &&& is_punct(s[i + 1], '>')
}

/// Where a generic parameter list that starts at `i` ends: at the first `>`
/// that is not part of an arrow and is last or followed by a parameter list;
/// at the end of `s` if there is no such `>`.
pub open spec fn generic_end(s: Seq<Token>, i: int) -> int
    decreases s.len() - i,
{
    if i < 0 || i >= s.len() {
        s.len() as int
    } else if is_arrow_at(s, i) {
        generic_end(s, i + 2)
    } else if is_punct(s[i], '>') && (i + 1 == s.len() || is_group(s[i + 1], Delimiter::Parenthesis)) {
        i
    } else {
        generic_end(s, i + 1)
    }
}

/// A method's parameter list `p` with the configured parameters `extra`
/// spliced in: the method's own receiver, or else the configured one, comes
/// first; the other parameters follow, the configured ones after the
/// method's own when `after` holds, before them otherwise.
pub open spec fn spliced_params(p: Seq<Token>, extra: Seq<Token>, after: bool) -> Seq<Token> {
    let own_recv = receiver_len(p);
    let extra_recv = receiver_len(extra);
    let recv = if own_recv > 0 {
        p.take(own_recv)
    } else {
        extra.take(extra_recv)
    };
    let own = p.skip(own_recv);
    let added = extra.skip(extra_recv);
    joined(
        recv,
        if after {
            joined(own, added)
        } else {
            joined(added, own)
        },
    )
}

pub proof fn lemma_through_comma_bounds(s: Seq<Token>, i: int)
    requires
        0 <= i,
    ensures
        i <= through_comma(s, i) <= s.len() || i > s.len(),
        i <= s.len() ==> through_comma(s, i) <= s.len(),
    decreases s.len() - i,
{
    if i < s.len() && !is_punct(s[i], ',') {
        lemma_through_comma_bounds(s, i + 1);
    }
}

pub proof fn lemma_generic_end_bounds(s: Seq<Token>, i: int)
    requires
        0 <= i <= s.len(),
    ensures
        i <= generic_end(s, i) <= s.len(),
        generic_end(s, i) < s.len() ==> is_punct(s[generic_end(s, i)], '>'),
    decreases s.len() - i,
{
    if i < s.len() {
        if is_arrow_at(s, i) {
            lemma_generic_end_bounds(s, i + 2);
        } else if is_punct(s[i], '>') && (i + 1 == s.len() || is_group(
            s[i + 1],
            Delimiter::Parenthesis,
        )) {
        } else {
            lemma_generic_end_bounds(s, i + 1);
        }
    }
}

/// Splits a parameter list into its receiver (with the comma after it, if
/// any) and the parameters that follow; the receiver is empty when the list
/// opens with none.
pub fn self_param(params: Vec<TokenTree>) -> (r: (Vec<TokenTree>, Vec<TokenTree>))
    ensures
        view_seq(r.0@) == view_seq(params@).take(receiver_len(view_seq(params@))),
        view_seq(r.1@) == view_seq(params@).skip(receiver_len(view_seq(params@))),
{
    let ghost v = view_seq(params@);
    let n = params.len();
    let mut recv = false;
    if n > 0 && params[0].is_punct('&') {
        if n > 3 && params[1].is_punct('\'') && params[2].is_ident() && params[3].is_word("self") {
            recv = true;
        }
        if n > 4 && params[1].is_punct('\'') && params[2].is_ident() && params[3].is_word("mut")
            && params[4].is_word("self") {
            recv = true;
        }
        if n > 1 && params[1].is_word("self") {
            recv = true;
        }
        if n > 2 && params[1].is_word("mut") && params[2].is_word("self") {
            recv = true;
        }
    } else if n > 0 && params[0].is_word("self") {
        recv = true;
    }
    assert(recv == starts_with_receiver(v));
    let mut k: usize = 0;
    if recv {
        while k < n && !params[k].is_punct(',')
            invariant
                n == params@.len(),
                v == view_seq(params@),
                k <= n,
                through_comma(v, k as int) == through_comma(v, 0),
            decreases n - k,
        {
            k += 1;
        }
        if k < n {
            k += 1;
        }
    }
    assert(k == receiver_len(v));
    let mut own = params;
    let rest = own.split_off(k);
    proof {
        lemma_view_seq_subrange(params@, 0, k as int);
        lemma_view_seq_subrange(params@, k as int, n as int);
        assert(v.take(k as int) =~= v.subrange(0, k as int));
        assert(v.skip(k as int) =~= v.subrange(k as int, n as int));
    }
    (own, rest)
}

/// Where the generic parameter list that starts at `start` ends (see
/// [`generic_end`]).
pub fn fn_generic(s: &Vec<TokenTree>, start: usize) -> (end: usize)
    requires
        start <= s@.len(),
    ensures
        end == generic_end(view_seq(s@), start as int),
{
    let ghost v = view_seq(s@);
    let n = s.len();
    let mut i = start;
    loop
        invariant
            n == s@.len(),
            v == view_seq(s@),
            start <= i <= n,
            generic_end(v, i as int) == generic_end(v, start as int),
        decreases n - i,
    {
        if i >= n {
            return i;
        }
        if i + 1 < n && s[i].is_punct('-') && s[i + 1].is_punct('>') && match &s[i] {
            TokenTree::Punct(_, Spacing::Joint, _) => true,
            _ => false,
        } {
            assert(is_arrow_at(v, i as int));
            i += 2;
        } else if s[i].is_punct('>') && (i + 1 == n || s[i + 1].is_group(Delimiter::Parenthesis)) {
            return i;
        } else {
            i += 1;
        }
    }
}

/// Splices the configured parameters `extra` into the method's own parameter
/// list `params`, as [`spliced_params`] describes.
pub fn splice_params(params: Vec<TokenTree>, extra: Vec<TokenTree>, after: bool) -> (r: Vec<
    TokenTree,
>)
    ensures
        view_seq(r@) == spliced_params(view_seq(params@), view_seq(extra@), after),
{
    proof {
        lemma_through_comma_bounds(view_seq(params@), 0);
    }
    let (own_recv, own) = self_param(params);
    let (extra_recv, added) = self_param(extra);
    let recv = if own_recv.len() > 0 {
        own_recv
    } else {
        extra_recv
    };
    let rest = if after {
        join_with_comma(own, added)
    } else {
        join_with_comma(added, own)
    };
    join_with_comma(recv, rest)
}

} // verus!
