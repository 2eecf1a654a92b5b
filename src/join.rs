use vstd::prelude::*;
use crate::token::{
    comma, is_punct, lemma_view_seq_concat, lemma_view_seq_push, lemma_view_seq_subrange, view_seq,
    SpanId, Spacing, Token, TokenTree,
};

verus! {

/// `a` without its last token, if that token is a comma.
pub open spec fn strip_trailing_comma(a: Seq<Token>) -> Seq<Token> {
    if a.len() > 0 && is_punct(a.last(), ',') {
        a.drop_last()
    } else {
        a
    }
}

/// `b` without its first token, if that token is a comma.
pub open spec fn strip_leading_comma(b: Seq<Token>) -> Seq<Token> {
    if b.len() > 0 && is_punct(b[0], ',') {
        b.drop_first()
    } else {
        b
    }
}

/// Two comma-separated lists written as one: an empty side gives the other
/// side unchanged; otherwise exactly one comma separates them, and a trailing
/// comma of `b` is kept.
pub open spec fn joined(a: Seq<Token>, b: Seq<Token>) -> Seq<Token> {
    if a.len() == 0 {
        b
    } else if b.len() == 0 {
        a
    } else {
        let left = strip_trailing_comma(a);
        let left = if left.len() > 0 {
            left.push(comma())
        } else {
            left
        };
        left + strip_leading_comma(b)
    }
}

/// Joins two comma-separated token lists.
pub fn join_with_comma(a: Vec<TokenTree>, b: Vec<TokenTree>) -> (r: Vec<TokenTree>)
    ensures
        view_seq(r@) == joined(view_seq(a@), view_seq(b@)),
{
    if a.len() == 0 {
        return b;
    }
    if b.len() == 0 {
        return a;
    }
    let ghost va = view_seq(a@);
    let ghost vb = view_seq(b@);
    let mut left = a;
    let mut right = b;
    if left[left.len() - 1].is_punct(',') {
        left.pop();
        proof {
            lemma_view_seq_subrange(a@, 0, a@.len() - 1);
            assert(left@ =~= a@.subrange(0, a@.len() - 1));
            assert(va.drop_last() =~= va.subrange(0, va.len() - 1));
        }
    }
    assert(view_seq(left@) == strip_trailing_comma(va));
    if left.len() > 0 {
        let ghost before = left@;
        left.push(TokenTree::Punct(',', Spacing::Alone, SpanId(0)));
        proof {
            lemma_view_seq_push(before, TokenTree::Punct(',', Spacing::Alone, SpanId(0)));
        }
    }
    if right[0].is_punct(',') {
        right.remove(0);
        proof {
            lemma_view_seq_subrange(b@, 1, b@.len() as int);
            assert(right@ =~= b@.subrange(1, b@.len() as int));
            assert(vb.drop_first() =~= vb.subrange(1, vb.len() as int));
        }
    }
    assert(view_seq(right@) == strip_leading_comma(vb));
    let ghost l0 = left@;
    let ghost r0 = right@;
    left.append(&mut right);
    proof {
        lemma_view_seq_concat(l0, r0);
    }
    left
}

} // verus!
