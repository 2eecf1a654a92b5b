use vstd::prelude::*;
use crate::rewrite::{
    generics_next, generics_out, is_method_at, method_out, params_out, rewritten_from, rewritten_items, ConfModel,
};
use crate::signature::{is_arrow_at, lemma_generic_end_bounds, spliced_params};
use crate::token::{is_group, is_word, Delimiter, SpanId, Spacing, Token};
use crate::{expanded, is_impl_item, return_conf, well_formed_item};

verus! {

/// No token of `s` at the top level is the keyword `fn`.
pub open spec fn has_no_fn(s: Seq<Token>) -> bool {
    forall|i: int| 0 <= i < s.len() ==> !is_word(#[trigger] s[i], "fn"@)
}

proof fn lemma_rewritten_from_without_fn(c: ConfModel, s: Seq<Token>, i: int)
    requires
        has_no_fn(s),
        0 <= i <= s.len(),
    ensures
        rewritten_from(c, s, i) == s.skip(i),
    decreases s.len() - i,
{
    if i < s.len() {
        assert(!is_method_at(s, i));
        lemma_rewritten_from_without_fn(c, s, i + 1);
        assert(s.skip(i) =~= seq![s[i]] + s.skip(i + 1));
    } else {
        assert(s.skip(i) =~= seq![]);
    }
}

/// Items of an impl block without methods come out as they went in,
/// whatever is configured.
pub proof fn law_items_without_methods_unchanged(c: ConfModel, s: Seq<Token>)
    requires
        has_no_fn(s),
    ensures
        rewritten_items(c, s) == s,
{
    lemma_rewritten_from_without_fn(c, s, 0);
    assert(s.skip(0) =~= s);
}

/// An impl block whose body holds no method (only constants, type aliases,
/// macro calls and the like) is returned exactly as it was given, whatever
/// is configured.
pub proof fn law_impl_without_methods_unchanged(c: ConfModel, item: Seq<Token>)
    requires
        is_impl_item(item),
        well_formed_item(item),
        has_no_fn(item.last()->Group_1),
    ensures
        expanded(c, item) == item,
{
    law_items_without_methods_unchanged(c, item.last()->Group_1);
    assert(is_group(item.last(), Delimiter::Brace));
    assert(item.drop_last().push(item.last()) =~= item);
}

/// A return type is injected only where a method declares none: a method
/// whose parameter list is followed by `->` is rewritten exactly as if no
/// return type were configured, and one without gets `-> t` right after its
/// parameter list.
pub proof fn law_return_type_only_when_absent(t: Seq<Token>, s: Seq<Token>, i: int)
    requires
        is_method_at(s, i),
        t.len() > 0,
        generics_next(s, i + 2) < s.len(),
        is_group(s[generics_next(s, i + 2)], Delimiter::Parenthesis),
    ensures
        is_arrow_at(s, generics_next(s, i + 2) + 1) ==> method_out(return_conf(t), s, i)
            == method_out(return_conf(seq![]), s, i),
        !is_arrow_at(s, generics_next(s, i + 2) + 1) ==> method_out(return_conf(t), s, i)
            == method_out(return_conf(seq![]), s, i) + seq![
            Token::Punct('-', Spacing::Joint, SpanId(0)),
            Token::Punct('>', Spacing::Alone, SpanId(0)),
        ] + t,
{
    let c = return_conf(t);
    let e = return_conf(seq![]);
    if i + 3 <= s.len() {
        lemma_generic_end_bounds(s, i + 3);
    }
    let k = generics_next(s, i + 2);
    assert(i + 2 <= k);
    let g = Token::Group(
        Delimiter::Parenthesis,
        spliced_params(s[k]->Group_1, seq![], false),
        s[k]->Group_2,
    );
    let arrow = seq![
        Token::Punct('-', Spacing::Joint, SpanId(0)),
        Token::Punct('>', Spacing::Alone, SpanId(0)),
    ];
    assert(params_out(e, s, k) == seq![g]);
    let head = seq![s[i], s[i + 1]] + generics_out(c, s, i + 2);
    if is_arrow_at(s, k + 1) {
        assert(params_out(c, s, k) == seq![g]);
    } else {
        assert(params_out(c, s, k) == seq![g] + arrow + t);
        assert(head + (seq![g] + arrow + t) =~= head + seq![g] + arrow + t);
    }
}

} // verus!
