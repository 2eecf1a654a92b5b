use vstd::prelude::*;

verus! {

broadcast use vstd::std_specs::vec::group_vec_axioms;

/// The bracket kind of a token group.
#[derive(Clone, Copy, Debug, PartialEq, Eq, Structural)]
pub enum Delimiter {
    /// `( ... )`
    Parenthesis,
    /// `{ ... }`
    Brace,
    /// `[ ... ]`
    Bracket,
    /// A group without visible brackets.
    Invisible,
}

/// Whether a punctuation character is immediately followed by another one,
/// forming a compound operator such as `->`.
#[derive(Clone, Copy, Debug, PartialEq, Eq, Structural)]
pub enum Spacing {
    Alone,
    Joint,
}

/// Where a token came from: a handle into a table of source locations that
/// the caller keeps. `SpanId(0)` stands for the macro's call site, the
/// location of the tokens that the rewriter makes itself.
#[derive(Clone, Copy, Debug, PartialEq, Eq, Structural)]
pub struct SpanId(pub usize);

/// One lexical token: an identifier or keyword, a punctuation character, a
/// literal, or a bracketed group holding a token sequence of its own; each
/// with the location it came from.
#[derive(Debug)]
pub enum TokenTree {
    Group(Delimiter, Vec<TokenTree>, SpanId),
    Ident(String, SpanId),
    Punct(char, Spacing, SpanId),
    Literal(String, SpanId),
}

/// The mathematical value of a [`TokenTree`].
pub enum Token {
    Group(Delimiter, Seq<Token>, SpanId),
    Ident(Seq<char>, SpanId),
    Punct(char, Spacing, SpanId),
    Literal(Seq<char>, SpanId),
}

pub open spec fn view_tree(t: TokenTree) -> Token
    decreases t,
{
    match t {
        TokenTree::Group(d, v, sp) => Token::Group(
            d,
            Seq::new(
                v@.len(),
                |i: int|
                    if 0 <= i < v.len() {
                        view_tree(v[i])
                    } else {
                        Token::Punct(' ', Spacing::Alone, sp)
                    },
            ),
            sp,
        ),
        TokenTree::Ident(s, sp) => Token::Ident(s@, sp),
        TokenTree::Punct(c, spacing, sp) => Token::Punct(c, spacing, sp),
        TokenTree::Literal(s, sp) => Token::Literal(s@, sp),
    }
}

/// The mathematical value of a token sequence.
pub open spec fn view_seq(s: Seq<TokenTree>) -> Seq<Token> {
    s.map_values(|t: TokenTree| view_tree(t))
}

impl View for TokenTree {
    type V = Token;

    open spec fn view(&self) -> Token {
        view_tree(*self)
    }
}

pub proof fn lemma_view_group(d: Delimiter, v: Vec<TokenTree>, sp: SpanId)
    ensures
        view_tree(TokenTree::Group(d, v, sp)) == Token::Group(d, view_seq(v@), sp),
{
    let t = TokenTree::Group(d, v, sp);
    let c = view_tree(t)->Group_1;
    assert(c.len() == v@.len());
    assert forall|i: int| 0 <= i < v@.len() implies c[i] == view_seq(v@)[i] by {
        assert(c[i] == view_tree(v[i]));
    }
    assert(c =~= view_seq(v@));
}

/// `t` is the punctuation character `c`, whatever its spacing.
pub open spec fn is_punct(t: Token, c: char) -> bool {
    t matches Token::Punct(ch, _, _) && ch == c
}

/// `t` is the identifier or keyword `w`.
pub open spec fn is_word(t: Token, w: Seq<char>) -> bool {
    t matches Token::Ident(n, _) && n == w
}

/// `t` is a group in `d` brackets.
pub open spec fn is_group(t: Token, d: Delimiter) -> bool {
    t matches Token::Group(e, _, _) && e == d
}

/// The comma that the rewriter inserts between two lists.
pub open spec fn comma() -> Token {
    Token::Punct(',', Spacing::Alone, SpanId(0))
}

pub proof fn lemma_view_seq_concat(a: Seq<TokenTree>, b: Seq<TokenTree>)
    ensures
        view_seq(a + b) == view_seq(a) + view_seq(b),
{
    assert(view_seq(a + b) =~= view_seq(a) + view_seq(b));
}

pub proof fn lemma_view_seq_push(a: Seq<TokenTree>, t: TokenTree)
    ensures
        view_seq(a.push(t)) == view_seq(a).push(t@),
{
    assert(view_seq(a.push(t)) =~= view_seq(a).push(t@));
}

pub proof fn lemma_view_seq_subrange(a: Seq<TokenTree>, i: int, j: int)
    requires
        0 <= i <= j <= a.len(),
    ensures
        view_seq(a.subrange(i, j)) == view_seq(a).subrange(i, j),
{
    assert(view_seq(a.subrange(i, j)) =~= view_seq(a).subrange(i, j));
}

impl TokenTree {
    /// Whether the token is the punctuation character `c`.
    pub fn is_punct(&self, c: char) -> (r: bool)
        ensures
            r == is_punct(self@, c),
    {
        match self {
            TokenTree::Punct(ch, _, _) => *ch == c,
            _ => false,
        }
    }

    /// Whether the token is the identifier or keyword `w`.
    pub fn is_word(&self, w: &str) -> (r: bool)
        ensures
            r == is_word(self@, w@),
    {
        match self {
            TokenTree::Ident(n, _) => *n == w.to_owned(),
            _ => false,
        }
    }

    /// Whether the token is an identifier or keyword.
    pub fn is_ident(&self) -> (r: bool)
        ensures
            r == self@ is Ident,
    {
        match self {
            TokenTree::Ident(..) => true,
            _ => false,
        }
    }

    /// Whether the token is a group in `d` brackets.
    pub fn is_group(&self, d: Delimiter) -> (r: bool)
        ensures
            r == is_group(self@, d),
    {
        match self {
            TokenTree::Group(e, _, _) => *e == d,
            _ => false,
        }
    }

    /// A copy of the token, groups included.
    pub fn deep_clone(&self) -> (r: TokenTree)
        ensures
            r@ == self@,
        decreases self,
    {
        match self {
            TokenTree::Group(d, v, sp) => {
                let w = copy_range(v, 0, v.len());
                proof {
                    assert(view_seq(v@).subrange(0, v@.len() as int) =~= view_seq(v@));
                    lemma_view_group(*d, *v, *sp);
                    lemma_view_group(*d, w, *sp);
                }
                TokenTree::Group(*d, w, *sp)
            },
            TokenTree::Ident(s, sp) => TokenTree::Ident(s.clone(), *sp),
            TokenTree::Punct(c, spacing, sp) => TokenTree::Punct(*c, *spacing, *sp),
            TokenTree::Literal(s, sp) => TokenTree::Literal(s.clone(), *sp),
        }
    }
}

/// A copy of the tokens `v[from..to]`.
pub fn copy_range(v: &Vec<TokenTree>, from: usize, to: usize) -> (r: Vec<TokenTree>)
    requires
        from <= to <= v@.len(),
    ensures
        view_seq(r@) == view_seq(v@).subrange(from as int, to as int),
    decreases v,
{
    let mut r: Vec<TokenTree> = Vec::new();
    let mut i: usize = from;
    while i < to
        invariant
            from <= i <= to <= v@.len(),
            view_seq(r@) == view_seq(v@).subrange(from as int, i as int),
        decreases to - i,
    {
        let t = v[i].deep_clone();
        push_token(&mut r, t);
        proof {
            assert(view_seq(v@).subrange(from as int, i + 1) =~= view_seq(v@).subrange(
                from as int,
                i as int,
            ).push(view_tree(v@[i as int])));
        }
        i += 1;
    }
    r
}

/// A copy of a token sequence.
pub fn copy_tokens(v: &Vec<TokenTree>) -> (r: Vec<TokenTree>)
    ensures
        view_seq(r@) == view_seq(v@),
{
    let r = copy_range(v, 0, v.len());
    assert(view_seq(v@).subrange(0, v@.len() as int) =~= view_seq(v@));
    r
}

/// Appends a copy of `t` to `out`.
pub fn push_copy(out: &mut Vec<TokenTree>, t: &TokenTree)
    ensures
        view_seq(final(out)@) == view_seq(old(out)@).push(t@),
{
    let c = t.deep_clone();
    out.push(c);
    proof {
        lemma_view_seq_push(old(out)@, c);
    }
}

/// Appends `t` to `out`.
pub fn push_token(out: &mut Vec<TokenTree>, t: TokenTree)
    ensures
        view_seq(final(out)@) == view_seq(old(out)@).push(t@),
{
    out.push(t);
    proof {
        lemma_view_seq_push(old(out)@, t);
    }
}

/// Appends all of `v` to `out`.
pub fn push_all(out: &mut Vec<TokenTree>, v: Vec<TokenTree>)
    ensures
        view_seq(final(out)@) == view_seq(old(out)@) + view_seq(v@),
{
    let mut w = v;
    out.append(&mut w);
    proof {
        lemma_view_seq_concat(old(out)@, v@);
    }
}

} // verus!
