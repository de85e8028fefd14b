use vstd::prelude::*;

use crate::token::{KindView, Token, TokenKind, TokenView};
use vstd::std_specs::iter::IteratorSpec;

verus! {

// ---------------------------------------------------------------------------
// Character classes
// ---------------------------------------------------------------------------

/// The characters with the Unicode `White_Space` property.
pub open spec fn is_white_space(c: char) -> bool {
    let u = c as u32;
    (0x9 <= u && u <= 0xD) || u == 0x20 || u == 0x85 || u == 0xA0 || u == 0x1680 || (0x2000 <= u
        && u <= 0x200A) || u == 0x2028 || u == 0x2029 || u == 0x202F || u == 0x205F || u == 0x3000
}

/// An ASCII letter or an underscore.
pub open spec fn starts_identifier(c: char) -> bool {
    ('a' <= c && c <= 'z') || ('A' <= c && c <= 'Z') || c == '_'
}

/// A character that may follow the first one of an identifier.
pub open spec fn continues_identifier(c: char) -> bool {
    starts_identifier(c) || ('0' <= c && c <= '9')
}

/// Whether `c` has the Unicode `White_Space` property.
fn is_whitespace(c: char) -> (r: bool)
    ensures
        r == is_white_space(c),
{
    let u = c as u32;
    (0x9 <= u && u <= 0xD) || u == 0x20 || u == 0x85 || u == 0xA0 || u == 0x1680 || (0x2000 <= u
        && u <= 0x200A) || u == 0x2028 || u == 0x2029 || u == 0x202F || u == 0x205F || u == 0x3000
}

// ---------------------------------------------------------------------------
// The scanner as mathematics
// ---------------------------------------------------------------------------

/// The first index at or after `p` whose character is not white space
/// (or `p` itself when `p` is past the text).
pub open spec fn skip_ws(s: Seq<char>, p: int) -> int
    decreases s.len() - p,
{
    if 0 <= p < s.len() && is_white_space(s[p]) {
        skip_ws(s, p + 1)
    } else {
        p
    }
}

/// The first index at or after `p` whose character satisfies `stop`, or the
/// end of the text.
pub open spec fn run_end(s: Seq<char>, p: int, stop: spec_fn(char) -> bool) -> int
    decreases s.len() - p,
{
    if 0 <= p < s.len() && !stop(s[p]) {
        run_end(s, p + 1, stop)
    } else {
        p
    }
}

/// Ends an identifier: a character that cannot stand in one.
pub open spec fn ends_identifier() -> spec_fn(char) -> bool {
    |c: char| !continues_identifier(c)
}

/// Ends a run at the first occurrence of `d`.
pub open spec fn is_char(d: char) -> spec_fn(char) -> bool {
    |c: char| c == d
}

/// The kind of a two-character operator, if `c` followed by `d` is one.
pub open spec fn pair_kind(c: char, d: char) -> Option<KindView> {
    if c == '!' && d == '=' {
        Some(KindView::BangEqual)
    } else if c == '-' && d == '>' {
        Some(KindView::RightArrow)
    } else if c == '=' && d == '=' {
        Some(KindView::EqualEqual)
    } else if c == '>' && d == '=' {
        Some(KindView::GreaterEqual)
    } else if c == '<' && d == '=' {
        Some(KindView::LessEqual)
    } else if c == '&' && d == '&' {
        Some(KindView::And)
    } else if c == '|' && d == '|' {
        Some(KindView::Or)
    } else {
        None
    }
}

/// The kind of a one-character token.
pub open spec fn single_kind(c: char) -> Option<KindView> {
    if c == '{' {
        Some(KindView::LeftBrace)
    } else if c == '}' {
        Some(KindView::RightBrace)
    } else if c == '(' {
        Some(KindView::LeftParen)
    } else if c == ')' {
        Some(KindView::RightParen)
    } else if c == '.' {
        Some(KindView::Dot)
    } else if c == ',' {
        Some(KindView::Comma)
    } else if c == ':' {
        Some(KindView::Colon)
    } else if c == ';' {
        Some(KindView::SemiColon)
    } else if c == '!' {
        Some(KindView::Bang)
    } else if c == '+' {
        Some(KindView::Plus)
    } else if c == '-' {
        Some(KindView::Minus)
    } else if c == '/' {
        Some(KindView::Slash)
    } else if c == '*' {
        Some(KindView::Star)
    } else if c == '=' {
        Some(KindView::Equal)
    } else if c == '>' {
        Some(KindView::Greater)
    } else if c == '<' {
        Some(KindView::Less)
    } else {
        None
    }
}

/// The reserved word spelled by `w`, if any.
pub open spec fn keyword(w: Seq<char>) -> Option<KindView> {
    if w == seq!['l', 'e', 't'] {
        Some(KindView::Let)
    } else if w == seq!['m', 'u', 't'] {
        Some(KindView::Mut)
    } else if w == seq!['f', 'n'] {
        Some(KindView::Fn)
    } else if w == seq!['e', 'n', 'u', 'm'] {
        Some(KindView::Enum)
    } else if w == seq!['r', 'e', 'c', 'o', 'r', 'd'] {
        Some(KindView::Record)
    } else if w == seq!['i', 'n', 't', 'e', 'r', 'f', 'a', 'c', 'e'] {
        Some(KindView::Interface)
    } else if w == seq!['i', 'm', 'p', 'l'] {
        Some(KindView::Impl)
    } else if w == seq!['c', 'h', 'e', 'c', 'k'] {
        Some(KindView::Check)
    } else if w == seq!['m', 'a', 't', 'c', 'h'] {
        Some(KindView::Match)
    } else {
        None
    }
}

/// The kind of an identifier-shaped word: its reserved word, else `Identifier`.
pub open spec fn word_kind(w: Seq<char>) -> KindView {
    match keyword(w) {
        Some(k) => k,
        None => KindView::Identifier,
    }
}

/// Whether `s[i]` and the character after it form a two-character operator.
pub open spec fn pair_at(s: Seq<char>, i: int) -> bool {
    i + 1 < s.len() && pair_kind(s[i], s[i + 1]) is Some
}

/// Where the token that starts at `i` ends (exclusive).
pub open spec fn token_end(s: Seq<char>, i: int) -> int {
    if pair_at(s, i) {
        i + 2
    } else if s[i] == '"' {
        let close = run_end(s, i + 1, is_char('"'));
        if close < s.len() {
            close + 1
        } else {
            close
        }
    } else if starts_identifier(s[i]) {
        run_end(s, i + 1, ends_identifier())
    } else {
        i + 1
    }
}

/// The kind of the token that starts at `i`.
pub open spec fn kind_at(s: Seq<char>, i: int) -> KindView {
    if pair_at(s, i) {
        pair_kind(s[i], s[i + 1])->0
    } else if single_kind(s[i]) is Some {
        single_kind(s[i])->0
    } else if s[i] == '"' {
        KindView::Str(s.subrange(i + 1, run_end(s, i + 1, is_char('"'))))
    } else if starts_identifier(s[i]) {
        word_kind(s.subrange(i, token_end(s, i)))
    } else {
        KindView::Unknown
    }
}

/// The token that starts at `i`.
pub open spec fn token_at(s: Seq<char>, i: int) -> TokenView {
    TokenView { kind: kind_at(s, i), lexeme: s.subrange(i, token_end(s, i)) }
}

pub proof fn lemma_skip_ws_bounds(s: Seq<char>, p: int)
    requires
        0 <= p <= s.len(),
    ensures
        p <= skip_ws(s, p) <= s.len(),
        skip_ws(s, p) < s.len() ==> !is_white_space(s[skip_ws(s, p)]),
        forall|k: int| p <= k < skip_ws(s, p) ==> is_white_space(#[trigger] s[k]),
    decreases s.len() - p,
{
    if p < s.len() && is_white_space(s[p]) {
        lemma_skip_ws_bounds(s, p + 1);
    }
}

pub proof fn lemma_run_end_bounds(s: Seq<char>, p: int, stop: spec_fn(char) -> bool)
    requires
        0 <= p <= s.len(),
    ensures
        p <= run_end(s, p, stop) <= s.len(),
        run_end(s, p, stop) < s.len() ==> stop(s[run_end(s, p, stop)]),
        forall|k: int| p <= k < run_end(s, p, stop) ==> !stop(#[trigger] s[k]),
    decreases s.len() - p,
{
    if p < s.len() && !stop(s[p]) {
        lemma_run_end_bounds(s, p + 1, stop);
    }
}

pub proof fn lemma_token_end_bounds(s: Seq<char>, i: int)
    requires
        0 <= i < s.len(),
    ensures
        i < token_end(s, i) <= s.len(),
{
    lemma_run_end_bounds(s, i + 1, is_char('"'));
    lemma_run_end_bounds(s, i + 1, ends_identifier());
}

/// The tokens of `s` read from index `p` on.
pub open spec fn tokens_from(s: Seq<char>, p: int) -> Seq<TokenView>
    decreases s.len() - p,
{
    if 0 <= p <= s.len() {
        let q = skip_ws(s, p);
        proof {
            lemma_skip_ws_bounds(s, p);
        }
        if q < s.len() {
            proof {
                lemma_token_end_bounds(s, q);
            }
            seq![token_at(s, q)] + tokens_from(s, token_end(s, q))
        } else {
            Seq::empty()
        }
    } else {
        Seq::empty()
    }
}

/// The runs of white space around the tokens of `s` read from `p` on: one
/// before each token, and one after the last.
pub open spec fn gaps_from(s: Seq<char>, p: int) -> Seq<Seq<char>>
    decreases s.len() - p,
{
    if 0 <= p <= s.len() {
        let q = skip_ws(s, p);
        proof {
            lemma_skip_ws_bounds(s, p);
        }
        if q < s.len() {
            proof {
                lemma_token_end_bounds(s, q);
            }
            seq![s.subrange(p, q)] + gaps_from(s, token_end(s, q))
        } else {
            seq![s.subrange(p, s.len() as int)]
        }
    } else {
        Seq::empty()
    }
}

/// `gaps[0]`, the lexeme of `toks[0]`, `gaps[1]`, and so on, joined.
pub open spec fn interleave(gaps: Seq<Seq<char>>, toks: Seq<TokenView>) -> Seq<char>
    decreases toks.len(),
{
    if gaps.len() == 0 {
        Seq::empty()
    } else if toks.len() == 0 {
        gaps[0]
    } else {
        gaps[0] + toks[0].lexeme + interleave(gaps.drop_first(), toks.drop_first())
    }
}

proof fn lemma_reconstructs_from(s: Seq<char>, p: int)
    requires
        0 <= p <= s.len(),
    ensures
        gaps_from(s, p).len() == tokens_from(s, p).len() + 1,
        interleave(gaps_from(s, p), tokens_from(s, p)) == s.subrange(p, s.len() as int),
        forall|g: int, k: int|
            0 <= g < gaps_from(s, p).len() && 0 <= k < gaps_from(s, p)[g].len()
                ==> is_white_space(#[trigger] gaps_from(s, p)[g][k]),
    decreases s.len() - p,
{
    lemma_skip_ws_bounds(s, p);
    let q = skip_ws(s, p);
    if q < s.len() {
        lemma_token_end_bounds(s, q);
        let e = token_end(s, q);
        lemma_reconstructs_from(s, e);
        let gaps = gaps_from(s, p);
        let toks = tokens_from(s, p);
        assert(gaps.drop_first() =~= gaps_from(s, e));
        assert(toks.drop_first() =~= tokens_from(s, e));
        assert(s.subrange(p, s.len() as int) =~= s.subrange(p, q) + s.subrange(q, e) + s.subrange(
            e,
            s.len() as int,
        ));
        assert forall|g: int, k: int| 0 <= g < gaps.len() && 0 <= k < gaps[g].len() implies
            is_white_space(#[trigger] gaps[g][k]) by {
            if g > 0 {
                assert(gaps[g] == gaps_from(s, e)[g - 1]);
            } else {
                assert(gaps[g][k] == s[p + k]);
            }
        }
    } else {
        let gaps = gaps_from(s, p);
        assert forall|g: int, k: int| 0 <= g < gaps.len() && 0 <= k < gaps[g].len() implies
            is_white_space(#[trigger] gaps[g][k]) by {
            assert(gaps[g][k] == s[p + k]);
        }
    }
}

/// Scanning loses nothing: the lexemes of the tokens of `s`, with the runs of
/// white space between them, join up to `s` again.
pub proof fn lemma_scan_reconstructs(s: Seq<char>)
    ensures
        gaps_from(s, 0).len() == tokens_from(s, 0).len() + 1,
        interleave(gaps_from(s, 0), tokens_from(s, 0)) == s,
        forall|g: int, k: int|
            0 <= g < gaps_from(s, 0).len() && 0 <= k < gaps_from(s, 0)[g].len()
                ==> is_white_space(#[trigger] gaps_from(s, 0)[g][k]),
{
    lemma_reconstructs_from(s, 0);
    assert(s.subrange(0, s.len() as int) =~= s);
}

/// Scanning from `p` gives at most one token per character left, and none
/// exactly when only white space is left.
pub proof fn lemma_token_count(s: Seq<char>, p: int)
    requires
        0 <= p <= s.len(),
    ensures
        tokens_from(s, p).len() <= s.len() - p,
        (tokens_from(s, p).len() == 0) == (forall|k: int| p <= k < s.len() ==> is_white_space(
            #[trigger] s[k],
        )),
    decreases s.len() - p,
{
    lemma_skip_ws_bounds(s, p);
    let q = skip_ws(s, p);
    if q < s.len() {
        lemma_token_end_bounds(s, q);
        lemma_token_count(s, token_end(s, q));
        assert(!is_white_space(s[q]));
    }
}

proof fn lemma_skip_ws_shift(s: Seq<char>, p: int, j: int)
    requires
        0 <= p <= s.len(),
        0 <= j <= s.len() - p,
    ensures
        skip_ws(s, p + j) == p + skip_ws(s.subrange(p, s.len() as int), j),
    decreases s.len() - p - j,
{
    let t = s.subrange(p, s.len() as int);
    if j < t.len() {
        assert(t[j] == s[p + j]);
        if is_white_space(t[j]) {
            lemma_skip_ws_shift(s, p, j + 1);
        }
    }
}

proof fn lemma_run_end_shift(s: Seq<char>, p: int, j: int, stop: spec_fn(char) -> bool)
    requires
        0 <= p <= s.len(),
        0 <= j <= s.len() - p,
    ensures
        run_end(s, p + j, stop) == p + run_end(s.subrange(p, s.len() as int), j, stop),
    decreases s.len() - p - j,
{
    let t = s.subrange(p, s.len() as int);
    if j < t.len() {
        assert(t[j] == s[p + j]);
        if !stop(t[j]) {
            lemma_run_end_shift(s, p, j + 1, stop);
        }
    }
}

proof fn lemma_token_shift(s: Seq<char>, p: int, i: int)
    requires
        0 <= p <= s.len(),
        0 <= i < s.len() - p,
    ensures
        token_end(s, p + i) == p + token_end(s.subrange(p, s.len() as int), i),
        token_at(s, p + i) == token_at(s.subrange(p, s.len() as int), i),
{
    let t = s.subrange(p, s.len() as int);
    assert(t[i] == s[p + i]);
    if i + 1 < t.len() {
        assert(t[i + 1] == s[p + i + 1]);
    }
    lemma_run_end_shift(s, p, i + 1, is_char('"'));
    lemma_run_end_shift(s, p, i + 1, ends_identifier());
    lemma_token_end_bounds(t, i);
    let e = token_end(t, i);
    assert(s.subrange(p + i, p + e) =~= t.subrange(i, e));
    lemma_run_end_bounds(t, i + 1, is_char('"'));
    let close = run_end(t, i + 1, is_char('"'));
    assert(s.subrange(p + i + 1, p + close) =~= t.subrange(i + 1, close));
}

proof fn lemma_tokens_shift(s: Seq<char>, p: int, j: int)
    requires
        0 <= p <= s.len(),
        0 <= j <= s.len() - p,
    ensures
        tokens_from(s, p + j) == tokens_from(s.subrange(p, s.len() as int), j),
    decreases s.len() - p - j,
{
    let t = s.subrange(p, s.len() as int);
    lemma_skip_ws_shift(s, p, j);
    lemma_skip_ws_bounds(t, j);
    let q = skip_ws(t, j);
    if q < t.len() {
        lemma_token_shift(s, p, q);
        lemma_token_end_bounds(t, q);
        lemma_tokens_shift(s, p, token_end(t, q));
    }
}

/// Scanning looks only forward: the tokens of `s` are its first token, then
/// exactly the tokens of the text after it.
pub proof fn lemma_first_token_then_rest(s: Seq<char>)
    requires
        s.len() > 0,
        !is_white_space(s[0]),
    ensures
        tokens_from(s, 0) == seq![token_at(s, 0)] + tokens_from(
            s.subrange(token_end(s, 0), s.len() as int),
            0,
        ),
{
    lemma_token_end_bounds(s, 0);
    let e = token_end(s, 0);
    lemma_tokens_shift(s, e, 0);
}

/// A two-character operator at the start of `c1 c2 r` is one token, and the
/// tokens after it are those of `r`.
pub proof fn lemma_operator_then_rest(c1: char, c2: char, r: Seq<char>)
    requires
        pair_kind(c1, c2) is Some,
    ensures
        tokens_from(seq![c1, c2] + r, 0) == seq![
            TokenView { kind: pair_kind(c1, c2)->0, lexeme: seq![c1, c2] },
        ] + tokens_from(r, 0),
{
    let s = seq![c1, c2] + r;
    assert(s[0] == c1 && s[1] == c2);
    lemma_first_token_then_rest(s);
    assert(s.subrange(0, 2) =~= seq![c1, c2]);
    assert(s.subrange(2, s.len() as int) =~= r);
}

/// An operator character whose partner does not follow it is a token of its
/// own (`Unknown` for `&` and `|`), and the tokens after it are those of `r`.
pub proof fn lemma_single_operator_then_rest(c1: char, r: Seq<char>)
    requires
        c1 == '!' || c1 == '-' || c1 == '=' || c1 == '>' || c1 == '<' || c1 == '&' || c1 == '|',
        r.len() == 0 || pair_kind(c1, r[0]) is None,
    ensures
        tokens_from(seq![c1] + r, 0) == seq![
            TokenView {
                kind: if c1 == '&' || c1 == '|' {
                    KindView::Unknown
                } else {
                    single_kind(c1)->0
                },
                lexeme: seq![c1],
            },
        ] + tokens_from(r, 0),
{
    let s = seq![c1] + r;
    assert(s[0] == c1);
    if r.len() > 0 {
        assert(s[1] == r[0]);
    }
    lemma_first_token_then_rest(s);
    assert(s.subrange(0, 1) =~= seq![c1]);
    assert(s.subrange(1, s.len() as int) =~= r);
}

/// An identifier-shaped word `w` followed by something that cannot continue
/// it is one token, its reserved word or `Identifier`, and the tokens after it
/// are those of `r`.
pub proof fn lemma_word_then_rest(w: Seq<char>, r: Seq<char>)
    requires
        w.len() > 0,
        starts_identifier(w[0]),
        forall|k: int| 0 <= k < w.len() ==> continues_identifier(#[trigger] w[k]),
        r.len() == 0 || !continues_identifier(r[0]),
    ensures
        tokens_from(w + r, 0) == seq![TokenView { kind: word_kind(w), lexeme: w }] + tokens_from(
            r,
            0,
        ),
{
    let s = w + r;
    assert(s[0] == w[0]);
    assert forall|k: int| 1 <= k < w.len() implies !ends_identifier()(#[trigger] s[k]) by {
        assert(s[k] == w[k]);
    }
    if r.len() > 0 {
        assert(s[w.len() as int] == r[0]);
        lemma_run_end_at_stop(s, 1, w.len() as int, ends_identifier());
    } else {
        lemma_run_end_to_end(s, 1, ends_identifier());
    }
    lemma_first_token_then_rest(s);
    assert(s.subrange(0, w.len() as int) =~= w);
    assert(s.subrange(w.len() as int, s.len() as int) =~= r);
}

pub(crate) proof fn lemma_run_end_at_stop(s: Seq<char>, p: int, q: int, stop: spec_fn(char) -> bool)
    requires
        0 <= p <= q < s.len(),
        forall|k: int| p <= k < q ==> !stop(#[trigger] s[k]),
        stop(s[q]),
    ensures
        run_end(s, p, stop) == q,
    decreases q - p,
{
    if p < q {
        lemma_run_end_at_stop(s, p + 1, q, stop);
    }
}

proof fn lemma_run_end_to_end(s: Seq<char>, p: int, stop: spec_fn(char) -> bool)
    requires
        0 <= p <= s.len(),
        forall|k: int| p <= k < s.len() ==> !stop(#[trigger] s[k]),
    ensures
        run_end(s, p, stop) == s.len(),
    decreases s.len() - p,
{
    if p < s.len() {
        lemma_run_end_to_end(s, p + 1, stop);
    }
}

/// Operators take the longest match: each character that can begin a
/// two-character operator gives that operator when its second character
/// follows, and its one-character token otherwise (`Unknown` for a lone `&` or
/// `|`).
pub proof fn lemma_longest_operator(s: Seq<char>, i: int)
    requires
        0 <= i < s.len(),
    ensures
        ({
            let next_is = |d: char| i + 1 < s.len() && s[i + 1] == d;
            let read = |k: KindView, len: int| kind_at(s, i) == k && token_end(s, i) == i + len;
            &&& s[i] == '!' ==> if next_is('=') {
                read(KindView::BangEqual, 2)
            } else {
                read(KindView::Bang, 1)
            }
            &&& s[i] == '-' ==> if next_is('>') {
                read(KindView::RightArrow, 2)
            } else {
                read(KindView::Minus, 1)
            }
            &&& s[i] == '=' ==> if next_is('=') {
                read(KindView::EqualEqual, 2)
            } else {
                read(KindView::Equal, 1)
            }
            &&& s[i] == '>' ==> if next_is('=') {
                read(KindView::GreaterEqual, 2)
            } else {
                read(KindView::Greater, 1)
            }
            &&& s[i] == '<' ==> if next_is('=') {
                read(KindView::LessEqual, 2)
            } else {
                read(KindView::Less, 1)
            }
            &&& s[i] == '&' ==> if next_is('&') {
                read(KindView::And, 2)
            } else {
                read(KindView::Unknown, 1)
            }
            &&& s[i] == '|' ==> if next_is('|') {
                read(KindView::Or, 2)
            } else {
                read(KindView::Unknown, 1)
            }
        }),
{
}

/// Reserved words: a token that starts with a letter or an underscore takes
/// the longest run of identifier characters, and is the reserved word it
/// spells, or else an `Identifier`.
pub proof fn lemma_reserved_words(s: Seq<char>, i: int)
    requires
        0 <= i < s.len(),
        starts_identifier(s[i]),
    ensures
        ({
            let t = token_at(s, i);
            let e = token_end(s, i);
            &&& t.lexeme.len() >= 1
            &&& forall|k: int| 0 <= k < t.lexeme.len() ==> continues_identifier(#[trigger] t.lexeme[k])
            &&& e < s.len() ==> !continues_identifier(s[e])
            &&& keyword(t.lexeme) is Some ==> t.kind == keyword(t.lexeme)->0
            &&& keyword(t.lexeme) is None ==> t.kind == KindView::Identifier
        }),
{
    lemma_run_end_bounds(s, i + 1, ends_identifier());
    let t = token_at(s, i);
    assert forall|k: int| 0 <= k < t.lexeme.len() implies continues_identifier(#[trigger] t.lexeme[k]) by {
        if k > 0 {
            assert(!ends_identifier()(s[i + k]));
        }
    }
}

// ---------------------------------------------------------------------------
// The scanner
// ---------------------------------------------------------------------------

/// The characters of the text, in order.
pub(crate) fn chars_of(s: &str) -> (r: Vec<char>)
    ensures
        r@ == s@,
{
    broadcast use vstd::string::group_string_axioms;

    let mut it = s.chars();
    let mut out: Vec<char> = Vec::new();
    loop
        invariant
            it.obeys_prophetic_iter_laws(),
            out@ + it.remaining() == s@,
            it.decrease() is Some,
        decreases it.decrease()->0,
    {
        match it.next() {
            Some(c) => {
                out.push(c);
            },
            None => {
                assert(out@ =~= s@);
                return out;
            },
        }
    }
}

/// Relies on `String`'s `FromIterator<char>`: the text made of these
/// characters, in order.
#[verifier::external_body]
pub(crate) fn string_from(cs: Vec<char>) -> (r: String)
    ensures
        r@ == cs@,
{
    cs.into_iter().collect()
}

/// The text of `v[from..to]`.
fn text_between(v: &Vec<char>, from: usize, to: usize) -> (r: String)
    requires
        from <= to <= v.len(),
    ensures
        r@ == v@.subrange(from as int, to as int),
{
    let mut cs: Vec<char> = Vec::new();
    let mut i: usize = from;
    while i < to
        invariant
            from <= i <= to <= v.len(),
            cs@ == v@.subrange(from as int, i as int),
        decreases to - i,
    {
        cs.push(v[i]);
        i = i + 1;
    }
    string_from(cs)
}

/// Starts scanning `src`.
pub fn token_stream(src: &str) -> (r: TokenStream)
    ensures
        r.wf(),
        r.rest() == tokens_from(src@, 0),
{
    TokenStream { src: chars_of(src), current_token_start: 0, current_token_size: 0 }
}

/// A forward-only sequence of the tokens of a source text, read on demand.
pub struct TokenStream {
    src: Vec<char>,
    current_token_start: usize,
    current_token_size: usize,
}

impl TokenStream {
    /// Where the next token is looked for.
    pub closed spec fn position(&self) -> int {
        self.current_token_start + self.current_token_size
    }

    pub closed spec fn wf(&self) -> bool {
        self.position() <= self.src.len()
    }

    /// The tokens that are still to come.
    pub closed spec fn rest(&self) -> Seq<TokenView> {
        tokens_from(self.src@, self.position())
    }

    /// The next token, if any is left.
    pub fn next(&mut self) -> (r: Option<Token>)
        requires
            old(self).wf(),
        ensures
            final(self).wf(),
            old(self).rest().len() == 0 ==> r is None && final(self).rest().len() == 0,
            old(self).rest().len() > 0 ==> r is Some && r->0@ == old(self).rest()[0]
                && final(self).rest() == old(self).rest().drop_first(),
    {
        proof {
            lemma_skip_ws_bounds(self.src@, self.position());
        }
        match self.next_token_kind() {
            Some(kind) => {
                let lexeme = self.lexeme();
                Some(Token { kind, lexeme })
            },
            None => None,
        }
    }

    /// Takes every token that is left, in order.
    pub fn remaining(&mut self) -> (r: Vec<Token>)
        requires
            old(self).wf(),
        ensures
            final(self).wf(),
            final(self).rest().len() == 0,
            r@.len() == old(self).rest().len(),
            forall|k: int| 0 <= k < r@.len() ==> (#[trigger] r@[k])@ == old(self).rest()[k],
    {
        let mut out: Vec<Token> = Vec::new();
        loop
            invariant
                self.wf(),
                out@.len() + self.rest().len() == old(self).rest().len(),
                forall|k: int| 0 <= k < out@.len() ==> (#[trigger] out@[k])@ == old(self).rest()[k],
                self.rest() == old(self).rest().subrange(out@.len() as int, old(self).rest().len() as int),
            decreases self.rest().len(),
        {
            match self.next() {
                Some(t) => {
                    out.push(t);
                },
                None => {
                    return out;
                },
            }
        }
    }

    fn next_token_kind(&mut self) -> (r: Option<TokenKind>)
        requires
            old(self).wf(),
        ensures
            final(self).wf(),
            final(self).src@ == old(self).src@,
            ({
                let s = old(self).src@;
                let q = skip_ws(s, old(self).position());
                if q < s.len() {
                    &&& r is Some
                    &&& r->0@ == kind_at(s, q)
                    &&& final(self).current_token_start == q
                    &&& final(self).position() == token_end(s, q)
                } else {
                    &&& r is None
                    &&& final(self).position() == s.len()
                }
            }),
    {
        self.prepare_for_next_token();
        self.skip_whitespace();
        if self.current_token_start >= self.src.len() {
            return None;
        }
        let nxt = self.src[self.current_token_start];
        self.current_token_size = 1;
        let kind = if nxt == '{' {
            TokenKind::LeftBrace
        } else if nxt == '}' {
            TokenKind::RightBrace
        } else if nxt == '(' {
            TokenKind::LeftParen
        } else if nxt == ')' {
            TokenKind::RightParen
        } else if nxt == '.' {
            TokenKind::Dot
        } else if nxt == ',' {
            TokenKind::Comma
        } else if nxt == ':' {
            TokenKind::Colon
        } else if nxt == ';' {
            TokenKind::SemiColon
        } else if nxt == '!' {
            if self.consume('=') {
                TokenKind::BangEqual
            } else {
                TokenKind::Bang
            }
        } else if nxt == '+' {
            TokenKind::Plus
        } else if nxt == '-' {
            if self.consume('>') {
                TokenKind::RightArrow
            } else {
                TokenKind::Minus
            }
        } else if nxt == '/' {
            TokenKind::Slash
        } else if nxt == '*' {
            TokenKind::Star
        } else if nxt == '=' {
            if self.consume('=') {
                TokenKind::EqualEqual
            } else {
                TokenKind::Equal
            }
        } else if nxt == '>' {
            if self.consume('=') {
                TokenKind::GreaterEqual
            } else {
                TokenKind::Greater
            }
        } else if nxt == '<' {
            if self.consume('=') {
                TokenKind::LessEqual
            } else {
                TokenKind::Less
            }
        } else if nxt == '&' {
            if self.consume('&') {
                TokenKind::And
            } else {
                TokenKind::Unknown
            }
        } else if nxt == '|' {
            if self.consume('|') {
                TokenKind::Or
            } else {
                TokenKind::Unknown
            }
        } else if nxt == '"' {
            self.consume_string()
        } else if can_start_identifier(nxt) {
            self.consume_keyword_or_identifier()
        } else {
            TokenKind::Unknown
        };
        Some(kind)
    }

    fn prepare_for_next_token(&mut self)
        requires
            old(self).wf(),
        ensures
            final(self).wf(),
            final(self).src@ == old(self).src@,
            final(self).current_token_start == old(self).position(),
            final(self).current_token_size == 0,
    {
        self.current_token_start = self.current_token_start + self.current_token_size;
        self.current_token_size = 0;
    }

    fn skip_whitespace(&mut self)
        requires
            old(self).wf(),
            old(self).current_token_size == 0,
        ensures
            final(self).wf(),
            final(self).src@ == old(self).src@,
            final(self).current_token_size == 0,
            final(self).current_token_start == skip_ws(old(self).src@, old(self).position()),
    {
        while self.current_token_start < self.src.len() && is_whitespace(
            self.src[self.current_token_start],
        )
            invariant
                self.wf(),
                self.src@ == old(self).src@,
                self.current_token_size == 0,
                skip_ws(self.src@, self.current_token_start as int) == skip_ws(
                    old(self).src@,
                    old(self).position(),
                ),
            decreases self.src.len() - self.current_token_start,
        {
            self.current_token_start = self.current_token_start + 1;
        }
    }

    // Called after an opening quote has been read: reads up to and including
    // the closing quote, or to the end of the text if there is none.
    fn consume_string(&mut self) -> (r: TokenKind)
        requires
            old(self).wf(),
            old(self).current_token_size == 1,
            old(self).src@[old(self).current_token_start as int] == '"',
        ensures
            final(self).wf(),
            final(self).src@ == old(self).src@,
            final(self).current_token_start == old(self).current_token_start,
            final(self).position() == token_end(old(self).src@, old(self).current_token_start as int),
            r@ == kind_at(old(self).src@, old(self).current_token_start as int),
    {
        let ghost s = self.src@;
        let ghost i = self.current_token_start as int;
        self.consume_until_match('"');
        let close = self.current_token_start + self.current_token_size;
        proof {
            lemma_run_end_bounds(s, i + 1, is_char('"'));
        }
        self.consume('"');
        let text = text_between(&self.src, self.current_token_start + 1, close);
        TokenKind::String(text)
    }

    // Called after a character that starts an identifier has been read.
    fn consume_keyword_or_identifier(&mut self) -> (r: TokenKind)
        requires
            old(self).wf(),
            old(self).current_token_size == 1,
            starts_identifier(old(self).src@[old(self).current_token_start as int]),
        ensures
            final(self).wf(),
            final(self).src@ == old(self).src@,
            final(self).current_token_start == old(self).current_token_start,
            final(self).position() == token_end(old(self).src@, old(self).current_token_start as int),
            r@ == kind_at(old(self).src@, old(self).current_token_start as int),
    {
        self.consume_until(cannot_be_used_in_identifier, Ghost(ends_identifier()));
        let end = self.current_token_start + self.current_token_size;
        word_kind_of(&self.src, self.current_token_start, end)
    }

    /// Takes the next character if it is `c`.
    fn consume(&mut self, c: char) -> (r: bool)
        requires
            old(self).wf(),
        ensures
            final(self).wf(),
            final(self).src@ == old(self).src@,
            final(self).current_token_start == old(self).current_token_start,
            r == (old(self).position() < old(self).src@.len() && old(self).src@[old(self).position()]
                == c),
            final(self).position() == old(self).position() + if r {
                1int
            } else {
                0int
            },
    {
        let pos = self.current_token_start + self.current_token_size;
        if pos < self.src.len() && self.src[pos] == c {
            self.current_token_size = self.current_token_size + 1;
            true
        } else {
            false
        }
    }

    /// The text of the token being read.
    fn lexeme(&self) -> (r: String)
        requires
            self.wf(),
        ensures
            r@ == self.src@.subrange(self.current_token_start as int, self.position()),
    {
        text_between(&self.src, self.current_token_start, self.current_token_start + self.current_token_size)
    }

    /// Takes characters up to the first one on which `should_stop` holds, or
    /// to the end of the text.
    fn consume_until<F: Fn(char) -> bool>(
        &mut self,
        should_stop: F,
        stop: Ghost<spec_fn(char) -> bool>,
    )
        requires
            old(self).wf(),
            forall|c: char| should_stop.requires((c,)),
            forall|c: char, b: bool| should_stop.ensures((c,), b) ==> b == stop@(c),
        ensures
            final(self).wf(),
            final(self).src@ == old(self).src@,
            final(self).current_token_start == old(self).current_token_start,
            final(self).position() == run_end(old(self).src@, old(self).position(), stop@),
    {
        loop
            invariant
                self.wf(),
                self.src@ == old(self).src@,
                self.current_token_start == old(self).current_token_start,
                forall|c: char| should_stop.requires((c,)),
                forall|c: char, b: bool| should_stop.ensures((c,), b) ==> b == stop@(c),
                run_end(self.src@, self.position(), stop@) == run_end(
                    old(self).src@,
                    old(self).position(),
                    stop@,
                ),
            decreases self.src.len() - self.position(),
        {
            let pos = self.current_token_start + self.current_token_size;
            if pos >= self.src.len() || should_stop(self.src[pos]) {
                return ;
            }
            self.current_token_size = self.current_token_size + 1;
        }
    }

    fn consume_until_match(&mut self, sought: char)
        requires
            old(self).wf(),
        ensures
            final(self).wf(),
            final(self).src@ == old(self).src@,
            final(self).current_token_start == old(self).current_token_start,
            final(self).position() == run_end(old(self).src@, old(self).position(), is_char(sought)),
    {
        let is_sought = |c: char| -> (b: bool)
            ensures
                b == (c == sought),
            { c == sought };
        self.consume_until(is_sought, Ghost(is_char(sought)))
    }
}

/// Whether `v[from..to]` spells `w`.
fn spells(v: &Vec<char>, from: usize, to: usize, w: &[char]) -> (r: bool)
    requires
        from <= to <= v.len(),
    ensures
        r == (v@.subrange(from as int, to as int) == w@),
{
    if to - from != w.len() {
        return false;
    }
    let mut k: usize = 0;
    while k < w.len()
        invariant
            from <= to <= v.len(),
            to - from == w@.len(),
            k <= w@.len(),
            forall|j: int| 0 <= j < k ==> v@[from + j] == w@[j],
        decreases w.len() - k,
    {
        if v[from + k] != w[k] {
            assert(v@.subrange(from as int, to as int)[k as int] != w@[k as int]);
            return false;
        }
        k = k + 1;
    }
    assert(v@.subrange(from as int, to as int) =~= w@);
    true
}

/// The kind of the identifier-shaped word `v[from..to]`.
fn word_kind_of(v: &Vec<char>, from: usize, to: usize) -> (r: TokenKind)
    requires
        from <= to <= v.len(),
    ensures
        r@ == word_kind(v@.subrange(from as int, to as int)),
{
    let ghost w = v@.subrange(from as int, to as int);
    if spells(v, from, to, &['l', 'e', 't']) {
        TokenKind::Let
    } else if spells(v, from, to, &['m', 'u', 't']) {
        TokenKind::Mut
    } else if spells(v, from, to, &['f', 'n']) {
        TokenKind::Fn
    } else if spells(v, from, to, &['e', 'n', 'u', 'm']) {
        TokenKind::Enum
    } else if spells(v, from, to, &['r', 'e', 'c', 'o', 'r', 'd']) {
        TokenKind::Record
    } else if spells(v, from, to, &['i', 'n', 't', 'e', 'r', 'f', 'a', 'c', 'e']) {
        TokenKind::Interface
    } else if spells(v, from, to, &['i', 'm', 'p', 'l']) {
        TokenKind::Impl
    } else if spells(v, from, to, &['c', 'h', 'e', 'c', 'k']) {
        TokenKind::Check
    } else if spells(v, from, to, &['m', 'a', 't', 'c', 'h']) {
        TokenKind::Match
    } else {
        TokenKind::Identifier
    }
}

fn cannot_be_used_in_identifier(c: char) -> (r: bool)
    ensures
        r == !continues_identifier(c),
{
    !(can_start_identifier(c) || ('0' <= c && c <= '9'))
}

fn can_start_identifier(c: char) -> (r: bool)
    ensures
        r == starts_identifier(c),
{
    ('a' <= c && c <= 'z') || ('A' <= c && c <= 'Z') || c == '_'
}

} // verus!
