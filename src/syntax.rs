use vstd::prelude::*;
use crate::enums::{EnumDef, Payload, VariantDef};
use crate::structs::{FieldDef, StructDef, StructKind, field_view};

verus! {

/// A delimiter of a group.
#[derive(Clone, Copy, Debug, PartialEq, Eq, Structural)]
pub enum Delim {
    Paren,
    Bracket,
    Brace,
}

/// One token of an item body, with groups flattened into their opening and
/// closing delimiters.
#[derive(Debug)]
pub enum Token {
    Ident(String),
    /// One punctuation character, such as `#`, `,`, `=`, `<`, `&` or `'`.
    Punct(char),
    /// A literal, as written.
    Literal(String),
    Open(Delim),
    Close(Delim),
}

/// How much a token changes the nesting depth: delimiters and angle brackets
/// open and close.
pub open spec fn nest(t: Token) -> int {
    match t {
        Token::Open(_) => 1,
        Token::Close(_) => -1,
        Token::Punct(c) => if c == '<' {
            1
        } else if c == '>' {
            -1
        } else {
            0
        },
        _ => 0,
    }
}

/// The nesting depth in front of token `i`.
pub open spec fn depth(ts: Seq<Token>, i: int) -> int
    decreases i,
{
    if i <= 0 {
        0
    } else {
        depth(ts, i - 1) + nest(ts[i - 1])
    }
}

/// Token `i` is a comma outside every group and angle bracket.
pub open spec fn is_separator(ts: Seq<Token>, i: int) -> bool {
    &&& ts[i] == Token::Punct(',')
    &&& depth(ts, i) == 0
}

/// The separators among the first `n` tokens, in order.
pub open spec fn separators(ts: Seq<Token>, n: int) -> Seq<int>
    decreases n,
{
    if n <= 0 {
        Seq::empty()
    } else if is_separator(ts, n - 1) {
        separators(ts, n - 1).push(n - 1)
    } else {
        separators(ts, n - 1)
    }
}

/// The pieces of `ts` between separators, as start and end: none for no
/// tokens, and none after a final separator.
pub open spec fn pieces(ts: Seq<Token>) -> Seq<(int, int)> {
    let s = separators(ts, ts.len() as int);
    let bounds = Seq::new(s.len() + 1, |k: int| if k == 0 { 0 } else { s[k - 1] + 1 });
    let ends = Seq::new(s.len() + 1, |k: int| if k < s.len() { s[k] } else { ts.len() as int });
    let all = Seq::new(s.len() + 1, |k: int| (bounds[k], ends[k]));
    if ts.len() == 0 {
        Seq::empty()
    } else if s.len() > 0 && s.last() == ts.len() - 1 {
        all.drop_last()
    } else {
        all
    }
}

/// How much a token changes the nesting depth.
fn nest_of(t: &Token) -> (r: i8)
    ensures
        r == nest(*t),
{
    match t {
        Token::Open(_) => 1,
        Token::Close(_) => -1,
        Token::Punct(c) => if *c == '<' {
            1
        } else if *c == '>' {
            -1
        } else {
            0
        },
        _ => 0,
    }
}

/// Whether a token is a comma.
fn is_comma(t: &Token) -> (r: bool)
    ensures
        r == (*t == Token::Punct(',')),
{
    match t {
        Token::Punct(c) => *c == ',',
        _ => false,
    }
}

/// Splits `ts` at its top-level commas.
pub fn split_pieces(ts: &Vec<Token>) -> (r: Vec<(usize, usize)>)
    requires
        ts@.len() < i64::MAX,
        ts@.len() < usize::MAX,
    ensures
        r@.len() == pieces(ts@).len(),
        forall|k: int|
            0 <= k < r@.len() ==> r@[k].0 as int == pieces(ts@)[k].0 && r@[k].1 as int
                == pieces(ts@)[k].1,
{
    let ghost v = ts@;
    let mut seps: Vec<usize> = Vec::new();
    let mut d: i64 = 0;
    let mut i: usize = 0;
    while i < ts.len()
        invariant
            v == ts@,
            v.len() < i64::MAX,
            i <= v.len(),
            d as int == depth(v, i as int),
            -(i as int) <= d <= i,
            seps@.len() == separators(v, i as int).len(),
            forall|k: int| 0 <= k < seps@.len() ==> seps@[k] as int == separators(v, i as int)[k],
        decreases v.len() - i,
    {
        if d == 0 && is_comma(&ts[i]) {
            seps.push(i);
        }
        d = d + nest_of(&ts[i]) as i64;
        i = i + 1;
    }
    let mut r: Vec<(usize, usize)> = Vec::new();
    let len = ts.len();
    if len == 0 {
        return r;
    }
    let ghost s = separators(v, v.len() as int);
    proof {
        lemma_separators_in_range(v, v.len() as int);
    }
    let n = seps.len();
    let keep = if n > 0 && seps[n - 1] == ts.len() - 1 {
        n
    } else {
        n + 1
    };
    let mut k: usize = 0;
    while k < keep
        invariant
            v == ts@,
            v.len() > 0,
            len == v.len(),
            s == separators(v, v.len() as int),
            seps@.len() == s.len(),
            forall|j: int| 0 <= j < seps@.len() ==> seps@[j] as int == s[j],
            forall|j: int| 0 <= j < s.len() ==> 0 <= #[trigger] s[j] < v.len(),
            n == s.len(),
            keep <= n + 1,
            k <= keep,
            r@.len() == k,
            forall|j: int|
                0 <= j < k ==> r@[j].0 as int == pieces(v)[j].0 && r@[j].1 as int
                    == pieces(v)[j].1,
            keep == pieces(v).len(),
        decreases keep - k,
    {
        let start = if k == 0 {
            0
        } else {
            assert(seps@[k - 1] as int == s[k - 1]);
            assert(s[k - 1] < len);
            seps[k - 1] + 1
        };
        let end = if k < n {
            seps[k]
        } else {
            len
        };
        r.push((start, end));
        k = k + 1;
    }
    r
}

/// Every separator among the first `n` tokens is a position before `n`.
pub open spec fn separators_sorted(ts: Seq<Token>, n: int) -> bool {
    forall|j: int|
        0 <= j < separators(ts, n).len() ==> 0 <= #[trigger] separators(ts, n)[j] < n
}

proof fn lemma_separators_in_range(ts: Seq<Token>, n: int)
    ensures
        separators_sorted(ts, n),
        n >= 0 ==> separators(ts, n).len() <= n,
    decreases n,
{
    if n > 0 {
        lemma_separators_in_range(ts, n - 1);
        let prev = separators(ts, n - 1);
        assert forall|j: int| 0 <= j < separators(ts, n).len() implies 0
            <= #[trigger] separators(ts, n)[j] < n by {
            if j < prev.len() {
                assert(separators(ts, n)[j] == prev[j]);
            }
        }
    }
}

/// Identifiers and literals are words: two words in a row are set apart by
/// a space when rendered.
pub open spec fn is_word(t: Token) -> bool {
    t is Ident || t is Literal
}

/// The opening character of a delimiter.
pub open spec fn open_char(d: Delim) -> char {
    match d {
        Delim::Paren => '(',
        Delim::Bracket => '[',
        Delim::Brace => '{',
    }
}

/// The closing character of a delimiter.
pub open spec fn close_char(d: Delim) -> char {
    match d {
        Delim::Paren => ')',
        Delim::Bracket => ']',
        Delim::Brace => '}',
    }
}

/// The text of one token.
pub open spec fn text_of(t: Token) -> Seq<char> {
    match t {
        Token::Ident(s) => s@,
        Token::Punct(c) => seq![c],
        Token::Literal(s) => s@,
        Token::Open(d) => seq![open_char(d)],
        Token::Close(d) => seq![close_char(d)],
    }
}

/// The text of a run of tokens: their texts in order, with a space between
/// two words in a row and nothing elsewhere.
pub open spec fn render(ts: Seq<Token>) -> Seq<char>
    decreases ts.len(),
{
    if ts.len() == 0 {
        Seq::empty()
    } else {
        let prev = ts.drop_last();
        let gap = if prev.len() > 0 && is_word(prev.last()) && is_word(ts.last()) {
            seq![' ']
        } else {
            Seq::empty()
        };
        render(prev) + gap + text_of(ts.last())
    }
}

/// Relies on String::push: the character is added at the end.
#[verifier::external_body]
pub(crate) fn push_char(s: &mut String, c: char)
    ensures
        final(s)@ == old(s)@.push(c),
{
    s.push(c)
}

fn delim_chars(d: Delim) -> (r: (char, char))
    ensures
        r.0 == open_char(d),
        r.1 == close_char(d),
{
    match d {
        Delim::Paren => ('(', ')'),
        Delim::Bracket => ('[', ']'),
        Delim::Brace => ('{', '}'),
    }
}

fn is_word_token(t: &Token) -> (r: bool)
    ensures
        r == is_word(*t),
{
    match t {
        Token::Ident(_) | Token::Literal(_) => true,
        _ => false,
    }
}

/// The text of tokens `from` up to `to`.
pub fn render_range(ts: &Vec<Token>, from: usize, to: usize) -> (r: String)
    requires
        from <= to <= ts@.len(),
    ensures
        r@ == render(ts@.subrange(from as int, to as int)),
{
    let ghost v = ts@;
    let mut out = String::new();
    let mut i: usize = from;
    assert(v.subrange(from as int, from as int) =~= Seq::<Token>::empty());
    while i < to
        invariant
            v == ts@,
            from <= i <= to <= v.len(),
            out@ == render(v.subrange(from as int, i as int)),
        decreases to - i,
    {
        let ghost cur = v.subrange(from as int, i + 1);
        assert(cur.drop_last() =~= v.subrange(from as int, i as int));
        if i > from && is_word_token(&ts[i - 1]) && is_word_token(&ts[i]) {
            push_char(&mut out, ' ');
        }
        match &ts[i] {
            Token::Ident(s) => out.append(s.as_str()),
            Token::Literal(s) => out.append(s.as_str()),
            Token::Punct(c) => push_char(&mut out, *c),
            Token::Open(d) => push_char(&mut out, delim_chars(*d).0),
            Token::Close(d) => push_char(&mut out, delim_chars(*d).1),
        }
        assert(out@ =~= render(cur));
        i = i + 1;
    }
    out
}

/// The position of the token that closes the group or angle bracket opened
/// at `o`, searching from `q` and before `end`; `-1` where there is none.
pub open spec fn close_from(ts: Seq<Token>, o: int, q: int, end: int) -> int
    decreases end - q,
{
    if q >= end {
        -1
    } else if depth(ts, q + 1) == depth(ts, o) {
        q
    } else {
        close_from(ts, o, q + 1, end)
    }
}

/// The position after the attributes `#[...]` that start at `p`, before `end`.
pub open spec fn after_attrs(ts: Seq<Token>, p: int, end: int) -> int
    decreases end - p,
{
    if 0 <= p && p + 1 < end && ts[p] == Token::Punct('#') && ts[p + 1] == Token::Open(
        Delim::Bracket,
    ) {
        let c = close_from(ts, p + 1, p + 2, end);
        if c <= p || c >= end {
            p
        } else {
            after_attrs(ts, c + 1, end)
        }
    } else {
        p
    }
}

/// Token `p` is the word `pub`.
pub open spec fn is_pub_at(ts: Seq<Token>, p: int) -> bool {
    match ts[p] {
        Token::Ident(s) => s@ == "pub"@,
        _ => false,
    }
}

/// The position after a visibility (`pub`, `pub(crate)`, ...) at `p`, before `end`.
pub open spec fn after_vis(ts: Seq<Token>, p: int, end: int) -> int {
    if 0 <= p < end && is_pub_at(ts, p) {
        if p + 1 < end && ts[p + 1] == Token::Open(Delim::Paren) {
            let c = close_from(ts, p + 1, p + 2, end);
            if p + 1 < c < end {
                c + 1
            } else {
                p + 1
            }
        } else {
            p + 1
        }
    } else {
        p
    }
}

/// The nesting depth in front of every token, and after the last.
pub fn depths(ts: &Vec<Token>) -> (r: Vec<i64>)
    requires
        ts@.len() < i64::MAX,
    ensures
        r@.len() == ts@.len() + 1,
        forall|i: int| 0 <= i <= ts@.len() ==> r@[i] == depth(ts@, i),
        forall|i: int| 0 <= i <= ts@.len() ==> -i <= #[trigger] r@[i] <= i,
{
    let ghost v = ts@;
    let mut r: Vec<i64> = Vec::new();
    r.push(0);
    let mut d: i64 = 0;
    let mut i: usize = 0;
    while i < ts.len()
        invariant
            v == ts@,
            v.len() < i64::MAX,
            i <= v.len(),
            d as int == depth(v, i as int),
            -(i as int) <= d <= i,
            r@.len() == i + 1,
            forall|j: int| 0 <= j <= i ==> r@[j] == depth(v, j),
            forall|j: int| 0 <= j <= i ==> -j <= #[trigger] r@[j] <= j,
        decreases v.len() - i,
    {
        d = d + nest_of(&ts[i]) as i64;
        r.push(d);
        i = i + 1;
    }
    r
}

/// Depths that `depths` gave for `ts`.
pub open spec fn depths_of(ts: Seq<Token>, dep: Seq<i64>) -> bool {
    &&& dep.len() == ts.len() + 1
    &&& forall|i: int| 0 <= i <= ts.len() ==> dep[i] == depth(ts, i)
}

/// The token that closes the group opened at `o`, from `q`, before `end`.
pub(crate) fn find_close(ts: &Vec<Token>, dep: &Vec<i64>, o: usize, q: usize, end: usize) -> (r: Option<
    usize,
>)
    requires
        depths_of(ts@, dep@),
        o < q <= end <= ts@.len(),
    ensures
        match r {
            Some(c) => c as int == close_from(ts@, o as int, q as int, end as int) && q <= c < end,
            None => close_from(ts@, o as int, q as int, end as int) == -1,
        },
{
    let mut i: usize = q;
    while i < end
        invariant
            depths_of(ts@, dep@),
            o < q <= i <= end <= ts@.len(),
            close_from(ts@, o as int, q as int, end as int) == close_from(
                ts@,
                o as int,
                i as int,
                end as int,
            ),
        decreases end - i,
    {
        if dep[i + 1] == dep[o] {
            return Some(i);
        }
        i = i + 1;
    }
    None
}

/// Whether a token is the given punctuation.
pub(crate) fn is_punct(t: &Token, c: char) -> (r: bool)
    ensures
        r == (*t == Token::Punct(c)),
{
    match t {
        Token::Punct(x) => *x == c,
        _ => false,
    }
}

/// Whether a token opens a group with the given delimiter.
pub(crate) fn is_open(t: &Token, d: Delim) -> (r: bool)
    ensures
        r == (*t == Token::Open(d)),
{
    match t {
        Token::Open(x) => *x == d,
        _ => false,
    }
}

/// The position after the attributes that start at `p`, before `end`.
fn skip_attrs(ts: &Vec<Token>, dep: &Vec<i64>, p: usize, end: usize) -> (r: usize)
    requires
        depths_of(ts@, dep@),
        p <= end <= ts@.len(),
    ensures
        r as int == after_attrs(ts@, p as int, end as int),
        p <= r <= end,
{
    let mut i: usize = p;
    while end - i > 1 && is_punct(&ts[i], '#') && is_open(&ts[i + 1], Delim::Bracket)
        invariant
            depths_of(ts@, dep@),
            p <= i <= end <= ts@.len(),
            after_attrs(ts@, p as int, end as int) == after_attrs(ts@, i as int, end as int),
        decreases end - i,
    {
        match find_close(ts, dep, i + 1, i + 2, end) {
            Some(c) => {
                i = c + 1;
            },
            None => {
                return i;
            },
        }
    }
    i
}

/// Whether a token is the word `pub`.
fn is_pub_token(t: &Token) -> (r: bool)
    ensures
        r == match *t {
            Token::Ident(s) => s@ == "pub"@,
            _ => false,
        },
{
    match t {
        Token::Ident(s) => {
            let word = String::from_str("pub");
            *s == word
        },
        _ => false,
    }
}

/// The position after a visibility at `p`, before `end`.
pub(crate) fn skip_vis(ts: &Vec<Token>, dep: &Vec<i64>, p: usize, end: usize) -> (r: usize)
    requires
        depths_of(ts@, dep@),
        p <= end <= ts@.len(),
    ensures
        r as int == after_vis(ts@, p as int, end as int),
        p <= r <= end,
{
    if p < end && is_pub_token(&ts[p]) {
        if p + 1 < end && is_open(&ts[p + 1], Delim::Paren) {
            match find_close(ts, dep, p + 1, p + 2, end) {
                Some(c) => c + 1,
                None => p + 1,
            }
        } else {
            p + 1
        }
    } else {
        p
    }
}

/// A copy of a token.
fn copy_token(t: &Token) -> (r: Token)
    ensures
        r == *t,
{
    match t {
        Token::Ident(s) => Token::Ident(s.clone()),
        Token::Punct(c) => Token::Punct(*c),
        Token::Literal(s) => Token::Literal(s.clone()),
        Token::Open(d) => Token::Open(*d),
        Token::Close(d) => Token::Close(*d),
    }
}

/// A copy of tokens `from` up to `to`.
pub(crate) fn copy_range(ts: &Vec<Token>, from: usize, to: usize) -> (r: Vec<Token>)
    requires
        from <= to <= ts@.len(),
    ensures
        r@ == ts@.subrange(from as int, to as int),
{
    let mut r: Vec<Token> = Vec::new();
    let mut i: usize = from;
    while i < to
        invariant
            from <= i <= to <= ts@.len(),
            r@ == ts@.subrange(from as int, i as int),
        decreases to - i,
    {
        r.push(copy_token(&ts[i]));
        assert(r@ =~= ts@.subrange(from as int, i + 1));
        i = i + 1;
    }
    r
}

/// Every character of `s` is a decimal digit, and there is one at least.
pub open spec fn all_digits(s: Seq<char>) -> bool {
    &&& s.len() > 0
    &&& forall|i: int| 0 <= i < s.len() ==> '0' <= #[trigger] s[i] <= '9'
}

/// The value of a run of decimal digits.
pub open spec fn decimal(s: Seq<char>) -> int
    decreases s.len(),
{
    if s.len() == 0 {
        0
    } else {
        decimal(s.drop_last()) * 10 + (s.last() as int - '0' as int)
    }
}

/// The discriminant written as tokens `a` up to `end`: a decimal literal,
/// with a minus sign or without, that fits in an `i64`.
pub open spec fn discriminant_spec(ts: Seq<Token>, a: int, end: int) -> Option<i64> {
    if end == a + 1 && ts[a] is Literal && all_digits(ts[a]->Literal_0@) && decimal(
        ts[a]->Literal_0@,
    ) <= i64::MAX {
        Some(decimal(ts[a]->Literal_0@) as i64)
    } else if end == a + 2 && ts[a] == Token::Punct('-') && ts[a + 1] is Literal && all_digits(
        ts[a + 1]->Literal_0@,
    ) && decimal(ts[a + 1]->Literal_0@) <= i64::MAX + 1 {
        Some((-decimal(ts[a + 1]->Literal_0@)) as i64)
    } else {
        None
    }
}

proof fn lemma_decimal_nonneg(s: Seq<char>)
    requires
        forall|i: int| 0 <= i < s.len() ==> '0' <= #[trigger] s[i] <= '9',
    ensures
        decimal(s) >= 0,
    decreases s.len(),
{
    if s.len() > 0 {
        lemma_decimal_nonneg(s.drop_last());
    }
}

/// A longer run of digits is worth no less.
proof fn lemma_decimal_prefix_grows(s: Seq<char>, k: int)
    requires
        forall|i: int| 0 <= i < s.len() ==> '0' <= #[trigger] s[i] <= '9',
        0 <= k <= s.len(),
    ensures
        decimal(s.subrange(0, k)) <= decimal(s),
    decreases s.len(),
{
    if k < s.len() {
        let t = s.drop_last();
        assert(t.subrange(0, k) =~= s.subrange(0, k));
        lemma_decimal_prefix_grows(t, k);
        lemma_decimal_nonneg(t);
    } else {
        assert(s.subrange(0, k) =~= s);
    }
}

/// The value of the digits of `s`, where it is no more than `limit`.
fn parse_decimal(s: &String, limit: u64) -> (r: Option<u64>)
    requires
        9 <= limit,
    ensures
        match r {
            Some(v) => all_digits(s@) && decimal(s@) == v && v <= limit,
            None => !(all_digits(s@) && decimal(s@) <= limit),
        },
{
    let n = s.as_str().unicode_len();
    if n == 0 {
        return None;
    }
    let mut acc: u64 = 0;
    let mut i: usize = 0;
    while i < n
        invariant
            n == s@.len(),
            i <= n,
            forall|j: int| 0 <= j < i ==> '0' <= #[trigger] s@[j] <= '9',
            acc as int == decimal(s@.subrange(0, i as int)),
            acc <= limit,
            9 <= limit,
        decreases n - i,
    {
        let c = s.as_str().get_char(i);
        assert(s@.subrange(0, i + 1).drop_last() =~= s@.subrange(0, i as int));
        if c < '0' || c > '9' {
            return None;
        }
        let d = (c as u32 - '0' as u32) as u64;
        if acc > (limit - d) / 10 {
            proof {
                let t = s@.subrange(0, i + 1);
                assert(decimal(t) == acc * 10 + d);
                assert(acc * 10 + d > limit) by (nonlinear_arith)
                    requires
                        acc > (limit - d) / 10,
                        d <= 9,
                        9 <= limit,
                ;
                if all_digits(s@) {
                    lemma_decimal_prefix_grows(s@, i + 1);
                }
            }
            return None;
        }
        assert(acc * 10 + d <= limit) by (nonlinear_arith)
            requires
                acc <= (limit - d) / 10,
                d <= 9,
                9 <= limit,
        ;
        acc = acc * 10 + d;
        i = i + 1;
    }
    assert(s@.subrange(0, n as int) =~= s@);
    Some(acc)
}

/// The discriminant written as tokens `a` up to `end`.
fn parse_discriminant(ts: &Vec<Token>, a: usize, end: usize) -> (r: Option<i64>)
    requires
        a <= end <= ts@.len(),
    ensures
        r == discriminant_spec(ts@, a as int, end as int),
{
    if end - a == 1 {
        if let Token::Literal(l) = &ts[a] {
            if let Some(v) = parse_decimal(l, 9223372036854775807u64) {
                return Some(v as i64);
            }
        }
        None
    } else if end - a == 2 && is_punct(&ts[a], '-') {
        if let Token::Literal(l) = &ts[a + 1] {
            if let Some(v) = parse_decimal(l, 9223372036854775808u64) {
                if v == 9223372036854775808u64 {
                    return Some(i64::MIN);
                }
                return Some(-(v as i64));
            }
        }
        None
    } else {
        None
    }
}

/// A positional field at tokens `s` up to `end`: its type and whether it is
/// public. Attributes in front are passed over; the type must not be empty.
pub open spec fn tuple_field(u: Seq<Token>, s: int, end: int) -> Option<(Seq<char>, bool)> {
    let p = after_attrs(u, s, end);
    let q = after_vis(u, p, end);
    if q < end {
        Some((render(u.subrange(q, end)), q > p))
    } else {
        None
    }
}

/// A named field at tokens `s` up to `end`: its name, its type and whether it
/// is public.
pub open spec fn record_field(u: Seq<Token>, s: int, end: int) -> Option<
    (Seq<char>, Seq<char>, bool),
> {
    let p = after_attrs(u, s, end);
    let q = after_vis(u, p, end);
    if q + 2 < end && u[q] is Ident && u[q + 1] == Token::Punct(':') {
        Some((u[q]->Ident_0@, render(u.subrange(q + 2, end)), q > p))
    } else {
        None
    }
}

/// The positional fields of a group's inner tokens, where each parses.
pub open spec fn tuple_fields(u: Seq<Token>) -> Option<Seq<(Seq<char>, bool)>> {
    let ps = pieces(u);
    if forall|k: int| 0 <= k < ps.len() ==> #[trigger] tuple_field(u, ps[k].0, ps[k].1) is Some {
        Some(Seq::new(ps.len(), |k: int| tuple_field(u, ps[k].0, ps[k].1)->0))
    } else {
        None
    }
}

/// The named fields of a group's inner tokens, where each parses.
pub open spec fn record_fields(u: Seq<Token>) -> Option<Seq<(Seq<char>, Seq<char>, bool)>> {
    let ps = pieces(u);
    if forall|k: int| 0 <= k < ps.len() ==> #[trigger] record_field(u, ps[k].0, ps[k].1) is Some {
        Some(Seq::new(ps.len(), |k: int| record_field(u, ps[k].0, ps[k].1)->0))
    } else {
        None
    }
}

/// Parses the positional fields of a run of tokens.
fn parse_tuple_fields(u: &Vec<Token>) -> (r: Option<Vec<FieldDef>>)
    requires
        u@.len() < i64::MAX,
        u@.len() < usize::MAX,
    ensures
        match r {
            Some(f) => tuple_fields(u@) is Some && f@.len() == tuple_fields(u@)->0.len()
                && forall|k: int|
                0 <= k < f@.len() ==> #[trigger] field_view(f@[k]) == (
                    None::<Seq<char>>,
                    tuple_fields(u@)->0[k].0,
                    tuple_fields(u@)->0[k].1,
                ),
            None => tuple_fields(u@) is None,
        },
{
    let dep = depths(u);
    let ps = split_pieces(u);
    let ghost sp = pieces(u@);
    let mut out: Vec<FieldDef> = Vec::new();
    let mut k: usize = 0;
    while k < ps.len()
        invariant
            depths_of(u@, dep@),
            sp == pieces(u@),
            ps@.len() == sp.len(),
            forall|j: int|
                0 <= j < ps@.len() ==> ps@[j].0 as int == sp[j].0 && ps@[j].1 as int == sp[j].1,
            k <= ps@.len(),
            out@.len() == k,
            forall|j: int| 0 <= j < k ==> #[trigger] tuple_field(u@, sp[j].0, sp[j].1) is Some,
            forall|j: int|
                0 <= j < k ==> #[trigger] field_view(out@[j]) == (
                    None::<Seq<char>>,
                    tuple_field(u@, sp[j].0, sp[j].1).unwrap().0,
                    tuple_field(u@, sp[j].0, sp[j].1).unwrap().1,
                ),
        decreases ps@.len() - k,
    {
        let (s, e) = ps[k];
        proof {
            lemma_piece_in_range(u@, k as int);
        }
        let p = skip_attrs(u, &dep, s, e);
        let q = skip_vis(u, &dep, p, e);
        if q >= e {
            assert(tuple_field(u@, sp[k as int].0, sp[k as int].1) is None);
            return None;
        }
        let ty = render_range(u, q, e);
        out.push(FieldDef { name: None, ty, is_pub: q > p });
        k = k + 1;
    }
    Some(out)
}

/// The separators come in increasing order.
proof fn lemma_separators_increasing(ts: Seq<Token>, n: int)
    ensures
        forall|i: int, j: int|
            0 <= i < j < separators(ts, n).len() ==> separators(ts, n)[i] < separators(ts, n)[j],
    decreases n,
{
    if n > 0 {
        lemma_separators_increasing(ts, n - 1);
        lemma_separators_in_range(ts, n - 1);
    }
}

/// Each piece lies within the tokens, its start no later than its end.
pub(crate) proof fn lemma_piece_in_range(ts: Seq<Token>, k: int)
    requires
        0 <= k < pieces(ts).len(),
    ensures
        0 <= pieces(ts)[k].0 <= pieces(ts)[k].1 <= ts.len(),
{
    let n = ts.len() as int;
    lemma_separators_in_range(ts, n);
    lemma_separators_increasing(ts, n);
    let s = separators(ts, n);
    if k > 0 {
        assert(0 <= s[k - 1] < n);
    }
    if k < s.len() {
        assert(0 <= s[k] < n);
    }
}

/// Parses the named fields of a run of tokens.
fn parse_record_fields(u: &Vec<Token>) -> (r: Option<Vec<FieldDef>>)
    requires
        u@.len() < i64::MAX,
        u@.len() < usize::MAX,
    ensures
        match r {
            Some(f) => record_fields(u@) is Some && f@.len() == record_fields(u@)->0.len()
                && forall|k: int|
                0 <= k < f@.len() ==> #[trigger] field_view(f@[k]) == (
                    Some(record_fields(u@)->0[k].0),
                    record_fields(u@)->0[k].1,
                    record_fields(u@)->0[k].2,
                ),
            None => record_fields(u@) is None,
        },
{
    let dep = depths(u);
    let ps = split_pieces(u);
    let ghost sp = pieces(u@);
    let mut out: Vec<FieldDef> = Vec::new();
    let mut k: usize = 0;
    while k < ps.len()
        invariant
            depths_of(u@, dep@),
            sp == pieces(u@),
            ps@.len() == sp.len(),
            forall|j: int|
                0 <= j < ps@.len() ==> ps@[j].0 as int == sp[j].0 && ps@[j].1 as int == sp[j].1,
            k <= ps@.len(),
            out@.len() == k,
            forall|j: int| 0 <= j < k ==> #[trigger] record_field(u@, sp[j].0, sp[j].1) is Some,
            forall|j: int|
                0 <= j < k ==> #[trigger] field_view(out@[j]) == (
                    Some(record_field(u@, sp[j].0, sp[j].1).unwrap().0),
                    record_field(u@, sp[j].0, sp[j].1).unwrap().1,
                    record_field(u@, sp[j].0, sp[j].1).unwrap().2,
                ),
        decreases ps@.len() - k,
    {
        let (s, e) = ps[k];
        proof {
            lemma_piece_in_range(u@, k as int);
        }
        let p = skip_attrs(u, &dep, s, e);
        let q = skip_vis(u, &dep, p, e);
        if e - q <= 2 || !is_punct(&u[q + 1], ':') {
            assert(record_field(u@, sp[k as int].0, sp[k as int].1) is None);
            return None;
        }
        let name = match &u[q] {
            Token::Ident(n) => n.clone(),
            _ => {
                assert(record_field(u@, sp[k as int].0, sp[k as int].1) is None);
                return None;
            },
        };
        let ty = render_range(u, q + 2, e);
        out.push(FieldDef { name: Some(name), ty, is_pub: q > p });
        k = k + 1;
    }
    Some(out)
}

/// A variant's payload as plain values.
pub enum PayloadView {
    Unit,
    Tuple(Seq<Seq<char>>),
    Record(Seq<(Seq<char>, Seq<char>)>),
}

/// A payload as plain values.
pub open spec fn payload_view(p: Payload) -> PayloadView {
    match p {
        Payload::Unit => PayloadView::Unit,
        Payload::Tuple(v) => PayloadView::Tuple(v@.map_values(|s: String| s@)),
        Payload::Record(v) => PayloadView::Record(
            v@.map_values(|f: (String, String)| (f.0@, f.1@)),
        ),
    }
}

/// A variant as plain values: name, payload, discriminant.
pub open spec fn variant_view(d: VariantDef) -> (Seq<char>, PayloadView, Option<i64>) {
    (d.name@, payload_view(d.payload), d.discriminant)
}

/// The variant written as tokens `s` up to `end`: attributes, which are passed
/// over; a name; then nothing, `= discriminant`, `(types)` or `{fields}`.
pub open spec fn variant_spec(ts: Seq<Token>, s: int, end: int) -> Option<
    (Seq<char>, PayloadView, Option<i64>),
> {
    let p = after_attrs(ts, s, end);
    if !(p < end && ts[p] is Ident) {
        None
    } else {
        let name = ts[p]->Ident_0@;
        if p + 1 == end {
            Some((name, PayloadView::Unit, None))
        } else if ts[p + 1] == Token::Punct('=') {
            match discriminant_spec(ts, p + 2, end) {
                Some(d) => Some((name, PayloadView::Unit, Some(d))),
                None => None,
            }
        } else if close_from(ts, p + 1, p + 2, end) == end - 1 {
            let u = ts.subrange(p + 2, end - 1);
            if ts[p + 1] == Token::Open(Delim::Paren) {
                match tuple_fields(u) {
                    Some(f) => Some(
                        (name, PayloadView::Tuple(f.map_values(|x: (Seq<char>, bool)| x.0)), None),
                    ),
                    None => None,
                }
            } else if ts[p + 1] == Token::Open(Delim::Brace) {
                match record_fields(u) {
                    Some(f) => Some(
                        (
                            name,
                            PayloadView::Record(
                                f.map_values(|x: (Seq<char>, Seq<char>, bool)| (x.0, x.1)),
                            ),
                            None,
                        ),
                    ),
                    None => None,
                }
            } else {
                None
            }
        } else {
            None
        }
    }
}

/// The types of positional fields.
fn field_types(f: &Vec<FieldDef>) -> (r: Vec<String>)
    ensures
        r@.len() == f@.len(),
        forall|k: int| 0 <= k < f@.len() ==> r@[k] == f@[k].ty,
{
    let mut r: Vec<String> = Vec::new();
    let mut i: usize = 0;
    while i < f.len()
        invariant
            i <= f@.len(),
            r@.len() == i,
            forall|k: int| 0 <= k < i ==> r@[k] == f@[k].ty,
        decreases f@.len() - i,
    {
        r.push(f[i].ty.clone());
        i = i + 1;
    }
    r
}

/// The names and types of named fields.
fn field_pairs(f: &Vec<FieldDef>) -> (r: Vec<(String, String)>)
    requires
        forall|k: int| 0 <= k < f@.len() ==> (#[trigger] f@[k]).name is Some,
    ensures
        r@.len() == f@.len(),
        forall|k: int|
            0 <= k < f@.len() ==> r@[k].0 == f@[k].name->0 && r@[k].1 == f@[k].ty,
{
    let mut r: Vec<(String, String)> = Vec::new();
    let mut i: usize = 0;
    while i < f.len()
        invariant
            i <= f@.len(),
            forall|k: int| 0 <= k < f@.len() ==> (#[trigger] f@[k]).name is Some,
            r@.len() == i,
            forall|k: int| 0 <= k < i ==> r@[k].0 == f@[k].name->0 && r@[k].1 == f@[k].ty,
        decreases f@.len() - i,
    {
        let name = match &f[i].name {
            Some(n) => n.clone(),
            None => String::new(),
        };
        r.push((name, f[i].ty.clone()));
        i = i + 1;
    }
    r
}

/// Parses the variant at tokens `s` up to `end`.
fn parse_variant(ts: &Vec<Token>, dep: &Vec<i64>, s: usize, end: usize) -> (r: Option<VariantDef>)
    requires
        depths_of(ts@, dep@),
        s <= end <= ts@.len(),
        ts@.len() < i64::MAX,
    ensures
        match r {
            Some(d) => variant_spec(ts@, s as int, end as int) == Some(variant_view(d)),
            None => variant_spec(ts@, s as int, end as int) is None,
        },
{
    let p = skip_attrs(ts, dep, s, end);
    if p >= end {
        return None;
    }
    let name = match &ts[p] {
        Token::Ident(n) => n.clone(),
        _ => {
            return None;
        },
    };
    if p + 1 == end {
        return Some(VariantDef { name, payload: Payload::Unit, discriminant: None });
    }
    if is_punct(&ts[p + 1], '=') {
        return match parse_discriminant(ts, p + 2, end) {
            Some(d) => Some(VariantDef { name, payload: Payload::Unit, discriminant: Some(d) }),
            None => None,
        };
    }
    match find_close(ts, dep, p + 1, p + 2, end) {
        Some(c) => {
            if c != end - 1 {
                return None;
            }
        },
        None => {
            return None;
        },
    }
    let inner = copy_range(ts, p + 2, end - 1);
    let ghost u = ts@.subrange(p + 2, end - 1);
    if is_open(&ts[p + 1], Delim::Paren) {
        match parse_tuple_fields(&inner) {
            Some(f) => {
                let types = field_types(&f);
                let d = VariantDef { name, payload: Payload::Tuple(types), discriminant: None };
                proof {
                    let tf = tuple_fields(u)->0;
                    assert forall|k: int| 0 <= k < f@.len() implies types@[k]@ == tf[k].0 by {
                        assert(field_view(f@[k]).1 == tf[k].0);
                    }
                    assert(types@.map_values(|x: String| x@) =~= tf.map_values(
                        |x: (Seq<char>, bool)| x.0,
                    ));
                }
                Some(d)
            },
            None => None,
        }
    } else if is_open(&ts[p + 1], Delim::Brace) {
        match parse_record_fields(&inner) {
            Some(f) => {
                proof {
                    assert forall|k: int| 0 <= k < f@.len() implies (#[trigger] f@[k]).name is Some by {
                        assert(field_view(f@[k]).0 is Some);
                    }
                }
                let pairs = field_pairs(&f);
                let d = VariantDef { name, payload: Payload::Record(pairs), discriminant: None };
                proof {
                    let rf = record_fields(u)->0;
                    assert forall|k: int| 0 <= k < f@.len() implies pairs@[k].0@ == rf[k].0
                        && pairs@[k].1@ == rf[k].1 by {
                        assert(field_view(f@[k]).0 == Some(rf[k].0));
                        assert(field_view(f@[k]).1 == rf[k].1);
                    }
                    assert(pairs@.map_values(|x: (String, String)| (x.0@, x.1@)) =~= rf.map_values(
                        |x: (Seq<char>, Seq<char>, bool)| (x.0, x.1),
                    ));
                }
                Some(d)
            },
            None => None,
        }
    } else {
        None
    }
}

/// Why a body of tokens does not parse.
#[derive(Clone, Copy, Debug, PartialEq, Eq, Structural)]
pub enum SyntaxError {
    /// The variant at this position among the comma-separated pieces is malformed.
    BadVariant(usize),
    /// The body is neither empty, `;`, `(fields)` with an optional `;`, nor `{fields}`.
    BadStructBody,
    /// A field of the struct is malformed.
    BadField,
}

/// What parsing an enum body gives: a descriptor with one variant for each
/// comma-separated piece, in order, where every piece parses; else the
/// position of the first piece that does not.
pub open spec fn enum_outcome(name: String, ts: Seq<Token>, r: Result<EnumDef, SyntaxError>) -> bool {
    let ps = pieces(ts);
    match r {
        Ok(def) => {
            &&& def.name == name
            &&& def.variants@.len() == ps.len()
            &&& forall|k: int|
                0 <= k < ps.len() ==> variant_spec(ts, ps[k].0, ps[k].1) == Some(
                    variant_view(#[trigger] def.variants@[k]),
                )
        },
        Err(SyntaxError::BadVariant(k)) => {
            &&& k < ps.len()
            &&& variant_spec(ts, ps[k as int].0, ps[k as int].1) is None
            &&& forall|j: int|
                0 <= j < k ==> #[trigger] variant_spec(ts, ps[j].0, ps[j].1) is Some
        },
        Err(_) => false,
    }
}

/// Parses the body of an enum named `name`: the tokens between its braces.
pub fn parse_enum_body(name: String, ts: &Vec<Token>) -> (r: Result<EnumDef, SyntaxError>)
    requires
        ts@.len() < i64::MAX,
        ts@.len() < usize::MAX,
    ensures
        enum_outcome(name, ts@, r),
{
    let dep = depths(ts);
    let ps = split_pieces(ts);
    let ghost sp = pieces(ts@);
    let mut variants: Vec<VariantDef> = Vec::new();
    let mut k: usize = 0;
    while k < ps.len()
        invariant
            depths_of(ts@, dep@),
            ts@.len() < i64::MAX,
            sp == pieces(ts@),
            ps@.len() == sp.len(),
            forall|j: int|
                0 <= j < ps@.len() ==> ps@[j].0 as int == sp[j].0 && ps@[j].1 as int == sp[j].1,
            k <= ps@.len(),
            variants@.len() == k,
            forall|j: int|
                0 <= j < k ==> variant_spec(ts@, sp[j].0, sp[j].1) == Some(
                    variant_view(#[trigger] variants@[j]),
                ),
        decreases ps@.len() - k,
    {
        let (s, e) = ps[k];
        proof {
            lemma_piece_in_range(ts@, k as int);
        }
        match parse_variant(ts, &dep, s, e) {
            Some(d) => {
                variants.push(d);
            },
            None => {
                assert forall|j: int| 0 <= j < k implies #[trigger] variant_spec(
                    ts@,
                    sp[j].0,
                    sp[j].1,
                ) is Some by {
                    assert(variant_spec(ts@, sp[j].0, sp[j].1) == Some(variant_view(variants@[j])));
                }
                return Err(SyntaxError::BadVariant(k));
            },
        }
        k = k + 1;
    }
    Ok(EnumDef { name, variants })
}

/// The layout of a struct body and the range of tokens that hold its fields:
/// nothing or `;` for a unit struct, `(fields)` with an optional `;` for a
/// tuple struct, `{fields}` for a record struct.
pub open spec fn struct_shape(ts: Seq<Token>) -> Option<(StructKind, int, int)> {
    let n = ts.len() as int;
    if n == 0 || (n == 1 && ts[0] == Token::Punct(';')) {
        Some((StructKind::Unit, 0, 0))
    } else if ts[0] == Token::Open(Delim::Paren) {
        let c = close_from(ts, 0, 1, n);
        if c > 0 && (c == n - 1 || (c == n - 2 && ts[n - 1] == Token::Punct(';'))) {
            Some((StructKind::Tuple, 1, c))
        } else {
            None
        }
    } else if ts[0] == Token::Open(Delim::Brace) && close_from(ts, 0, 1, n) == n - 1 {
        Some((StructKind::Record, 1, n - 1))
    } else {
        None
    }
}

/// The fields of a struct body as plain values, where its shape and every
/// field parse.
pub open spec fn struct_fields(ts: Seq<Token>) -> Option<Seq<(Option<Seq<char>>, Seq<char>, bool)>> {
    match struct_shape(ts) {
        Some((StructKind::Unit, _, _)) => Some(Seq::empty()),
        Some((StructKind::Tuple, a, b)) => match tuple_fields(ts.subrange(a, b)) {
            Some(f) => Some(f.map_values(|x: (Seq<char>, bool)| (None, x.0, x.1))),
            None => None,
        },
        Some((StructKind::Record, a, b)) => match record_fields(ts.subrange(a, b)) {
            Some(f) => Some(
                f.map_values(|x: (Seq<char>, Seq<char>, bool)| (Some(x.0), x.1, x.2)),
            ),
            None => None,
        },
        None => None,
    }
}

/// What parsing a struct body gives.
pub open spec fn struct_outcome(name: String, ts: Seq<Token>, r: Result<StructDef, SyntaxError>) -> bool {
    match r {
        Ok(def) => {
            &&& def.name == name
            &&& def.wf()
            &&& struct_shape(ts) is Some
            &&& def.kind == struct_shape(ts).unwrap().0
            &&& struct_fields(ts) == Some(def.fields@.map_values(|f: FieldDef| field_view(f)))
        },
        Err(SyntaxError::BadStructBody) => struct_shape(ts) is None,
        Err(SyntaxError::BadField) => struct_shape(ts) is Some && struct_fields(ts) is None,
        Err(_) => false,
    }
}

/// Parses the body of a struct named `name`: the tokens after its name.
pub fn parse_struct_body(name: String, ts: &Vec<Token>) -> (r: Result<StructDef, SyntaxError>)
    requires
        ts@.len() < i64::MAX,
        ts@.len() < usize::MAX,
    ensures
        struct_outcome(name, ts@, r),
{
    let n = ts.len();
    if n == 0 || (n == 1 && is_punct(&ts[0], ';')) {
        let r = StructDef { name, kind: StructKind::Unit, fields: Vec::new() };
        assert(r.fields@.map_values(|f: FieldDef| field_view(f)) =~= Seq::empty());
        return Ok(r);
    }
    let dep = depths(ts);
    if is_open(&ts[0], Delim::Paren) {
        let c = match find_close(ts, &dep, 0, 1, n) {
            Some(c) => c,
            None => {
                return Err(SyntaxError::BadStructBody);
            },
        };
        if !(c == n - 1 || (c == n - 2 && is_punct(&ts[n - 1], ';'))) {
            return Err(SyntaxError::BadStructBody);
        }
        let inner = copy_range(ts, 1, c);
        match parse_tuple_fields(&inner) {
            Some(f) => {
                let r = StructDef { name, kind: StructKind::Tuple, fields: f };
                proof {
                    let tf = tuple_fields(ts@.subrange(1, c as int))->0;
                    assert forall|k: int| 0 <= k < r.fields@.len() implies (
                    #[trigger] r.fields@[k]).name is None by {
                        assert(field_view(r.fields@[k]).0 is None);
                    }
                    assert(r.fields@.map_values(|f: FieldDef| field_view(f)) =~= tf.map_values(
                        |x: (Seq<char>, bool)| (None, x.0, x.1),
                    ));
                }
                Ok(r)
            },
            None => Err(SyntaxError::BadField),
        }
    } else if is_open(&ts[0], Delim::Brace) {
        match find_close(ts, &dep, 0, 1, n) {
            Some(c) => {
                if c != n - 1 {
                    return Err(SyntaxError::BadStructBody);
                }
            },
            None => {
                return Err(SyntaxError::BadStructBody);
            },
        }
        let inner = copy_range(ts, 1, n - 1);
        match parse_record_fields(&inner) {
            Some(f) => {
                let r = StructDef { name, kind: StructKind::Record, fields: f };
                proof {
                    let rf = record_fields(ts@.subrange(1, n - 1))->0;
                    assert forall|k: int| 0 <= k < r.fields@.len() implies (
                    #[trigger] r.fields@[k]).name is Some by {
                        assert(field_view(r.fields@[k]).0 is Some);
                    }
                    assert(r.fields@.map_values(|f: FieldDef| field_view(f)) =~= rf.map_values(
                        |x: (Seq<char>, Seq<char>, bool)| (Some(x.0), x.1, x.2),
                    ));
                }
                Ok(r)
            },
            None => Err(SyntaxError::BadField),
        }
    } else {
        Err(SyntaxError::BadStructBody)
    }
}

} // verus!
