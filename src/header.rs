use vstd::prelude::*;
use crate::attrs::{Attr, DeriveEntry, Item, Keyword};
use crate::syntax::{
    Delim, Token, after_attrs, after_vis, close_from, copy_range, depths, depths_of, find_close,
    is_open, is_punct, pieces, render, render_range, skip_vis, split_pieces,
    lemma_piece_in_range,
};

verus! {

/// An attribute as plain values.
pub enum AttrView {
    Plain(Seq<char>),
    Derive(Seq<(Seq<char>, bool, Seq<char>)>),
    Macro(Seq<char>, Seq<char>),
}

/// A derive entry as plain values: name, whether it is a macro, argument text.
pub open spec fn entry_view(e: DeriveEntry) -> (Seq<char>, bool, Seq<char>) {
    (e.name@, e.is_macro, e.args@)
}

/// An attribute as plain values.
pub open spec fn attr_view(a: Attr) -> AttrView {
    match a {
        Attr::Plain(s) => AttrView::Plain(s@),
        Attr::Derive(v) => AttrView::Derive(v@.map_values(|e: DeriveEntry| entry_view(e))),
        Attr::Macro(n, a) => AttrView::Macro(n@, a@),
    }
}

/// The derive entry written as tokens `s` up to `end`: a name, then nothing
/// (one of the compiler's), `!` (a macro), or `!` or nothing followed by one
/// group that holds the argument (a macro).
pub open spec fn entry_spec(l: Seq<Token>, s: int, end: int) -> Option<(Seq<char>, bool, Seq<char>)> {
    if !(0 <= s < end && l[s] is Ident) {
        None
    } else {
        let name = l[s]->Ident_0@;
        if s + 1 == end {
            Some((name, false, Seq::empty()))
        } else if l[s + 1] == Token::Punct('!') && s + 2 == end {
            Some((name, true, Seq::empty()))
        } else if l[s + 1] == Token::Punct('!') && l[s + 2] is Open && close_from(
            l,
            s + 2,
            s + 3,
            end,
        ) == end - 1 {
            Some((name, true, render(l.subrange(s + 3, end - 1))))
        } else if l[s + 1] is Open && close_from(l, s + 1, s + 2, end) == end - 1 {
            Some((name, true, render(l.subrange(s + 2, end - 1))))
        } else {
            None
        }
    }
}

/// The entries of a derive list, where each parses.
pub open spec fn entries_spec(l: Seq<Token>) -> Option<Seq<(Seq<char>, bool, Seq<char>)>> {
    let ps = pieces(l);
    if forall|k: int| 0 <= k < ps.len() ==> #[trigger] entry_spec(l, ps[k].0, ps[k].1) is Some {
        Some(Seq::new(ps.len(), |k: int| entry_spec(l, ps[k].0, ps[k].1)->0))
    } else {
        None
    }
}

/// Token `i` of `u` is the identifier `w`.
pub open spec fn ident_is(u: Seq<Token>, i: int, w: Seq<char>) -> bool {
    match u[i] {
        Token::Ident(s) => s@ == w,
        _ => false,
    }
}

/// The attribute whose tokens between `#[` and `]` are `u`: `name!` with an
/// optional group is a macro, `derive(...)` a derive list, anything else is
/// kept as its text.
pub open spec fn attr_spec(u: Seq<Token>) -> Option<AttrView> {
    let n = u.len() as int;
    if n >= 2 && u[0] is Ident && u[1] == Token::Punct('!') {
        if n == 2 {
            Some(AttrView::Macro(u[0]->Ident_0@, Seq::empty()))
        } else if u[2] is Open && close_from(u, 2, 3, n) == n - 1 {
            Some(AttrView::Macro(u[0]->Ident_0@, render(u.subrange(3, n - 1))))
        } else {
            None
        }
    } else if n >= 3 && ident_is(u, 0, "derive"@) && u[1] == Token::Open(Delim::Paren)
        && close_from(u, 1, 2, n) == n - 1 {
        match entries_spec(u.subrange(2, n - 1)) {
            Some(e) => Some(AttrView::Derive(e)),
            None => None,
        }
    } else {
        Some(AttrView::Plain(render(u)))
    }
}

/// The text of an identifier token; `None` for any other token.
fn ident_text(t: &Token) -> (r: Option<String>)
    ensures
        match r {
            Some(s) => *t == Token::Ident(s),
            None => !(*t is Ident),
        },
{
    match t {
        Token::Ident(s) => Some(s.clone()),
        _ => None,
    }
}

/// Parses one derive entry of the list `l`, at tokens `s` up to `end`.
fn parse_entry(l: &Vec<Token>, dep: &Vec<i64>, s: usize, end: usize) -> (r: Option<DeriveEntry>)
    requires
        depths_of(l@, dep@),
        s <= end <= l@.len(),
    ensures
        match r {
            Some(e) => entry_spec(l@, s as int, end as int) == Some(entry_view(e)),
            None => entry_spec(l@, s as int, end as int) is None,
        },
{
    if s >= end {
        return None;
    }
    let name = match ident_text(&l[s]) {
        Some(n) => n,
        None => {
            return None;
        },
    };
    if end - s == 1 {
        return Some(DeriveEntry { name, is_macro: false, args: String::new() });
    }
    let bang = is_punct(&l[s + 1], '!');
    if bang && end - s == 2 {
        return Some(DeriveEntry { name, is_macro: true, args: String::new() });
    }
    let g = if bang {
        s + 2
    } else {
        s + 1
    };
    let opens = match &l[g] {
        Token::Open(_) => true,
        _ => false,
    };
    if !opens {
        return None;
    }
    match find_close(l, dep, g, g + 1, end) {
        Some(c) => {
            if c != end - 1 {
                return None;
            }
        },
        None => {
            return None;
        },
    }
    let args = render_range(l, g + 1, end - 1);
    Some(DeriveEntry { name, is_macro: true, args })
}

/// Parses a derive list.
fn parse_entries(l: &Vec<Token>) -> (r: Option<Vec<DeriveEntry>>)
    requires
        l@.len() < i64::MAX,
        l@.len() < usize::MAX,
    ensures
        match r {
            Some(v) => entries_spec(l@) == Some(v@.map_values(|e: DeriveEntry| entry_view(e))),
            None => entries_spec(l@) is None,
        },
{
    let dep = depths(l);
    let ps = split_pieces(l);
    let ghost sp = pieces(l@);
    let mut out: Vec<DeriveEntry> = Vec::new();
    let mut k: usize = 0;
    while k < ps.len()
        invariant
            depths_of(l@, dep@),
            sp == pieces(l@),
            ps@.len() == sp.len(),
            forall|j: int|
                0 <= j < ps@.len() ==> ps@[j].0 as int == sp[j].0 && ps@[j].1 as int == sp[j].1,
            k <= ps@.len(),
            out@.len() == k,
            forall|j: int|
                0 <= j < k ==> entry_spec(l@, sp[j].0, sp[j].1) == Some(
                    entry_view(#[trigger] out@[j]),
                ),
        decreases ps@.len() - k,
    {
        let (s, e) = ps[k];
        proof {
            lemma_piece_in_range(l@, k as int);
        }
        match parse_entry(l, &dep, s, e) {
            Some(d) => {
                out.push(d);
            },
            None => {
                return None;
            },
        }
        k = k + 1;
    }
    proof {
        assert forall|j: int| 0 <= j < sp.len() implies #[trigger] entry_spec(
            l@,
            sp[j].0,
            sp[j].1,
        ) is Some by {
            assert(entry_spec(l@, sp[j].0, sp[j].1) == Some(entry_view(out@[j])));
        }
        assert(Seq::new(sp.len(), |j: int| entry_spec(l@, sp[j].0, sp[j].1)->0) =~= out@.map_values(
            |e: DeriveEntry| entry_view(e),
        ));
    }
    Some(out)
}

/// Parses the tokens between `#[` and `]`.
fn parse_attr(u: &Vec<Token>) -> (r: Option<Attr>)
    requires
        u@.len() < i64::MAX,
        u@.len() < usize::MAX,
    ensures
        match r {
            Some(a) => attr_spec(u@) == Some(attr_view(a)),
            None => attr_spec(u@) is None,
        },
{
    let n = u.len();
    if n >= 2 && is_punct(&u[1], '!') {
        if let Some(name) = ident_text(&u[0]) {
            if n == 2 {
                return Some(Attr::Macro(name, String::new()));
            }
            let opens = match &u[2] {
                Token::Open(_) => true,
                _ => false,
            };
            if !opens {
                return None;
            }
            let dep = depths(u);
            match find_close(u, &dep, 2, 3, n) {
                Some(c) => {
                    if c != n - 1 {
                        return None;
                    }
                },
                None => {
                    return None;
                },
            }
            return Some(Attr::Macro(name, render_range(u, 3, n - 1)));
        }
    }
    if n >= 3 && is_open(&u[1], Delim::Paren) {
        let is_derive = match &u[0] {
            Token::Ident(s) => *s == String::from_str("derive"),
            _ => false,
        };
        if is_derive {
            let dep = depths(u);
            if let Some(c) = find_close(u, &dep, 1, 2, n) {
                if c == n - 1 {
                    let list = copy_range(u, 2, n - 1);
                    return match parse_entries(&list) {
                        Some(v) => Some(Attr::Derive(v)),
                        None => None,
                    };
                }
            }
        }
    }
    assert(u@.subrange(0, n as int) =~= u@);
    Some(Attr::Plain(render_range(u, 0, n)))
}

/// The keyword that `s` spells, if any.
pub open spec fn keyword_spec(s: Seq<char>) -> Option<Keyword> {
    if s == "const"@ {
        Some(Keyword::Const)
    } else if s == "enum"@ {
        Some(Keyword::Enum)
    } else if s == "extern"@ {
        Some(Keyword::Extern)
    } else if s == "fn"@ {
        Some(Keyword::Fn)
    } else if s == "impl"@ {
        Some(Keyword::Impl)
    } else if s == "mod"@ {
        Some(Keyword::Mod)
    } else if s == "static"@ {
        Some(Keyword::Static)
    } else if s == "struct"@ {
        Some(Keyword::Struct)
    } else if s == "trait"@ {
        Some(Keyword::Trait)
    } else if s == "type"@ {
        Some(Keyword::Type)
    } else if s == "use"@ {
        Some(Keyword::Use)
    } else {
        None
    }
}

/// The keyword that `s` spells, if any.
fn keyword_of(s: &String) -> (r: Option<Keyword>)
    ensures
        r == keyword_spec(s@),
{
    if *s == String::from_str("const") {
        Some(Keyword::Const)
    } else if *s == String::from_str("enum") {
        Some(Keyword::Enum)
    } else if *s == String::from_str("extern") {
        Some(Keyword::Extern)
    } else if *s == String::from_str("fn") {
        Some(Keyword::Fn)
    } else if *s == String::from_str("impl") {
        Some(Keyword::Impl)
    } else if *s == String::from_str("mod") {
        Some(Keyword::Mod)
    } else if *s == String::from_str("static") {
        Some(Keyword::Static)
    } else if *s == String::from_str("struct") {
        Some(Keyword::Struct)
    } else if *s == String::from_str("trait") {
        Some(Keyword::Trait)
    } else if *s == String::from_str("type") {
        Some(Keyword::Type)
    } else if *s == String::from_str("use") {
        Some(Keyword::Use)
    } else {
        None
    }
}

/// The spans of the attributes `#[...]` from `p` on, before `end`: for each,
/// the tokens between its brackets.
pub open spec fn attr_spans(ts: Seq<Token>, p: int, end: int) -> Seq<(int, int)>
    decreases end - p,
{
    if 0 <= p && p + 1 < end && ts[p] == Token::Punct('#') && ts[p + 1] == Token::Open(
        Delim::Bracket,
    ) {
        let c = close_from(ts, p + 1, p + 2, end);
        if c <= p || c >= end {
            Seq::empty()
        } else {
            seq![(p + 2, c)] + attr_spans(ts, c + 1, end)
        }
    } else {
        Seq::empty()
    }
}

/// An item's header as plain values: its attributes, whether it is public,
/// its keyword, its name (empty where the keyword is not followed by one),
/// and where the rest begins.
pub open spec fn item_spec(ts: Seq<Token>) -> Option<(Seq<AttrView>, bool, Keyword, Seq<char>, int)> {
    let n = ts.len() as int;
    let spans = attr_spans(ts, 0, n);
    let p = after_attrs(ts, 0, n);
    let q = after_vis(ts, p, n);
    if (forall|k: int|
        0 <= k < spans.len() ==> #[trigger] attr_spec(ts.subrange(spans[k].0, spans[k].1)) is Some)
        && q < n && ts[q] is Ident && keyword_spec(ts[q]->Ident_0@) is Some {
        let attrs = Seq::new(
            spans.len(),
            |k: int| attr_spec(ts.subrange(spans[k].0, spans[k].1))->0,
        );
        let kw = keyword_spec(ts[q]->Ident_0@)->0;
        if q + 1 < n && ts[q + 1] is Ident {
            Some((attrs, q > p, kw, ts[q + 1]->Ident_0@, q + 2))
        } else {
            Some((attrs, q > p, kw, Seq::empty(), q + 1))
        }
    } else {
        None
    }
}

/// Parses an item: its attributes, its visibility, its keyword and its name;
/// the rest is kept as text. Gives the item and where the rest begins.
pub fn parse_item(ts: &Vec<Token>) -> (r: Option<(Item, usize)>)
    requires
        ts@.len() < i64::MAX,
        ts@.len() < usize::MAX,
    ensures
        match r {
            Some((item, b)) => {
                &&& item_spec(ts@) == Some(
                    (
                        item.attrs@.map_values(|a: Attr| attr_view(a)),
                        item.is_pub,
                        item.keyword,
                        item.name@,
                        b as int,
                    ),
                )
                &&& item.body@ == render(ts@.subrange(b as int, ts@.len() as int))
            },
            None => item_spec(ts@) is None,
        },
{
    let ghost v = ts@;
    let n = ts.len();
    let dep = depths(ts);
    let ghost all = attr_spans(v, 0, n as int);
    let ghost mut seen: Seq<(int, int)> = Seq::empty();
    let mut attrs: Vec<Attr> = Vec::new();
    let mut i: usize = 0;
    while n - i > 1 && is_punct(&ts[i], '#') && is_open(&ts[i + 1], Delim::Bracket)
        invariant
            v == ts@,
            n == v.len(),
            n < i64::MAX,
            depths_of(v, dep@),
            i <= n,
            all == attr_spans(v, 0, n as int),
            all == seen + attr_spans(v, i as int, n as int),
            after_attrs(v, 0, n as int) == after_attrs(v, i as int, n as int),
            attrs@.len() == seen.len(),
            forall|k: int|
                0 <= k < seen.len() ==> attr_spec(v.subrange(seen[k].0, seen[k].1)) == Some(
                    attr_view(#[trigger] attrs@[k]),
                ),
        ensures
            i <= n,
            all == seen + attr_spans(v, i as int, n as int),
            attr_spans(v, i as int, n as int).len() == 0,
            after_attrs(v, 0, n as int) == i,
            attrs@.len() == seen.len(),
            forall|k: int|
                0 <= k < seen.len() ==> attr_spec(v.subrange(seen[k].0, seen[k].1)) == Some(
                    attr_view(#[trigger] attrs@[k]),
                ),
        decreases n - i,
    {
        let c = match find_close(ts, &dep, i + 1, i + 2, n) {
            Some(c) => c,
            None => {
                break;
            },
        };
        let inner = copy_range(ts, i + 2, c);
        proof {
            assert(attr_spans(v, i as int, n as int) == seq![(i + 2, c as int)] + attr_spans(
                v,
                c + 1,
                n as int,
            ));
            assert(all[seen.len() as int] == (i + 2, c as int));
        }
        match parse_attr(&inner) {
            Some(a) => {
                attrs.push(a);
            },
            None => {
                proof {
                    let k = seen.len() as int;
                    assert(attr_spec(v.subrange(all[k].0, all[k].1)) is None);
                }
                return None;
            },
        }
        proof {
            seen = seen.push((i + 2, c as int));
            assert(all =~= seen + attr_spans(v, c + 1, n as int));
        }
        i = c + 1;
    }
    proof {
        assert(all =~= seen);
    }
    let p = i;
    let q = skip_vis(ts, &dep, p, n);
    if q >= n {
        return None;
    }
    let kw = match &ts[q] {
        Token::Ident(s) => match keyword_of(s) {
            Some(k) => k,
            None => {
                return None;
            },
        },
        _ => {
            return None;
        },
    };
    let (name, b) = if q + 1 < n {
        match &ts[q + 1] {
            Token::Ident(s) => (s.clone(), q + 2),
            _ => (String::new(), q + 1),
        }
    } else {
        (String::new(), q + 1)
    };
    let body = render_range(ts, b, n);
    let item = Item { attrs, is_pub: q > p, keyword: kw, name, body };
    proof {
        assert forall|k: int| 0 <= k < all.len() implies #[trigger] attr_spec(
            v.subrange(all[k].0, all[k].1),
        ) is Some by {
            assert(attr_spec(v.subrange(seen[k].0, seen[k].1)) == Some(attr_view(attrs@[k])));
        }
        assert(item.attrs@.map_values(|a: Attr| attr_view(a)) =~= Seq::new(
            all.len(),
            |k: int| attr_spec(v.subrange(all[k].0, all[k].1))->0,
        ));
    }
    Some((item, b))
}

} // verus!
