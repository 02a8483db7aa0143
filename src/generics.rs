use vstd::prelude::*;
use crate::syntax::{
    Token, close_from, copy_range, depths, find_close, is_punct, pieces, render, render_range,
    split_pieces, lemma_piece_in_range,
};

verus! {

/// The generic parameters of an item: the name of each, in order, and the
/// full text of each that carries a bound.
#[derive(Debug)]
pub struct Generics {
    /// Each parameter as it is written where the item is used (`'a`, `T`, `N`).
    pub names: Vec<String>,
    /// Each parameter with a bound, as written (`T:Clone+Default`).
    pub clauses: Vec<String>,
}

/// Token `i` is the identifier `w`.
pub open spec fn word_at(u: Seq<Token>, i: int, w: Seq<char>) -> bool {
    0 <= i < u.len() && match u[i] {
        Token::Ident(s) => s@ == w,
        _ => false,
    }
}

/// The parameter written as tokens `s` up to `end`: its name, and whether
/// anything follows the name (a bound or a type).
pub open spec fn param_spec(u: Seq<Token>, s: int, end: int) -> Option<(Seq<char>, bool)> {
    if 0 <= s && s + 1 < end && u[s] == Token::Punct('\'') && u[s + 1] is Ident {
        Some((seq!['\''] + u[s + 1]->Ident_0@, s + 2 < end))
    } else if word_at(u, s, "const"@) && s + 1 < end && u[s + 1] is Ident {
        Some((u[s + 1]->Ident_0@, s + 2 < end))
    } else if 0 <= s < end && u[s] is Ident {
        Some((u[s]->Ident_0@, s + 1 < end))
    } else {
        None
    }
}

/// Whether the parameter at a piece carries more than its name.
pub open spec fn has_bound(u: Seq<Token>) -> spec_fn((int, int)) -> bool {
    |p: (int, int)| param_spec(u, p.0, p.1).unwrap().1
}

/// The text of a piece.
pub open spec fn piece_text(u: Seq<Token>) -> spec_fn((int, int)) -> Seq<char> {
    |p: (int, int)| render(u.subrange(p.0, p.1))
}

/// The parameters inside `<` and `>`, where each parses: names in order,
/// and the texts of those that carry more than a name.
pub open spec fn generics_spec(u: Seq<Token>) -> Option<(Seq<Seq<char>>, Seq<Seq<char>>)> {
    let ps = pieces(u);
    if forall|k: int| 0 <= k < ps.len() ==> #[trigger] param_spec(u, ps[k].0, ps[k].1) is Some {
        let names = Seq::new(ps.len(), |k: int| param_spec(u, ps[k].0, ps[k].1).unwrap().0);
        Some((names, ps.filter(has_bound(u)).map_values(piece_text(u))))
    } else {
        None
    }
}

/// Parses one generic parameter at tokens `s` up to `end`: its name, and
/// whether anything follows the name.
fn parse_param(u: &Vec<Token>, s: usize, end: usize) -> (r: Option<(String, bool)>)
    requires
        s <= end <= u@.len(),
    ensures
        match r {
            Some(x) => param_spec(u@, s as int, end as int) == Some((x.0@, x.1)),
            None => param_spec(u@, s as int, end as int) is None,
        },
{
    if end - s > 1 && is_punct(&u[s], '\'') {
        if let Token::Ident(n) = &u[s + 1] {
            let mut name = String::from_str("'");
            proof {
                reveal_strlit("'");
            }
            name.append(n.as_str());
            return Some((name, end - s > 2));
        }
    }
    if end - s > 1 {
        if let Token::Ident(w) = &u[s] {
            if *w == String::from_str("const") {
                if let Token::Ident(n) = &u[s + 1] {
                    return Some((n.clone(), end - s > 2));
                }
            }
        }
    }
    if s < end {
        if let Token::Ident(n) = &u[s] {
            return Some((n.clone(), end - s > 1));
        }
    }
    None
}

/// Parses the parameters between `<` and `>`.
pub fn parse_generic_params(u: &Vec<Token>) -> (r: Option<Generics>)
    requires
        u@.len() < i64::MAX,
        u@.len() < usize::MAX,
    ensures
        match r {
            Some(g) => generics_spec(u@) == Some(
                (
                    g.names@.map_values(|s: String| s@),
                    g.clauses@.map_values(|s: String| s@),
                ),
            ),
            None => generics_spec(u@) is None,
        },
{
    let ps = split_pieces(u);
    let ghost sp = pieces(u@);
    let mut names: Vec<String> = Vec::new();
    let mut clauses: Vec<String> = Vec::new();
    let mut k: usize = 0;
    assert(sp.take(0) =~= Seq::<(int, int)>::empty());
    while k < ps.len()
        invariant
            sp == pieces(u@),
            ps@.len() == sp.len(),
            forall|j: int|
                0 <= j < ps@.len() ==> ps@[j].0 as int == sp[j].0 && ps@[j].1 as int == sp[j].1,
            k <= ps@.len(),
            names@.len() == k,
            forall|j: int| 0 <= j < k ==> #[trigger] param_spec(u@, sp[j].0, sp[j].1) is Some,
            forall|j: int|
                0 <= j < k ==> (#[trigger] names@[j])@ == param_spec(u@, sp[j].0, sp[j].1).unwrap().0,
            clauses@.map_values(|s: String| s@) == sp.take(k as int).filter(has_bound(u@)).map_values(
                piece_text(u@),
            ),
        decreases ps@.len() - k,
    {
        let (s, e) = ps[k];
        proof {
            lemma_piece_in_range(u@, k as int);
        }
        match parse_param(u, s, e) {
            Some((name, bound)) => {
                proof {
                    assert(sp.take(k + 1) =~= sp.take(k as int).push(sp[k as int]));
                    sp.take(k as int).lemma_filter_push(sp[k as int], has_bound(u@));
                }
                names.push(name);
                if bound {
                    let text = render_range(u, s, e);
                    clauses.push(text);
                    assert(clauses@.map_values(|s: String| s@) =~= sp.take(k as int).filter(
                        has_bound(u@),
                    ).map_values(piece_text(u@)).push(text@));
                }
            },
            None => {
                return None;
            },
        }
        k = k + 1;
    }
    proof {
        assert(sp.take(k as int) =~= sp);
        assert(names@.map_values(|s: String| s@) =~= Seq::new(
            sp.len(),
            |j: int| param_spec(u@, sp[j].0, sp[j].1).unwrap().0,
        ));
    }
    Some(Generics { names, clauses })
}

/// The generics of an item at position `at`: none where no `<` stands
/// there, else the parameters up to the matching `>`. Gives them and the
/// position after them.
pub fn parse_generics(ts: &Vec<Token>, at: usize) -> (r: Option<(Generics, usize)>)
    requires
        at <= ts@.len() < i64::MAX,
        ts@.len() < usize::MAX,
    ensures
        at == ts@.len() || ts@[at as int] != Token::Punct('<') ==> (r matches Some((g, e)) && e
            == at && g.names@.len() == 0 && g.clauses@.len() == 0),
        at < ts@.len() && ts@[at as int] == Token::Punct('<') ==> {
            let c = close_from(ts@, at as int, at + 1, ts@.len() as int);
            match r {
                Some((g, e)) => {
                    &&& at < c
                    &&& e == c + 1
                    &&& generics_spec(ts@.subrange(at + 1, c)) == Some(
                        (
                            g.names@.map_values(|s: String| s@),
                            g.clauses@.map_values(|s: String| s@),
                        ),
                    )
                },
                None => c < 0 || generics_spec(ts@.subrange(at + 1, c)) is None,
            }
        },
{
    if at == ts.len() || !is_punct(&ts[at], '<') {
        return Some((Generics { names: Vec::new(), clauses: Vec::new() }, at));
    }
    let dep = depths(ts);
    let c = match find_close(ts, &dep, at, at + 1, ts.len()) {
        Some(c) => c,
        None => {
            return None;
        },
    };
    let inner = copy_range(ts, at + 1, c);
    match parse_generic_params(&inner) {
        Some(g) => Some((g, c + 1)),
        None => None,
    }
}

/// The predicates of a `where` clause at tokens `s` up to `end`: the pieces
/// between commas after `where`, as text.
pub open spec fn where_spec(ts: Seq<Token>) -> Option<Seq<Seq<char>>> {
    if word_at(ts, 0, "where"@) {
        let u = ts.subrange(1, ts.len() as int);
        Some(pieces(u).map_values(piece_text(u)))
    } else {
        None
    }
}

/// The predicates of a `where` clause, given the tokens from `where` to the
/// end of the clause.
pub fn parse_where(ts: &Vec<Token>) -> (r: Option<Vec<String>>)
    requires
        ts@.len() < i64::MAX,
        ts@.len() < usize::MAX,
    ensures
        match r {
            Some(v) => where_spec(ts@) == Some(v@.map_values(|s: String| s@)),
            None => where_spec(ts@) is None,
        },
{
    if ts.len() == 0 {
        return None;
    }
    let is_where = match &ts[0] {
        Token::Ident(w) => *w == String::from_str("where"),
        _ => false,
    };
    if !is_where {
        return None;
    }
    let u = copy_range(ts, 1, ts.len());
    let ps = split_pieces(&u);
    let ghost sp = pieces(u@);
    let mut out: Vec<String> = Vec::new();
    let mut k: usize = 0;
    while k < ps.len()
        invariant
            sp == pieces(u@),
            ps@.len() == sp.len(),
            forall|j: int|
                0 <= j < ps@.len() ==> ps@[j].0 as int == sp[j].0 && ps@[j].1 as int == sp[j].1,
            k <= ps@.len(),
            out@.len() == k,
            forall|j: int| 0 <= j < k ==> (#[trigger] out@[j])@ == piece_text(u@)(sp[j]),
        decreases ps@.len() - k,
    {
        let (s, e) = ps[k];
        proof {
            lemma_piece_in_range(u@, k as int);
        }
        out.push(render_range(&u, s, e));
        k = k + 1;
    }
    assert(out@.map_values(|s: String| s@) =~= sp.map_values(piece_text(u@)));
    Some(out)
}

} // verus!
