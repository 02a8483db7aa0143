use vstd::prelude::*;

verus! {

/// One entry of a `#[derive(...)]` list.
#[derive(Debug)]
pub struct DeriveEntry {
    pub name: String,
    /// Written `Name!`: a derivation that this crate's callers implement, not
    /// one that the compiler knows.
    pub is_macro: bool,
    /// The argument group after the name, as text; empty where there is none.
    pub args: String,
}

/// An attribute in front of an item.
#[derive(Debug)]
pub enum Attr {
    /// An ordinary attribute, kept as it is.
    Plain(String),
    /// `#[derive(...)]`.
    Derive(Vec<DeriveEntry>),
    /// `#[name!]` or `#[name!(args)]`: a macro that rewrites the item.
    Macro(String, String),
}

/// The keyword that an item begins with.
#[derive(Clone, Copy, Debug, PartialEq, Eq, Structural)]
pub enum Keyword {
    Const,
    Enum,
    Extern,
    Fn,
    Impl,
    Mod,
    Static,
    Struct,
    Trait,
    Type,
    Use,
}

/// An item with the attributes in front of it.
#[derive(Debug)]
pub struct Item {
    pub attrs: Vec<Attr>,
    pub is_pub: bool,
    pub keyword: Keyword,
    pub name: String,
    /// Everything after the name, as text.
    pub body: String,
}

/// A derivation to run on the item, with its argument.
#[derive(Debug, PartialEq, Eq)]
pub struct DeriveRequest {
    pub name: String,
    pub args: String,
}

/// What the splitting has gathered before handing the item to an attribute
/// macro; it goes on from here once the macro hands the item back.
#[derive(Debug)]
pub struct Continuation {
    pub plain: Vec<String>,
    pub derives: Vec<DeriveEntry>,
}

/// The item as it is emitted, and the derivations to run on it.
#[derive(Debug)]
pub struct Expansion {
    /// The ordinary attributes, in order.
    pub plain: Vec<String>,
    /// The compiler's derivations, gathered into one `#[derive(...)]`.
    pub builtins: Vec<String>,
    /// The macro derivations, in order.
    pub customs: Vec<DeriveRequest>,
    pub is_pub: bool,
    pub keyword: Keyword,
    pub name: String,
    pub body: String,
}

/// One step of splitting an item's attributes.
#[derive(Debug)]
pub enum Step {
    /// No attribute macro was left: the item is ready.
    Done(Expansion),
    /// The attribute macro `name` is to be run, with `args`, on `item` (the
    /// attributes after it and the rest of the item); what it gives back goes
    /// to `resume` with `cont`.
    Invoke { name: String, args: String, cont: Continuation, item: Item },
}

/// The ordinary attributes among `a`, in order.
pub open spec fn plain_of(a: Seq<Attr>) -> Seq<String>
    decreases a.len(),
{
    if a.len() == 0 {
        Seq::empty()
    } else {
        let p = plain_of(a.drop_last());
        match a.last() {
            Attr::Plain(s) => p.push(s),
            _ => p,
        }
    }
}

/// The entries of every `#[derive(...)]` among `a`, flattened in order.
pub open spec fn entries_of(a: Seq<Attr>) -> Seq<DeriveEntry>
    decreases a.len(),
{
    if a.len() == 0 {
        Seq::empty()
    } else {
        let p = entries_of(a.drop_last());
        match a.last() {
            Attr::Derive(v) => p + v@,
            _ => p,
        }
    }
}

/// The names of the compiler's derivations among `e`, in order.
pub open spec fn builtins_of(e: Seq<DeriveEntry>) -> Seq<String>
    decreases e.len(),
{
    if e.len() == 0 {
        Seq::empty()
    } else if e.last().is_macro {
        builtins_of(e.drop_last())
    } else {
        builtins_of(e.drop_last()).push(e.last().name)
    }
}

/// The macro derivations among `e`, in order, with their arguments.
pub open spec fn customs_of(e: Seq<DeriveEntry>) -> Seq<DeriveRequest>
    decreases e.len(),
{
    if e.len() == 0 {
        Seq::empty()
    } else if e.last().is_macro {
        customs_of(e.drop_last()).push(DeriveRequest { name: e.last().name, args: e.last().args })
    } else {
        customs_of(e.drop_last())
    }
}

/// The index of the first attribute macro in `a`.
pub open spec fn first_macro(a: Seq<Attr>, k: int) -> bool {
    &&& 0 <= k < a.len()
    &&& a[k] is Macro
    &&& forall|j: int| 0 <= j < k ==> !(#[trigger] a[j] is Macro)
}

/// No attribute in `a` is a macro.
pub open spec fn no_macro(a: Seq<Attr>) -> bool {
    forall|j: int| 0 <= j < a.len() ==> !(#[trigger] a[j] is Macro)
}

/// A copy of a derive entry.
fn copy_entry(e: &DeriveEntry) -> (r: DeriveEntry)
    ensures
        r == *e,
{
    DeriveEntry { name: e.name.clone(), is_macro: e.is_macro, args: e.args.clone() }
}

/// Splits a flattened derive list into the compiler's derivations and the
/// macro derivations, each in order.
pub fn split_derives(entries: &Vec<DeriveEntry>) -> (r: (Vec<String>, Vec<DeriveRequest>))
    ensures
        r.0@ == builtins_of(entries@),
        r.1@ == customs_of(entries@),
{
    let ghost e = entries@;
    let mut builtins: Vec<String> = Vec::new();
    let mut customs: Vec<DeriveRequest> = Vec::new();
    let mut i: usize = 0;
    assert(e.take(0) =~= Seq::<DeriveEntry>::empty());
    while i < entries.len()
        invariant
            e == entries@,
            i <= e.len(),
            builtins@ == builtins_of(e.take(i as int)),
            customs@ == customs_of(e.take(i as int)),
        decreases e.len() - i,
    {
        assert(e.take(i + 1).drop_last() =~= e.take(i as int));
        let d = &entries[i];
        if d.is_macro {
            customs.push(DeriveRequest { name: d.name.clone(), args: d.args.clone() });
        } else {
            builtins.push(d.name.clone());
        }
        i = i + 1;
    }
    assert(e.take(i as int) =~= e);
    (builtins, customs)
}

/// What one step of splitting gives for `item`, resumed from `cont`.
pub open spec fn step_outcome(
    plain0: Seq<String>,
    derives0: Seq<DeriveEntry>,
    item: Item,
    r: Step,
) -> bool {
    let a = item.attrs@;
    match r {
        Step::Done(x) => {
            let entries = derives0 + entries_of(a);
            &&& no_macro(a)
            &&& x.plain@ == plain0 + plain_of(a)
            &&& x.builtins@ == builtins_of(entries)
            &&& x.customs@ == customs_of(entries)
            &&& x.is_pub == item.is_pub
            &&& x.keyword == item.keyword
            &&& x.name == item.name
            &&& x.body == item.body
        },
        Step::Invoke { name, args, cont: c, item: rest } => exists|k: int|
            {
                &&& #[trigger] first_macro(a, k)
                &&& a[k] == Attr::Macro(name, args)
                &&& c.plain@ == plain0 + plain_of(a.take(k))
                &&& c.derives@ == derives0 + entries_of(a.take(k))
                &&& rest.attrs@ == a.skip(k + 1)
                &&& rest.is_pub == item.is_pub
                &&& rest.keyword == item.keyword
                &&& rest.name == item.name
                &&& rest.body == item.body
            },
    }
}

/// Goes on splitting `item`'s attributes from `cont`: up to the first
/// attribute macro, which is handed the rest, or to the end, where the item
/// is ready.
pub fn resume(cont: Continuation, item: Item) -> (r: Step)
    ensures
        step_outcome(cont.plain@, cont.derives@, item, r),
{
    let ghost a = item.attrs@;
    let ghost c0 = cont;
    let ghost item0 = item;
    let mut plain = cont.plain;
    let mut derives = cont.derives;
    let mut i: usize = 0;
    assert(a.take(0) =~= Seq::<Attr>::empty());
    while i < item.attrs.len()
        invariant
            a == item.attrs@,
            a == item0.attrs@,
            item0 == item,
            c0 == cont,
            i <= a.len(),
            plain@ == c0.plain@ + plain_of(a.take(i as int)),
            derives@ == c0.derives@ + entries_of(a.take(i as int)),
            forall|j: int| 0 <= j < i ==> !(#[trigger] a[j] is Macro),
        decreases a.len() - i,
    {
        assert(a.take(i + 1).drop_last() =~= a.take(i as int));
        match &item.attrs[i] {
            Attr::Plain(s) => {
                plain.push(s.clone());
                assert(plain@ =~= c0.plain@ + plain_of(a.take(i + 1)));
                assert(derives@ =~= c0.derives@ + entries_of(a.take(i + 1)));
            },
            Attr::Derive(v) => {
                let ghost before = derives@;
                let mut j: usize = 0;
                while j < v.len()
                    invariant
                        j <= v@.len(),
                        derives@ == before + v@.take(j as int),
                    decreases v@.len() - j,
                {
                    derives.push(copy_entry(&v[j]));
                    assert(v@.take(j + 1) =~= v@.take(j as int).push(v@[j as int]));
                    assert(derives@ =~= before + v@.take(j + 1));
                    j = j + 1;
                }
                assert(v@.take(j as int) =~= v@);
                assert(plain@ =~= c0.plain@ + plain_of(a.take(i + 1)));
                assert(derives@ =~= c0.derives@ + entries_of(a.take(i + 1)));
            },
            Attr::Macro(name, args) => {
                let name = name.clone();
                let args = args.clone();
                let mut attrs = item.attrs;
                let rest = attrs.split_off(i + 1);
                let next = Item {
                    attrs: rest,
                    is_pub: item.is_pub,
                    keyword: item.keyword,
                    name: item.name,
                    body: item.body,
                };
                let c = Continuation { plain, derives };
                let r = Step::Invoke { name, args, cont: c, item: next };
                assert(first_macro(item0.attrs@, i as int));
                return r;
            },
        }
        i = i + 1;
    }
    assert(a.take(i as int) =~= a);
    let (builtins, customs) = split_derives(&derives);
    Step::Done(
        Expansion {
            plain,
            builtins,
            customs,
            is_pub: item.is_pub,
            keyword: item.keyword,
            name: item.name,
            body: item.body,
        },
    )
}

/// Splits the attributes of `item` from the start.
pub fn expand(item: Item) -> (r: Step)
    ensures
        step_outcome(Seq::empty(), Seq::empty(), item, r),
{
    let r = resume(Continuation { plain: Vec::new(), derives: Vec::new() }, item);
    r
}

/// The names of the entries of `e`, in order.
pub open spec fn entry_names(e: Seq<DeriveEntry>) -> Seq<String> {
    e.map_values(|d: DeriveEntry| d.name)
}

/// Where no entry is a macro derivation, every entry is the compiler's and
/// there is nothing to run.
proof fn lemma_all_builtin(e: Seq<DeriveEntry>)
    requires
        forall|j: int| 0 <= j < e.len() ==> !(#[trigger] e[j]).is_macro,
    ensures
        builtins_of(e) == entry_names(e),
        customs_of(e).len() == 0,
    decreases e.len(),
{
    if e.len() > 0 {
        lemma_all_builtin(e.drop_last());
        assert(entry_names(e.drop_last()).push(e.last().name) =~= entry_names(e));
    }
}

/// An item with no attribute macro and no macro derivation is emitted as it
/// was written: its ordinary attributes in order, the names of all its derive
/// entries gathered into one derive list, no derivation to run, and its
/// visibility, keyword, name and body unchanged.
pub proof fn lemma_reemission_identity(item: Item, r: Step)
    requires
        no_macro(item.attrs@),
        forall|j: int|
            0 <= j < entries_of(item.attrs@).len() ==> !(#[trigger] entries_of(
                item.attrs@,
            )[j]).is_macro,
        step_outcome(Seq::empty(), Seq::empty(), item, r),
    ensures
        r is Done,
        match r {
            Step::Done(x) => {
                &&& x.plain@ == plain_of(item.attrs@)
                &&& x.builtins@ == entry_names(entries_of(item.attrs@))
                &&& x.customs@.len() == 0
                &&& x.is_pub == item.is_pub
                &&& x.keyword == item.keyword
                &&& x.name == item.name
                &&& x.body == item.body
            },
            _ => false,
        },
{
    let a = item.attrs@;
    if let Step::Invoke { name, args, cont, item: rest } = r {
        let k = choose|k: int| #[trigger] first_macro(a, k) && a[k] == Attr::Macro(name, args);
        assert(a[k] is Macro);
    }
    let e = entries_of(a);
    lemma_all_builtin(e);
    assert(Seq::<DeriveEntry>::empty() + e =~= e);
    assert(Seq::<String>::empty() + plain_of(a) =~= plain_of(a));
}

} // verus!
