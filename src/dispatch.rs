use vstd::prelude::*;
use crate::attrs::DeriveRequest;
use crate::enums::{EnumDef, ShapeError, lemma_payload_variant_rejected};
use crate::structs::{StructDef, StructKind};

verus! {

/// What a derivation needs of the item it is run on.
#[derive(Clone, Copy, Debug, PartialEq, Eq, Structural)]
pub enum Requirement {
    /// An enum whose variants carry nothing: iteration, stepping, display,
    /// parsing and conversion from discriminants.
    UnitOnlyEnum,
    /// An enum whose variants carry one positional field each, of distinct
    /// types: lifting payloads and borrowing them.
    SingleFieldEnum,
    /// Any enum: the payload-free tag enum.
    AnyEnum,
    /// A struct with exactly one positional field: forwarding to it.
    Newtype,
    /// Any struct: constructors and access to fields by type.
    AnyStruct,
}

/// An item that derivations run on.
pub enum Target {
    Enum(EnumDef),
    Struct(StructDef),
}

/// Why a derivation cannot run on an item.
#[derive(Debug, PartialEq, Eq)]
pub enum DeriveError {
    /// No derivation has this name.
    Unknown,
    /// The derivation is for enums and the item is a struct, or the other way round.
    WrongItemKind,
    /// The enum's variants are not shaped as the derivation needs.
    Shape(ShapeError),
    /// The struct does not have exactly one positional field.
    NotNewtype,
}

/// `s` begins with `p`.
pub open spec fn has_prefix(s: Seq<char>, p: Seq<char>) -> bool {
    p.len() <= s.len() && s.subrange(0, p.len() as int) == p
}

/// What the derivation named `n` needs.
pub open spec fn requirement_spec(n: Seq<char>) -> Option<Requirement> {
    if n == "IterVariants"@ || n == "IterVariantNames"@ || n == "EnumDisplay"@ || n
        == "EnumFromStr"@ || n == "NextVariant"@ || n == "PrevVariant"@ || n == "TryFrom"@ {
        Some(Requirement::UnitOnlyEnum)
    } else if n == "EnumFromInner"@ || n == "EnumInnerAsTrait"@ {
        Some(Requirement::SingleFieldEnum)
    } else if n == "EnumTag"@ {
        Some(Requirement::AnyEnum)
    } else if has_prefix(n, "Newtype"@) {
        Some(Requirement::Newtype)
    } else if has_prefix(n, "Struct"@) {
        Some(Requirement::AnyStruct)
    } else {
        None
    }
}

/// Whether `s` begins with `p`.
fn starts_with(s: &String, p: &str) -> (r: bool)
    ensures
        r == has_prefix(s@, p@),
{
    let n = s.as_str().unicode_len();
    let m = p.unicode_len();
    if m > n {
        return false;
    }
    let mut i: usize = 0;
    while i < m
        invariant
            n == s@.len(),
            m == p@.len(),
            m <= n,
            i <= m,
            forall|j: int| 0 <= j < i ==> s@[j] == p@[j],
        decreases m - i,
    {
        if s.as_str().get_char(i) != p.get_char(i) {
            assert(s@.subrange(0, m as int)[i as int] != p@[i as int]);
            return false;
        }
        i = i + 1;
    }
    assert(s@.subrange(0, m as int) =~= p@);
    true
}

/// What the derivation named `n` needs; `None` for a name that no
/// derivation has.
pub fn requirement_of(n: &String) -> (r: Option<Requirement>)
    ensures
        r == requirement_spec(n@),
{
    if *n == String::from_str("IterVariants") || *n == String::from_str("IterVariantNames")
        || *n == String::from_str("EnumDisplay") || *n == String::from_str("EnumFromStr")
        || *n == String::from_str("NextVariant") || *n == String::from_str("PrevVariant")
        || *n == String::from_str("TryFrom") {
        Some(Requirement::UnitOnlyEnum)
    } else if *n == String::from_str("EnumFromInner") || *n == String::from_str(
        "EnumInnerAsTrait",
    ) {
        Some(Requirement::SingleFieldEnum)
    } else if *n == String::from_str("EnumTag") {
        Some(Requirement::AnyEnum)
    } else if starts_with(n, "Newtype") {
        Some(Requirement::Newtype)
    } else if starts_with(n, "Struct") {
        Some(Requirement::AnyStruct)
    } else {
        None
    }
}

/// The requirement is one on enums.
pub open spec fn for_enums(q: Requirement) -> bool {
    q == Requirement::UnitOnlyEnum || q == Requirement::SingleFieldEnum || q
        == Requirement::AnyEnum
}

/// What checking a derivation request against an item gives: the
/// requirement where the item meets it; else why not.
pub open spec fn check_outcome(
    req: DeriveRequest,
    t: Target,
    r: Result<Requirement, DeriveError>,
) -> bool {
    match requirement_spec(req.name@) {
        None => r == Err::<Requirement, DeriveError>(DeriveError::Unknown),
        Some(q) => match t {
            Target::Enum(def) => if !for_enums(q) {
                r == Err::<Requirement, DeriveError>(DeriveError::WrongItemKind)
            } else if q == Requirement::UnitOnlyEnum {
                match r {
                    Ok(x) => x == q && exists|u| #[trigger] def.unitary_outcome(Ok(u)),
                    Err(DeriveError::Shape(e)) => def.unitary_outcome(Err(e)),
                    Err(_) => false,
                }
            } else if q == Requirement::SingleFieldEnum {
                match r {
                    Ok(x) => x == q && exists|u| #[trigger] def.unary_outcome(Ok(u)),
                    Err(DeriveError::Shape(e)) => def.unary_outcome(Err(e)),
                    Err(_) => false,
                }
            } else {
                r == Ok::<Requirement, DeriveError>(q)
            },
            Target::Struct(def) => if for_enums(q) {
                r == Err::<Requirement, DeriveError>(DeriveError::WrongItemKind)
            } else if q == Requirement::Newtype && !(def.kind == StructKind::Tuple
                && def.fields@.len() == 1) {
                r == Err::<Requirement, DeriveError>(DeriveError::NotNewtype)
            } else {
                r == Ok::<Requirement, DeriveError>(q)
            },
        },
    }
}

/// Checks that the derivation `req` can run on the item `t`.
pub fn check_request(req: &DeriveRequest, t: &Target) -> (r: Result<Requirement, DeriveError>)
    ensures
        check_outcome(*req, *t, r),
{
    let q = match requirement_of(&req.name) {
        Some(q) => q,
        None => {
            return Err(DeriveError::Unknown);
        },
    };
    let enums = match q {
        Requirement::UnitOnlyEnum | Requirement::SingleFieldEnum | Requirement::AnyEnum => true,
        _ => false,
    };
    match t {
        Target::Enum(def) => {
            if !enums {
                return Err(DeriveError::WrongItemKind);
            }
            match q {
                Requirement::UnitOnlyEnum => match def.to_unitary() {
                    Ok(_) => Ok(q),
                    Err(e) => Err(DeriveError::Shape(e)),
                },
                Requirement::SingleFieldEnum => match def.to_unary() {
                    Ok(_) => Ok(q),
                    Err(e) => Err(DeriveError::Shape(e)),
                },
                _ => Ok(q),
            }
        },
        Target::Struct(def) => {
            if enums {
                return Err(DeriveError::WrongItemKind);
            }
            let is_newtype = match def.kind {
                StructKind::Tuple => def.fields.len() == 1,
                _ => false,
            };
            if q == Requirement::Newtype && !is_newtype {
                Err(DeriveError::NotNewtype)
            } else {
                Ok(q)
            }
        },
    }
}

/// A derivation for unit-only enums is refused on every enum with a variant
/// that carries a payload.
pub proof fn lemma_unit_only_rejects_payload(
    req: DeriveRequest,
    def: EnumDef,
    k: int,
    r: Result<Requirement, DeriveError>,
)
    requires
        requirement_spec(req.name@) == Some(Requirement::UnitOnlyEnum),
        0 <= k < def.variants@.len(),
        !(def.variants@[k].payload is Unit),
        check_outcome(req, Target::Enum(def), r),
    ensures
        r is Err,
{
    if let Ok(x) = r {
        let u = choose|u| #[trigger] def.unitary_outcome(Ok(u));
        lemma_payload_variant_rejected(def, k, Ok(u));
    }
}

} // verus!
