use vstd::prelude::*;

verus! {

/// Item kind from the search index, in rustdoc's own numbering.
#[derive(Debug, Clone, Copy, PartialEq, Eq, Structural)]
pub enum ItemType {
    MutRef,
    PrimitiveOrBuiltin,
    Module,
    ExternCrate,
    Import,
    Struct,
    Enum,
    Function,
    Typedef,
    Static,
    Trait,
    Impl,
    TyMethod,
    Method,
    StructField,
    Variant,
    Macro,
    Primitive,
    AssocConst,
    AssocType,
    Constant,
    Union,
    ForeignType,
    Keyword,
    OpaqueTy,
    ProcAttribute,
    ProcDerive,
    TraitAlias,
}

/// Number of item kinds; codes at or above it are not kinds.
pub const ITEM_TYPE_COUNT: u32 = 28;

/// The numeric code of each kind.
pub open spec fn code_of(k: ItemType) -> u32 {
    match k {
        ItemType::MutRef => 0,
        ItemType::PrimitiveOrBuiltin => 1,
        ItemType::Module => 2,
        ItemType::ExternCrate => 3,
        ItemType::Import => 4,
        ItemType::Struct => 5,
        ItemType::Enum => 6,
        ItemType::Function => 7,
        ItemType::Typedef => 8,
        ItemType::Static => 9,
        ItemType::Trait => 10,
        ItemType::Impl => 11,
        ItemType::TyMethod => 12,
        ItemType::Method => 13,
        ItemType::StructField => 14,
        ItemType::Variant => 15,
        ItemType::Macro => 16,
        ItemType::Primitive => 17,
        ItemType::AssocConst => 18,
        ItemType::AssocType => 19,
        ItemType::Constant => 20,
        ItemType::Union => 21,
        ItemType::ForeignType => 22,
        ItemType::Keyword => 23,
        ItemType::OpaqueTy => 24,
        ItemType::ProcAttribute => 25,
        ItemType::ProcDerive => 26,
        ItemType::TraitAlias => 27,
    }
}

/// The kind that an unknown code falls back to.
pub open spec fn fallback_kind() -> ItemType {
    ItemType::Module
}

/// What decoding a code gives: the kind with that code, or the fallback.
pub open spec fn kind_of_code(code: u32) -> ItemType {
    if code < ITEM_TYPE_COUNT {
        choose|k: ItemType| code_of(k) == code
    } else {
        fallback_kind()
    }
}

impl ItemType {
    /// The numeric code of this kind.
    pub fn code(&self) -> (r: u32)
        ensures
            r == code_of(*self),
    {
        match self {
            ItemType::MutRef => 0,
            ItemType::PrimitiveOrBuiltin => 1,
            ItemType::Module => 2,
            ItemType::ExternCrate => 3,
            ItemType::Import => 4,
            ItemType::Struct => 5,
            ItemType::Enum => 6,
            ItemType::Function => 7,
            ItemType::Typedef => 8,
            ItemType::Static => 9,
            ItemType::Trait => 10,
            ItemType::Impl => 11,
            ItemType::TyMethod => 12,
            ItemType::Method => 13,
            ItemType::StructField => 14,
            ItemType::Variant => 15,
            ItemType::Macro => 16,
            ItemType::Primitive => 17,
            ItemType::AssocConst => 18,
            ItemType::AssocType => 19,
            ItemType::Constant => 20,
            ItemType::Union => 21,
            ItemType::ForeignType => 22,
            ItemType::Keyword => 23,
            ItemType::OpaqueTy => 24,
            ItemType::ProcAttribute => 25,
            ItemType::ProcDerive => 26,
            ItemType::TraitAlias => 27,
        }
    }
}

/// Each kind's code is below the count, and no two kinds share a code.
pub proof fn lemma_code_injective(a: ItemType, b: ItemType)
    ensures
        code_of(a) < ITEM_TYPE_COUNT,
        code_of(a) == code_of(b) ==> a == b,
{
}

/// Decoding the code of a kind gives that kind back; every code at or above
/// the count decodes to the fallback kind.
pub proof fn lemma_decode_encode(k: ItemType, other: u32)
    ensures
        kind_of_code(code_of(k)) == k,
        other >= ITEM_TYPE_COUNT ==> kind_of_code(other) == fallback_kind(),
{
    let c = code_of(k);
    assert(code_of(k) == c);
    let j = choose|j: ItemType| code_of(j) == c;
    lemma_code_injective(j, k);
}

/// Decode a kind code; an unknown code gives the fallback kind.
pub fn decode_item_type(type_id: u32) -> (r: ItemType)
    ensures
        r == kind_of_code(type_id),
        type_id < ITEM_TYPE_COUNT ==> code_of(r) == type_id,
        type_id >= ITEM_TYPE_COUNT ==> r == fallback_kind(),
{
    let r = match type_id {
        0 => ItemType::MutRef,
        1 => ItemType::PrimitiveOrBuiltin,
        2 => ItemType::Module,
        3 => ItemType::ExternCrate,
        4 => ItemType::Import,
        5 => ItemType::Struct,
        6 => ItemType::Enum,
        7 => ItemType::Function,
        8 => ItemType::Typedef,
        9 => ItemType::Static,
        10 => ItemType::Trait,
        11 => ItemType::Impl,
        12 => ItemType::TyMethod,
        13 => ItemType::Method,
        14 => ItemType::StructField,
        15 => ItemType::Variant,
        16 => ItemType::Macro,
        17 => ItemType::Primitive,
        18 => ItemType::AssocConst,
        19 => ItemType::AssocType,
        20 => ItemType::Constant,
        21 => ItemType::Union,
        22 => ItemType::ForeignType,
        23 => ItemType::Keyword,
        24 => ItemType::OpaqueTy,
        25 => ItemType::ProcAttribute,
        26 => ItemType::ProcDerive,
        27 => ItemType::TraitAlias,
        _ => ItemType::Module,
    };
    proof {
        lemma_decode_encode(r, type_id);
    }
    r
}

} // verus!
