//! Rust source text of the bindings generated for a contract's ABI: field
//! types, defaults, SimplicityHL type constructors, and the conversions
//! between Rust values and SimplicityHL values.
use vstd::prelude::*;

use crate::rust_type::{
    enum_names, types_enum_names, variants_enum_names, context_name, deref_needed, escaped_name, has_enum, lemma_rtypes_view, lemma_rvariants_view, renum_view,
    rtype_view, rtypes_view, rvariant_view, rvariants_view, variant_names, RustEnum,
    RustEnumModel, RustType, RustTypeContext, RustTypeModel, RustVariantModel,
};
use crate::hl_type::{uint_text, TypeModel, UIntType};
use crate::rust_type::{rust_type_of, rust_types_of};
use crate::text::{decimal_text, usize_to_decimal};

verus! {

/// A name written as a raw identifier.
pub open spec fn raw_ident(n: Seq<char>) -> Seq<char> {
    "r#"@ + n
}

/// A string literal holding `s`.
pub open spec fn quoted(s: Seq<char>) -> Seq<char> {
    "\""@ + s + "\""@
}

/// `s` written as a string literal.
pub fn quote_str(s: &str) -> (r: String)
    ensures
        r@ == quoted(s@),
{
    let mut out = String::from_str("\"");
    out.append(s);
    out.append("\"");
    assert(out@ =~= quoted(s@));
    out
}

/// `n` written as a raw identifier.
pub fn raw_ident_str(n: &str) -> (r: String)
    ensures
        r@ == raw_ident(n@),
{
    let mut out = String::from_str("r#");
    out.append(n);
    out
}

/// The Rust type of a field or payload; enums are named through `prefix`.
pub open spec fn type_tokens(t: RustTypeModel, prefix: Seq<char>) -> Seq<char>
    decreases t,
{
    match t {
        RustTypeModel::Bool => "bool"@,
        RustTypeModel::U1 => "u8"@,
        RustTypeModel::U2 => "u8"@,
        RustTypeModel::U4 => "u8"@,
        RustTypeModel::U8 => "u8"@,
        RustTypeModel::U16 => "u16"@,
        RustTypeModel::U32 => "u32"@,
        RustTypeModel::U64 => "u64"@,
        RustTypeModel::U128 => "u128"@,
        RustTypeModel::U256Array => "[u8; 32]"@,
        RustTypeModel::Array(e, n) => "["@ + type_tokens(*e, prefix) + "; "@ + decimal_text(n)
            + "]"@,
        RustTypeModel::Tuple(es) => "("@ + types_tokens(es, prefix) + ")"@,
        RustTypeModel::Either(l, r) => "::simplex::either::Either<"@ + type_tokens(*l, prefix)
            + ", "@ + type_tokens(*r, prefix) + ">"@,
        RustTypeModel::Option(x) => "::std::option::Option<"@ + type_tokens(*x, prefix) + ">"@,
        RustTypeModel::List(e, _) => "::std::vec::Vec<"@ + type_tokens(*e, prefix) + ">"@,
        RustTypeModel::Enum(def) => prefix + raw_ident(def.rust_name),
    }
}

/// The Rust types of `s`, separated by `", "`.
pub open spec fn types_tokens(s: Seq<RustTypeModel>, prefix: Seq<char>) -> Seq<char>
    decreases s,
{
    if s.len() == 0 {
        Seq::empty()
    } else if s.len() == 1 {
        type_tokens(s[0], prefix)
    } else {
        types_tokens(s.drop_last(), prefix) + ", "@ + type_tokens(s.last(), prefix)
    }
}

/// The expression that builds the SimplicityHL type of a binding type.
pub open spec fn type_construction(t: RustTypeModel) -> Seq<char>
    decreases t,
{
    match t {
        RustTypeModel::Bool => "ResolvedType::boolean()"@,
        RustTypeModel::U1 => "ResolvedType::u1()"@,
        RustTypeModel::U2 => "ResolvedType::u2()"@,
        RustTypeModel::U4 => "ResolvedType::u4()"@,
        RustTypeModel::U8 => "ResolvedType::u8()"@,
        RustTypeModel::U16 => "ResolvedType::u16()"@,
        RustTypeModel::U32 => "ResolvedType::u32()"@,
        RustTypeModel::U64 => "ResolvedType::u64()"@,
        RustTypeModel::U128 => "ResolvedType::u128()"@,
        RustTypeModel::U256Array => "ResolvedType::u256()"@,
        RustTypeModel::Array(e, n) => "ResolvedType::array("@ + type_construction(*e) + ", "@
            + decimal_text(n) + ")"@,
        RustTypeModel::Tuple(es) => "ResolvedType::tuple(["@ + types_construction(es) + "])"@,
        RustTypeModel::Either(l, r) => "ResolvedType::either("@ + type_construction(*l) + ", "@
            + type_construction(*r) + ")"@,
        RustTypeModel::Option(x) => "ResolvedType::option("@ + type_construction(*x) + ")"@,
        RustTypeModel::List(e, n) => "ResolvedType::list("@ + type_construction(*e)
            + ", NonZeroPow2Usize::new("@ + decimal_text(n)
            + ").ok_or_else(|| format!(\"Failed to create non zero pow2 length, got size: '{}'\", "@
            + decimal_text(n) + ")).unwrap())"@,
        RustTypeModel::Enum(def) => "enum_type("@ + quoted(def.name) + ")"@,
    }
}

/// The type constructions of `s`, separated by `", "`.
pub open spec fn types_construction(s: Seq<RustTypeModel>) -> Seq<char>
    decreases s,
{
    if s.len() == 0 {
        Seq::empty()
    } else if s.len() == 1 {
        type_construction(s[0])
    } else {
        types_construction(s.drop_last()) + ", "@ + type_construction(s.last())
    }
}

/// Whether every enum reachable from the type has a variant.
pub open spec fn inhabited(t: RustTypeModel) -> bool
    decreases t,
{
    match t {
        RustTypeModel::Array(e, _) => inhabited(*e),
        RustTypeModel::Option(e) => inhabited(*e),
        RustTypeModel::List(e, _) => inhabited(*e),
        RustTypeModel::Either(l, r) => inhabited(*l) && inhabited(*r),
        RustTypeModel::Tuple(es) => types_inhabited(es),
        RustTypeModel::Enum(def) => def.variants.len() > 0 && variants_inhabited(def.variants),
        _ => true,
    }
}

pub open spec fn types_inhabited(s: Seq<RustTypeModel>) -> bool
    decreases s,
{
    s.len() == 0 || (types_inhabited(s.drop_last()) && inhabited(s.last()))
}

pub open spec fn variants_inhabited(s: Seq<RustVariantModel>) -> bool
    decreases s,
{
    s.len() == 0 || (variants_inhabited(s.drop_last()) && types_inhabited(s.last().payload))
}

/// The path of a variant of a generated enum, as bindings outside the
/// `enums` module write it.
pub open spec fn variant_path(rust_name: Seq<char>, variant_ident: Seq<char>) -> Seq<char> {
    "super::enums::"@ + raw_ident(rust_name) + "::"@ + raw_ident(variant_ident)
}

/// The Rust spelling of the `j`-th variant of an enum.
pub open spec fn variant_ident_of(variants: Seq<RustVariantModel>, j: int) -> Seq<char> {
    escaped_name(variants[j].name, variant_names(variants))
}

/// The default value of a binding type: `Default::default()` where Rust has
/// one, the left branch of an `Either`, and an enum's first variant.
pub open spec fn default_value(t: RustTypeModel) -> Seq<char>
    decreases t,
{
    match t {
        RustTypeModel::U256Array => "[Default::default(); 32]"@,
        RustTypeModel::Array(e, _) => "::std::array::from_fn(|_| "@ + default_value(*e) + ")"@,
        RustTypeModel::Tuple(es) => "("@ + types_default_values(es) + ")"@,
        RustTypeModel::Either(l, _) => "::simplex::either::Either::Left("@ + default_value(*l)
            + ")"@,
        RustTypeModel::Enum(def) => {
            let path = variant_path(def.rust_name, variant_ident_of(def.variants, 0));
            if def.variants.len() == 0 || def.variants[0].payload.len() == 0 {
                path
            } else {
                path + "("@ + types_default_values(def.variants[0].payload) + ")"@
            }
        },
        _ => "Default::default()"@,
    }
}

/// The default values of `s`, separated by `", "`.
pub open spec fn types_default_values(s: Seq<RustTypeModel>) -> Seq<char>
    decreases s,
{
    if s.len() == 0 {
        Seq::empty()
    } else if s.len() == 1 {
        default_value(s[0])
    } else {
        types_default_values(s.drop_last()) + ", "@ + default_value(s.last())
    }
}

#[verifier::loop_isolation(false)]
fn types_tokens_exec(es: &Vec<RustType>, prefix: &str) -> (r: String)
    ensures
        r@ == types_tokens(rtypes_view(es@), prefix@),
    decreases es,
{
    proof {
        lemma_rtypes_view(es@);
    }
    let ghost tv = rtypes_view(es@);
    let mut s = String::new();
    let mut i: usize = 0;
    while i < es.len()
        invariant
            i <= es.len(),
            s@ == types_tokens(tv.take(i as int), prefix@),
        decreases es.len() - i,
    {
        proof {
            broadcast use vstd::std_specs::vec::axiom_vec_index_decreases;
            assert(decreases_to!(*es => es[i as int]));
            assert(tv.take(i + 1).drop_last() =~= tv.take(i as int));
        }
        if i > 0 {
            s.append(", ");
        }
        let t = es[i].to_type_token_stream_with_enum_prefix(prefix);
        s.append(t.as_str());
        proof {
            if i == 0 {
                assert(s@ =~= type_tokens(tv.take(1)[0], prefix@));
            }
        }
        i += 1;
    }
    assert(tv.take(es.len() as int) =~= tv);
    s
}

#[verifier::loop_isolation(false)]
fn types_construction_exec(es: &Vec<RustType>) -> (r: String)
    ensures
        r@ == types_construction(rtypes_view(es@)),
    decreases es,
{
    proof {
        lemma_rtypes_view(es@);
    }
    let ghost tv = rtypes_view(es@);
    let mut s = String::new();
    let mut i: usize = 0;
    while i < es.len()
        invariant
            i <= es.len(),
            s@ == types_construction(tv.take(i as int)),
        decreases es.len() - i,
    {
        proof {
            broadcast use vstd::std_specs::vec::axiom_vec_index_decreases;
            assert(decreases_to!(*es => es[i as int]));
            assert(tv.take(i + 1).drop_last() =~= tv.take(i as int));
        }
        if i > 0 {
            s.append(", ");
        }
        let t = es[i].generate_simplicity_type_construction();
        s.append(t.as_str());
        proof {
            if i == 0 {
                assert(s@ =~= type_construction(tv.take(1)[0]));
            }
        }
        i += 1;
    }
    assert(tv.take(es.len() as int) =~= tv);
    s
}

proof fn lemma_types_inhabited(s: Seq<RustTypeModel>)
    requires
        types_inhabited(s),
    ensures
        forall|i: int| 0 <= i < s.len() ==> inhabited(#[trigger] s[i]),
    decreases s.len(),
{
    if s.len() > 0 {
        lemma_types_inhabited(s.drop_last());
        assert forall|i: int| 0 <= i < s.len() implies inhabited(#[trigger] s[i]) by {
            if i < s.len() - 1 {
                assert(s.drop_last()[i] == s[i]);
            }
        }
    }
}

proof fn lemma_variants_inhabited(s: Seq<RustVariantModel>)
    requires
        variants_inhabited(s),
    ensures
        forall|i: int| 0 <= i < s.len() ==> types_inhabited(#[trigger] s[i].payload),
    decreases s.len(),
{
    if s.len() > 0 {
        lemma_variants_inhabited(s.drop_last());
        assert forall|i: int| 0 <= i < s.len() implies types_inhabited(#[trigger] s[i].payload) by {
            if i < s.len() - 1 {
                assert(s.drop_last()[i] == s[i]);
            }
        }
    }
}

#[verifier::loop_isolation(false)]
fn types_default_values_exec(es: &Vec<RustType>) -> (r: String)
    requires
        types_inhabited(rtypes_view(es@)),
    ensures
        r@ == types_default_values(rtypes_view(es@)),
    decreases es,
{
    proof {
        lemma_rtypes_view(es@);
        lemma_types_inhabited(rtypes_view(es@));
    }
    let ghost tv = rtypes_view(es@);
    let mut s = String::new();
    let mut i: usize = 0;
    while i < es.len()
        invariant
            i <= es.len(),
            s@ == types_default_values(tv.take(i as int)),
        decreases es.len() - i,
    {
        proof {
            broadcast use vstd::std_specs::vec::axiom_vec_index_decreases;
            assert(decreases_to!(*es => es[i as int]));
            assert(tv.take(i + 1).drop_last() =~= tv.take(i as int));
            assert(inhabited(tv[i as int]));
        }
        if i > 0 {
            s.append(", ");
        }
        let t = es[i].get_default_value();
        s.append(t.as_str());
        proof {
            if i == 0 {
                assert(s@ =~= default_value(tv.take(1)[0]));
            }
        }
        i += 1;
    }
    assert(tv.take(es.len() as int) =~= tv);
    s
}

impl RustEnum {
    /// The path of the `j`-th variant, as bindings outside the `enums`
    /// module write it.
    pub fn variant_path(&self, j: usize) -> (r: String)
        requires
            j < self.variants@.len(),
        ensures
            r@ == variant_path(self@.rust_name, variant_ident_of(self@.variants, j as int)),
    {
        proof {
            lemma_rvariants_view(self.variants@);
        }
        let mut s = String::from_str("super::enums::");
        let rn = raw_ident_str(self.rust_name.as_str());
        s.append(rn.as_str());
        s.append("::");
        let vi = self.variant_ident(j);
        let rv = raw_ident_str(vi.as_str());
        s.append(rv.as_str());
        assert(s@ =~= variant_path(self@.rust_name, variant_ident_of(self@.variants, j as int)));
        s
    }
}

impl RustType {
    /// The Rust type of a field of a generated struct, naming enums in the
    /// `enums` module.
    pub fn to_type_token_stream(&self) -> (r: String)
        ensures
            r@ == type_tokens(self@, "super::enums::"@),
    {
        self.to_type_token_stream_with_enum_prefix("super::enums::")
    }

    /// The Rust type, naming enums through `enum_prefix`.
    pub fn to_type_token_stream_with_enum_prefix(&self, enum_prefix: &str) -> (r: String)
        ensures
            r@ == type_tokens(self@, enum_prefix@),
        decreases self,
    {
        match self {
            RustType::Bool => String::from_str("bool"),
            RustType::U1 => String::from_str("u8"),
            RustType::U2 => String::from_str("u8"),
            RustType::U4 => String::from_str("u8"),
            RustType::U8 => String::from_str("u8"),
            RustType::U16 => String::from_str("u16"),
            RustType::U32 => String::from_str("u32"),
            RustType::U64 => String::from_str("u64"),
            RustType::U128 => String::from_str("u128"),
            RustType::U256Array => String::from_str("[u8; 32]"),
            RustType::Array(element, size) => {
                let mut s = String::from_str("[");
                let et = element.to_type_token_stream_with_enum_prefix(enum_prefix);
                s.append(et.as_str());
                s.append("; ");
                let n = usize_to_decimal(*size);
                s.append(n.as_str());
                s.append("]");
                assert(s@ =~= "["@ + type_tokens(element@, enum_prefix@) + "; "@ + decimal_text(
                    *size as nat,
                ) + "]"@);
                s
            },
            RustType::Tuple(elements) => {
                let mut s = String::from_str("(");
                let inner = types_tokens_exec(elements, enum_prefix);
                s.append(inner.as_str());
                s.append(")");
                assert(s@ =~= "("@ + types_tokens(rtypes_view(elements@), enum_prefix@) + ")"@);
                s
            },
            RustType::Either(left, right) => {
                let mut s = String::from_str("::simplex::either::Either<");
                let lt = left.to_type_token_stream_with_enum_prefix(enum_prefix);
                s.append(lt.as_str());
                s.append(", ");
                let rt = right.to_type_token_stream_with_enum_prefix(enum_prefix);
                s.append(rt.as_str());
                s.append(">");
                assert(s@ =~= "::simplex::either::Either<"@ + type_tokens(left@, enum_prefix@)
                    + ", "@ + type_tokens(right@, enum_prefix@) + ">"@);
                s
            },
            RustType::Option(inner) => {
                let mut s = String::from_str("::std::option::Option<");
                let it = inner.to_type_token_stream_with_enum_prefix(enum_prefix);
                s.append(it.as_str());
                s.append(">");
                assert(s@ =~= "::std::option::Option<"@ + type_tokens(inner@, enum_prefix@)
                    + ">"@);
                s
            },
            RustType::List(element, _size) => {
                let mut s = String::from_str("::std::vec::Vec<");
                let et = element.to_type_token_stream_with_enum_prefix(enum_prefix);
                s.append(et.as_str());
                s.append(">");
                assert(s@ =~= "::std::vec::Vec<"@ + type_tokens(element@, enum_prefix@) + ">"@);
                s
            },
            RustType::Enum(def) => {
                assert(self@ == RustTypeModel::Enum(renum_view(*def)));
                let mut s = String::from_str(enum_prefix);
                let rn = raw_ident_str(def.rust_name.as_str());
                s.append(rn.as_str());
                s
            },
        }
    }

    /// The expression that builds the type's SimplicityHL type in generated
    /// code; enum types are looked up by name.
    pub fn generate_simplicity_type_construction(&self) -> (r: String)
        ensures
            r@ == type_construction(self@),
        decreases self,
    {
        match self {
            RustType::Bool => String::from_str("ResolvedType::boolean()"),
            RustType::U1 => String::from_str("ResolvedType::u1()"),
            RustType::U2 => String::from_str("ResolvedType::u2()"),
            RustType::U4 => String::from_str("ResolvedType::u4()"),
            RustType::U8 => String::from_str("ResolvedType::u8()"),
            RustType::U16 => String::from_str("ResolvedType::u16()"),
            RustType::U32 => String::from_str("ResolvedType::u32()"),
            RustType::U64 => String::from_str("ResolvedType::u64()"),
            RustType::U128 => String::from_str("ResolvedType::u128()"),
            RustType::U256Array => String::from_str("ResolvedType::u256()"),
            RustType::Array(element, size) => {
                let mut s = String::from_str("ResolvedType::array(");
                let et = element.generate_simplicity_type_construction();
                s.append(et.as_str());
                s.append(", ");
                let n = usize_to_decimal(*size);
                s.append(n.as_str());
                s.append(")");
                assert(s@ =~= "ResolvedType::array("@ + type_construction(element@) + ", "@
                    + decimal_text(*size as nat) + ")"@);
                s
            },
            RustType::Tuple(elements) => {
                let mut s = String::from_str("ResolvedType::tuple([");
                let inner = types_construction_exec(elements);
                s.append(inner.as_str());
                s.append("])");
                assert(s@ =~= "ResolvedType::tuple(["@ + types_construction(rtypes_view(elements@))
                    + "])"@);
                s
            },
            RustType::Either(left, right) => {
                let mut s = String::from_str("ResolvedType::either(");
                let lt = left.generate_simplicity_type_construction();
                s.append(lt.as_str());
                s.append(", ");
                let rt = right.generate_simplicity_type_construction();
                s.append(rt.as_str());
                s.append(")");
                assert(s@ =~= "ResolvedType::either("@ + type_construction(left@) + ", "@
                    + type_construction(right@) + ")"@);
                s
            },
            RustType::Option(inner) => {
                let mut s = String::from_str("ResolvedType::option(");
                let it = inner.generate_simplicity_type_construction();
                s.append(it.as_str());
                s.append(")");
                assert(s@ =~= "ResolvedType::option("@ + type_construction(inner@) + ")"@);
                s
            },
            RustType::List(element, size) => {
                let mut s = String::from_str("ResolvedType::list(");
                let et = element.generate_simplicity_type_construction();
                s.append(et.as_str());
                s.append(", NonZeroPow2Usize::new(");
                let n = usize_to_decimal(*size);
                s.append(n.as_str());
                s.append(
                    ").ok_or_else(|| format!(\"Failed to create non zero pow2 length, got size: '{}'\", ",
                );
                s.append(n.as_str());
                s.append(")).unwrap())");
                assert(s@ =~= "ResolvedType::list("@ + type_construction(element@)
                    + ", NonZeroPow2Usize::new("@ + decimal_text(*size as nat)
                    + ").ok_or_else(|| format!(\"Failed to create non zero pow2 length, got size: '{}'\", "@
                    + decimal_text(*size as nat) + ")).unwrap())"@);
                s
            },
            RustType::Enum(def) => {
                assert(self@ == RustTypeModel::Enum(renum_view(*def)));
                let mut s = String::from_str("enum_type(");
                let q = quote_str(def.name.as_str());
                s.append(q.as_str());
                s.append(")");
                assert(s@ =~= "enum_type("@ + quoted(def.name@) + ")"@);
                s
            },
        }
    }

    /// The expression for the type's default value in generated code.
    pub fn get_default_value(&self) -> (r: String)
        requires
            inhabited(self@),
        ensures
            r@ == default_value(self@),
        decreases self,
    {
        match self {
            RustType::U256Array => String::from_str("[Default::default(); 32]"),
            RustType::Array(element, _size) => {
                let mut s = String::from_str("::std::array::from_fn(|_| ");
                let et = element.get_default_value();
                s.append(et.as_str());
                s.append(")");
                assert(s@ =~= "::std::array::from_fn(|_| "@ + default_value(element@) + ")"@);
                s
            },
            RustType::Tuple(elements) => {
                let mut s = String::from_str("(");
                let inner = types_default_values_exec(elements);
                s.append(inner.as_str());
                s.append(")");
                assert(s@ =~= "("@ + types_default_values(rtypes_view(elements@)) + ")"@);
                s
            },
            RustType::Either(left, _) => {
                let mut s = String::from_str("::simplex::either::Either::Left(");
                let lt = left.get_default_value();
                s.append(lt.as_str());
                s.append(")");
                assert(s@ =~= "::simplex::either::Either::Left("@ + default_value(left@) + ")"@);
                s
            },
            RustType::Enum(def) => {
                assert(self@ == RustTypeModel::Enum(renum_view(*def)));
                proof {
                    lemma_rvariants_view(def.variants@);
                    lemma_variants_inhabited(renum_view(*def).variants);
                    assert(rvariants_view(def.variants@)[0] == rvariant_view(def.variants@[0]));
                    assert(types_inhabited(renum_view(*def).variants[0].payload));
                }
                let mut s = def.variant_path(0);
                let first = &def.variants[0];
                if first.payload.len() > 0 {
                    proof {
                        lemma_rtypes_view(first.payload@);
                    }
                    s.append("(");
                    let inner = types_default_values_exec(&first.payload);
                    s.append(inner.as_str());
                    s.append(")");
                    assert(s@ =~= variant_path(
                        def@.rust_name,
                        variant_ident_of(def@.variants, 0),
                    ) + "("@ + types_default_values(rtypes_view(first.payload@)) + ")"@);
                } else {
                    proof {
                        lemma_rtypes_view(first.payload@);
                    }
                }
                s
            },
            _ => String::from_str("Default::default()"),
        }
    }
}

/// `*` where a value in context `prev` is reached through a reference.
pub open spec fn deref_text(prev: Option<RustTypeContext>) -> Seq<char> {
    match prev {
        Some(c) => if deref_needed(c) {
            "*"@
        } else {
            Seq::empty()
        },
        None => Seq::empty(),
    }
}

/// `expr[i]`.
pub open spec fn index_expr(e: Seq<char>, i: nat) -> Seq<char> {
    e + "["@ + decimal_text(i) + "]"@
}

/// `expr.i`.
pub open spec fn field_expr(e: Seq<char>, i: nat) -> Seq<char> {
    e + "."@ + decimal_text(i)
}

/// `payload_i`.
pub open spec fn payload_binding(i: nat) -> Seq<char> {
    "payload_"@ + decimal_text(i)
}

/// The conversion of a `u1`, `u2` or `u4` field, which fails when the
/// value does not fit.
pub open spec fn small_uint_value(ctor: Seq<char>, kind: Seq<char>, d: Seq<char>, e: Seq<char>) -> Seq<char> {
    "Value::from(UIntValue::"@ + ctor + "("@ + d + e
        + ").map_err(|_e| format!(\"Failed to create "@ + kind
        + " type, got: '{}', [value size in bits: '{}']\", "@ + e
        + ".checked_ilog2().unwrap_or_default(), "@ + e + ")).unwrap())"@
}

/// The conversion of an integer field that always fits.
pub open spec fn uint_value(ctor: Seq<char>, d: Seq<char>, e: Seq<char>) -> Seq<char> {
    "Value::from(UIntValue::"@ + ctor + "("@ + d + e + "))"@
}

/// The expression that converts the Rust value `e` of a binding type into a
/// SimplicityHL `Value`; `prev` is the context that `e` sits in.
pub open spec fn value_conversion(t: RustTypeModel, e: Seq<char>, prev: Option<RustTypeContext>) -> Seq<char>
    decreases t, 0nat,
{
    let d = deref_text(prev);
    match t {
        RustTypeModel::Bool => "Value::from("@ + d + e + ")"@,
        RustTypeModel::U1 => small_uint_value("u1"@, "U1"@, d, e),
        RustTypeModel::U2 => small_uint_value("u2"@, "U2"@, d, e),
        RustTypeModel::U4 => small_uint_value("u4"@, "U4"@, d, e),
        RustTypeModel::U8 => uint_value("U8"@, d, e),
        RustTypeModel::U16 => uint_value("U16"@, d, e),
        RustTypeModel::U32 => uint_value("U32"@, d, e),
        RustTypeModel::U64 => uint_value("U64"@, d, e),
        RustTypeModel::U128 => uint_value("U128"@, d, e),
        RustTypeModel::U256Array => "Value::from(UIntValue::U256(U256::from_byte_array("@ + d + e
            + ")))"@,
        RustTypeModel::Array(el, n) => "{ let elements = ["@ + array_value_conversions(*el, e, n)
            + "]; Value::array(elements, "@ + type_construction(*el) + ") }"@,
        RustTypeModel::Tuple(es) => if es.len() == 0 {
            "Value::unit()"@
        } else {
            "Value::tuple(["@ + tuple_value_conversions(es, e, es.len()) + "])"@
        },
        RustTypeModel::Either(l, r) => "match &"@ + e
            + " { ::simplex::either::Either::Left(left_val) => { Value::left("@ + value_conversion(
            *l,
            "left_val"@,
            Some(RustTypeContext::EitherLeft),
        ) + ", "@ + type_construction(*r)
            + ") } ::simplex::either::Either::Right(right_val) => { Value::right("@
            + type_construction(*l) + ", "@ + value_conversion(
            *r,
            "right_val"@,
            Some(RustTypeContext::EitherRight),
        ) + ") } }"@,
        RustTypeModel::Option(x) => "match &"@ + e + " { None => { Value::none("@
            + type_construction(*x) + ") } Some(inner_val) => { Value::some("@ + value_conversion(
            *x,
            "inner_val"@,
            Some(RustTypeContext::Option),
        ) + ") } }"@,
        RustTypeModel::List(el, n) => "{ let elements = "@ + e + ".iter().map(|x| "@
            + value_conversion(*el, "x"@, Some(RustTypeContext::List))
            + ").collect::<Vec<_>>(); let non_zero_pow2_size = NonZeroPow2Usize::new("@
            + decimal_text(n)
            + ").ok_or_else(|| format!(\"Failed to create non zero pow2 length, got size: '{}'\", "@
            + decimal_text(n)
            + ")).unwrap(); assert!(elements.len() < non_zero_pow2_size.get(), \"There must be fewer list elements than the bound '{}'\", non_zero_pow2_size.get()); Value::list(elements, "@
            + type_construction(*el) + ", non_zero_pow2_size) }"@,
        RustTypeModel::Enum(def) => "match &"@ + e + " { "@ + enum_value_arms(def, def.variants.len())
            + " }"@,
    }
}

/// The conversions of the first `k` elements of an array `e`, separated by
/// `", "`.
pub open spec fn array_value_conversions(el: RustTypeModel, e: Seq<char>, k: nat) -> Seq<char>
    decreases el, k,
{
    if k == 0 {
        Seq::empty()
    } else if k == 1 {
        value_conversion(el, index_expr(e, 0), Some(RustTypeContext::Array))
    } else {
        array_value_conversions(el, e, (k - 1) as nat) + ", "@ + value_conversion(
            el,
            index_expr(e, (k - 1) as nat),
            Some(RustTypeContext::Array),
        )
    }
}

/// The conversions of the first `k` fields of a tuple `e`, separated by
/// `", "`.
pub open spec fn tuple_value_conversions(es: Seq<RustTypeModel>, e: Seq<char>, k: nat) -> Seq<char>
    decreases es, k,
{
    if k == 0 || k > es.len() {
        Seq::empty()
    } else if k == 1 {
        value_conversion(es[0], field_expr(e, 0), Some(RustTypeContext::Tuple))
    } else {
        tuple_value_conversions(es, e, (k - 1) as nat) + ", "@ + value_conversion(
            es[k - 1],
            field_expr(e, (k - 1) as nat),
            Some(RustTypeContext::Tuple),
        )
    }
}

/// The bindings `payload_0, payload_1, ...` of the first `k` payload values.
pub open spec fn payload_bindings(k: nat) -> Seq<char>
    decreases k,
{
    if k == 0 {
        Seq::empty()
    } else if k == 1 {
        payload_binding(0)
    } else {
        payload_bindings((k - 1) as nat) + ", "@ + payload_binding((k - 1) as nat)
    }
}

/// The conversions of the first `k` payload values of a variant.
pub open spec fn payload_value_conversions(ps: Seq<RustTypeModel>, k: nat) -> Seq<char>
    decreases ps, k,
{
    if k == 0 || k > ps.len() {
        Seq::empty()
    } else if k == 1 {
        value_conversion(ps[0], payload_binding(0), Some(RustTypeContext::EnumVariant))
    } else {
        payload_value_conversions(ps, (k - 1) as nat) + ", "@ + value_conversion(
            ps[k - 1],
            payload_binding((k - 1) as nat),
            Some(RustTypeContext::EnumVariant),
        )
    }
}

/// The match arm that converts the `j`-th variant of an enum.
pub open spec fn enum_value_arm(def: RustEnumModel, j: nat) -> Seq<char>
    decreases def, 0nat,
{
    if j < def.variants.len() {
        let v = def.variants[j as int];
        let head = variant_path(def.rust_name, variant_ident_of(def.variants, j as int));
        let open = " => Value::enum_variant(&"@ + type_construction(RustTypeModel::Enum(def))
            + ", &Identifier::from_str_unchecked("@ + quoted(v.name) + "), "@;
        let close = ").unwrap_or_else(|| panic!(\"Failed to construct enum variant '{}::{}'\", "@
            + quoted(def.name) + ", "@ + quoted(v.name) + "))"@;
        if v.payload.len() == 0 {
            head + open + "Vec::new()"@ + close
        } else {
            head + "("@ + payload_bindings(v.payload.len()) + ")"@ + open + "vec!["@
                + payload_value_conversions(v.payload, v.payload.len()) + "]"@ + close
        }
    } else {
        Seq::empty()
    }
}

/// The match arms converting the first `k` variants, separated by `", "`.
pub open spec fn enum_value_arms(def: RustEnumModel, k: nat) -> Seq<char>
    decreases def, k + 1,
{
    if k == 0 {
        Seq::empty()
    } else if k == 1 {
        enum_value_arm(def, 0)
    } else {
        enum_value_arms(def, (k - 1) as nat) + ", "@ + enum_value_arm(def, (k - 1) as nat)
    }
}

/// The `*` that dereferences a value in context `prev`, if it needs one.
pub fn deref_str(prev: Option<RustTypeContext>) -> (r: &'static str)
    ensures
        r@ == deref_text(prev),
{
    match prev {
        Some(c) => if c.is_deref_needed() {
            "*"
        } else {
            proof {
                reveal_strlit("");
            }
            ""
        },
        None => {
            proof {
                reveal_strlit("");
            }
            ""
        },
    }
}

/// `e[i]`.
pub fn index_expr_exec(e: &str, i: usize) -> (r: String)
    ensures
        r@ == index_expr(e@, i as nat),
{
    let mut s = String::from_str(e);
    s.append("[");
    let n = usize_to_decimal(i);
    s.append(n.as_str());
    s.append("]");
    assert(s@ =~= index_expr(e@, i as nat));
    s
}

/// `e.i`.
pub fn field_expr_exec(e: &str, i: usize) -> (r: String)
    ensures
        r@ == field_expr(e@, i as nat),
{
    let mut s = String::from_str(e);
    s.append(".");
    let n = usize_to_decimal(i);
    s.append(n.as_str());
    assert(s@ =~= field_expr(e@, i as nat));
    s
}

/// `payload_i`.
pub fn payload_binding_exec(i: usize) -> (r: String)
    ensures
        r@ == payload_binding(i as nat),
{
    let mut s = String::from_str("payload_");
    let n = usize_to_decimal(i);
    s.append(n.as_str());
    s
}

fn small_uint_value_exec(ctor: &str, kind: &str, d: &str, e: &str) -> (r: String)
    ensures
        r@ == small_uint_value(ctor@, kind@, d@, e@),
{
    let mut s = String::from_str("Value::from(UIntValue::");
    s.append(ctor);
    s.append("(");
    s.append(d);
    s.append(e);
    s.append(").map_err(|_e| format!(\"Failed to create ");
    s.append(kind);
    s.append(" type, got: '{}', [value size in bits: '{}']\", ");
    s.append(e);
    s.append(".checked_ilog2().unwrap_or_default(), ");
    s.append(e);
    s.append(")).unwrap())");
    assert(s@ =~= small_uint_value(ctor@, kind@, d@, e@));
    s
}

fn uint_value_exec(ctor: &str, d: &str, e: &str) -> (r: String)
    ensures
        r@ == uint_value(ctor@, d@, e@),
{
    let mut s = String::from_str("Value::from(UIntValue::");
    s.append(ctor);
    s.append("(");
    s.append(d);
    s.append(e);
    s.append("))");
    assert(s@ =~= uint_value(ctor@, d@, e@));
    s
}

/// The bindings `payload_0, ..., payload_{k-1}`.
pub fn payload_bindings_exec(k: usize) -> (r: String)
    ensures
        r@ == payload_bindings(k as nat),
{
    let mut s = String::new();
    let mut i: usize = 0;
    while i < k
        invariant
            i <= k,
            s@ == payload_bindings(i as nat),
        decreases k - i,
    {
        if i > 0 {
            s.append(", ");
        }
        let b = payload_binding_exec(i);
        s.append(b.as_str());
        assert(s@ =~= payload_bindings((i + 1) as nat));
        i += 1;
    }
    s
}

#[verifier::loop_isolation(false)]
fn array_value_conversions_exec(el: &RustType, e: &str, n: usize) -> (r: String)
    ensures
        r@ == array_value_conversions(el@, e@, n as nat),
    decreases el, 1nat,
{
    let mut s = String::new();
    let mut i: usize = 0;
    while i < n
        invariant
            i <= n,
            s@ == array_value_conversions(el@, e@, i as nat),
        decreases n - i,
    {
        if i > 0 {
            s.append(", ");
        }
        let ie = index_expr_exec(e, i);
        let c = el.generate_to_simplicity_conversion_inner(
            ie.as_str(),
            Some(RustTypeContext::Array),
        );
        s.append(c.as_str());
        assert(s@ =~= array_value_conversions(el@, e@, (i + 1) as nat));
        i += 1;
    }
    s
}

#[verifier::loop_isolation(false)]
fn tuple_value_conversions_exec(es: &Vec<RustType>, e: &str) -> (r: String)
    ensures
        r@ == tuple_value_conversions(rtypes_view(es@), e@, es@.len()),
    decreases es, 0nat,
{
    proof {
        lemma_rtypes_view(es@);
    }
    let ghost tv = rtypes_view(es@);
    let mut s = String::new();
    let mut i: usize = 0;
    while i < es.len()
        invariant
            i <= es.len(),
            s@ == tuple_value_conversions(tv, e@, i as nat),
        decreases es.len() - i,
    {
        proof {
            broadcast use vstd::std_specs::vec::axiom_vec_index_decreases;
            assert(decreases_to!(*es => es[i as int]));
        }
        if i > 0 {
            s.append(", ");
        }
        let fe = field_expr_exec(e, i);
        let c = es[i].generate_to_simplicity_conversion_inner(
            fe.as_str(),
            Some(RustTypeContext::Tuple),
        );
        s.append(c.as_str());
        assert(s@ =~= tuple_value_conversions(tv, e@, (i + 1) as nat));
        i += 1;
    }
    s
}

#[verifier::loop_isolation(false)]
fn payload_value_conversions_exec(ps: &Vec<RustType>) -> (r: String)
    ensures
        r@ == payload_value_conversions(rtypes_view(ps@), ps@.len()),
    decreases ps, 0nat,
{
    proof {
        lemma_rtypes_view(ps@);
    }
    let ghost tv = rtypes_view(ps@);
    let mut s = String::new();
    let mut i: usize = 0;
    while i < ps.len()
        invariant
            i <= ps.len(),
            s@ == payload_value_conversions(tv, i as nat),
        decreases ps.len() - i,
    {
        proof {
            broadcast use vstd::std_specs::vec::axiom_vec_index_decreases;
            assert(decreases_to!(*ps => ps[i as int]));
        }
        if i > 0 {
            s.append(", ");
        }
        let b = payload_binding_exec(i);
        let c = ps[i].generate_to_simplicity_conversion_inner(
            b.as_str(),
            Some(RustTypeContext::EnumVariant),
        );
        s.append(c.as_str());
        assert(s@ =~= payload_value_conversions(tv, (i + 1) as nat));
        i += 1;
    }
    s
}

fn enum_value_arm_exec(def: &RustEnum, j: usize) -> (r: String)
    requires
        j < def.variants@.len(),
    ensures
        r@ == enum_value_arm(def@, j as nat),
    decreases def, 1nat,
{
    proof {
        lemma_rvariants_view(def.variants@);
        broadcast use vstd::std_specs::vec::axiom_vec_index_decreases;
        assert(decreases_to!(def.variants => def.variants[j as int]));
        assert(decreases_to!(*def => def.variants[j as int].payload));
    }
    let ghost dv = def@;
    let v = &def.variants[j];
    assert(dv.variants[j as int] == rvariant_view(*v));
    let mut s = def.variant_path(j);
    let qe = quote_str(def.name.as_str());
    let mut tc = String::from_str("enum_type(");
    tc.append(qe.as_str());
    tc.append(")");
    assert(tc@ =~= type_construction(RustTypeModel::Enum(dv)));
    let mut open = String::from_str(" => Value::enum_variant(&");
    open.append(tc.as_str());
    open.append(", &Identifier::from_str_unchecked(");
    let qv = quote_str(v.name.as_str());
    open.append(qv.as_str());
    open.append("), ");
    assert(open@ =~= " => Value::enum_variant(&"@ + type_construction(RustTypeModel::Enum(dv))
        + ", &Identifier::from_str_unchecked("@ + quoted(dv.variants[j as int].name) + "), "@);
    let mut close = String::from_str(
        ").unwrap_or_else(|| panic!(\"Failed to construct enum variant '{}::{}'\", ",
    );
    close.append(qe.as_str());
    close.append(", ");
    close.append(qv.as_str());
    close.append("))");
    if v.payload.len() == 0 {
        proof {
            lemma_rtypes_view(v.payload@);
        }
        s.append(open.as_str());
        s.append("Vec::new()");
        s.append(close.as_str());
    } else {
        proof {
            lemma_rtypes_view(v.payload@);
        }
        s.append("(");
        let b = payload_bindings_exec(v.payload.len());
        s.append(b.as_str());
        s.append(")");
        s.append(open.as_str());
        s.append("vec![");
        let c = payload_value_conversions_exec(&v.payload);
        s.append(c.as_str());
        s.append("]");
        s.append(close.as_str());
    }
    assert(s@ =~= enum_value_arm(dv, j as nat));
    s
}

fn enum_value_arms_exec(def: &RustEnum) -> (r: String)
    ensures
        r@ == enum_value_arms(def@, def@.variants.len()),
    decreases def, 2nat,
{
    proof {
        lemma_rvariants_view(def.variants@);
    }
    let mut s = String::new();
    let mut j: usize = 0;
    while j < def.variants.len()
        invariant
            j <= def.variants@.len(),
            def@.variants.len() == def.variants@.len(),
            s@ == enum_value_arms(def@, j as nat),
        decreases def.variants@.len() - j,
    {
        if j > 0 {
            s.append(", ");
        }
        let a = enum_value_arm_exec(def, j);
        s.append(a.as_str());
        assert(s@ =~= enum_value_arms(def@, (j + 1) as nat));
        j += 1;
    }
    s
}

impl RustType {
    /// The expression that converts the field `value_expr` into a
    /// SimplicityHL `Value` in generated code.
    pub fn generate_to_simplicity_conversion(&self, value_expr: &str) -> (r: String)
        ensures
            r@ == value_conversion(self@, value_expr@, None),
    {
        self.generate_to_simplicity_conversion_inner(value_expr, None)
    }

    /// The expression that converts `value_expr`, which sits in context
    /// `prev_type`, into a SimplicityHL `Value` in generated code.
    pub fn generate_to_simplicity_conversion_inner(
        &self,
        value_expr: &str,
        prev_type: Option<RustTypeContext>,
    ) -> (r: String)
        ensures
            r@ == value_conversion(self@, value_expr@, prev_type),
        decreases self, 0nat,
    {
        let deref = deref_str(prev_type);
        match self {
            RustType::Bool => {
                let mut s = String::from_str("Value::from(");
                s.append(deref);
                s.append(value_expr);
                s.append(")");
                assert(s@ =~= "Value::from("@ + deref_text(prev_type) + value_expr@ + ")"@);
                s
            },
            RustType::U1 => small_uint_value_exec("u1", "U1", deref, value_expr),
            RustType::U2 => small_uint_value_exec("u2", "U2", deref, value_expr),
            RustType::U4 => small_uint_value_exec("u4", "U4", deref, value_expr),
            RustType::U8 => uint_value_exec("U8", deref, value_expr),
            RustType::U16 => uint_value_exec("U16", deref, value_expr),
            RustType::U32 => uint_value_exec("U32", deref, value_expr),
            RustType::U64 => uint_value_exec("U64", deref, value_expr),
            RustType::U128 => uint_value_exec("U128", deref, value_expr),
            RustType::U256Array => {
                let mut s = String::from_str("Value::from(UIntValue::U256(U256::from_byte_array(");
                s.append(deref);
                s.append(value_expr);
                s.append(")))");
                assert(s@ =~= "Value::from(UIntValue::U256(U256::from_byte_array("@ + deref_text(
                    prev_type,
                ) + value_expr@ + ")))"@);
                s
            },
            RustType::Array(element, size) => {
                let mut s = String::from_str("{ let elements = [");
                let items = array_value_conversions_exec(element, value_expr, *size);
                s.append(items.as_str());
                s.append("]; Value::array(elements, ");
                let et = element.generate_simplicity_type_construction();
                s.append(et.as_str());
                s.append(") }");
                assert(s@ =~= "{ let elements = ["@ + array_value_conversions(
                    element@,
                    value_expr@,
                    *size as nat,
                ) + "]; Value::array(elements, "@ + type_construction(element@) + ") }"@);
                s
            },
            RustType::Tuple(elements) => {
                proof {
                    lemma_rtypes_view(elements@);
                }
                if elements.len() == 0 {
                    String::from_str("Value::unit()")
                } else {
                    let mut s = String::from_str("Value::tuple([");
                    let items = tuple_value_conversions_exec(elements, value_expr);
                    s.append(items.as_str());
                    s.append("])");
                    assert(s@ =~= "Value::tuple(["@ + tuple_value_conversions(
                        rtypes_view(elements@),
                        value_expr@,
                        elements@.len(),
                    ) + "])"@);
                    s
                }
            },
            RustType::Either(left, right) => {
                let mut s = String::from_str("match &");
                s.append(value_expr);
                s.append(" { ::simplex::either::Either::Left(left_val) => { Value::left(");
                let lc = left.generate_to_simplicity_conversion_inner(
                    "left_val",
                    Some(RustTypeContext::EitherLeft),
                );
                s.append(lc.as_str());
                s.append(", ");
                let rt = right.generate_simplicity_type_construction();
                s.append(rt.as_str());
                s.append(") } ::simplex::either::Either::Right(right_val) => { Value::right(");
                let lt = left.generate_simplicity_type_construction();
                s.append(lt.as_str());
                s.append(", ");
                let rc = right.generate_to_simplicity_conversion_inner(
                    "right_val",
                    Some(RustTypeContext::EitherRight),
                );
                s.append(rc.as_str());
                s.append(") } }");
                assert(s@ =~= value_conversion(self@, value_expr@, prev_type));
                s
            },
            RustType::Option(inner) => {
                let mut s = String::from_str("match &");
                s.append(value_expr);
                s.append(" { None => { Value::none(");
                let it = inner.generate_simplicity_type_construction();
                s.append(it.as_str());
                s.append(") } Some(inner_val) => { Value::some(");
                let ic = inner.generate_to_simplicity_conversion_inner(
                    "inner_val",
                    Some(RustTypeContext::Option),
                );
                s.append(ic.as_str());
                s.append(") } }");
                assert(s@ =~= value_conversion(self@, value_expr@, prev_type));
                s
            },
            RustType::List(element, size) => {
                let mut s = String::from_str("{ let elements = ");
                s.append(value_expr);
                s.append(".iter().map(|x| ");
                let ec = element.generate_to_simplicity_conversion_inner(
                    "x",
                    Some(RustTypeContext::List),
                );
                s.append(ec.as_str());
                s.append(").collect::<Vec<_>>(); let non_zero_pow2_size = NonZeroPow2Usize::new(");
                let n = usize_to_decimal(*size);
                s.append(n.as_str());
                s.append(
                    ").ok_or_else(|| format!(\"Failed to create non zero pow2 length, got size: '{}'\", ",
                );
                s.append(n.as_str());
                s.append(
                    ")).unwrap(); assert!(elements.len() < non_zero_pow2_size.get(), \"There must be fewer list elements than the bound '{}'\", non_zero_pow2_size.get()); Value::list(elements, ",
                );
                let et = element.generate_simplicity_type_construction();
                s.append(et.as_str());
                s.append(", non_zero_pow2_size) }");
                assert(s@ =~= value_conversion(self@, value_expr@, prev_type));
                s
            },
            RustType::Enum(def) => {
                assert(self@ == RustTypeModel::Enum(renum_view(*def)));
                let mut s = String::from_str("match &");
                s.append(value_expr);
                s.append(" { ");
                let arms = enum_value_arms_exec(def);
                s.append(arms.as_str());
                s.append(" }");
                assert(s@ =~= value_conversion(self@, value_expr@, prev_type));
                s
            },
        }
    }
}

/// The catch-all arm that reports a value of the wrong kind.
pub open spec fn wrong_type_arm(cq: Seq<char>, what: Seq<char>) -> Seq<char> {
    "_ => return Err(format!(\"Wrong type for {}: expected "@ + what + "\", "@ + cq + ")), }"@
}

/// The start of a match on the inner value of `e`.
pub open spec fn inner_match(e: Seq<char>) -> Seq<char> {
    "match "@ + e + ".inner() { ::simplex::simplicityhl::value::ValueInner::"@
}

/// The extraction of a boolean or integer held directly in the value.
pub open spec fn scalar_extraction(
    e: Seq<char>,
    pattern: Seq<char>,
    result: Seq<char>,
    what: Seq<char>,
    cq: Seq<char>,
) -> Seq<char> {
    inner_match(e) + pattern + " => "@ + result + ", "@ + wrong_type_arm(cq, what)
}

/// The expression that reads a Rust value of a binding type out of the
/// SimplicityHL value `e`, which sits in context `ctx`; a value of the wrong
/// shape returns an error from the enclosing function.
pub open spec fn value_extraction(t: RustTypeModel, e: Seq<char>, ctx: RustTypeContext) -> Seq<char>
    decreases t, 0nat,
{
    let cq = quoted(context_name(ctx));
    match t {
        RustTypeModel::Bool => scalar_extraction(e, "Boolean(b)"@, "*b"@, "bool"@, cq),
        RustTypeModel::U1 => scalar_extraction(e, "UInt(UIntValue::U1(v))"@, "*v"@, "U1"@, cq),
        RustTypeModel::U2 => scalar_extraction(e, "UInt(UIntValue::U2(v))"@, "*v"@, "U2"@, cq),
        RustTypeModel::U4 => scalar_extraction(e, "UInt(UIntValue::U4(v))"@, "*v"@, "U4"@, cq),
        RustTypeModel::U8 => scalar_extraction(e, "UInt(UIntValue::U8(v))"@, "*v"@, "U8"@, cq),
        RustTypeModel::U16 => scalar_extraction(e, "UInt(UIntValue::U16(v))"@, "*v"@, "U16"@, cq),
        RustTypeModel::U32 => scalar_extraction(e, "UInt(UIntValue::U32(v))"@, "*v"@, "U32"@, cq),
        RustTypeModel::U64 => scalar_extraction(e, "UInt(UIntValue::U64(v))"@, "*v"@, "U64"@, cq),
        RustTypeModel::U128 => scalar_extraction(
            e,
            "UInt(UIntValue::U128(v))"@,
            "*v"@,
            "U128"@,
            cq,
        ),
        RustTypeModel::U256Array => scalar_extraction(
            e,
            "UInt(UIntValue::U256(u256))"@,
            "u256.to_byte_array()"@,
            "U256"@,
            cq,
        ),
        RustTypeModel::Array(el, n) => inner_match(e)
            + "Array(arr_val) => { if arr_val.len() != "@ + decimal_text(n)
            + " { return Err(format!(\"Wrong array length for {}: expected {}, got {}\", "@ + cq
            + ", "@ + decimal_text(n) + ", arr_val.len())); } ["@ + array_value_extractions(*el, n)
            + "] } "@ + wrong_type_arm(cq, "Array"@),
        RustTypeModel::Tuple(es) => inner_match(e) + "Tuple(tuple_val) => { if tuple_val.len() != "@
            + decimal_text(es.len()) + " { return Err(format!(\"Wrong tuple length for {}\", "@ + cq
            + ")); } ("@ + tuple_value_extractions(es, es.len()) + ") } "@ + wrong_type_arm(
            cq,
            "Tuple"@,
        ),
        RustTypeModel::Either(l, r) => inner_match(e)
            + "Either(either_val) => { match either_val { ::simplex::either::Either::Left(left_val) => { ::simplex::either::Either::Left("@
            + value_extraction(*l, "left_val"@, RustTypeContext::EitherLeft)
            + ") } ::simplex::either::Either::Right(right_val) => { ::simplex::either::Either::Right("@
            + value_extraction(*r, "right_val"@, RustTypeContext::EitherRight) + ") } } } "@
            + wrong_type_arm(cq, "Either"@),
        RustTypeModel::Option(x) => inner_match(e)
            + "Option(opt_val) => { match opt_val { None => None, Some(some_val) => Some("@
            + value_extraction(*x, "some_val"@, RustTypeContext::Option) + "), } } "@
            + wrong_type_arm(cq, "Option"@),
        RustTypeModel::List(el, _) => inner_match(e)
            + "List(list_value, non_zero_pow2_size) => { let list_len = list_value.len(); if list_len >= non_zero_pow2_size.get() { return Err(format!(\"Wrong list length for {}: expected less than {}, got {}\", "@
            + cq
            + ", non_zero_pow2_size.get(), list_len)); } let mut res = Vec::with_capacity(list_len); for i in 0..list_len { res.push("@
            + value_extraction(*el, "list_value[i]"@, RustTypeContext::List) + "); } res } "@
            + wrong_type_arm(cq, "List"@),
        RustTypeModel::Enum(def) => inner_match(e)
            + "Enum(enum_variant_index, enum_payload) => { match *enum_variant_index { "@
            + enum_extraction_arms(def, def.variants.len())
            + ", _ => return Err(format!(\"Unknown enum variant for {}: got index {}\", "@ + cq
            + ", enum_variant_index)), } } _ => return Err(format!(\"Wrong type for {}: expected enum '{}'\", "@
            + cq + ", "@ + quoted(def.name) + ")), }"@,
    }
}

/// The extractions of the first `k` elements of `arr_val`.
pub open spec fn array_value_extractions(el: RustTypeModel, k: nat) -> Seq<char>
    decreases el, k,
{
    if k == 0 {
        Seq::empty()
    } else if k == 1 {
        value_extraction(el, index_expr("arr_val"@, 0), RustTypeContext::Array)
    } else {
        array_value_extractions(el, (k - 1) as nat) + ", "@ + value_extraction(
            el,
            index_expr("arr_val"@, (k - 1) as nat),
            RustTypeContext::Array,
        )
    }
}

/// The extractions of the first `k` fields of `tuple_val`.
pub open spec fn tuple_value_extractions(es: Seq<RustTypeModel>, k: nat) -> Seq<char>
    decreases es, k,
{
    if k == 0 || k > es.len() {
        Seq::empty()
    } else if k == 1 {
        value_extraction(es[0], index_expr("tuple_val"@, 0), RustTypeContext::Tuple)
    } else {
        tuple_value_extractions(es, (k - 1) as nat) + ", "@ + value_extraction(
            es[k - 1],
            index_expr("tuple_val"@, (k - 1) as nat),
            RustTypeContext::Tuple,
        )
    }
}

/// The extractions of the first `k` values of `enum_payload`.
pub open spec fn payload_value_extractions(ps: Seq<RustTypeModel>, k: nat) -> Seq<char>
    decreases ps, k,
{
    if k == 0 || k > ps.len() {
        Seq::empty()
    } else if k == 1 {
        value_extraction(ps[0], index_expr("enum_payload"@, 0), RustTypeContext::EnumVariant)
    } else {
        payload_value_extractions(ps, (k - 1) as nat) + ", "@ + value_extraction(
            ps[k - 1],
            index_expr("enum_payload"@, (k - 1) as nat),
            RustTypeContext::EnumVariant,
        )
    }
}

/// The match arm that builds the `j`-th variant from its index.
pub open spec fn enum_extraction_arm(def: RustEnumModel, j: nat) -> Seq<char>
    decreases def, 0nat,
{
    if j < def.variants.len() {
        let v = def.variants[j as int];
        let head = decimal_text(j) + " => "@ + variant_path(
            def.rust_name,
            variant_ident_of(def.variants, j as int),
        );
        if v.payload.len() == 0 {
            head
        } else {
            head + "("@ + payload_value_extractions(v.payload, v.payload.len()) + ")"@
        }
    } else {
        Seq::empty()
    }
}

/// The arms for the first `k` variants, separated by `", "`.
pub open spec fn enum_extraction_arms(def: RustEnumModel, k: nat) -> Seq<char>
    decreases def, k + 1,
{
    if k == 0 {
        Seq::empty()
    } else if k == 1 {
        enum_extraction_arm(def, 0)
    } else {
        enum_extraction_arms(def, (k - 1) as nat) + ", "@ + enum_extraction_arm(def, (k - 1) as nat)
    }
}

fn quoted_context(ctx: RustTypeContext) -> (r: String)
    ensures
        r@ == quoted(context_name(ctx)),
{
    quote_str(ctx.name())
}

fn inner_match_exec(e: &str) -> (r: String)
    ensures
        r@ == inner_match(e@),
{
    let mut s = String::from_str("match ");
    s.append(e);
    s.append(".inner() { ::simplex::simplicityhl::value::ValueInner::");
    assert(s@ =~= inner_match(e@));
    s
}

fn wrong_type_arm_exec(cq: &str, what: &str) -> (r: String)
    ensures
        r@ == wrong_type_arm(cq@, what@),
{
    let mut s = String::from_str("_ => return Err(format!(\"Wrong type for {}: expected ");
    s.append(what);
    s.append("\", ");
    s.append(cq);
    s.append(")), }");
    assert(s@ =~= wrong_type_arm(cq@, what@));
    s
}

fn scalar_extraction_exec(e: &str, pattern: &str, result: &str, what: &str, cq: &str) -> (r: String)
    ensures
        r@ == scalar_extraction(e@, pattern@, result@, what@, cq@),
{
    let mut s = inner_match_exec(e);
    s.append(pattern);
    s.append(" => ");
    s.append(result);
    s.append(", ");
    let w = wrong_type_arm_exec(cq, what);
    s.append(w.as_str());
    assert(s@ =~= scalar_extraction(e@, pattern@, result@, what@, cq@));
    s
}

#[verifier::loop_isolation(false)]
fn array_value_extractions_exec(el: &RustType, n: usize) -> (r: String)
    ensures
        r@ == array_value_extractions(el@, n as nat),
    decreases el, 1nat,
{
    let mut s = String::new();
    let mut i: usize = 0;
    while i < n
        invariant
            i <= n,
            s@ == array_value_extractions(el@, i as nat),
        decreases n - i,
    {
        if i > 0 {
            s.append(", ");
        }
        let ie = index_expr_exec("arr_val", i);
        let c = el.generate_value_extraction_from_expr(ie.as_str(), RustTypeContext::Array);
        s.append(c.as_str());
        assert(s@ =~= array_value_extractions(el@, (i + 1) as nat));
        i += 1;
    }
    s
}

#[verifier::loop_isolation(false)]
fn tuple_value_extractions_exec(es: &Vec<RustType>) -> (r: String)
    ensures
        r@ == tuple_value_extractions(rtypes_view(es@), es@.len()),
    decreases es, 0nat,
{
    proof {
        lemma_rtypes_view(es@);
    }
    let ghost tv = rtypes_view(es@);
    let mut s = String::new();
    let mut i: usize = 0;
    while i < es.len()
        invariant
            i <= es.len(),
            s@ == tuple_value_extractions(tv, i as nat),
        decreases es.len() - i,
    {
        proof {
            broadcast use vstd::std_specs::vec::axiom_vec_index_decreases;
            assert(decreases_to!(*es => es[i as int]));
        }
        if i > 0 {
            s.append(", ");
        }
        let ie = index_expr_exec("tuple_val", i);
        let c = es[i].generate_value_extraction_from_expr(ie.as_str(), RustTypeContext::Tuple);
        s.append(c.as_str());
        assert(s@ =~= tuple_value_extractions(tv, (i + 1) as nat));
        i += 1;
    }
    s
}

#[verifier::loop_isolation(false)]
fn payload_value_extractions_exec(ps: &Vec<RustType>) -> (r: String)
    ensures
        r@ == payload_value_extractions(rtypes_view(ps@), ps@.len()),
    decreases ps, 0nat,
{
    proof {
        lemma_rtypes_view(ps@);
    }
    let ghost tv = rtypes_view(ps@);
    let mut s = String::new();
    let mut i: usize = 0;
    while i < ps.len()
        invariant
            i <= ps.len(),
            s@ == payload_value_extractions(tv, i as nat),
        decreases ps.len() - i,
    {
        proof {
            broadcast use vstd::std_specs::vec::axiom_vec_index_decreases;
            assert(decreases_to!(*ps => ps[i as int]));
        }
        if i > 0 {
            s.append(", ");
        }
        let ie = index_expr_exec("enum_payload", i);
        let c = ps[i].generate_value_extraction_from_expr(
            ie.as_str(),
            RustTypeContext::EnumVariant,
        );
        s.append(c.as_str());
        assert(s@ =~= payload_value_extractions(tv, (i + 1) as nat));
        i += 1;
    }
    s
}

fn enum_extraction_arm_exec(def: &RustEnum, j: usize) -> (r: String)
    requires
        j < def.variants@.len(),
    ensures
        r@ == enum_extraction_arm(def@, j as nat),
    decreases def, 1nat,
{
    proof {
        lemma_rvariants_view(def.variants@);
        broadcast use vstd::std_specs::vec::axiom_vec_index_decreases;
        assert(decreases_to!(def.variants => def.variants[j as int]));
        assert(decreases_to!(*def => def.variants[j as int].payload));
    }
    let ghost dv = def@;
    let v = &def.variants[j];
    assert(dv.variants[j as int] == rvariant_view(*v));
    let mut s = usize_to_decimal(j);
    s.append(" => ");
    let p = def.variant_path(j);
    s.append(p.as_str());
    proof {
        lemma_rtypes_view(v.payload@);
    }
    if v.payload.len() > 0 {
        s.append("(");
        let c = payload_value_extractions_exec(&v.payload);
        s.append(c.as_str());
        s.append(")");
    }
    assert(s@ =~= enum_extraction_arm(dv, j as nat));
    s
}

fn enum_extraction_arms_exec(def: &RustEnum) -> (r: String)
    ensures
        r@ == enum_extraction_arms(def@, def@.variants.len()),
    decreases def, 2nat,
{
    proof {
        lemma_rvariants_view(def.variants@);
    }
    let mut s = String::new();
    let mut j: usize = 0;
    while j < def.variants.len()
        invariant
            j <= def.variants@.len(),
            def@.variants.len() == def.variants@.len(),
            s@ == enum_extraction_arms(def@, j as nat),
        decreases def.variants@.len() - j,
    {
        if j > 0 {
            s.append(", ");
        }
        let a = enum_extraction_arm_exec(def, j);
        s.append(a.as_str());
        assert(s@ =~= enum_extraction_arms(def@, (j + 1) as nat));
        j += 1;
    }
    s
}

impl RustType {
    /// The expression that reads a Rust value of this type out of the
    /// SimplicityHL value `value_expr`, which sits in `context`.
    pub fn generate_value_extraction_from_expr(&self, value_expr: &str, context: RustTypeContext) -> (r: String)
        ensures
            r@ == value_extraction(self@, value_expr@, context),
        decreases self, 0nat,
    {
        let cq = quoted_context(context);
        let c = cq.as_str();
        match self {
            RustType::Bool => scalar_extraction_exec(value_expr, "Boolean(b)", "*b", "bool", c),
            RustType::U1 => scalar_extraction_exec(value_expr, "UInt(UIntValue::U1(v))", "*v", "U1", c),
            RustType::U2 => scalar_extraction_exec(value_expr, "UInt(UIntValue::U2(v))", "*v", "U2", c),
            RustType::U4 => scalar_extraction_exec(value_expr, "UInt(UIntValue::U4(v))", "*v", "U4", c),
            RustType::U8 => scalar_extraction_exec(value_expr, "UInt(UIntValue::U8(v))", "*v", "U8", c),
            RustType::U16 => scalar_extraction_exec(
                value_expr,
                "UInt(UIntValue::U16(v))",
                "*v",
                "U16",
                c,
            ),
            RustType::U32 => scalar_extraction_exec(
                value_expr,
                "UInt(UIntValue::U32(v))",
                "*v",
                "U32",
                c,
            ),
            RustType::U64 => scalar_extraction_exec(
                value_expr,
                "UInt(UIntValue::U64(v))",
                "*v",
                "U64",
                c,
            ),
            RustType::U128 => scalar_extraction_exec(
                value_expr,
                "UInt(UIntValue::U128(v))",
                "*v",
                "U128",
                c,
            ),
            RustType::U256Array => scalar_extraction_exec(
                value_expr,
                "UInt(UIntValue::U256(u256))",
                "u256.to_byte_array()",
                "U256",
                c,
            ),
            RustType::Array(element, size) => {
                let mut s = inner_match_exec(value_expr);
                s.append("Array(arr_val) => { if arr_val.len() != ");
                let n = usize_to_decimal(*size);
                s.append(n.as_str());
                s.append(" { return Err(format!(\"Wrong array length for {}: expected {}, got {}\", ");
                s.append(c);
                s.append(", ");
                s.append(n.as_str());
                s.append(", arr_val.len())); } [");
                let items = array_value_extractions_exec(element, *size);
                s.append(items.as_str());
                s.append("] } ");
                let w = wrong_type_arm_exec(c, "Array");
                s.append(w.as_str());
                assert(s@ =~= value_extraction(self@, value_expr@, context));
                s
            },
            RustType::Tuple(elements) => {
                proof {
                    lemma_rtypes_view(elements@);
                }
                let mut s = inner_match_exec(value_expr);
                s.append("Tuple(tuple_val) => { if tuple_val.len() != ");
                let n = usize_to_decimal(elements.len());
                s.append(n.as_str());
                s.append(" { return Err(format!(\"Wrong tuple length for {}\", ");
                s.append(c);
                s.append(")); } (");
                let items = tuple_value_extractions_exec(elements);
                s.append(items.as_str());
                s.append(") } ");
                let w = wrong_type_arm_exec(c, "Tuple");
                s.append(w.as_str());
                assert(s@ =~= value_extraction(self@, value_expr@, context));
                s
            },
            RustType::Either(left, right) => {
                let mut s = inner_match_exec(value_expr);
                s.append(
                    "Either(either_val) => { match either_val { ::simplex::either::Either::Left(left_val) => { ::simplex::either::Either::Left(",
                );
                let le = left.generate_value_extraction_from_expr(
                    "left_val",
                    RustTypeContext::EitherLeft,
                );
                s.append(le.as_str());
                s.append(
                    ") } ::simplex::either::Either::Right(right_val) => { ::simplex::either::Either::Right(",
                );
                let re = right.generate_value_extraction_from_expr(
                    "right_val",
                    RustTypeContext::EitherRight,
                );
                s.append(re.as_str());
                s.append(") } } } ");
                let w = wrong_type_arm_exec(c, "Either");
                s.append(w.as_str());
                assert(s@ =~= value_extraction(self@, value_expr@, context));
                s
            },
            RustType::Option(inner) => {
                let mut s = inner_match_exec(value_expr);
                s.append("Option(opt_val) => { match opt_val { None => None, Some(some_val) => Some(");
                let ie = inner.generate_value_extraction_from_expr("some_val", RustTypeContext::Option);
                s.append(ie.as_str());
                s.append("), } } ");
                let w = wrong_type_arm_exec(c, "Option");
                s.append(w.as_str());
                assert(s@ =~= value_extraction(self@, value_expr@, context));
                s
            },
            RustType::List(element, _size) => {
                let mut s = inner_match_exec(value_expr);
                s.append(
                    "List(list_value, non_zero_pow2_size) => { let list_len = list_value.len(); if list_len >= non_zero_pow2_size.get() { return Err(format!(\"Wrong list length for {}: expected less than {}, got {}\", ",
                );
                s.append(c);
                s.append(
                    ", non_zero_pow2_size.get(), list_len)); } let mut res = Vec::with_capacity(list_len); for i in 0..list_len { res.push(",
                );
                let ee = element.generate_value_extraction_from_expr(
                    "list_value[i]",
                    RustTypeContext::List,
                );
                s.append(ee.as_str());
                s.append("); } res } ");
                let w = wrong_type_arm_exec(c, "List");
                s.append(w.as_str());
                assert(s@ =~= value_extraction(self@, value_expr@, context));
                s
            },
            RustType::Enum(def) => {
                assert(self@ == RustTypeModel::Enum(renum_view(*def)));
                let mut s = inner_match_exec(value_expr);
                s.append("Enum(enum_variant_index, enum_payload) => { match *enum_variant_index { ");
                let arms = enum_extraction_arms_exec(def);
                s.append(arms.as_str());
                s.append(", _ => return Err(format!(\"Unknown enum variant for {}: got index {}\", ");
                s.append(c);
                s.append(
                    ", enum_variant_index)), } } _ => return Err(format!(\"Wrong type for {}: expected enum '{}'\", ",
                );
                s.append(c);
                s.append(", ");
                let qn = quote_str(def.name.as_str());
                s.append(qn.as_str());
                s.append(")), }");
                assert(s@ =~= value_extraction(self@, value_expr@, context));
                s
            },
        }
    }
}

/// The block that looks up the witness `w` in the map `a` and reads a Rust
/// value of the binding type out of it; where an enum is reachable from the
/// type, the value's whole type is checked against the declared one first.
pub open spec fn from_value_extraction(t: RustTypeModel, a: Seq<char>, w: Seq<char>) -> Seq<char> {
    "{ let witness_name = WitnessName::from_str_unchecked("@ + quoted(w) + "); let value = "@ + a
        + ".get(&witness_name).ok_or_else(|| format!(\"Missing witness: {}\", "@ + quoted(w)
        + "))?; "@ + (if has_enum(t) {
        "let expected_type = "@ + type_construction(t)
            + "; if value.ty() != &expected_type { return Err(format!(\"Wrong type or enum definition for {}: expected {}, got {}\", "@
            + quoted(w) + ", expected_type, value.ty())); } "@
    } else {
        Seq::empty()
    }) + value_extraction(t, "value"@, RustTypeContext::Root) + " }"@
}

/// The declaration of the `j`-th variant inside the generated enum.
pub open spec fn variant_declaration(def: RustEnumModel, j: int) -> Seq<char> {
    let v = def.variants[j];
    let ident = raw_ident(variant_ident_of(def.variants, j));
    if v.payload.len() == 0 {
        ident
    } else {
        ident + "("@ + types_tokens(v.payload, "self::"@) + ")"@
    }
}

/// The declarations of the first `k` variants, separated by `", "`.
pub open spec fn variant_declarations(def: RustEnumModel, k: nat) -> Seq<char>
    decreases k,
{
    if k == 0 {
        Seq::empty()
    } else if k == 1 {
        variant_declaration(def, 0)
    } else {
        variant_declarations(def, (k - 1) as nat) + ", "@ + variant_declaration(def, k - 1)
    }
}

/// The declaration of a generated enum.
pub open spec fn enum_declaration(def: RustEnumModel) -> Seq<char> {
    "#[derive(Debug, Clone, PartialEq, Eq)] #[allow(non_camel_case_types)] pub enum "@ + raw_ident(
        def.rust_name,
    ) + " { "@ + variant_declarations(def, def.variants.len()) + " }"@
}

/// Declarations gathered so far: enum names with their declarations.
pub type Declarations = Seq<(Seq<char>, Seq<char>)>;

/// Whether an enum named `name` is declared in `acc`.
pub open spec fn declares(acc: Declarations, name: Seq<char>) -> bool {
    exists|i: int| 0 <= i < acc.len() && (#[trigger] acc[i]).0 == name
}

/// `acc` extended with the declarations of the enums reachable from the
/// type that it lacks: depth first, the enums in a variant's payload before
/// the enum itself, and one declaration per enum name.
pub open spec fn collect_declarations(t: RustTypeModel, acc: Declarations) -> Declarations
    decreases t, 0nat,
{
    match t {
        RustTypeModel::Enum(def) => {
            let inner = collect_variants_declarations(def.variants, def.variants.len(), acc);
            if declares(inner, def.name) {
                inner
            } else {
                inner.push((def.name, enum_declaration(def)))
            }
        },
        RustTypeModel::Array(e, _) => collect_declarations(*e, acc),
        RustTypeModel::Option(e) => collect_declarations(*e, acc),
        RustTypeModel::List(e, _) => collect_declarations(*e, acc),
        RustTypeModel::Either(l, r) => collect_declarations(*r, collect_declarations(*l, acc)),
        RustTypeModel::Tuple(es) => collect_types_declarations(es, es.len(), acc),
        _ => acc,
    }
}

/// `collect_declarations` over the first `k` types, in order.
pub open spec fn collect_types_declarations(es: Seq<RustTypeModel>, k: nat, acc: Declarations) -> Declarations
    decreases es, k,
{
    if k == 0 || k > es.len() {
        acc
    } else {
        collect_declarations(es[k - 1], collect_types_declarations(es, (k - 1) as nat, acc))
    }
}

/// `collect_declarations` over the payloads of the first `k` variants.
pub open spec fn collect_variants_declarations(
    vs: Seq<RustVariantModel>,
    k: nat,
    acc: Declarations,
) -> Declarations
    decreases vs, k,
{
    if k == 0 || k > vs.len() {
        acc
    } else {
        collect_types_declarations(
            vs[k - 1].payload,
            vs[k - 1].payload.len(),
            collect_variants_declarations(vs, (k - 1) as nat, acc),
        )
    }
}

/// The texts of gathered declarations.
pub open spec fn declarations_view(d: Seq<(String, String)>) -> Declarations {
    d.map_values(|p: (String, String)| (p.0@, p.1@))
}

fn declares_exec(acc: &Vec<(String, String)>, name: &str) -> (r: bool)
    ensures
        r == declares(declarations_view(acc@), name@),
{
    let mut i: usize = 0;
    while i < acc.len()
        invariant
            i <= acc.len(),
            forall|j: int| 0 <= j < i ==> acc@[j].0@ != name@,
        decreases acc.len() - i,
    {
        if crate::text::str_eq(acc[i].0.as_str(), name) {
            assert(declarations_view(acc@)[i as int].0 == name@);
            return true;
        }
        i += 1;
    }
    proof {
        if declares(declarations_view(acc@), name@) {
            let j = choose|j: int|
                0 <= j < declarations_view(acc@).len() && (#[trigger] declarations_view(
                    acc@,
                )[j]).0 == name@;
            assert(acc@[j].0@ == name@);
        }
    }
    false
}

#[verifier::loop_isolation(false)]
fn collect_types_declarations_exec(es: &Vec<RustType>, declarations: &mut Vec<(String, String)>)
    ensures
        declarations_view(final(declarations)@) == collect_types_declarations(
            rtypes_view(es@),
            es@.len(),
            declarations_view(old(declarations)@),
        ),
    decreases es, 0nat,
{
    proof {
        lemma_rtypes_view(es@);
    }
    let ghost tv = rtypes_view(es@);
    let ghost start = declarations_view(declarations@);
    let mut i: usize = 0;
    while i < es.len()
        invariant
            i <= es.len(),
            declarations_view(declarations@) == collect_types_declarations(tv, i as nat, start),
        decreases es.len() - i,
    {
        proof {
            broadcast use vstd::std_specs::vec::axiom_vec_index_decreases;
            assert(decreases_to!(*es => es[i as int]));
        }
        es[i].collect_enum_declarations(declarations);
        i += 1;
    }
}

#[verifier::loop_isolation(false)]
fn collect_variants_declarations_exec(def: &RustEnum, declarations: &mut Vec<(String, String)>)
    ensures
        declarations_view(final(declarations)@) == collect_variants_declarations(
            def@.variants,
            def@.variants.len(),
            declarations_view(old(declarations)@),
        ),
    decreases def, 1nat,
{
    proof {
        lemma_rvariants_view(def.variants@);
    }
    let ghost vv = def@.variants;
    let ghost start = declarations_view(declarations@);
    let mut j: usize = 0;
    while j < def.variants.len()
        invariant
            j <= def.variants@.len(),
            vv.len() == def.variants@.len(),
            declarations_view(declarations@) == collect_variants_declarations(vv, j as nat, start),
        decreases def.variants@.len() - j,
    {
        proof {
            broadcast use vstd::std_specs::vec::axiom_vec_index_decreases;
            assert(decreases_to!(def.variants => def.variants[j as int]));
            assert(decreases_to!(*def => def.variants[j as int].payload));
            assert(vv[j as int] == rvariant_view(def.variants@[j as int]));
            lemma_rtypes_view(def.variants@[j as int].payload@);
        }
        collect_types_declarations_exec(&def.variants[j].payload, declarations);
        j += 1;
    }
}

#[verifier::loop_isolation(false)]
fn variant_declarations_exec(def: &RustEnum) -> (r: String)
    ensures
        r@ == variant_declarations(def@, def@.variants.len()),
{
    proof {
        lemma_rvariants_view(def.variants@);
    }
    let ghost dv = def@;
    let mut s = String::new();
    let mut j: usize = 0;
    while j < def.variants.len()
        invariant
            j <= def.variants@.len(),
            dv.variants.len() == def.variants@.len(),
            s@ == variant_declarations(dv, j as nat),
        decreases def.variants@.len() - j,
    {
        if j > 0 {
            s.append(", ");
        }
        assert(dv.variants[j as int] == rvariant_view(def.variants@[j as int]));
        proof {
            lemma_rtypes_view(def.variants@[j as int].payload@);
        }
        let vi = def.variant_ident(j);
        let ri = raw_ident_str(vi.as_str());
        s.append(ri.as_str());
        if def.variants[j].payload.len() > 0 {
            s.append("(");
            let p = types_tokens_exec(&def.variants[j].payload, "self::");
            s.append(p.as_str());
            s.append(")");
        }
        assert(s@ =~= variant_declarations(dv, (j + 1) as nat));
        j += 1;
    }
    s
}

impl RustEnum {
    /// The declaration of the generated enum.
    pub fn enum_declaration(&self) -> (r: String)
        ensures
            r@ == enum_declaration(self@),
    {
        let mut s = String::from_str(
            "#[derive(Debug, Clone, PartialEq, Eq)] #[allow(non_camel_case_types)] pub enum ",
        );
        let rn = raw_ident_str(self.rust_name.as_str());
        s.append(rn.as_str());
        s.append(" { ");
        let vs = variant_declarations_exec(self);
        s.append(vs.as_str());
        s.append(" }");
        assert(s@ =~= enum_declaration(self@));
        s
    }
}

impl RustType {
    /// The block that reads the field for witness `witness_name` out of the
    /// map `args_expr` in generated code.
    pub fn generate_from_value_extraction(&self, args_expr: &str, witness_name: &str) -> (r: String)
        ensures
            r@ == from_value_extraction(self@, args_expr@, witness_name@),
    {
        let qw = quote_str(witness_name);
        let mut s = String::from_str("{ let witness_name = WitnessName::from_str_unchecked(");
        s.append(qw.as_str());
        s.append("); let value = ");
        s.append(args_expr);
        s.append(".get(&witness_name).ok_or_else(|| format!(\"Missing witness: {}\", ");
        s.append(qw.as_str());
        s.append("))?; ");
        let ghost head = s@;
        if self.contains_enum() {
            s.append("let expected_type = ");
            let tc = self.generate_simplicity_type_construction();
            s.append(tc.as_str());
            s.append(
                "; if value.ty() != &expected_type { return Err(format!(\"Wrong type or enum definition for {}: expected {}, got {}\", ",
            );
            s.append(qw.as_str());
            s.append(", expected_type, value.ty())); } ");
        }
        let ex = self.generate_value_extraction_from_expr("value", RustTypeContext::Root);
        s.append(ex.as_str());
        s.append(" }");
        assert(s@ =~= from_value_extraction(self@, args_expr@, witness_name@));
        s
    }

    /// Appends to `declarations` the declarations of the enums reachable
    /// from the type that it lacks (see `collect_declarations`).
    pub fn collect_enum_declarations(&self, declarations: &mut Vec<(String, String)>)
        ensures
            declarations_view(final(declarations)@) == collect_declarations(
                self@,
                declarations_view(old(declarations)@),
            ),
        decreases self, 0nat,
    {
        match self {
            RustType::Enum(def) => {
                assert(self@ == RustTypeModel::Enum(renum_view(*def)));
                collect_variants_declarations_exec(def, declarations);
                if !declares_exec(declarations, def.name.as_str()) {
                    let d = def.enum_declaration();
                    let ghost prev = declarations@;
                    declarations.push((def.name.clone(), d));
                    assert(declarations_view(declarations@) =~= declarations_view(prev).push(
                        (def@.name, enum_declaration(def@)),
                    ));
                }
            },
            RustType::Array(e, _) => e.collect_enum_declarations(declarations),
            RustType::Option(e) => e.collect_enum_declarations(declarations),
            RustType::List(e, _) => e.collect_enum_declarations(declarations),
            RustType::Either(a, b) => {
                a.collect_enum_declarations(declarations);
                b.collect_enum_declarations(declarations);
            },
            RustType::Tuple(es) => {
                proof {
                    lemma_rtypes_view(es@);
                }
                collect_types_declarations_exec(es, declarations);
            },
            _ => {},
        }
    }
}

/// Whether a list of binding types is inhabited after its first `k`
/// types: the first `k + 1` are inhabited exactly when the first `k` and the
/// next one are.
proof fn lemma_types_inhabited_take(s: Seq<RustTypeModel>, k: int)
    requires
        0 <= k < s.len(),
    ensures
        types_inhabited(s.take(k + 1)) == (types_inhabited(s.take(k)) && inhabited(s[k])),
{
    assert(s.take(k + 1).drop_last() =~= s.take(k));
}

proof fn lemma_variants_inhabited_take(s: Seq<RustVariantModel>, k: int)
    requires
        0 <= k < s.len(),
    ensures
        variants_inhabited(s.take(k + 1)) == (variants_inhabited(s.take(k)) && types_inhabited(
            s[k].payload,
        )),
{
    assert(s.take(k + 1).drop_last() =~= s.take(k));
}

/// Whether the binding type has a value: every enum it reaches has a
/// variant, and every payload of those variants has a value.
pub fn is_inhabited(t: &RustType) -> (r: bool)
    ensures
        r == inhabited(t@),
    decreases t,
{
    match t {
        RustType::Array(e, _) => is_inhabited(e),
        RustType::Option(e) => is_inhabited(e),
        RustType::List(e, _) => is_inhabited(e),
        RustType::Either(l, r) => is_inhabited(l) && is_inhabited(r),
        RustType::Tuple(es) => {
            assert(t@ == RustTypeModel::Tuple(rtypes_view(es@)));
            types_are_inhabited(es)
        },
        RustType::Enum(def) => {
            proof {
                lemma_rvariants_view(def.variants@);
            }
            assert(t@ == RustTypeModel::Enum(renum_view(*def)));
            def.variants.len() > 0 && variants_are_inhabited(&def.variants)
        },
        _ => true,
    }
}

#[verifier::loop_isolation(false)]
fn types_are_inhabited(es: &Vec<RustType>) -> (r: bool)
    ensures
        r == types_inhabited(rtypes_view(es@)),
    decreases es,
{
    proof {
        lemma_rtypes_view(es@);
    }
    let ghost s = rtypes_view(es@);
    let mut i: usize = 0;
    assert(s.take(0) =~= Seq::<RustTypeModel>::empty());
    while i < es.len()
        invariant
            i <= es.len(),
            types_inhabited(s.take(i as int)),
        decreases es.len() - i,
    {
        proof {
            broadcast use vstd::std_specs::vec::axiom_vec_index_decreases;
            assert(decreases_to!(*es => es[i as int]));
            lemma_types_inhabited_take(s, i as int);
        }
        if !is_inhabited(&es[i]) {
            proof {
                if types_inhabited(s) {
                    lemma_types_inhabited(s);
                }
            }
            return false;
        }
        i += 1;
    }
    assert(s.take(es.len() as int) =~= s);
    true
}

#[verifier::loop_isolation(false)]
fn variants_are_inhabited(vs: &Vec<crate::rust_type::RustEnumVariant>) -> (r: bool)
    ensures
        r == variants_inhabited(rvariants_view(vs@)),
    decreases vs,
{
    proof {
        lemma_rvariants_view(vs@);
    }
    let ghost s = rvariants_view(vs@);
    let mut i: usize = 0;
    assert(s.take(0) =~= Seq::<RustVariantModel>::empty());
    while i < vs.len()
        invariant
            i <= vs.len(),
            variants_inhabited(s.take(i as int)),
        decreases vs.len() - i,
    {
        proof {
            broadcast use vstd::std_specs::vec::axiom_vec_index_decreases;
            assert(decreases_to!(*vs => vs[i as int]));
            assert(decreases_to!(vs[i as int] => vs[i as int].payload));
            lemma_variants_inhabited_take(s, i as int);
        }
        if !types_are_inhabited(&vs[i].payload) {
            proof {
                if variants_inhabited(s) {
                    lemma_variants_inhabited(s);
                }
            }
            return false;
        }
        i += 1;
    }
    assert(s.take(vs.len() as int) =~= s);
    true
}

/// Renaming enums keeps every enum's variants.
pub proof fn lemma_renamed_inhabited(t: RustTypeModel, n: Seq<Seq<char>>)
    ensures
        inhabited(crate::rust_type::renamed(t, n)) == inhabited(t),
    decreases t,
{
    match t {
        RustTypeModel::Enum(def) => lemma_renamed_variants_inhabited(def.variants, n),
        RustTypeModel::Array(e, _) => lemma_renamed_inhabited(*e, n),
        RustTypeModel::Option(e) => lemma_renamed_inhabited(*e, n),
        RustTypeModel::List(e, _) => lemma_renamed_inhabited(*e, n),
        RustTypeModel::Either(l, r) => {
            lemma_renamed_inhabited(*l, n);
            lemma_renamed_inhabited(*r, n);
        },
        RustTypeModel::Tuple(es) => lemma_renamed_types_inhabited(es, n),
        _ => {},
    }
}

proof fn lemma_renamed_types_inhabited(s: Seq<RustTypeModel>, n: Seq<Seq<char>>)
    ensures
        types_inhabited(crate::rust_type::renamed_types(s, n)) == types_inhabited(s),
    decreases s,
{
    if s.len() > 0 {
        lemma_renamed_types_inhabited(s.drop_last(), n);
        lemma_renamed_inhabited(s.last(), n);
        let r = crate::rust_type::renamed_types(s, n);
        assert(r.drop_last() =~= crate::rust_type::renamed_types(s.drop_last(), n));
    }
}

proof fn lemma_renamed_variants_inhabited(s: Seq<RustVariantModel>, n: Seq<Seq<char>>)
    ensures
        variants_inhabited(crate::rust_type::renamed_variants(s, n)) == variants_inhabited(s),
        crate::rust_type::renamed_variants(s, n).len() == s.len(),
    decreases s,
{
    if s.len() > 0 {
        lemma_renamed_variants_inhabited(s.drop_last(), n);
        lemma_renamed_types_inhabited(s.last().payload, n);
        let r = crate::rust_type::renamed_variants(s, n);
        assert(r.drop_last() =~= crate::rust_type::renamed_variants(s.drop_last(), n));
    }
}

/// No enum name is declared twice.
pub open spec fn names_distinct(acc: Declarations) -> bool {
    forall|i: int, j: int| 0 <= i < j < acc.len() ==> (#[trigger] acc[i]).0 != (#[trigger] acc[j]).0
}

/// `r` extends `acc`.
pub open spec fn extends(acc: Declarations, r: Declarations) -> bool {
    acc.len() <= r.len() && forall|i: int| 0 <= i < acc.len() ==> #[trigger] r[i] == acc[i]
}

proof fn lemma_extends_declares(acc: Declarations, r: Declarations, name: Seq<char>)
    requires
        extends(acc, r),
        declares(acc, name),
    ensures
        declares(r, name),
{
    let i = choose|i: int| 0 <= i < acc.len() && (#[trigger] acc[i]).0 == name;
    assert(r[i] == acc[i]);
}

/// Gathering declarations keeps what was gathered, declares every enum
/// reachable from the type, and declares no enum name twice.
pub proof fn lemma_collect_declarations(t: RustTypeModel, acc: Declarations)
    ensures
        extends(acc, collect_declarations(t, acc)),
        names_distinct(acc) ==> names_distinct(collect_declarations(t, acc)),
        forall|k: int|
            0 <= k < enum_names(t).len() ==> declares(
                collect_declarations(t, acc),
                #[trigger] enum_names(t)[k],
            ),
    decreases t, 0nat,
{
    let r = collect_declarations(t, acc);
    match t {
        RustTypeModel::Enum(def) => {
            let n = def.variants.len();
            lemma_collect_variants_declarations(def.variants, n, acc);
            let inner = collect_variants_declarations(def.variants, n, acc);
            assert(def.variants.take(n as int) =~= def.variants);
            let vnames = variants_enum_names(def.variants);
            if !declares(inner, def.name) {
                let pushed = inner.push((def.name, enum_declaration(def)));
                assert(pushed[inner.len() as int].0 == def.name);
                assert(declares(pushed, def.name));
                if names_distinct(acc) {
                    assert forall|i: int, j: int| 0 <= i < j < pushed.len() implies (
                    #[trigger] pushed[i]).0 != (#[trigger] pushed[j]).0 by {
                        if j == inner.len() {
                            assert(pushed[i] == inner[i]);
                        } else {
                            assert(pushed[i] == inner[i]);
                            assert(pushed[j] == inner[j]);
                        }
                    }
                }
            }
            assert(extends(inner, r));
            assert(extends(acc, r));
            assert(declares(r, def.name));
            assert forall|k: int| 0 <= k < enum_names(t).len() implies declares(
                r,
                #[trigger] enum_names(t)[k],
            ) by {
                if k == 0 {
                    assert(enum_names(t)[0] == def.name);
                } else {
                    let name = vnames[k - 1];
                    assert(enum_names(t)[k] == name);
                    assert(variants_enum_names(def.variants.take(n as int))[k - 1] == name);
                    assert(declares(inner, name));
                    lemma_extends_declares(inner, r, name);
                }
            }
        },
        RustTypeModel::Array(e, _) => {
            lemma_collect_declarations(*e, acc);
            assert(enum_names(t) == enum_names(*e));
        },
        RustTypeModel::Option(e) => {
            lemma_collect_declarations(*e, acc);
            assert(enum_names(t) == enum_names(*e));
        },
        RustTypeModel::List(e, _) => {
            lemma_collect_declarations(*e, acc);
            assert(enum_names(t) == enum_names(*e));
        },
        RustTypeModel::Either(l, rt) => {
            lemma_collect_declarations(*l, acc);
            let mid = collect_declarations(*l, acc);
            lemma_collect_declarations(*rt, mid);
            assert forall|k: int| 0 <= k < enum_names(t).len() implies declares(
                r,
                #[trigger] enum_names(t)[k],
            ) by {
                if k < enum_names(*l).len() {
                    assert(enum_names(t)[k] == enum_names(*l)[k]);
                    lemma_extends_declares(mid, r, enum_names(*l)[k]);
                } else {
                    assert(enum_names(t)[k] == enum_names(*rt)[k - enum_names(*l).len()]);
                }
            }
        },
        RustTypeModel::Tuple(es) => {
            lemma_collect_types_declarations(es, es.len(), acc);
            assert(es.take(es.len() as int) =~= es);
            assert forall|k: int| 0 <= k < enum_names(t).len() implies declares(
                r,
                #[trigger] enum_names(t)[k],
            ) by {
                assert(enum_names(t)[k] == types_enum_names(es.take(es.len() as int))[k]);
            }
        },
        _ => {},
    }
}

/// `lemma_collect_declarations` over the first `k` types.
pub proof fn lemma_collect_types_declarations(es: Seq<RustTypeModel>, k: nat, acc: Declarations)
    requires
        k <= es.len(),
    ensures
        extends(acc, collect_types_declarations(es, k, acc)),
        names_distinct(acc) ==> names_distinct(collect_types_declarations(es, k, acc)),
        forall|m: int|
            0 <= m < types_enum_names(es.take(k as int)).len() ==> declares(
                collect_types_declarations(es, k, acc),
                #[trigger] types_enum_names(es.take(k as int))[m],
            ),
    decreases es, k,
{
    if k == 0 {
        assert(es.take(0) =~= Seq::<RustTypeModel>::empty());
    } else {
        lemma_collect_types_declarations(es, (k - 1) as nat, acc);
        let mid = collect_types_declarations(es, (k - 1) as nat, acc);
        lemma_collect_declarations(es[k - 1], mid);
        let r = collect_types_declarations(es, k, acc);
        assert(es.take(k as int).drop_last() =~= es.take(k - 1));
        assert(es.take(k as int).last() == es[k - 1]);
        let before = types_enum_names(es.take(k - 1));
        assert forall|m: int| 0 <= m < types_enum_names(es.take(k as int)).len() implies declares(
            r,
            #[trigger] types_enum_names(es.take(k as int))[m],
        ) by {
            if m < before.len() {
                assert(types_enum_names(es.take(k as int))[m] == before[m]);
                lemma_extends_declares(mid, r, before[m]);
            } else {
                assert(types_enum_names(es.take(k as int))[m] == enum_names(es[k - 1])[m
                    - before.len()]);
            }
        }
    }
}

/// `lemma_collect_declarations` over the payloads of the first `k`
/// variants.
pub proof fn lemma_collect_variants_declarations(vs: Seq<RustVariantModel>, k: nat, acc: Declarations)
    requires
        k <= vs.len(),
    ensures
        extends(acc, collect_variants_declarations(vs, k, acc)),
        names_distinct(acc) ==> names_distinct(collect_variants_declarations(vs, k, acc)),
        forall|m: int|
            0 <= m < variants_enum_names(vs.take(k as int)).len() ==> declares(
                collect_variants_declarations(vs, k, acc),
                #[trigger] variants_enum_names(vs.take(k as int))[m],
            ),
    decreases vs, k,
{
    if k == 0 {
        assert(vs.take(0) =~= Seq::<RustVariantModel>::empty());
    } else {
        lemma_collect_variants_declarations(vs, (k - 1) as nat, acc);
        let mid = collect_variants_declarations(vs, (k - 1) as nat, acc);
        let p = vs[k - 1].payload;
        lemma_collect_types_declarations(p, p.len(), mid);
        assert(p.take(p.len() as int) =~= p);
        let r = collect_variants_declarations(vs, k, acc);
        assert(vs.take(k as int).drop_last() =~= vs.take(k - 1));
        assert(vs.take(k as int).last() == vs[k - 1]);
        let before = variants_enum_names(vs.take(k - 1));
        assert forall|m: int| 0 <= m < variants_enum_names(vs.take(k as int)).len() implies declares(
            r,
            #[trigger] variants_enum_names(vs.take(k as int))[m],
        ) by {
            if m < before.len() {
                assert(variants_enum_names(vs.take(k as int))[m] == before[m]);
                lemma_extends_declares(mid, r, before[m]);
            } else {
                assert(variants_enum_names(vs.take(k as int))[m] == types_enum_names(p)[m
                    - before.len()]);
            }
        }
    }
}

/// The type that the construction of an integer binding builds is the
/// integer type it came from: the binding of `uN` builds `ResolvedType::uN()`.
pub proof fn lemma_integer_bindings_build_their_type(u: UIntType)
    ensures
        rust_type_of(TypeModel::UInt(u)) matches Some(r) && type_construction(r) == "ResolvedType::"@
            + uint_text(u) + "()"@,
{
    reveal_strlit("ResolvedType::");
    reveal_strlit("()");
    reveal_strlit("ResolvedType::u1()");
    reveal_strlit("ResolvedType::u2()");
    reveal_strlit("ResolvedType::u4()");
    reveal_strlit("ResolvedType::u8()");
    reveal_strlit("ResolvedType::u16()");
    reveal_strlit("ResolvedType::u32()");
    reveal_strlit("ResolvedType::u64()");
    reveal_strlit("ResolvedType::u128()");
    reveal_strlit("ResolvedType::u256()");
    reveal_strlit("u1");
    reveal_strlit("u2");
    reveal_strlit("u4");
    reveal_strlit("u8");
    reveal_strlit("u16");
    reveal_strlit("u32");
    reveal_strlit("u64");
    reveal_strlit("u128");
    reveal_strlit("u256");
    let r = rust_type_of(TypeModel::UInt(u)).unwrap();
    assert(type_construction(r) =~= "ResolvedType::"@ + uint_text(u) + "()"@);
}

/// The conversion of an optional value turns `Some(x)` into `Value::some`
/// of the conversion of `x`, and `None` into `Value::none` of the inner
/// type: the code ends with the `Some` arm, which wraps the inner
/// conversion, and starts with the `None` arm.
pub proof fn lemma_option_conversion_keeps_some(
    x: RustTypeModel,
    e: Seq<char>,
    prev: Option<RustTypeContext>,
)
    ensures
        exists|mid: Seq<char>|
            value_conversion(RustTypeModel::Option(Box::new(x)), e, prev) == "match &"@ + e
                + " { None => { Value::none("@ + type_construction(x) + mid
                + "Some(inner_val) => { Value::some("@ + value_conversion(
                x,
                "inner_val"@,
                Some(RustTypeContext::Option),
            ) + ") } }"@,
{
    let mid = ") } "@;
    assert(value_conversion(RustTypeModel::Option(Box::new(x)), e, prev) =~= "match &"@ + e
        + " { None => { Value::none("@ + type_construction(x) + mid
        + "Some(inner_val) => { Value::some("@ + value_conversion(
        x,
        "inner_val"@,
        Some(RustTypeContext::Option),
    ) + ") } }"@) by {
        reveal_strlit(") } Some(inner_val) => { Value::some(");
        reveal_strlit(") } ");
        reveal_strlit("Some(inner_val) => { Value::some(");
    }
}

/// The conversion of an `Either` value turns `Left(l)` into `Value::left`
/// of the conversion of `l` and `Right(r)` into `Value::right` of the
/// conversion of `r`.
pub proof fn lemma_either_conversion_keeps_sides(
    l: RustTypeModel,
    r: RustTypeModel,
    e: Seq<char>,
    prev: Option<RustTypeContext>,
)
    ensures
        exists|a: Seq<char>, b: Seq<char>|
            value_conversion(RustTypeModel::Either(Box::new(l), Box::new(r)), e, prev) == a
                + "Value::left("@ + value_conversion(
                l,
                "left_val"@,
                Some(RustTypeContext::EitherLeft),
            ) + b + "Value::right("@ + type_construction(l) + ", "@ + value_conversion(
                r,
                "right_val"@,
                Some(RustTypeContext::EitherRight),
            ) + ") } }"@,
{
    let a = "match &"@ + e + " { ::simplex::either::Either::Left(left_val) => { "@;
    let b = ", "@ + type_construction(r)
        + ") } ::simplex::either::Either::Right(right_val) => { "@;
    assert(value_conversion(RustTypeModel::Either(Box::new(l), Box::new(r)), e, prev) =~= a
        + "Value::left("@ + value_conversion(l, "left_val"@, Some(RustTypeContext::EitherLeft)) + b
        + "Value::right("@ + type_construction(l) + ", "@ + value_conversion(
        r,
        "right_val"@,
        Some(RustTypeContext::EitherRight),
    ) + ") } }"@) by {
        reveal_strlit(" { ::simplex::either::Either::Left(left_val) => { Value::left(");
        reveal_strlit(" { ::simplex::either::Either::Left(left_val) => { ");
        reveal_strlit("Value::left(");
        reveal_strlit(") } ::simplex::either::Either::Right(right_val) => { Value::right(");
        reveal_strlit(") } ::simplex::either::Either::Right(right_val) => { ");
        reveal_strlit("Value::right(");
    }
}

/// The expression that builds a SimplicityHL type with `ResolvedType`'s
/// constructors, an enum type looked up by its name.
pub open spec fn resolved_type_expr(t: TypeModel) -> Seq<char>
    decreases t,
{
    match t {
        TypeModel::Boolean => "ResolvedType::boolean()"@,
        TypeModel::UInt(u) => "ResolvedType::"@ + uint_text(u) + "()"@,
        TypeModel::Either(l, r) => "ResolvedType::either("@ + resolved_type_expr(*l) + ", "@
            + resolved_type_expr(*r) + ")"@,
        TypeModel::Option(x) => "ResolvedType::option("@ + resolved_type_expr(*x) + ")"@,
        TypeModel::Tuple(es) => "ResolvedType::tuple(["@ + resolved_types_expr(es) + "])"@,
        TypeModel::Array(e, n) => "ResolvedType::array("@ + resolved_type_expr(*e) + ", "@
            + decimal_text(n) + ")"@,
        TypeModel::List(e, n) => "ResolvedType::list("@ + resolved_type_expr(*e)
            + ", NonZeroPow2Usize::new("@ + decimal_text(n)
            + ").ok_or_else(|| format!(\"Failed to create non zero pow2 length, got size: '{}'\", "@
            + decimal_text(n) + ")).unwrap())"@,
        TypeModel::Enum(info) => "enum_type("@ + quoted(info.name) + ")"@,
        TypeModel::Never => Seq::empty(),
    }
}

/// The expressions that build a list of types, separated by commas.
pub open spec fn resolved_types_expr(s: Seq<TypeModel>) -> Seq<char>
    decreases s,
{
    if s.len() == 0 {
        Seq::empty()
    } else if s.len() == 1 {
        resolved_type_expr(s[0])
    } else {
        resolved_types_expr(s.drop_last()) + ", "@ + resolved_type_expr(s.last())
    }
}

/// The type construction of a binding rebuilds the SimplicityHL type the
/// binding came from: the same constructors, integer widths, sizes and
/// bounds, and enum names.
pub proof fn lemma_binding_construction_rebuilds_type(t: TypeModel)
    ensures
        rust_type_of(t) matches Some(r) ==> type_construction(r) == resolved_type_expr(t),
    decreases t, 1nat,
{
    reveal_strlit("ResolvedType::");
    reveal_strlit("()");
    reveal_strlit("ResolvedType::u1()");
    reveal_strlit("ResolvedType::u2()");
    reveal_strlit("ResolvedType::u4()");
    reveal_strlit("ResolvedType::u8()");
    reveal_strlit("ResolvedType::u16()");
    reveal_strlit("ResolvedType::u32()");
    reveal_strlit("ResolvedType::u64()");
    reveal_strlit("ResolvedType::u128()");
    reveal_strlit("ResolvedType::u256()");
    reveal_strlit("u1");
    reveal_strlit("u2");
    reveal_strlit("u4");
    reveal_strlit("u8");
    reveal_strlit("u16");
    reveal_strlit("u32");
    reveal_strlit("u64");
    reveal_strlit("u128");
    reveal_strlit("u256");
    match t {
        TypeModel::UInt(u) => {
            let r = rust_type_of(t).unwrap();
            assert(type_construction(r) =~= "ResolvedType::"@ + uint_text(u) + "()"@);
        },
        TypeModel::Either(l, r) => {
            lemma_binding_construction_rebuilds_type(*l);
            lemma_binding_construction_rebuilds_type(*r);
        },
        TypeModel::Option(x) => {
            lemma_binding_construction_rebuilds_type(*x);
        },
        TypeModel::Tuple(es) => {
            lemma_bindings_construction_rebuild_types(es);
        },
        TypeModel::Array(e, _) => {
            lemma_binding_construction_rebuilds_type(*e);
        },
        TypeModel::List(e, _) => {
            lemma_binding_construction_rebuilds_type(*e);
        },
        _ => {},
    }
}

/// `lemma_binding_construction_rebuilds_type` over a list of types.
pub proof fn lemma_bindings_construction_rebuild_types(s: Seq<TypeModel>)
    ensures
        rust_types_of(s) matches Some(rs) ==> types_construction(rs) == resolved_types_expr(s),
    decreases s, 0nat,
{
    if s.len() > 0 {
        lemma_bindings_construction_rebuild_types(s.drop_last());
        lemma_binding_construction_rebuilds_type(s.last());
        if rust_types_of(s) is Some {
            let rs = rust_types_of(s).unwrap();
            let v = rust_types_of(s.drop_last()).unwrap();
            assert(rs == v.push(rust_type_of(s.last()).unwrap()));
            assert(rs.drop_last() =~= v);
            if s.len() == 1 {
                assert(s.drop_last().len() == 0);
                assert(v.len() == 0);
                assert(rs[0] == rust_type_of(s[0]).unwrap());
            } else {
                assert(v.len() == s.drop_last().len()) by {
                    lemma_rust_types_len(s.drop_last());
                }
            }
        }
    }
}

proof fn lemma_rust_types_len(s: Seq<TypeModel>)
    ensures
        rust_types_of(s) matches Some(rs) ==> rs.len() == s.len(),
    decreases s.len(),
{
    if s.len() > 0 {
        lemma_rust_types_len(s.drop_last());
    }
}

} // verus!
