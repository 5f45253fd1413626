//! The Rust module generated for a contract: its arguments and witness
//! structs with their conversions to and from SimplicityHL values, serde
//! impls and defaults, the enums of its ABI, and the constant that holds
//! its source.
use vstd::prelude::*;

use crate::codegen::{
    declares, extends, lemma_collect_types_declarations, names_distinct, collect_types_declarations, declarations_view, default_value, from_value_extraction,
    inhabited, lemma_renamed_inhabited, quote_str, quoted, type_tokens, value_conversion,
    Declarations,
};
use crate::hl_type::{HlType, TypeModel};
use crate::names::{
    convert_contract_name_to_contract_module, convert_contract_name_to_contract_source_const,
    convert_contract_name_to_struct_name, convert_witness_name_to_field_name, field_name_text,
    module_text, source_const_text, struct_name_text,
};
use crate::rust_type::{
    enum_names, has_enum, lemma_renamed_twice, lemma_rtypes_view, lemma_rust_types_of,
    lemma_types_enum_names_concat, lemma_types_enum_names_congruent, renamed, rust_type_of,
    rust_types_of, strings_view, types_enum_names, CodegenError, RustType, RustTypeModel,
};

verus! {

/// `parts` separated by `sep`.
pub open spec fn join(parts: Seq<Seq<char>>, sep: Seq<char>) -> Seq<char>
    decreases parts.len(),
{
    if parts.len() == 0 {
        Seq::empty()
    } else if parts.len() == 1 {
        parts[0]
    } else {
        join(parts.drop_last(), sep) + sep + parts.last()
    }
}

/// Joining one more part appends the separator (after the first part) and
/// the part.
pub proof fn lemma_join_step(parts: Seq<Seq<char>>, sep: Seq<char>, i: int)
    requires
        0 <= i < parts.len(),
    ensures
        join(parts.take(i + 1), sep) == join(parts.take(i), sep) + (if i == 0 {
            Seq::empty()
        } else {
            sep
        }) + parts[i],
{
    assert(parts.take(i + 1).drop_last() =~= parts.take(i));
    if i == 0 {
        assert(join(parts.take(0), sep) =~= Seq::<char>::empty());
        assert(Seq::<char>::empty() + Seq::<char>::empty() + parts[0] =~= parts[0]);
    }
}

/// A field of a generated struct: the SimplicityHL name of the witness or
/// parameter, the Rust field name, and the field's type.
#[derive(PartialEq, Eq, Debug)]
pub struct WitnessField {
    pub witness_simf_name: String,
    pub struct_rust_field: String,
    pub rust_type: RustType,
}

/// Mathematical model of a struct field.
pub struct FieldModel {
    pub simf_name: Seq<char>,
    pub field: Seq<char>,
    pub ty: RustTypeModel,
}

impl View for WitnessField {
    type V = FieldModel;

    open spec fn view(&self) -> FieldModel {
        FieldModel {
            simf_name: self.witness_simf_name@,
            field: self.struct_rust_field@,
            ty: self.rust_type@,
        }
    }
}

/// A generated arguments or witness struct: its name and fields.
#[derive(PartialEq, Eq, Debug)]
pub struct WitnessStruct {
    pub struct_name: String,
    pub witness_values: Vec<WitnessField>,
}

/// The models of a list of fields.
pub open spec fn fields_view(s: Seq<WitnessField>) -> Seq<FieldModel> {
    s.map_values(|f: WitnessField| f@)
}

/// The entry of a field in the map built from a struct: the witness name
/// and the field converted into a SimplicityHL value.
pub open spec fn field_tuple(f: FieldModel) -> Seq<char> {
    "(::simplex::simplicityhl::str::WitnessName::from_str_unchecked("@ + quoted(f.simf_name)
        + "), "@ + value_conversion(f.ty, "self."@ + f.field, None) + ")"@
}

/// The declaration of a field.
pub open spec fn field_declaration(f: FieldModel) -> Seq<char> {
    "pub "@ + f.field + ": "@ + type_tokens(f.ty, "super::enums::"@)
}

/// The default of a field in a struct literal.
pub open spec fn field_default(f: FieldModel) -> Seq<char> {
    f.field + ": "@ + default_value(f.ty)
}

/// The statement that reads a field out of the map `param`.
pub open spec fn field_extraction(f: FieldModel, param: Seq<char>) -> Seq<char> {
    "let "@ + f.field + " = "@ + from_value_extraction(f.ty, param, f.simf_name) + "; "@
}

/// The declaration of a generated struct.
#[verifier::opaque]
pub open spec fn struct_declaration(name: Seq<char>, fs: Seq<FieldModel>) -> Seq<char> {
    "#[derive(Debug, Clone, PartialEq, Eq)] pub struct "@ + name + " { "@ + join(
        fs.map_values(|f: FieldModel| field_declaration(f)),
        ", "@,
    ) + " }"@
}

/// The struct literal with every field at its default.
pub open spec fn default_mapping(name: Seq<char>, fs: Seq<FieldModel>) -> Seq<char> {
    name + " { "@ + join(fs.map_values(|f: FieldModel| field_default(f)), ", "@) + " }"@
}

/// The statements that read every field out of the map `param`.
pub open spec fn field_extractions(fs: Seq<FieldModel>, param: Seq<char>) -> Seq<char> {
    join(fs.map_values(|f: FieldModel| field_extraction(f, param)), Seq::empty())
}

/// The struct literal built from the fields read out of a map.
pub open spec fn struct_init(fs: Seq<FieldModel>) -> Seq<char> {
    "Self { "@ + join(fs.map_values(|f: FieldModel| f.field), ", "@) + " }"@
}

/// The entries of the map built from a struct, separated by `", "`.
pub open spec fn field_tuples(fs: Seq<FieldModel>) -> Seq<char> {
    join(fs.map_values(|f: FieldModel| field_tuple(f)), ", "@)
}

/// Whether an enum is reachable from the type of some field.
pub open spec fn fields_have_enum(fs: Seq<FieldModel>) -> bool {
    exists|i: int| 0 <= i < fs.len() && has_enum(#[trigger] fs[i].ty)
}

/// Whether every enum reachable from the fields' types has a variant.
pub open spec fn fields_inhabited(fs: Seq<FieldModel>) -> bool {
    forall|i: int| 0 <= i < fs.len() ==> inhabited(#[trigger] fs[i].ty)
}

/// The imports that generated code with enums needs.
pub open spec fn enum_helper_imports(fs: Seq<FieldModel>) -> Seq<char> {
    if fields_have_enum(fs) {
        "use super::{abi_types, enum_type}; use ::simplex::simplicityhl::UnresolvedValues; "@
    } else {
        Seq::empty()
    }
}

/// The serde `Deserialize` impl of a generated struct. With enums, values
/// are read as unresolved and resolved against the contract's declared
/// types; otherwise the typed map is read directly.
pub open spec fn deserialize_impl(name: Seq<char>, fs: Seq<FieldModel>, is_witness: bool) -> Seq<
    char,
> {
    let map_type = if is_witness {
        "::simplex::simplicityhl::WitnessValues"@
    } else {
        "::simplex::simplicityhl::Arguments"@
    };
    let resolve_map = if is_witness {
        "&abi_types().witness_types"@
    } else {
        "&abi_types().parameters"@
    };
    let recover = if is_witness {
        "Self::from_witness(&x)"@
    } else {
        "Self::from_arguments(&x)"@
    };
    let read = if fields_have_enum(fs) {
        "let unresolved = UnresolvedValues::deserialize(deserializer)?; let x: "@ + map_type
            + " = unresolved.resolve("@ + resolve_map
            + ").map_err(::simplex::serde::de::Error::custom)?; "@
    } else {
        "let x = "@ + map_type + "::deserialize(deserializer)?; "@
    };
    "impl<'de> ::simplex::serde::Deserialize<'de> for "@ + name
        + " { fn deserialize<D>(deserializer: D) -> Result<Self, D::Error> where D: ::simplex::serde::Deserializer<'de>, { "@
        + read + recover + ".map_err(::simplex::serde::de::Error::custom) } }"@
}

pub fn join_step(s: &mut String, i: usize, sep: &str, part: &str)
    ensures
        final(s)@ == old(s)@ + (if i == 0 {
            Seq::empty()
        } else {
            sep@
        }) + part@,
{
    if i > 0 {
        s.append(sep);
    }
    s.append(part);
    proof {
        if i == 0 {
            assert(old(s)@ + Seq::<char>::empty() + part@ =~= old(s)@ + part@);
        }
    }
}

#[verifier::loop_isolation(false)]
fn field_declarations_exec(fs: &Vec<WitnessField>) -> (r: String)
    ensures
        r@ == join(fields_view(fs@).map_values(|f: FieldModel| field_declaration(f)), ", "@),
{
    let ghost parts = fields_view(fs@).map_values(|f: FieldModel| field_declaration(f));
    let mut s = String::new();
    let mut i: usize = 0;
    while i < fs.len()
        invariant
            i <= fs.len(),
            parts.len() == fs@.len(),
            s@ == join(parts.take(i as int), ", "@),
        decreases fs.len() - i,
    {
        let mut p = String::from_str("pub ");
        p.append(fs[i].struct_rust_field.as_str());
        p.append(": ");
        let t = fs[i].rust_type.to_type_token_stream();
        p.append(t.as_str());
        assert(p@ =~= parts[i as int]);
        proof {
            lemma_join_step(parts, ", "@, i as int);
        }
        join_step(&mut s, i, ", ", p.as_str());
        i += 1;
    }
    assert(parts.take(fs.len() as int) =~= parts);
    s
}

#[verifier::loop_isolation(false)]
fn field_defaults_exec(fs: &Vec<WitnessField>) -> (r: String)
    requires
        fields_inhabited(fields_view(fs@)),
    ensures
        r@ == join(fields_view(fs@).map_values(|f: FieldModel| field_default(f)), ", "@),
{
    let ghost parts = fields_view(fs@).map_values(|f: FieldModel| field_default(f));
    let mut s = String::new();
    let mut i: usize = 0;
    while i < fs.len()
        invariant
            i <= fs.len(),
            parts.len() == fs@.len(),
            s@ == join(parts.take(i as int), ", "@),
        decreases fs.len() - i,
    {
        assert(inhabited(fields_view(fs@)[i as int].ty));
        let mut p = fs[i].struct_rust_field.clone();
        p.append(": ");
        let d = fs[i].rust_type.get_default_value();
        p.append(d.as_str());
        assert(p@ =~= parts[i as int]);
        proof {
            lemma_join_step(parts, ", "@, i as int);
        }
        join_step(&mut s, i, ", ", p.as_str());
        i += 1;
    }
    assert(parts.take(fs.len() as int) =~= parts);
    s
}

#[verifier::loop_isolation(false)]
fn field_extractions_exec(fs: &Vec<WitnessField>, param: &str) -> (r: String)
    ensures
        r@ == field_extractions(fields_view(fs@), param@),
{
    let ghost parts = fields_view(fs@).map_values(|f: FieldModel| field_extraction(f, param@));
    let mut s = String::new();
    let mut i: usize = 0;
    while i < fs.len()
        invariant
            i <= fs.len(),
            parts.len() == fs@.len(),
            s@ == join(parts.take(i as int), Seq::empty()),
        decreases fs.len() - i,
    {
        let mut p = String::from_str("let ");
        p.append(fs[i].struct_rust_field.as_str());
        p.append(" = ");
        let x = fs[i].rust_type.generate_from_value_extraction(
            param,
            fs[i].witness_simf_name.as_str(),
        );
        p.append(x.as_str());
        p.append("; ");
        assert(p@ =~= parts[i as int]);
        proof {
            lemma_join_step(parts, Seq::empty(), i as int);
            reveal_strlit("");
        }
        join_step(&mut s, i, "", p.as_str());
        i += 1;
    }
    assert(parts.take(fs.len() as int) =~= parts);
    s
}

#[verifier::loop_isolation(false)]
fn field_names_exec(fs: &Vec<WitnessField>) -> (r: String)
    ensures
        r@ == join(fields_view(fs@).map_values(|f: FieldModel| f.field), ", "@),
{
    let ghost parts = fields_view(fs@).map_values(|f: FieldModel| f.field);
    let mut s = String::new();
    let mut i: usize = 0;
    while i < fs.len()
        invariant
            i <= fs.len(),
            parts.len() == fs@.len(),
            s@ == join(parts.take(i as int), ", "@),
        decreases fs.len() - i,
    {
        proof {
            lemma_join_step(parts, ", "@, i as int);
        }
        join_step(&mut s, i, ", ", fs[i].struct_rust_field.as_str());
        i += 1;
    }
    assert(parts.take(fs.len() as int) =~= parts);
    s
}

#[verifier::loop_isolation(false)]
fn field_tuples_exec(fs: &Vec<WitnessField>) -> (r: String)
    ensures
        r@ == field_tuples(fields_view(fs@)),
{
    let ghost parts = fields_view(fs@).map_values(|f: FieldModel| field_tuple(f));
    let mut s = String::new();
    let mut i: usize = 0;
    while i < fs.len()
        invariant
            i <= fs.len(),
            parts.len() == fs@.len(),
            s@ == join(parts.take(i as int), ", "@),
        decreases fs.len() - i,
    {
        let p = fs[i].to_token_stream();
        proof {
            lemma_join_step(parts, ", "@, i as int);
        }
        join_step(&mut s, i, ", ", p.as_str());
        i += 1;
    }
    assert(parts.take(fs.len() as int) =~= parts);
    s
}

impl WitnessField {
    /// The entry of the field in the map built from the struct.
    pub fn to_token_stream(&self) -> (r: String)
        ensures
            r@ == field_tuple(self@),
    {
        let mut s = String::from_str(
            "(::simplex::simplicityhl::str::WitnessName::from_str_unchecked(",
        );
        let q = quote_str(self.witness_simf_name.as_str());
        s.append(q.as_str());
        s.append("), ");
        let mut e = String::from_str("self.");
        e.append(self.struct_rust_field.as_str());
        let c = self.rust_type.generate_to_simplicity_conversion(e.as_str());
        s.append(c.as_str());
        s.append(")");
        assert(s@ =~= field_tuple(self@));
        s
    }
}

impl WitnessStruct {
    /// Whether an enum is reachable from the type of some field.
    pub fn has_enum_fields(&self) -> (r: bool)
        ensures
            r == fields_have_enum(fields_view(self.witness_values@)),
    {
        let mut i: usize = 0;
        while i < self.witness_values.len()
            invariant
                i <= self.witness_values@.len(),
                forall|j: int|
                    0 <= j < i ==> !has_enum(#[trigger] fields_view(self.witness_values@)[j].ty),
            decreases self.witness_values@.len() - i,
        {
            if self.witness_values[i].rust_type.contains_enum() {
                assert(has_enum(fields_view(self.witness_values@)[i as int].ty));
                return true;
            }
            i += 1;
        }
        false
    }

    /// The declaration of the generated struct.
    pub fn generate_struct_token_stream(&self) -> (r: String)
        ensures
            r@ == struct_declaration(self.struct_name@, fields_view(self.witness_values@)),
    {
        reveal(struct_declaration);
        let mut s = String::from_str("#[derive(Debug, Clone, PartialEq, Eq)] pub struct ");
        s.append(self.struct_name.as_str());
        s.append(" { ");
        let f = field_declarations_exec(&self.witness_values);
        s.append(f.as_str());
        s.append(" }");
        s
    }

    /// The struct literal with every field at its default.
    pub fn generate_default_mapping(&self) -> (r: String)
        requires
            fields_inhabited(fields_view(self.witness_values@)),
        ensures
            r@ == default_mapping(self.struct_name@, fields_view(self.witness_values@)),
    {
        let mut s = self.struct_name.clone();
        s.append(" { ");
        let f = field_defaults_exec(&self.witness_values);
        s.append(f.as_str());
        s.append(" }");
        s
    }

    /// The entries of the map built from the struct.
    pub fn construct_witness_tuples(&self) -> (r: Vec<String>)
        ensures
            r@.len() == self.witness_values@.len(),
            forall|i: int|
                0 <= i < r@.len() ==> #[trigger] r@[i]@ == field_tuple(
                    self.witness_values@[i]@,
                ),
    {
        let mut out: Vec<String> = Vec::new();
        let mut i: usize = 0;
        while i < self.witness_values.len()
            invariant
                i <= self.witness_values@.len(),
                out@.len() == i,
                forall|j: int|
                    0 <= j < i ==> #[trigger] out@[j]@ == field_tuple(self.witness_values@[j]@),
            decreases self.witness_values@.len() - i,
        {
            out.push(self.witness_values[i].to_token_stream());
            i += 1;
        }
        out
    }

    /// The statements that read every field out of the map `param_name`,
    /// and the struct literal built from them.
    pub fn generate_from_args_conversion_with_param_name(&self, param_name: &str) -> (r: (
        String,
        String,
    ))
        ensures
            r.0@ == field_extractions(fields_view(self.witness_values@), param_name@),
            r.1@ == struct_init(fields_view(self.witness_values@)),
    {
        let extractions = field_extractions_exec(&self.witness_values, param_name);
        let mut init = String::from_str("Self { ");
        let names = field_names_exec(&self.witness_values);
        init.append(names.as_str());
        init.append(" }");
        (extractions, init)
    }

    /// The imports that the generated code needs for enums, if any field
    /// reaches one.
    pub fn enum_helper_imports(&self) -> (r: String)
        ensures
            r@ == enum_helper_imports(fields_view(self.witness_values@)),
    {
        if self.has_enum_fields() {
            String::from_str(
                "use super::{abi_types, enum_type}; use ::simplex::simplicityhl::UnresolvedValues; ",
            )
        } else {
            String::new()
        }
    }

    /// The serde `Deserialize` impl of the generated struct.
    pub fn generate_deserialize_impl(&self, is_witness: bool) -> (r: String)
        ensures
            r@ == deserialize_impl(self.struct_name@, fields_view(self.witness_values@), is_witness),
    {
        let map_type = if is_witness {
            "::simplex::simplicityhl::WitnessValues"
        } else {
            "::simplex::simplicityhl::Arguments"
        };
        let resolve_map = if is_witness {
            "&abi_types().witness_types"
        } else {
            "&abi_types().parameters"
        };
        let recover = if is_witness {
            "Self::from_witness(&x)"
        } else {
            "Self::from_arguments(&x)"
        };
        let mut read = String::new();
        if self.has_enum_fields() {
            read.append("let unresolved = UnresolvedValues::deserialize(deserializer)?; let x: ");
            read.append(map_type);
            read.append(" = unresolved.resolve(");
            read.append(resolve_map);
            read.append(").map_err(::simplex::serde::de::Error::custom)?; ");
        } else {
            read.append("let x = ");
            read.append(map_type);
            read.append("::deserialize(deserializer)?; ");
        }
        let mut s = String::from_str("impl<'de> ::simplex::serde::Deserialize<'de> for ");
        s.append(self.struct_name.as_str());
        s.append(
            " { fn deserialize<D>(deserializer: D) -> Result<Self, D::Error> where D: ::simplex::serde::Deserializer<'de>, { ",
        );
        s.append(read.as_str());
        s.append(recover);
        s.append(".map_err(::simplex::serde::de::Error::custom) } }");
        assert(s@ =~= deserialize_impl(
            self.struct_name@,
            fields_view(self.witness_values@),
            is_witness,
        ));
        s
    }
}

/// The name of the map of values that a struct is read from.
pub open spec fn map_name(is_witness: bool) -> Seq<char> {
    if is_witness {
        "WitnessValues"@
    } else {
        "Arguments"@
    }
}

/// The trait that a generated struct implements.
pub open spec fn trait_name(is_witness: bool) -> Seq<char> {
    if is_witness {
        "WitnessTrait"@
    } else {
        "ArgumentsTrait"@
    }
}

/// The start of the function that reads a struct from a map of values.
pub open spec fn from_fn_head(is_witness: bool) -> Seq<char> {
    if is_witness {
        "#[doc = \" Build struct from Simplicity WitnessValues.\"] #[doc = \"\"] #[doc = \" # Errors\"] #[doc = \"\"] #[doc = \" Returns error if any required witness is missing, has the wrong type, or has an invalid value.\"] pub fn from_witness(witness: &WitnessValues) -> Result<Self, String> { "@
    } else {
        "#[doc = \" Build struct from Simplicity Arguments.\"] #[doc = \"\"] #[doc = \" # Errors\"] #[doc = \"\"] #[doc = \" Returns error if any required witness is missing, has wrong type, or has invalid value.\"] pub fn from_arguments(args: &Arguments) -> Result<Self, String> { "@
    }
}

/// The name of the map parameter of that function.
pub open spec fn param_name(is_witness: bool) -> Seq<char> {
    if is_witness {
        "witness"@
    } else {
        "args"@
    }
}

/// The start of the function that builds the map of values of a struct.
pub open spec fn build_fn_head(is_witness: bool) -> Seq<char> {
    if is_witness {
        " { #[doc = \" Build Simplicity witness values for contract execution.\"] #[must_use] fn build_witness(&self) -> ::simplex::simplicityhl::WitnessValues { ::simplex::simplicityhl::WitnessValues::from(HashMap::from(["@
    } else {
        " { #[doc = \" Build Simplicity arguments for contract instantiation.\"] #[must_use] fn build_arguments(&self) -> ::simplex::simplicityhl::Arguments { ::simplex::simplicityhl::Arguments::from(HashMap::from(["@
    }
}

/// The call that builds the map of values of a struct.
pub open spec fn build_call(is_witness: bool) -> Seq<char> {
    if is_witness {
        "self.build_witness()"@
    } else {
        "self.build_arguments()"@
    }
}

/// The imports of a generated arguments (or witness) module.
#[verifier::opaque]
pub open spec fn impl_imports(fs: Seq<FieldModel>, is_witness: bool) -> Seq<char> {
    enum_helper_imports(fs) + "use ::std::collections::HashMap; use ::simplex::simplicityhl::{"@
        + map_name(is_witness)
        + ", Value, ResolvedType}; use ::simplex::simplicityhl::value::{UIntValue, ValueInner}; use ::simplex::simplicityhl::num::{NonZeroPow2Usize, U256}; use ::simplex::simplicityhl::str::{Identifier, WitnessName}; use ::simplex::simplicityhl::types::TypeConstructible; use ::simplex::simplicityhl::value::ValueConstructible; use ::simplex::program::"@
        + trait_name(is_witness) + "; "@
}

/// The impls of a generated arguments struct (or, with `is_witness`, a
/// witness struct): reading it from a map of values, building that map,
/// serde, and `Default`.
#[verifier::opaque]
pub open spec fn struct_impl(name: Seq<char>, fs: Seq<FieldModel>, is_witness: bool) -> Seq<char> {
    "impl "@ + name + " { "@ + from_fn_head(is_witness) + field_extractions(
        fs,
        param_name(is_witness),
    ) + "Ok("@ + struct_init(fs) + ") } } impl ::simplex::program::"@ + trait_name(is_witness)
        + " for "@ + name + build_fn_head(is_witness) + field_tuples(fs)
        + "])) } } impl ::simplex::serde::Serialize for "@ + name
        + " { fn serialize<S>(&self, serializer: S) -> Result<S::Ok, S::Error> where S: ::simplex::serde::Serializer, { "@
        + build_call(is_witness) + ".serialize(serializer) } } "@ + deserialize_impl(
        name,
        fs,
        is_witness,
    ) + " impl ::core::default::Default for "@ + name + " { fn default() -> Self { "@
        + default_mapping(name, fs) + " } }"@
}

fn map_name_str(is_witness: bool) -> (r: &'static str)
    ensures
        r@ == map_name(is_witness),
{
    if is_witness {
        "WitnessValues"
    } else {
        "Arguments"
    }
}

fn trait_name_str(is_witness: bool) -> (r: &'static str)
    ensures
        r@ == trait_name(is_witness),
{
    if is_witness {
        "WitnessTrait"
    } else {
        "ArgumentsTrait"
    }
}

fn from_fn_head_str(is_witness: bool) -> (r: &'static str)
    ensures
        r@ == from_fn_head(is_witness),
{
    if is_witness {
        "#[doc = \" Build struct from Simplicity WitnessValues.\"] #[doc = \"\"] #[doc = \" # Errors\"] #[doc = \"\"] #[doc = \" Returns error if any required witness is missing, has the wrong type, or has an invalid value.\"] pub fn from_witness(witness: &WitnessValues) -> Result<Self, String> { "
    } else {
        "#[doc = \" Build struct from Simplicity Arguments.\"] #[doc = \"\"] #[doc = \" # Errors\"] #[doc = \"\"] #[doc = \" Returns error if any required witness is missing, has wrong type, or has invalid value.\"] pub fn from_arguments(args: &Arguments) -> Result<Self, String> { "
    }
}

fn param_name_str(is_witness: bool) -> (r: &'static str)
    ensures
        r@ == param_name(is_witness),
{
    if is_witness {
        "witness"
    } else {
        "args"
    }
}

fn build_fn_head_str(is_witness: bool) -> (r: &'static str)
    ensures
        r@ == build_fn_head(is_witness),
{
    if is_witness {
        " { #[doc = \" Build Simplicity witness values for contract execution.\"] #[must_use] fn build_witness(&self) -> ::simplex::simplicityhl::WitnessValues { ::simplex::simplicityhl::WitnessValues::from(HashMap::from(["
    } else {
        " { #[doc = \" Build Simplicity arguments for contract instantiation.\"] #[must_use] fn build_arguments(&self) -> ::simplex::simplicityhl::Arguments { ::simplex::simplicityhl::Arguments::from(HashMap::from(["
    }
}

fn build_call_str(is_witness: bool) -> (r: &'static str)
    ensures
        r@ == build_call(is_witness),
{
    if is_witness {
        "self.build_witness()"
    } else {
        "self.build_arguments()"
    }
}

/// The generated code of an arguments struct.
#[derive(PartialEq, Eq, Debug)]
pub struct GeneratedArgumentTokens {
    pub imports: String,
    pub struct_token_stream: String,
    pub struct_impl: String,
}

/// The generated code of a witness struct.
#[derive(PartialEq, Eq, Debug)]
pub struct GeneratedWitnessTokens {
    pub imports: String,
    pub struct_token_stream: String,
    pub struct_impl: String,
}

impl WitnessStruct {
    fn generate_imports(&self, is_witness: bool) -> (r: String)
        ensures
            r@ == impl_imports(fields_view(self.witness_values@), is_witness),
    {
        reveal(impl_imports);
        let mut imports = self.enum_helper_imports();
        imports.append("use ::std::collections::HashMap; use ::simplex::simplicityhl::{");
        imports.append(map_name_str(is_witness));
        imports.append(
            ", Value, ResolvedType}; use ::simplex::simplicityhl::value::{UIntValue, ValueInner}; use ::simplex::simplicityhl::num::{NonZeroPow2Usize, U256}; use ::simplex::simplicityhl::str::{Identifier, WitnessName}; use ::simplex::simplicityhl::types::TypeConstructible; use ::simplex::simplicityhl::value::ValueConstructible; use ::simplex::program::",
        );
        imports.append(trait_name_str(is_witness));
        imports.append("; ");
        imports
    }

    fn generate_struct_impl(&self, is_witness: bool) -> (r: String)
        requires
            fields_inhabited(fields_view(self.witness_values@)),
        ensures
            r@ == struct_impl(self.struct_name@, fields_view(self.witness_values@), is_witness),
    {
        reveal(struct_impl);
        let ghost fs = fields_view(self.witness_values@);
        let tuples = field_tuples_exec(&self.witness_values);
        let (conversion, to_return) = self.generate_from_args_conversion_with_param_name(
            param_name_str(is_witness),
        );
        let default_mapping = self.generate_default_mapping();
        let deserialize = self.generate_deserialize_impl(is_witness);
        let name = self.struct_name.as_str();
        let mut im = String::from_str("impl ");
        im.append(name);
        im.append(" { ");
        im.append(from_fn_head_str(is_witness));
        im.append(conversion.as_str());
        im.append("Ok(");
        im.append(to_return.as_str());
        im.append(") } } impl ::simplex::program::");
        im.append(trait_name_str(is_witness));
        im.append(" for ");
        im.append(name);
        im.append(build_fn_head_str(is_witness));
        im.append(tuples.as_str());
        im.append("])) } } impl ::simplex::serde::Serialize for ");
        im.append(name);
        im.append(
            " { fn serialize<S>(&self, serializer: S) -> Result<S::Ok, S::Error> where S: ::simplex::serde::Serializer, { ",
        );
        im.append(build_call_str(is_witness));
        im.append(".serialize(serializer) } } ");
        im.append(deserialize.as_str());
        im.append(" impl ::core::default::Default for ");
        im.append(name);
        im.append(" { fn default() -> Self { ");
        im.append(default_mapping.as_str());
        im.append(" } }");
        im
    }

    /// The generated code of the arguments struct: its imports, its
    /// declaration and its impls.
    pub fn generate_arguments_impl(&self) -> (r: Result<GeneratedArgumentTokens, CodegenError>)
        requires
            fields_inhabited(fields_view(self.witness_values@)),
        ensures
            r matches Ok(g) && g.imports@ == impl_imports(fields_view(self.witness_values@), false)
                && g.struct_token_stream@ == struct_declaration(
                self.struct_name@,
                fields_view(self.witness_values@),
            ) && g.struct_impl@ == struct_impl(
                self.struct_name@,
                fields_view(self.witness_values@),
                false,
            ),
    {
        let imports = self.generate_imports(false);
        let struct_token_stream = self.generate_struct_token_stream();
        let struct_impl = self.generate_struct_impl(false);
        Ok(GeneratedArgumentTokens { imports, struct_token_stream, struct_impl })
    }

    /// The generated code of the witness struct: its imports, its
    /// declaration and its impls.
    pub fn generate_witness_impl(&self) -> (r: Result<GeneratedWitnessTokens, CodegenError>)
        requires
            fields_inhabited(fields_view(self.witness_values@)),
        ensures
            r matches Ok(g) && g.imports@ == impl_imports(fields_view(self.witness_values@), true)
                && g.struct_token_stream@ == struct_declaration(
                self.struct_name@,
                fields_view(self.witness_values@),
            ) && g.struct_impl@ == struct_impl(
                self.struct_name@,
                fields_view(self.witness_values@),
                true,
            ),
    {
        let imports = self.generate_imports(true);
        let struct_token_stream = self.generate_struct_token_stream();
        let struct_impl = self.generate_struct_impl(true);
        Ok(GeneratedWitnessTokens { imports, struct_token_stream, struct_impl })
    }
}

/// A contract's source and its name.
#[derive(PartialEq, Eq, Debug)]
pub struct SimfContent {
    pub content: String,
    pub contract_name: String,
}

/// The witnesses or parameters of an ABI as names and types.
pub open spec fn abi_view(s: Seq<(String, HlType)>) -> Seq<(Seq<char>, TypeModel)> {
    s.map_values(|p: (String, HlType)| (p.0@, p.1@))
}

/// The types of the witnesses or parameters of an ABI.
pub open spec fn abi_types(s: Seq<(Seq<char>, TypeModel)>) -> Seq<TypeModel> {
    s.map_values(|p: (Seq<char>, TypeModel)| p.1)
}

/// The fields of a struct generated for an ABI whose types have the
/// binding types `tys`, with enum names escaped against `names`.
pub open spec fn abi_fields(
    s: Seq<(Seq<char>, TypeModel)>,
    tys: Seq<RustTypeModel>,
    names: Seq<Seq<char>>,
) -> Seq<FieldModel> {
    Seq::new(
        s.len(),
        |i: int|
            FieldModel {
                simf_name: s[i].0,
                field: field_name_text(s[i].0),
                ty: renamed(tys[i], names),
            },
    )
}

impl WitnessField {
    /// The field for the witness or parameter `witness_name` of type
    /// `resolved_type`; fails where the type has no Rust counterpart.
    pub fn new(witness_name: &str, resolved_type: &HlType) -> (r: Result<WitnessField, CodegenError>)
        ensures
            match r {
                Ok(f) => rust_type_of(resolved_type@) is Some && f@ == (FieldModel {
                    simf_name: witness_name@,
                    field: field_name_text(witness_name@),
                    ty: renamed(
                        rust_type_of(resolved_type@).unwrap(),
                        enum_names(rust_type_of(resolved_type@).unwrap()),
                    ),
                }),
                Err(_) => rust_type_of(resolved_type@) is None,
            },
    {
        let witness_simf_name = String::from_str(witness_name);
        let struct_rust_field = convert_witness_name_to_field_name(witness_name);
        let rust_type = RustType::from_resolved_type(resolved_type)?;
        Ok(WitnessField { witness_simf_name, struct_rust_field, rust_type })
    }
}

/// The fields for the witnesses or parameters `pairs`, each type's enum
/// names escaped on its own.
fn generate_witness_fields(pairs: &Vec<(String, HlType)>) -> (r: Result<Vec<WitnessField>, CodegenError>)
    ensures
        match r {
            Ok(v) => rust_types_of(abi_types(abi_view(pairs@))) is Some && v@.len() == pairs@.len()
                && forall|i: int|
                0 <= i < v@.len() ==> #[trigger] fields_view(v@)[i] == (FieldModel {
                    simf_name: pairs@[i].0@,
                    field: field_name_text(pairs@[i].0@),
                    ty: renamed(
                        rust_types_of(abi_types(abi_view(pairs@))).unwrap()[i],
                        enum_names(rust_types_of(abi_types(abi_view(pairs@))).unwrap()[i]),
                    ),
                }),
            Err(_) => rust_types_of(abi_types(abi_view(pairs@))) is None,
        },
{
    let ghost ts = abi_types(abi_view(pairs@));
    proof {
        lemma_rust_types_of(ts);
    }
    let mut out: Vec<WitnessField> = Vec::new();
    let mut i: usize = 0;
    while i < pairs.len()
        invariant
            i <= pairs@.len(),
            ts == abi_types(abi_view(pairs@)),
            ts.len() == pairs@.len(),
            out@.len() == i,
            forall|j: int| 0 <= j < i ==> #[trigger] rust_type_of(ts[j]) is Some,
            forall|j: int|
                0 <= j < i ==> #[trigger] fields_view(out@)[j] == (FieldModel {
                    simf_name: pairs@[j].0@,
                    field: field_name_text(pairs@[j].0@),
                    ty: renamed(rust_type_of(ts[j]).unwrap(), enum_names(rust_type_of(ts[j]).unwrap())),
                }),
        decreases pairs@.len() - i,
    {
        assert(ts[i as int] == pairs@[i as int].1@);
        match WitnessField::new(pairs[i].0.as_str(), &pairs[i].1) {
            Ok(f) => {
                let ghost fv = f@;
                let ghost prev = out@;
                out.push(f);
                proof {
                    assert(fields_view(out@)[i as int] == fv);
                    assert forall|j: int| 0 <= j < i implies #[trigger] fields_view(out@)[j]
                        == fields_view(prev)[j] by {
                        assert(out@[j] == prev[j]);
                    }
                }
            },
            Err(e) => {
                proof {
                    lemma_rust_types_of(ts);
                    if rust_types_of(ts) is Some {
                        assert(rust_type_of(ts[i as int]) is Some);
                    }
                }
                return Err(e);
            },
        }
        i += 1;
    }
    proof {
        let xs = rust_types_of(ts).unwrap();
        assert forall|j: int| 0 <= j < out@.len() implies #[trigger] fields_view(out@)[j]
            == (FieldModel {
            simf_name: pairs@[j].0@,
            field: field_name_text(pairs@[j].0@),
            ty: renamed(xs[j], enum_names(xs[j])),
        }) by {
            assert(rust_type_of(ts[j]) == Some(xs[j]));
        }
    }
    Ok(out)
}

/// The struct generated for an ABI and the models of its fields.
pub open spec fn struct_fields(w: WitnessStruct) -> Seq<FieldModel> {
    fields_view(w.witness_values@)
}

/// All that is derived from a contract to generate its bindings.
#[derive(PartialEq, Eq, Debug)]
pub struct SimfContractMeta {
    pub contract_source_const_name: String,
    pub args_struct: WitnessStruct,
    pub witness_struct: WitnessStruct,
    pub simf_content: SimfContent,
}

/// Whether every enum reachable from the types of an ABI has a variant.
pub open spec fn abi_inhabited(s: Seq<(Seq<char>, TypeModel)>) -> bool {
    forall|i: int|
        0 <= i < s.len() ==> (#[trigger] rust_type_of(s[i].1) matches Some(x) ==> inhabited(x))
}

/// Whether every type of the ABI that has a Rust counterpart is inhabited:
/// each enum it reaches has a variant.
#[verifier::loop_isolation(false)]
pub fn abi_is_inhabited(ts: &Vec<(String, HlType)>) -> (r: bool)
    ensures
        r == abi_inhabited(abi_view(ts@)),
{
    let ghost s = abi_view(ts@);
    let mut i: usize = 0;
    while i < ts.len()
        invariant
            i <= ts.len(),
            s == abi_view(ts@),
            s.len() == ts@.len(),
            forall|j: int|
                0 <= j < i ==> (#[trigger] rust_type_of(s[j].1) matches Some(x) ==> inhabited(x)),
        decreases ts.len() - i,
    {
        assert(s[i as int].1 == ts@[i as int].1@);
        match crate::rust_type::RustType::from_resolved_type_inner(&ts[i].1) {
            Ok(t) => {
                if !crate::codegen::is_inhabited(&t) {
                    assert(rust_type_of(s[i as int].1) == Some(t@));
                    return false;
                }
            },
            Err(_) => {},
        }
        i += 1;
    }
    true
}

/// Renames the enums of all fields against `names`.
fn rename_fields(fs: Vec<WitnessField>, names: &Vec<String>) -> (r: Vec<WitnessField>)
    ensures
        r@.len() == fs@.len(),
        forall|i: int|
            0 <= i < fs@.len() ==> #[trigger] fields_view(r@)[i] == (FieldModel {
                simf_name: fields_view(fs@)[i].simf_name,
                field: fields_view(fs@)[i].field,
                ty: renamed(fields_view(fs@)[i].ty, strings_view(names@)),
            }),
{
    let mut out: Vec<WitnessField> = Vec::new();
    let mut i: usize = 0;
    while i < fs.len()
        invariant
            i <= fs@.len(),
            out@.len() == i,
            forall|j: int|
                0 <= j < i ==> #[trigger] fields_view(out@)[j] == (FieldModel {
                    simf_name: fields_view(fs@)[j].simf_name,
                    field: fields_view(fs@)[j].field,
                    ty: renamed(fields_view(fs@)[j].ty, strings_view(names@)),
                }),
        decreases fs@.len() - i,
    {
        let f = &fs[i];
        let g = WitnessField {
            witness_simf_name: f.witness_simf_name.clone(),
            struct_rust_field: f.struct_rust_field.clone(),
            rust_type: f.rust_type.renamed(names),
        };
        let ghost gv = g@;
        let ghost prev = out@;
        out.push(g);
        proof {
            assert(fields_view(out@)[i as int] == gv);
            assert(fields_view(fs@)[i as int] == fs@[i as int]@);
            assert forall|j: int| 0 <= j < i implies #[trigger] fields_view(out@)[j]
                == fields_view(prev)[j] by {
                assert(out@[j] == prev[j]);
            }
        }
        i += 1;
    }
    out
}

/// Appends the enum names reachable from the fields' types.
fn collect_fields_enum_names(fs: &Vec<WitnessField>, names: &mut Vec<String>)
    ensures
        strings_view(final(names)@) == strings_view(old(names)@) + types_enum_names(
            fields_view(fs@).map_values(|f: FieldModel| f.ty),
        ),
{
    let ghost tys = fields_view(fs@).map_values(|f: FieldModel| f.ty);
    let ghost start = strings_view(names@);
    let mut i: usize = 0;
    while i < fs.len()
        invariant
            i <= fs@.len(),
            tys.len() == fs@.len(),
            tys == fields_view(fs@).map_values(|f: FieldModel| f.ty),
            strings_view(names@) == start + types_enum_names(tys.take(i as int)),
        decreases fs@.len() - i,
    {
        fs[i].rust_type.collect_enum_names(names);
        proof {
            assert(tys.take(i + 1).drop_last() =~= tys.take(i as int));
            assert(tys.take(i + 1).last() == fs@[i as int].rust_type@);
            assert(strings_view(names@) =~= start + types_enum_names(tys.take(i + 1)));
        }
        i += 1;
    }
    assert(tys.take(fs@.len() as int) =~= tys);
}

impl SimfContractMeta {
    /// Derives the arguments and witness structs of a contract from its
    /// parameters and witnesses. Fails where a type has no Rust
    /// counterpart; otherwise each field is named after its witness and
    /// every enum name is escaped against the enum names of the whole ABI.
    pub fn try_from(
        simf_content: SimfContent,
        params: &Vec<(String, HlType)>,
        witnesses: &Vec<(String, HlType)>,
    ) -> (r: Result<SimfContractMeta, CodegenError>)
        ensures
            match r {
                Ok(m) => {
                    let pt = rust_types_of(abi_types(abi_view(params@)));
                    let wt = rust_types_of(abi_types(abi_view(witnesses@)));
                    let names = types_enum_names(pt.unwrap() + wt.unwrap());
                    &&& pt is Some
                    &&& wt is Some
                    &&& m.contract_source_const_name@ == source_const_text(
                        simf_content.contract_name@,
                    )
                    &&& m.args_struct.struct_name@ == struct_name_text(simf_content.contract_name@)
                        + "Arguments"@
                    &&& m.witness_struct.struct_name@ == struct_name_text(
                        simf_content.contract_name@,
                    ) + "Witness"@
                    &&& struct_fields(m.args_struct) == abi_fields(
                        abi_view(params@),
                        pt.unwrap(),
                        names,
                    )
                    &&& struct_fields(m.witness_struct) == abi_fields(
                        abi_view(witnesses@),
                        wt.unwrap(),
                        names,
                    )
                    &&& m.simf_content == simf_content
                },
                Err(_) => rust_types_of(abi_types(abi_view(params@))) is None || rust_types_of(
                    abi_types(abi_view(witnesses@)),
                ) is None,
            },
    {
        let args_struct = WitnessStruct::generate_args_struct(
            simf_content.contract_name.as_str(),
            params,
        )?;
        let witness_struct = WitnessStruct::generate_witness_struct(
            simf_content.contract_name.as_str(),
            witnesses,
        )?;
        let args_name = args_struct.struct_name;
        let args_fields = args_struct.witness_values;
        let witness_name = witness_struct.struct_name;
        let witness_fields = witness_struct.witness_values;
        let ghost pt = rust_types_of(abi_types(abi_view(params@))).unwrap();
        let ghost wt = rust_types_of(abi_types(abi_view(witnesses@))).unwrap();
        let mut names: Vec<String> = Vec::new();
        collect_fields_enum_names(&args_fields, &mut names);
        collect_fields_enum_names(&witness_fields, &mut names);
        proof {
            lemma_rust_types_of(abi_types(abi_view(params@)));
            lemma_rust_types_of(abi_types(abi_view(witnesses@)));
            let at = fields_view(args_fields@).map_values(|f: FieldModel| f.ty);
            let bt = fields_view(witness_fields@).map_values(|f: FieldModel| f.ty);
            assert forall|i: int| 0 <= i < at.len() implies enum_names(#[trigger] at[i]) == enum_names(pt[i]) by {
                assert(at[i] == fields_view(args_fields@)[i].ty);
                lemma_renamed_twice(pt[i], enum_names(pt[i]), Seq::empty());
            }
            assert forall|i: int| 0 <= i < bt.len() implies enum_names(#[trigger] bt[i]) == enum_names(wt[i]) by {
                assert(bt[i] == fields_view(witness_fields@)[i].ty);
                lemma_renamed_twice(wt[i], enum_names(wt[i]), Seq::empty());
            }
            lemma_types_enum_names_congruent(at, pt);
            lemma_types_enum_names_congruent(bt, wt);
            lemma_types_enum_names_concat(pt, wt);
            assert(strings_view(names@) =~= types_enum_names(pt + wt));
        }
        let ghost nv = strings_view(names@);
        let args_values = rename_fields(args_fields, &names);
        let witness_values = rename_fields(witness_fields, &names);
        proof {
            assert forall|i: int| 0 <= i < args_values@.len() implies #[trigger] fields_view(args_values@)[i]
                == abi_fields(abi_view(params@), pt, nv)[i] by {
                lemma_renamed_twice(pt[i], enum_names(pt[i]), nv);
            }
            assert(fields_view(args_values@) =~= abi_fields(abi_view(params@), pt, nv));
            assert forall|i: int| 0 <= i < witness_values@.len() implies #[trigger] fields_view(witness_values@)[i]
                == abi_fields(abi_view(witnesses@), wt, nv)[i] by {
                lemma_renamed_twice(wt[i], enum_names(wt[i]), nv);
            }
            assert(fields_view(witness_values@) =~= abi_fields(abi_view(witnesses@), wt, nv));
        }
        let contract_source_const_name = convert_contract_name_to_contract_source_const(
            simf_content.contract_name.as_str(),
        );
        Ok(SimfContractMeta {
            contract_source_const_name,
            args_struct: WitnessStruct { struct_name: args_name, witness_values: args_values },
            witness_struct: WitnessStruct {
                struct_name: witness_name,
                witness_values: witness_values,
            },
            simf_content,
        })
    }
}

/// The fields of a struct generated for `pairs`, each type's enum names
/// escaped on its own.
pub open spec fn own_fields(pairs: Seq<(String, HlType)>, v: Seq<WitnessField>) -> bool {
    &&& rust_types_of(abi_types(abi_view(pairs))) is Some
    &&& v.len() == pairs.len()
    &&& forall|i: int|
        0 <= i < v.len() ==> #[trigger] fields_view(v)[i] == (FieldModel {
            simf_name: pairs[i].0@,
            field: field_name_text(pairs[i].0@),
            ty: renamed(
                rust_types_of(abi_types(abi_view(pairs))).unwrap()[i],
                enum_names(rust_types_of(abi_types(abi_view(pairs))).unwrap()[i]),
            ),
        })
}

impl WitnessStruct {
    /// The arguments struct of a contract, with a field per parameter.
    pub fn generate_args_struct(contract_name: &str, params: &Vec<(String, HlType)>) -> (r: Result<
        WitnessStruct,
        CodegenError,
    >)
        ensures
            match r {
                Ok(w) => w.struct_name@ == struct_name_text(contract_name@) + "Arguments"@
                    && own_fields(params@, w.witness_values@),
                Err(_) => rust_types_of(abi_types(abi_view(params@))) is None,
            },
    {
        let mut struct_name = convert_contract_name_to_struct_name(contract_name);
        struct_name.append("Arguments");
        let witness_values = generate_witness_fields(params)?;
        Ok(WitnessStruct { struct_name, witness_values })
    }

    /// The witness struct of a contract, with a field per witness.
    pub fn generate_witness_struct(contract_name: &str, witnesses: &Vec<(String, HlType)>) -> (r:
        Result<WitnessStruct, CodegenError>)
        ensures
            match r {
                Ok(w) => w.struct_name@ == struct_name_text(contract_name@) + "Witness"@
                    && own_fields(witnesses@, w.witness_values@),
                Err(_) => rust_types_of(abi_types(abi_view(witnesses@))) is None,
            },
    {
        let mut struct_name = convert_contract_name_to_struct_name(contract_name);
        struct_name.append("Witness");
        let witness_values = generate_witness_fields(witnesses)?;
        Ok(WitnessStruct { struct_name, witness_values })
    }
}

/// The escaped form of a character inside a string literal.
pub open spec fn escape_char(c: char) -> Seq<char> {
    if c == '\\' {
        "\\\\"@
    } else if c == '"' {
        "\\\""@
    } else if c == '\r' {
        "\\r"@
    } else {
        seq![c]
    }
}

/// `s` with backslashes, double quotes and carriage returns escaped.
pub open spec fn escape_text(s: Seq<char>) -> Seq<char>
    decreases s.len(),
{
    if s.len() == 0 {
        Seq::empty()
    } else {
        escape_text(s.drop_last()) + escape_char(s.last())
    }
}

/// A Rust string literal whose value is `s`.
pub open spec fn string_literal(s: Seq<char>) -> Seq<char> {
    "\""@ + escape_text(s) + "\""@
}

/// `s` written as a Rust string literal.
pub fn string_literal_exec(s: &str) -> (r: String)
    ensures
        r@ == string_literal(s@),
        unescape_text(r@.subrange(1, r@.len() - 1)) == s@,
{
    let n = s.unicode_len();
    let mut out = String::new();
    let mut i: usize = 0;
    while i < n
        invariant
            i <= n,
            n == s@.len(),
            out@ == escape_text(s@.take(i as int)),
        decreases n - i,
    {
        let c = s.get_char(i);
        assert(s@.take(i + 1).drop_last() =~= s@.take(i as int));
        assert(s@.take(i + 1).last() == c);
        if c == '\\' {
            out.append("\\\\");
        } else if c == '"' {
            out.append("\\\"");
        } else if c == '\r' {
            out.append("\\r");
        } else {
            let one = s.substring_char(i, i + 1);
            assert(one@ =~= seq![c]);
            out.append(one);
        }
        i += 1;
    }
    assert(s@.take(n as int) =~= s@);
    let mut r = String::from_str("\"");
    r.append(out.as_str());
    r.append("\"");
    assert(r@ =~= string_literal(s@));
    proof {
        reveal_strlit("\"");
        assert(r@.subrange(1, r@.len() - 1) =~= escape_text(s@));
        lemma_unescape_escape(s@);
    }
    r
}

/// The types of a struct's fields.
pub open spec fn field_types(fs: Seq<FieldModel>) -> Seq<RustTypeModel> {
    fs.map_values(|f: FieldModel| f.ty)
}

/// The declarations of the enums reachable from a contract's ABI: those of
/// the arguments struct's fields, then the witness struct's, one per name.
pub open spec fn abi_declarations(afs: Seq<FieldModel>, wfs: Seq<FieldModel>) -> Declarations {
    collect_types_declarations(
        field_types(wfs),
        wfs.len(),
        collect_types_declarations(field_types(afs), afs.len(), Seq::empty()),
    )
}

fn collect_fields_declarations(fs: &Vec<WitnessField>, declarations: &mut Vec<(String, String)>)
    ensures
        declarations_view(final(declarations)@) == collect_types_declarations(
            field_types(fields_view(fs@)),
            fs@.len(),
            declarations_view(old(declarations)@),
        ),
{
    let ghost tys = field_types(fields_view(fs@));
    let ghost start = declarations_view(declarations@);
    let mut i: usize = 0;
    while i < fs.len()
        invariant
            i <= fs@.len(),
            tys == field_types(fields_view(fs@)),
            tys.len() == fs@.len(),
            declarations_view(declarations@) == collect_types_declarations(tys, i as nat, start),
        decreases fs@.len() - i,
    {
        assert(tys[i as int] == fs@[i as int].rust_type@);
        fs[i].rust_type.collect_enum_declarations(declarations);
        i += 1;
    }
}

impl SimfContractMeta {
    /// Declarations of every enum type reachable from the contract's ABI,
    /// deduplicated across the arguments and witness structs.
    pub fn enum_declarations(&self) -> (r: Vec<String>)
        ensures
            r@.len() == abi_declarations(
                struct_fields(self.args_struct),
                struct_fields(self.witness_struct),
            ).len(),
            forall|i: int|
                0 <= i < r@.len() ==> #[trigger] r@[i]@ == abi_declarations(
                    struct_fields(self.args_struct),
                    struct_fields(self.witness_struct),
                )[i].1,
    {
        let mut declarations: Vec<(String, String)> = Vec::new();
        assert(declarations_view(declarations@) =~= Seq::empty());
        collect_fields_declarations(&self.args_struct.witness_values, &mut declarations);
        collect_fields_declarations(&self.witness_struct.witness_values, &mut declarations);
        let ghost d = declarations_view(declarations@);
        let mut out: Vec<String> = Vec::new();
        let mut i: usize = 0;
        while i < declarations.len()
            invariant
                i <= declarations@.len(),
                d == declarations_view(declarations@),
                out@.len() == i,
                forall|j: int| 0 <= j < i ==> #[trigger] out@[j]@ == d[j].1,
            decreases declarations@.len() - i,
        {
            out.push(declarations[i].1.clone());
            i += 1;
        }
        out
    }
}

/// The lookup of the contract's enum types by name, recovered from its
/// source through `const_name`.
#[verifier::opaque]
pub open spec fn enum_type_provider(const_name: Seq<char>) -> Seq<char> {
    "fn abi_types() -> &'static ::simplex::program::AbiTypes { static ABI_TYPES: ::std::sync::OnceLock<::simplex::program::AbiTypes> = ::std::sync::OnceLock::new(); ABI_TYPES.get_or_init(|| ::simplex::program::collect_abi_types("@
        + const_name
        + ")) } fn enum_type(name: &::std::primitive::str) -> ::simplex::simplicityhl::ResolvedType { abi_types().enum_types.get(name).cloned().unwrap_or_else(|| panic!(\"enum type '{name}' is not part of the contract ABI\")) } "@
}

/// The constant that holds the contract's source.
pub open spec fn program_helpers(const_name: Seq<char>, content: Seq<char>) -> Seq<char> {
    "pub const "@ + const_name + ": &::std::primitive::str = "@ + string_literal(content) + "; "@
}

/// The module with the witness (or arguments) struct, and its re-export.
#[verifier::opaque]
pub open spec fn struct_helpers(name: Seq<char>, fs: Seq<FieldModel>, is_witness: bool) -> Seq<char> {
    let head = if is_witness {
        "pub use self::build_witness::"@
    } else {
        "pub use self::build_arguments::"@
    };
    let open = if is_witness {
        "; mod build_witness { "@
    } else {
        "; mod build_arguments { "@
    };
    head + name + open + impl_imports(
        fs,
        is_witness,
    ) + struct_declaration(name, fs) + " "@ + struct_impl(name, fs, is_witness) + " } "@
}

/// The enums of the ABI in their own module, their lookup, and their
/// re-export; nothing when the ABI has no enum.
#[verifier::opaque]
pub open spec fn enum_helpers(const_name: Seq<char>, decls: Declarations) -> Seq<char> {
    if decls.len() == 0 {
        Seq::empty()
    } else {
        enum_type_provider(const_name)
            + "#[doc = \" Enum types declared in the contract ABI. Use this module when an\"] #[doc = \" enum shares a name with the generated Witness or Arguments struct.\"] pub mod enums { "@
            + join(decls.map_values(|d: (Seq<char>, Seq<char>)| d.1), " "@)
            + " } #[allow(unused_imports)] pub use self::enums::*; "@
    }
}

/// The bindings module of a contract.
pub open spec fn expansion(
    contract_name: Seq<char>,
    content: Seq<char>,
    afs: Seq<FieldModel>,
    wfs: Seq<FieldModel>,
) -> Seq<char> {
    let const_name = source_const_text(contract_name);
    let base = struct_name_text(contract_name);
    "pub mod "@ + module_text(contract_name) + " { "@ + enum_helpers(
        const_name,
        abi_declarations(afs, wfs),
    ) + program_helpers(const_name, content) + struct_helpers(base + "Witness"@, wfs, true)
        + struct_helpers(base + "Arguments"@, afs, false) + "}"@
}

/// The lookup of the contract's enum types by name.
pub fn construct_enum_type_provider(derived_meta: &SimfContractMeta) -> (r: String)
    ensures
        r@ == enum_type_provider(derived_meta.contract_source_const_name@),
{
    construct_enum_type_provider_for(&derived_meta.contract_source_const_name)
}

/// The constant that holds the contract's source.
pub fn construct_program_helpers(derived_meta: &SimfContractMeta) -> (r: String)
    ensures
        r@ == program_helpers(
            derived_meta.contract_source_const_name@,
            derived_meta.simf_content.content@,
        ),
{
    let mut s = String::from_str("pub const ");
    s.append(derived_meta.contract_source_const_name.as_str());
    s.append(": &::std::primitive::str = ");
    let lit = string_literal_exec(derived_meta.simf_content.content.as_str());
    s.append(lit.as_str());
    s.append("; ");
    s
}

/// The module with the witness struct, and its re-export.
pub fn construct_witness_helpers(derived_meta: &SimfContractMeta) -> (r: Result<String, CodegenError>)
    requires
        fields_inhabited(struct_fields(derived_meta.witness_struct)),
    ensures
        r matches Ok(s) && s@ == struct_helpers(
            derived_meta.witness_struct.struct_name@,
            struct_fields(derived_meta.witness_struct),
            true,
        ),
{
    reveal(struct_helpers);
    let w = &derived_meta.witness_struct;
    let generated = w.generate_witness_impl()?;
    let mut s = String::from_str("pub use self::build_witness::");
    s.append(w.struct_name.as_str());
    s.append("; mod build_witness { ");
    s.append(generated.imports.as_str());
    s.append(generated.struct_token_stream.as_str());
    s.append(" ");
    s.append(generated.struct_impl.as_str());
    s.append(" } ");
    assert(s@ =~= struct_helpers(w.struct_name@, struct_fields(*w), true));
    Ok(s)
}

/// The module with the arguments struct, and its re-export.
pub fn construct_argument_helpers(derived_meta: &SimfContractMeta) -> (r: Result<String, CodegenError>)
    requires
        fields_inhabited(struct_fields(derived_meta.args_struct)),
    ensures
        r matches Ok(s) && s@ == struct_helpers(
            derived_meta.args_struct.struct_name@,
            struct_fields(derived_meta.args_struct),
            false,
        ),
{
    reveal(struct_helpers);
    let a = &derived_meta.args_struct;
    let generated = a.generate_arguments_impl()?;
    let mut s = String::from_str("pub use self::build_arguments::");
    s.append(a.struct_name.as_str());
    s.append("; mod build_arguments { ");
    s.append(generated.imports.as_str());
    s.append(generated.struct_token_stream.as_str());
    s.append(" ");
    s.append(generated.struct_impl.as_str());
    s.append(" } ");
    assert(s@ =~= struct_helpers(a.struct_name@, struct_fields(*a), false));
    Ok(s)
}

/// The fields generated for an ABI have inhabited types when its types do.
proof fn lemma_abi_fields_inhabited(
    s: Seq<(Seq<char>, TypeModel)>,
    tys: Seq<RustTypeModel>,
    names: Seq<Seq<char>>,
)
    requires
        abi_inhabited(s),
        tys.len() == s.len(),
        forall|i: int| 0 <= i < s.len() ==> rust_type_of(s[i].1) == Some(#[trigger] tys[i]),
    ensures
        fields_inhabited(abi_fields(s, tys, names)),
{
    assert forall|i: int| 0 <= i < s.len() implies inhabited(
        #[trigger] abi_fields(s, tys, names)[i].ty,
    ) by {
        assert(rust_type_of(s[i].1) == Some(tys[i]));
        lemma_renamed_inhabited(tys[i], names);
    }
}

/// The enums of the ABI in their own module, their lookup, and their
/// re-export.
fn construct_enum_helpers(
    const_name: &String,
    enum_declarations: &Vec<String>,
    decls: Ghost<Declarations>,
) -> (r: String)
    requires
        decls@.len() == enum_declarations@.len(),
        forall|j: int| 0 <= j < decls@.len() ==> #[trigger] decls@[j].1 == enum_declarations@[j]@,
    ensures
        r@ == enum_helpers(const_name@, decls@),
{
    reveal(enum_helpers);
    let mut s = String::new();
    if enum_declarations.len() > 0 {
        let provider = construct_enum_type_provider_for(const_name);
        s.append(provider.as_str());
        s.append(
            "#[doc = \" Enum types declared in the contract ABI. Use this module when an\"] #[doc = \" enum shares a name with the generated Witness or Arguments struct.\"] pub mod enums { ",
        );
        let ghost parts = decls@.map_values(|d: (Seq<char>, Seq<char>)| d.1);
        let mut body = String::new();
        let mut i: usize = 0;
        while i < enum_declarations.len()
            invariant
                i <= enum_declarations@.len(),
                parts.len() == enum_declarations@.len(),
                forall|j: int| 0 <= j < parts.len() ==> #[trigger] parts[j] == enum_declarations@[j]@,
                body@ == join(parts.take(i as int), " "@),
            decreases enum_declarations@.len() - i,
        {
            proof {
                lemma_join_step(parts, " "@, i as int);
            }
            join_step(&mut body, i, " ", enum_declarations[i].as_str());
            i += 1;
        }
        assert(parts.take(enum_declarations@.len() as int) =~= parts);
        s.append(body.as_str());
        s.append(" } #[allow(unused_imports)] pub use self::enums::*; ");
    }
    s
}

fn construct_enum_type_provider_for(const_name: &String) -> (r: String)
    ensures
        r@ == enum_type_provider(const_name@),
{
    reveal(enum_type_provider);
    let mut s = String::from_str(
        "fn abi_types() -> &'static ::simplex::program::AbiTypes { static ABI_TYPES: ::std::sync::OnceLock<::simplex::program::AbiTypes> = ::std::sync::OnceLock::new(); ABI_TYPES.get_or_init(|| ::simplex::program::collect_abi_types(",
    );
    s.append(const_name.as_str());
    s.append(
        ")) } fn enum_type(name: &::std::primitive::str) -> ::simplex::simplicityhl::ResolvedType { abi_types().enum_types.get(name).cloned().unwrap_or_else(|| panic!(\"enum type '{name}' is not part of the contract ABI\")) } ",
    );
    s
}

/// Generates the bindings module of a contract from its source, name,
/// parameters and witnesses; fails where a type has no Rust counterpart.
pub fn expand_inner(
    simf_content: SimfContent,
    params: &Vec<(String, HlType)>,
    witnesses: &Vec<(String, HlType)>,
) -> (r: Result<String, CodegenError>)
    requires
        abi_inhabited(abi_view(params@)),
        abi_inhabited(abi_view(witnesses@)),
    ensures
        match r {
            Ok(s) => {
                let pt = rust_types_of(abi_types(abi_view(params@)));
                let wt = rust_types_of(abi_types(abi_view(witnesses@)));
                let names = types_enum_names(pt.unwrap() + wt.unwrap());
                &&& pt is Some
                &&& wt is Some
                &&& s@ == expansion(
                    simf_content.contract_name@,
                    simf_content.content@,
                    abi_fields(abi_view(params@), pt.unwrap(), names),
                    abi_fields(abi_view(witnesses@), wt.unwrap(), names),
                )
            },
            Err(_) => rust_types_of(abi_types(abi_view(params@))) is None || rust_types_of(
                abi_types(abi_view(witnesses@)),
            ) is None,
        },
{
    let ghost cn = simf_content.contract_name@;
    let ghost content = simf_content.content@;
    let mod_ident = convert_contract_name_to_contract_module(simf_content.contract_name.as_str());
    let derived_meta = SimfContractMeta::try_from(simf_content, params, witnesses)?;
    let ghost pt = rust_types_of(abi_types(abi_view(params@))).unwrap();
    let ghost wt = rust_types_of(abi_types(abi_view(witnesses@))).unwrap();
    let ghost names = types_enum_names(pt + wt);
    let ghost afs = abi_fields(abi_view(params@), pt, names);
    let ghost wfs = abi_fields(abi_view(witnesses@), wt, names);
    proof {
        lemma_rust_types_of(abi_types(abi_view(params@)));
        lemma_rust_types_of(abi_types(abi_view(witnesses@)));
        lemma_abi_fields_inhabited(abi_view(params@), pt, names);
        lemma_abi_fields_inhabited(abi_view(witnesses@), wt, names);
    }
    let program_helpers = construct_program_helpers(&derived_meta);
    let witness_helpers = construct_witness_helpers(&derived_meta)?;
    let arguments_helpers = construct_argument_helpers(&derived_meta)?;
    let enum_declarations = derived_meta.enum_declarations();
    let ghost decls = abi_declarations(afs, wfs);
    let helpers = construct_enum_helpers(&derived_meta.contract_source_const_name, &enum_declarations, Ghost(decls));
    let mut s = String::from_str("pub mod ");
    s.append(mod_ident.as_str());
    s.append(" { ");
    s.append(helpers.as_str());
    s.append(program_helpers.as_str());
    s.append(witness_helpers.as_str());
    s.append(arguments_helpers.as_str());
    s.append("}");
    assert(s@ =~= expansion(cn, content, afs, wfs));
    Ok(s)
}

/// The value of the body of a string literal: `\\`, `\"` and `\r` stand for
/// a backslash, a double quote and a carriage return; other characters
/// stand for themselves.
pub open spec fn unescape_text(s: Seq<char>) -> Seq<char>
    decreases s.len(),
{
    if s.len() == 0 {
        Seq::empty()
    } else if s[0] == '\\' && s.len() >= 2 {
        (if s[1] == 'r' {
            seq!['\r']
        } else {
            seq![s[1]]
        }) + unescape_text(s.subrange(2, s.len() as int))
    } else {
        seq![s[0]] + unescape_text(s.drop_first())
    }
}

proof fn lemma_escape_text_concat(a: Seq<char>, b: Seq<char>)
    ensures
        escape_text(a + b) == escape_text(a) + escape_text(b),
    decreases b.len(),
{
    if b.len() == 0 {
        assert(a + b =~= a);
        assert(escape_text(a) + escape_text(b) =~= escape_text(a));
    } else {
        lemma_escape_text_concat(a, b.drop_last());
        assert((a + b).drop_last() =~= a + b.drop_last());
        assert((a + b).last() == b.last());
        assert(escape_text(a + b) =~= escape_text(a) + escape_text(b));
    }
}

/// A string literal written by `string_literal_exec` has the value it was
/// written for.
pub proof fn lemma_unescape_escape(s: Seq<char>)
    ensures
        unescape_text(escape_text(s)) == s,
    decreases s.len(),
{
    if s.len() > 0 {
        let c = s[0];
        let rest = s.drop_first();
        assert(s =~= seq![c] + rest);
        lemma_escape_text_concat(seq![c], rest);
        assert(seq![c].drop_last() =~= Seq::<char>::empty());
        assert(seq![c].last() == c);
        assert(escape_text(seq![c].drop_last()) =~= Seq::<char>::empty());
        assert(escape_text(seq![c]) =~= escape_char(c));
        lemma_unescape_escape(rest);
        let e = escape_char(c) + escape_text(rest);
        reveal_strlit("\\\\");
        reveal_strlit("\\\"");
        reveal_strlit("\\r");
        if c == '\\' || c == '"' || c == '\r' {
            assert(e.subrange(2, e.len() as int) =~= escape_text(rest));
        } else {
            assert(e.drop_first() =~= escape_text(rest));
        }
        assert(unescape_text(e) =~= s);
    }
}

/// The enums of a contract's ABI are each declared once, and every enum
/// reachable from a field of either struct is declared.
pub proof fn lemma_abi_declarations(afs: Seq<FieldModel>, wfs: Seq<FieldModel>)
    ensures
        names_distinct(abi_declarations(afs, wfs)),
        forall|k: int|
            0 <= k < types_enum_names(field_types(afs)).len() ==> declares(
                abi_declarations(afs, wfs),
                #[trigger] types_enum_names(field_types(afs))[k],
            ),
        forall|k: int|
            0 <= k < types_enum_names(field_types(wfs)).len() ==> declares(
                abi_declarations(afs, wfs),
                #[trigger] types_enum_names(field_types(wfs))[k],
            ),
{
    let at = field_types(afs);
    let wt = field_types(wfs);
    let empty: Declarations = Seq::empty();
    lemma_collect_types_declarations(at, afs.len(), empty);
    let mid = collect_types_declarations(at, afs.len(), empty);
    lemma_collect_types_declarations(wt, wfs.len(), mid);
    let r = abi_declarations(afs, wfs);
    assert(at.take(afs.len() as int) =~= at);
    assert(wt.take(wfs.len() as int) =~= wt);
    assert(names_distinct(empty));
    assert forall|k: int| 0 <= k < types_enum_names(at).len() implies declares(
        r,
        #[trigger] types_enum_names(at)[k],
    ) by {
        let name = types_enum_names(at)[k];
        assert(types_enum_names(at.take(afs.len() as int))[k] == name);
        assert(declares(mid, name));
        let i = choose|i: int| 0 <= i < mid.len() && (#[trigger] mid[i]).0 == name;
        assert(r[i] == mid[i]);
    }
    assert forall|k: int| 0 <= k < types_enum_names(wt).len() implies declares(
        r,
        #[trigger] types_enum_names(wt)[k],
    ) by {
        assert(types_enum_names(wt.take(wfs.len() as int))[k] == types_enum_names(wt)[k]);
    }
}

} // verus!
