//! The parsed schema: a type's variants and fields, each with its directives.
use vstd::prelude::*;

verus! {

/// A `function` directive: either the variant's own canonical name, or an
/// explicit name given with the directive.
#[derive(Clone, Debug)]
pub enum FunctionName {
    Inherit,
    Explicit(String),
}

/// Directives on the type as a whole.
#[derive(Clone, Debug, Default)]
pub struct CssInputAttrs {
    pub derive_debug: bool,
    pub function: Option<FunctionName>,
    pub comma: bool,
}

/// Directives on one variant.
#[derive(Clone, Debug, Default)]
pub struct CssVariantAttrs {
    pub function: Option<FunctionName>,
    pub comma: bool,
    pub dimension: bool,
    pub keyword: Option<String>,
    pub aliases: Option<String>,
}

/// Directives on one field.
#[derive(Clone, Debug, Default)]
pub struct CssFieldAttrs {
    pub if_empty: Option<String>,
    pub ignore_bound: bool,
    pub iterable: bool,
    pub skip: bool,
}

/// One field of a variant: its declared type, written out, and whether that
/// type mentions a type parameter of the schema.
#[derive(Clone, Debug)]
pub struct Field {
    pub ty: String,
    pub generic: bool,
    pub attrs: CssFieldAttrs,
}

/// One alternative of the type, with its fields in declaration order.
#[derive(Clone, Debug)]
pub struct Variant {
    pub ident: String,
    pub fields: Vec<Field>,
    pub attrs: CssVariantAttrs,
}

/// The type under generation. `is_enum` tells a sum type from a struct,
/// whose single variant is the whole definition.
#[derive(Clone, Debug)]
pub struct TypeSchema {
    pub is_enum: bool,
    pub attrs: CssInputAttrs,
    pub variants: Vec<Variant>,
}

/// An illegal combination of directives. Variant errors carry the variant's
/// position in the schema.
#[derive(Clone, Copy, Debug, PartialEq, Eq, Structural)]
pub enum SchemaError {
    FunctionOnEnum,
    CommaOnEnum,
    DimensionFieldCount(usize),
    DimensionWithFunctionOrKeyword(usize),
    KeywordWithFields(usize),
}

/// The error of one variant, if any; checks run in this order.
pub open spec fn variant_error(v: Variant, index: usize) -> Option<SchemaError> {
    if v.attrs.dimension && v.fields@.len() != 1 {
        Some(SchemaError::DimensionFieldCount(index))
    } else if v.attrs.dimension && (v.attrs.function is Some || v.attrs.keyword is Some) {
        Some(SchemaError::DimensionWithFunctionOrKeyword(index))
    } else if v.attrs.keyword is Some && v.fields@.len() != 0 {
        Some(SchemaError::KeywordWithFields(index))
    } else {
        None
    }
}

/// The error of the first faulty variant in `vs`.
pub open spec fn first_variant_error(vs: Seq<Variant>) -> Option<SchemaError>
    decreases vs.len(),
{
    if vs.len() == 0 {
        None
    } else {
        match first_variant_error(vs.drop_last()) {
            Some(e) => Some(e),
            None => variant_error(vs.last(), (vs.len() - 1) as usize),
        }
    }
}

/// The error of a schema: type-level checks first, then variants in order.
pub open spec fn schema_error(s: TypeSchema) -> Option<SchemaError> {
    if s.is_enum && s.attrs.function is Some {
        Some(SchemaError::FunctionOnEnum)
    } else if s.is_enum && s.attrs.comma {
        Some(SchemaError::CommaOnEnum)
    } else {
        first_variant_error(s.variants@)
    }
}

/// Checks one variant's directives.
pub fn check_variant(v: &Variant, index: usize) -> (r: Option<SchemaError>)
    ensures
        r == variant_error(*v, index),
{
    if v.attrs.dimension && v.fields.len() != 1 {
        Some(SchemaError::DimensionFieldCount(index))
    } else if v.attrs.dimension && (v.attrs.function.is_some() || v.attrs.keyword.is_some()) {
        Some(SchemaError::DimensionWithFunctionOrKeyword(index))
    } else if v.attrs.keyword.is_some() && v.fields.len() != 0 {
        Some(SchemaError::KeywordWithFields(index))
    } else {
        None
    }
}

/// Checks a whole schema, stopping at the first illegal combination.
pub fn check_schema(s: &TypeSchema) -> (r: Option<SchemaError>)
    ensures
        r == schema_error(*s),
{
    if s.is_enum && s.attrs.function.is_some() {
        return Some(SchemaError::FunctionOnEnum);
    }
    if s.is_enum && s.attrs.comma {
        return Some(SchemaError::CommaOnEnum);
    }
    let mut i: usize = 0;
    while i < s.variants.len()
        invariant
            i <= s.variants@.len(),
            first_variant_error(s.variants@.take(i as int)) is None,
            schema_error(*s) == first_variant_error(s.variants@),
        decreases s.variants@.len() - i,
    {
        assert(s.variants@.take(i + 1).drop_last() == s.variants@.take(i as int));
        let e = check_variant(&s.variants[i], i);
        if e.is_some() {
            assert(first_variant_error(s.variants@.take(i + 1)) == e);
            proof {
                lemma_first_error_extends(s.variants@, i + 1);
            }
            return e;
        }
        i = i + 1;
    }
    assert(s.variants@.take(i as int) == s.variants@);
    None
}

/// Once a prefix has an error, the whole sequence has that same error.
pub proof fn lemma_first_error_extends(vs: Seq<Variant>, n: int)
    requires
        0 <= n <= vs.len(),
        first_variant_error(vs.take(n)) is Some,
    ensures
        first_variant_error(vs) == first_variant_error(vs.take(n)),
    decreases vs.len() - n,
{
    if n < vs.len() {
        assert(vs.take(n + 1).drop_last() == vs.take(n));
        lemma_first_error_extends(vs, n + 1);
    } else {
        assert(vs.take(n) == vs);
    }
}

} // verus!
