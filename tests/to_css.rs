use style_derive::ident::to_css_identifier;
use style_derive::plan::Generated;
use style_derive::render::{to_css, FieldValue, Sink, Value, WriteError};
use style_derive::schema::{
    CssFieldAttrs, CssInputAttrs, CssVariantAttrs, Field, FunctionName, SchemaError, TypeSchema,
    Variant,
};

fn field(ty: &str, generic: bool, attrs: CssFieldAttrs) -> Field {
    Field { ty: ty.to_string(), generic, attrs }
}

fn direct(ty: &str) -> Field {
    field(ty, false, CssFieldAttrs::default())
}

fn iterable(if_empty: Option<&str>) -> Field {
    field(
        "Vec<T>",
        true,
        CssFieldAttrs {
            iterable: true,
            if_empty: if_empty.map(|s| s.to_string()),
            ..CssFieldAttrs::default()
        },
    )
}

fn variant(ident: &str, fields: Vec<Field>, attrs: CssVariantAttrs) -> Variant {
    Variant { ident: ident.to_string(), fields, attrs }
}

fn single(v: Variant) -> TypeSchema {
    TypeSchema { is_enum: false, attrs: CssInputAttrs::default(), variants: vec![v] }
}

fn one(s: &str) -> FieldValue {
    FieldValue::One(s.to_string())
}

fn many(items: &[&str]) -> FieldValue {
    FieldValue::Many(items.iter().map(|s| s.to_string()).collect())
}

fn render_with(g: &Generated, variant: usize, fields: Vec<FieldValue>, limit: usize) -> (String, Result<(), WriteError>) {
    let mut sink = Sink::new(limit);
    let r = to_css(g, &Value { variant, fields }, &mut sink);
    (sink.text, r)
}

fn render(s: &TypeSchema, variant: usize, fields: Vec<FieldValue>) -> String {
    let g = style_derive::plan::derive(s).expect("schema is legal");
    let (text, r) = render_with(&g, variant, fields, 1000);
    assert_eq!(r, Ok(()));
    text
}

#[test]
fn identifier_of_camel_case() {
    assert_eq!(to_css_identifier("Px"), "px");
    assert_eq!(to_css_identifier("XLarge"), "x-large");
    assert_eq!(to_css_identifier("MozBox"), "-moz-box");
    assert_eq!(to_css_identifier("WebkitFlexBox"), "-webkit-flex-box");
    assert_eq!(to_css_identifier("Mozilla"), "mozilla");
    assert_eq!(to_css_identifier("Auto_"), "auto");
    assert_eq!(to_css_identifier(""), "");
}

#[test]
fn plain_variant_renders_identifier() {
    let s = single(variant("SmallCaps", vec![], CssVariantAttrs::default()));
    assert_eq!(render(&s, 0, vec![]), "small-caps");
}

#[test]
fn enum_variants_dispatch() {
    let s = TypeSchema {
        is_enum: true,
        attrs: CssInputAttrs::default(),
        variants: vec![
            variant("Auto", vec![], CssVariantAttrs::default()),
            variant("Length", vec![direct("Length")], CssVariantAttrs::default()),
        ],
    };
    assert_eq!(render(&s, 0, vec![]), "auto");
    assert_eq!(render(&s, 1, vec![one("10px")]), "10px");
}

#[test]
fn keyword_renders_keyword_only() {
    let attrs = CssVariantAttrs { keyword: Some("foo".to_string()), ..CssVariantAttrs::default() };
    let s = single(variant("Bar", vec![], attrs));
    assert_eq!(render(&s, 0, vec![]), "foo");
}

#[test]
fn comma_separates_fields() {
    let attrs = CssVariantAttrs { comma: true, ..CssVariantAttrs::default() };
    let s = single(variant("Pair", vec![direct("A"), direct("B"), direct("C")], attrs));
    assert_eq!(render(&s, 0, vec![one("1"), one("2"), one("3")]), "1, 2, 3");
}

#[test]
fn space_separates_fields_by_default() {
    let s = single(variant("Pair", vec![direct("A"), direct("B")], CssVariantAttrs::default()));
    assert_eq!(render(&s, 0, vec![one("1"), one("2")]), "1 2");
}

#[test]
fn empty_items_get_no_separator() {
    let s = single(variant("Pair", vec![direct("A"), iterable(None), direct("B")], CssVariantAttrs::default()));
    assert_eq!(render(&s, 0, vec![one("1"), many(&[]), one("2")]), "1 2");
    assert_eq!(render(&s, 0, vec![one(""), many(&["x"]), one("2")]), "x 2");
}

#[test]
fn empty_iterable_writes_fallback() {
    for comma in [false, true] {
        let attrs = CssVariantAttrs { comma, ..CssVariantAttrs::default() };
        let s = single(variant("List", vec![iterable(Some("none"))], attrs));
        assert_eq!(render(&s, 0, vec![many(&[])]), "none");
    }
}

#[test]
fn iterable_writes_each_element() {
    let attrs = CssVariantAttrs { comma: true, ..CssVariantAttrs::default() };
    let s = single(variant("List", vec![iterable(Some("none"))], attrs));
    assert_eq!(render(&s, 0, vec![many(&["a", "b"])]), "a, b");
    let s = single(variant("List", vec![iterable(None)], CssVariantAttrs::default()));
    assert_eq!(render(&s, 0, vec![many(&[])]), "");
}

#[test]
fn function_wraps_body() {
    let attrs = CssVariantAttrs {
        function: Some(FunctionName::Explicit("foo".to_string())),
        ..CssVariantAttrs::default()
    };
    let s = single(variant("Bar", vec![direct("A"), direct("B")], attrs));
    assert_eq!(render(&s, 0, vec![one("1"), one("2")]), "foo(1 2)");
    let attrs = CssVariantAttrs { function: Some(FunctionName::Inherit), ..CssVariantAttrs::default() };
    let s = single(variant("RotateX", vec![direct("Angle")], attrs));
    assert_eq!(render(&s, 0, vec![one("1deg")]), "rotate-x(1deg)");
}

#[test]
fn function_failure_leaves_parenthesis_unwritten() {
    let attrs = CssVariantAttrs {
        function: Some(FunctionName::Explicit("foo".to_string())),
        ..CssVariantAttrs::default()
    };
    let s = single(variant("Bar", vec![direct("A"), direct("B")], attrs));
    let g = style_derive::plan::derive(&s).unwrap();
    let (text, r) = render_with(&g, 0, vec![one("1"), one("22")], 7);
    assert_eq!(r, Err(WriteError));
    assert_eq!(text, "foo(1 ");
    let (text, r) = render_with(&g, 0, vec![one("1"), one("22")], 8);
    assert_eq!(r, Err(WriteError));
    assert_eq!(text, "foo(1 22");
    let (text, r) = render_with(&g, 0, vec![one("1"), one("22")], 9);
    assert_eq!(r, Ok(()));
    assert_eq!(text, "foo(1 22)");
}

#[test]
fn dimension_appends_identifier() {
    let attrs = CssVariantAttrs { dimension: true, ..CssVariantAttrs::default() };
    let s = single(variant("Px", vec![direct("f32")], attrs));
    assert_eq!(render(&s, 0, vec![one("3")]), "3px");
}

#[test]
fn rendering_twice_gives_same_text() {
    let attrs = CssVariantAttrs { comma: true, ..CssVariantAttrs::default() };
    let s = single(variant("Pair", vec![direct("A"), iterable(Some("none"))], attrs));
    let g = style_derive::plan::derive(&s).unwrap();
    let fields = vec![one("1"), many(&["a", "b"])];
    let (a, ra) = render_with(&g, 0, fields.clone(), 100);
    let (b, rb) = render_with(&g, 0, fields, 50);
    assert_eq!(ra, Ok(()));
    assert_eq!(rb, Ok(()));
    assert_eq!(a, b);
    assert_eq!(a, "1, a, b");
}

#[test]
fn dimension_with_keyword_is_rejected() {
    let attrs = CssVariantAttrs {
        dimension: true,
        keyword: Some("x".to_string()),
        ..CssVariantAttrs::default()
    };
    let s = single(variant("Px", vec![direct("f32")], attrs));
    assert_eq!(style_derive::plan::derive(&s).err(), Some(SchemaError::DimensionWithFunctionOrKeyword(0)));
}

#[test]
fn dimension_needs_one_field() {
    let attrs = CssVariantAttrs { dimension: true, ..CssVariantAttrs::default() };
    let s = TypeSchema {
        is_enum: true,
        attrs: CssInputAttrs::default(),
        variants: vec![
            variant("Auto", vec![], CssVariantAttrs::default()),
            variant("Px", vec![direct("A"), direct("B")], attrs),
        ],
    };
    assert_eq!(style_derive::plan::derive(&s).err(), Some(SchemaError::DimensionFieldCount(1)));
}

#[test]
fn keyword_with_fields_is_rejected() {
    let attrs = CssVariantAttrs { keyword: Some("k".to_string()), ..CssVariantAttrs::default() };
    let s = single(variant("K", vec![direct("A")], attrs));
    assert_eq!(style_derive::plan::derive(&s).err(), Some(SchemaError::KeywordWithFields(0)));
}

#[test]
fn function_and_comma_rejected_on_enums() {
    let mut s = TypeSchema {
        is_enum: true,
        attrs: CssInputAttrs { function: Some(FunctionName::Inherit), ..CssInputAttrs::default() },
        variants: vec![variant("A", vec![], CssVariantAttrs::default())],
    };
    assert_eq!(style_derive::plan::derive(&s).err(), Some(SchemaError::FunctionOnEnum));
    s.attrs = CssInputAttrs { comma: true, ..CssInputAttrs::default() };
    assert_eq!(style_derive::plan::derive(&s).err(), Some(SchemaError::CommaOnEnum));
    s.is_enum = false;
    assert!(style_derive::plan::derive(&s).is_ok());
}

#[test]
fn reordering_fields_reorders_output() {
    let s = single(variant("Pair", vec![direct("A"), direct("B")], CssVariantAttrs::default()));
    assert_eq!(render(&s, 0, vec![one("1"), one("2")]), "1 2");
    assert_eq!(render(&s, 0, vec![one("2"), one("1")]), "2 1");
}

#[test]
fn skipped_fields_are_left_out() {
    let skip = CssFieldAttrs { skip: true, ..CssFieldAttrs::default() };
    let s = single(variant("Pair", vec![field("A", true, skip.clone()), direct("B")], CssVariantAttrs::default()));
    let g = style_derive::plan::derive(&s).unwrap();
    assert!(g.bounds.tys.is_empty());
    assert_eq!(render(&s, 0, vec![one("1"), one("2")]), "2");
    let s = single(variant("Hidden", vec![field("A", true, skip)], CssVariantAttrs::default()));
    assert_eq!(render(&s, 0, vec![one("1")]), "hidden");
}

#[test]
fn bounds_for_direct_generic_fields_only() {
    let ignore = CssFieldAttrs { ignore_bound: true, ..CssFieldAttrs::default() };
    let s = TypeSchema {
        is_enum: true,
        attrs: CssInputAttrs::default(),
        variants: vec![
            variant("A", vec![field("T", true, CssFieldAttrs::default()), iterable(None)], CssVariantAttrs::default()),
            variant("B", vec![field("T", true, CssFieldAttrs::default())], CssVariantAttrs::default()),
            variant("C", vec![field("U", true, ignore), field("u32", false, CssFieldAttrs::default())], CssVariantAttrs::default()),
            variant("D", vec![field("Box<V>", true, CssFieldAttrs::default())], CssVariantAttrs::default()),
        ],
    };
    let g = style_derive::plan::derive(&s).unwrap();
    assert_eq!(g.bounds.tys, vec!["T".to_string(), "Box<V>".to_string()]);
}

#[test]
fn derive_debug_is_carried() {
    let mut s = single(variant("A", vec![], CssVariantAttrs::default()));
    s.attrs.derive_debug = true;
    assert!(style_derive::plan::derive(&s).unwrap().derive_debug);
}

#[test]
fn sink_refuses_past_limit() {
    let mut sink = Sink::new(3);
    assert_eq!(sink.write_str("ab"), Ok(()));
    assert_eq!(sink.write_str("cd"), Err(WriteError));
    assert_eq!(sink.write_str("c"), Ok(()));
    assert_eq!(sink.write_str(""), Ok(()));
    assert_eq!(sink.text, "abc");
}
