//! Properties of generated plans and of rendering, proved over the spec
//! functions that the generator's and the renderer's contracts use.
use vstd::prelude::*;
use crate::ident::css_identifier;
use crate::plan::{
    arm_of, body_of, field_plan, field_plans, function_name, generated_of, separator, ArmView,
    BodyView, FieldPlanView, Generated,
};
use crate::render::{
    arm_writes, body_writes, field_items, item_writes, plan_items, run, FieldValueView,
};
use crate::schema::{first_variant_error, schema_error, variant_error, Field, TypeSchema, Variant};

verus! {

broadcast use vstd::seq_lib::group_seq_properties;

/// Writing texts in order into a sink: every write goes through exactly when
/// the whole output fits, and then the sink ends with all of it; otherwise
/// the sink ends with the texts before the refused one and nothing after.
pub proof fn lemma_run_outcome(t: Seq<char>, l: nat, ws: Seq<Seq<char>>)
    requires
        t.len() <= l,
    ensures
        run(t, l, ws).1 <==> t.len() + ws.flatten().len() <= l,
        run(t, l, ws).1 ==> run(t, l, ws).0 == t + ws.flatten(),
        !run(t, l, ws).1 ==> exists|j: int|
            0 <= j < ws.len() && run(t, l, ws).0 == t + #[trigger] ws.take(j).flatten(),
    decreases ws.len(),
{
    if ws.len() == 0 {
        assert(t + ws.flatten() =~= t);
    } else {
        assert(ws.skip(1) == ws.drop_first());
        assert(ws.flatten() == ws[0] + ws.skip(1).flatten());
        if t.len() + ws[0].len() <= l {
            lemma_run_outcome(t + ws[0], l, ws.skip(1));
            assert((t + ws[0]).len() + ws.skip(1).flatten().len() == t.len() + ws.flatten().len());
            assert(run(t, l, ws) == run(t + ws[0], l, ws.skip(1)));
            assert(t + ws[0] + ws.skip(1).flatten() =~= t + ws.flatten());
            if !run(t, l, ws).1 {
                let j = choose|j: int|
                    0 <= j < ws.skip(1).len() && run(t + ws[0], l, ws.skip(1)).0 == t + ws[0]
                        + #[trigger] ws.skip(1).take(j).flatten();
                assert(ws.take(j + 1).drop_first() =~= ws.skip(1).take(j));
                assert(ws.take(j + 1).first() == ws[0]);
                assert(t + ws[0] + ws.skip(1).take(j).flatten() =~= t + ws.take(j + 1).flatten());
            }
        } else {
            assert(t.len() + ws.flatten().len() > l);
            assert(run(t, l, ws) == (t, false));
            assert(ws.take(0).flatten() =~= Seq::<char>::empty());
            assert(t + ws.take(0).flatten() =~= t);
        }
    }
}

/// A variant with no fields and no directives writes its canonical
/// identifier and nothing else.
pub proof fn lemma_plain_variant_writes_identifier(v: Variant, fields: Seq<FieldValueView>)
    requires
        v.fields@.len() == 0,
        v.attrs.keyword is None,
        v.attrs.function is None,
        !v.attrs.dimension,
    ensures
        arm_writes(arm_of(v), fields) == seq![css_identifier(v.ident@)],
        arm_writes(arm_of(v), fields).flatten() == css_identifier(v.ident@),
{
    assert(field_plans(v.fields@) =~= Seq::<FieldPlanView>::empty());
    let ws = arm_writes(arm_of(v), fields);
    assert(ws =~= seq![css_identifier(v.ident@)]);
    ws.lemma_flatten_one_element();
}

/// The plan generated for a schema of one variant with no fields and no
/// directives writes that variant's canonical identifier and nothing else.
pub proof fn lemma_plain_schema_renders_identifier(
    s: TypeSchema,
    g: Generated,
    fields: Seq<FieldValueView>,
)
    requires
        s.variants@.len() == 1,
        s.variants@[0].fields@.len() == 0,
        s.variants@[0].attrs.keyword is None,
        s.variants@[0].attrs.function is None,
        !s.variants@[0].attrs.dimension,
        generated_of(s, g),
    ensures
        arm_writes(g.arms@[0]@, fields).flatten() == css_identifier(s.variants@[0].ident@),
{
    lemma_plain_variant_writes_identifier(s.variants@[0], fields);
}

/// A keyword variant writes the keyword alone, whatever its fields hold.
pub proof fn lemma_keyword_writes_keyword(v: Variant, fields: Seq<FieldValueView>)
    requires
        v.attrs.keyword is Some,
        v.attrs.function is None,
        !v.attrs.dimension,
    ensures
        arm_writes(arm_of(v), fields) == seq![v.attrs.keyword->Some_0@],
        arm_writes(arm_of(v), fields).flatten() == v.attrs.keyword->Some_0@,
{
    let ws = arm_writes(arm_of(v), fields);
    assert(ws =~= seq![v.attrs.keyword->Some_0@]);
    ws.lemma_flatten_one_element();
}

/// A variant whose one field is iterable with a fallback text, rendered
/// with an empty collection, writes the fallback text exactly, with either
/// separator.
pub proof fn lemma_empty_iterable_writes_fallback(v: Variant, fields: Seq<FieldValueView>)
    requires
        v.fields@.len() == 1,
        v.fields@[0].attrs.iterable,
        !v.fields@[0].attrs.skip,
        v.fields@[0].attrs.if_empty is Some,
        v.attrs.keyword is None,
        v.attrs.function is None,
        !v.attrs.dimension,
        fields.len() == 1,
        fields[0] == FieldValueView::Many(Seq::empty()),
    ensures
        arm_writes(arm_of(v), fields).flatten() == v.fields@[0].attrs.if_empty->Some_0@,
{
    let t = v.fields@[0].attrs.if_empty->Some_0@;
    let ps = field_plans(v.fields@);
    assert(field_plans(v.fields@.drop_last()) =~= Seq::<FieldPlanView>::empty());
    assert(ps =~= seq![FieldPlanView::EachOr(0, t)]);
    assert(body_of(v) == BodyView::Sequence(separator(v.attrs.comma), ps));
    assert(ps.drop_last() =~= Seq::<FieldPlanView>::empty());
    assert(field_items(ps.last(), fields) == seq![t]);
    assert(plan_items(ps.drop_last(), fields) =~= Seq::<Seq<char>>::empty());
    let items = plan_items(ps, fields);
    assert(items =~= seq![t]);
    assert(items.skip(1) =~= Seq::<Seq<char>>::empty());
    assert(item_writes(items.skip(1), separator(v.attrs.comma), false) =~= Seq::<Seq<char>>::empty());
    assert(item_writes(items.skip(1), separator(v.attrs.comma), true) =~= Seq::<Seq<char>>::empty());
    let ws = arm_writes(arm_of(v), fields);
    if t.len() == 0 {
        assert(ws =~= Seq::<Seq<char>>::empty());
        assert(ws.flatten() =~= t);
    } else {
        assert(ws =~= seq![t]);
        ws.lemma_flatten_one_element();
    }
}

/// A `function` variant writes the name and `(`, its body, then `)`. When a
/// write fails, the sink holds only what came before it, so a failure in
/// the body leaves the closing `)` unwritten.
pub proof fn lemma_function_wraps_body(
    v: Variant,
    fields: Seq<FieldValueView>,
    t: Seq<char>,
    l: nat,
)
    requires
        v.attrs.function is Some,
        !v.attrs.dimension,
        t.len() <= l,
    ensures
        ({
            let ws = arm_writes(arm_of(v), fields);
            let open = function_name(v.attrs.function->Some_0, css_identifier(v.ident@)).push('(');
            &&& ws == seq![open] + body_writes(body_of(v), fields) + seq![seq![')']]
            &&& run(t, l, ws).1 ==> run(t, l, ws).0 == t + open + body_writes(body_of(v), fields).flatten()
                + seq![')']
            &&& !run(t, l, ws).1 ==> exists|j: int|
                0 <= j < ws.len() && run(t, l, ws).0 == t + #[trigger] ws.take(j).flatten()
        }),
{
    let ws = arm_writes(arm_of(v), fields);
    let open = function_name(v.attrs.function->Some_0, css_identifier(v.ident@)).push('(');
    let body = body_writes(body_of(v), fields);
    assert(ws =~= seq![open] + body + seq![seq![')']]);
    lemma_run_outcome(t, l, ws);
    vstd::seq_lib::lemma_flatten_concat(seq![open] + body, seq![seq![')']]);
    vstd::seq_lib::lemma_flatten_concat(seq![open], body);
    seq![open].lemma_flatten_one_element();
    seq![seq![')']].lemma_flatten_one_element();
    assert(t + ws.flatten() =~= t + open + body.flatten() + seq![')']);
}

/// Rendering does not depend on the sink: a variant rendered twice, into
/// two fresh sinks that each take the whole output, leaves the same text in
/// both, its writes in order.
pub proof fn lemma_render_independent_of_sink(
    a: ArmView,
    fields: Seq<FieldValueView>,
    l1: nat,
    l2: nat,
)
    requires
        run(Seq::empty(), l1, arm_writes(a, fields)).1,
        run(Seq::empty(), l2, arm_writes(a, fields)).1,
    ensures
        run(Seq::empty(), l1, arm_writes(a, fields)).0 == run(Seq::empty(), l2, arm_writes(a, fields)).0,
        run(Seq::empty(), l1, arm_writes(a, fields)).0 == arm_writes(a, fields).flatten(),
{
    let ws = arm_writes(a, fields);
    lemma_run_outcome(Seq::empty(), l1, ws);
    lemma_run_outcome(Seq::empty(), l2, ws);
    assert(Seq::<char>::empty() + ws.flatten() =~= ws.flatten());
}

/// One faulty variant makes the whole sequence of variants faulty.
pub proof fn lemma_variant_error_is_first_error(vs: Seq<Variant>, i: int)
    requires
        0 <= i < vs.len(),
        variant_error(vs[i], i as usize) is Some,
    ensures
        first_variant_error(vs) is Some,
    decreases vs.len(),
{
    if i < vs.len() - 1 {
        lemma_variant_error_is_first_error(vs.drop_last(), i);
    }
}

/// A `dimension` variant with one directly written field writes the value,
/// then its canonical identifier with nothing between.
pub proof fn lemma_dimension_appends_identifier(v: Variant, fields: Seq<FieldValueView>)
    requires
        v.attrs.dimension,
        v.attrs.keyword is None,
        v.fields@.len() == 1,
        !v.fields@[0].attrs.skip,
        !v.fields@[0].attrs.iterable,
        fields.len() == 1,
        fields[0] is One,
    ensures
        arm_writes(arm_of(v), fields) == seq![fields[0]->One_0, css_identifier(v.ident@)],
{
    assert(field_plans(v.fields@.drop_last()) =~= Seq::<FieldPlanView>::empty());
    assert(field_plans(v.fields@) =~= seq![FieldPlanView::Item(0)]);
    assert(arm_writes(arm_of(v), fields) =~= seq![fields[0]->One_0, css_identifier(v.ident@)]);
}

/// A variant with both `dimension` and `keyword` makes generation fail.
pub proof fn lemma_dimension_with_keyword_rejected(s: TypeSchema, i: int)
    requires
        0 <= i < s.variants@.len(),
        s.variants@[i].attrs.dimension,
        s.variants@[i].attrs.keyword is Some,
    ensures
        schema_error(s) is Some,
{
    lemma_variant_error_is_first_error(s.variants@, i);
}

/// Writing a single item directly and writing it as a one-item sequence
/// leave any sink in the same state.
pub proof fn lemma_direct_matches_sequence(x: Seq<char>, sep: Seq<char>, t: Seq<char>, l: nat)
    requires
        t.len() <= l,
    ensures
        run(t, l, seq![x]) == run(t, l, item_writes(seq![x], sep, false)),
{
    let one = seq![x];
    assert(one.skip(1) =~= Seq::<Seq<char>>::empty());
    assert(item_writes(one.skip(1), sep, false) =~= Seq::<Seq<char>>::empty());
    assert(item_writes(one.skip(1), sep, true) =~= Seq::<Seq<char>>::empty());
    assert(run(t + x, l, one.skip(1)) == (t + x, true));
    if x.len() == 0 {
        assert(item_writes(one, sep, false) =~= Seq::<Seq<char>>::empty());
        assert(t + x =~= t);
    } else {
        assert(item_writes(one, sep, false) =~= one);
    }
}

/// Once a sequence has written an item, each further non-empty item comes
/// after a separator.
pub proof fn lemma_started_items(items: Seq<Seq<char>>, sep: Seq<char>)
    requires
        forall|k: int| 0 <= k < items.len() ==> (#[trigger] items[k]).len() > 0,
    ensures
        item_writes(items, sep, true).len() == 2 * items.len(),
        forall|k: int| 0 <= k < items.len() ==> #[trigger] item_writes(items, sep, true)[2 * k] == sep,
        forall|k: int|
            0 <= k < items.len() ==> #[trigger] item_writes(items, sep, true)[2 * k + 1] == items[k],
    decreases items.len(),
{
    if items.len() > 0 {
        let rest = items.skip(1);
        assert(forall|k: int| 0 <= k < rest.len() ==> rest[k] == items[k + 1]);
        lemma_started_items(rest, sep);
        let w = item_writes(items, sep, true);
        let r = item_writes(rest, sep, true);
        assert(w == seq![sep, items[0]] + r);
        assert forall|k: int| 0 <= k < items.len() implies #[trigger] w[2 * k] == sep by {
            if k > 0 {
                assert(w[2 * k] == r[2 * (k - 1)]);
            }
        }
        assert forall|k: int| 0 <= k < items.len() implies #[trigger] w[2 * k + 1] == items[k] by {
            if k > 0 {
                assert(rest[k - 1] == items[k]);
                assert(w[2 * k + 1] == r[2 * (k - 1) + 1]);
            }
        }
    }
}

/// With `comma`, the non-empty items of a variant's active fields are
/// written with `", "` between each two of them: `n` items give `n - 1`
/// separators, and nothing else stands between them.
pub proof fn lemma_comma_separates(v: Variant, fields: Seq<FieldValueView>)
    requires
        v.attrs.comma,
        v.attrs.keyword is None,
        field_plans(v.fields@).len() >= 2,
        plan_items(field_plans(v.fields@), fields).len() >= 1,
        forall|k: int|
            0 <= k < plan_items(field_plans(v.fields@), fields).len() ==> (#[trigger] plan_items(
                field_plans(v.fields@),
                fields,
            )[k]).len() > 0,
    ensures
        body_writes(body_of(v), fields).len() == 2 * plan_items(field_plans(v.fields@), fields).len()
            - 1,
        forall|k: int|
            0 <= k < plan_items(field_plans(v.fields@), fields).len() ==> #[trigger] body_writes(
                body_of(v),
                fields,
            )[2 * k] == plan_items(field_plans(v.fields@), fields)[k],
        forall|k: int|
            1 <= k < plan_items(field_plans(v.fields@), fields).len() ==> #[trigger] body_writes(
                body_of(v),
                fields,
            )[2 * k - 1] == seq![',', ' '],
{
    let items = plan_items(field_plans(v.fields@), fields);
    let sep = separator(true);
    let rest = items.skip(1);
    assert(body_of(v) == BodyView::Sequence(sep, field_plans(v.fields@)));
    assert(forall|k: int| 0 <= k < rest.len() ==> rest[k] == items[k + 1]);
    lemma_started_items(rest, sep);
    let w = body_writes(body_of(v), fields);
    let r = item_writes(rest, sep, true);
    assert(items[0].len() > 0);
    assert(w == seq![items[0]] + r);
    assert forall|k: int| 0 <= k < items.len() implies #[trigger] w[2 * k] == items[k] by {
        if k > 0 {
            assert(rest[k - 1] == items[k]);
            assert(w[2 * k] == r[2 * (k - 1) + 1]);
        }
    }
    assert forall|k: int| 1 <= k < items.len() implies #[trigger] w[2 * k - 1] == seq![',', ' '] by {
        assert(w[2 * k - 1] == r[2 * (k - 1)]);
    }
}

/// Each field's items in declaration order; skipped fields give none.
pub open spec fn declared_items(fs: Seq<Field>, fields: Seq<FieldValueView>) -> Seq<Seq<Seq<char>>> {
    Seq::new(
        fs.len(),
        |k: int|
            if fs[k].attrs.skip {
                Seq::empty()
            } else {
                field_items(field_plan(fs[k].attrs, k as usize), fields)
            },
    )
}

/// The items of a variant's sequence are its fields' items laid out in the
/// order in which the fields are declared, so moving a field in the schema
/// moves its items and nothing else.
pub proof fn lemma_fields_in_declaration_order(fs: Seq<Field>, fields: Seq<FieldValueView>)
    ensures
        plan_items(field_plans(fs), fields) == declared_items(fs, fields).flatten(),
    decreases fs.len(),
{
    let d = declared_items(fs, fields);
    d.lemma_flatten_and_flatten_alt_are_equivalent();
    if fs.len() == 0 {
        assert(d =~= Seq::<Seq<Seq<char>>>::empty());
    } else {
        lemma_fields_in_declaration_order(fs.drop_last(), fields);
        let dp = declared_items(fs.drop_last(), fields);
        dp.lemma_flatten_and_flatten_alt_are_equivalent();
        assert(d.drop_last() =~= dp);
        let prev = field_plans(fs.drop_last());
        if !fs.last().attrs.skip {
            let p = field_plan(fs.last().attrs, (fs.len() - 1) as usize);
            assert(prev.push(p).drop_last() =~= prev);
            assert(plan_items(prev.push(p), fields) == plan_items(prev, fields) + field_items(p, fields));
        } else {
            assert(d.last() =~= Seq::<Seq<char>>::empty());
            assert(dp.flatten_alt() + d.last() =~= dp.flatten_alt());
        }
    }
}

} // verus!
