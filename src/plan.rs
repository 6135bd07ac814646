//! Compiles a checked schema into one rendering plan per variant, and
//! collects the field types that need the rendering bound.
use vstd::prelude::*;
use crate::ident::{css_identifier, to_css_identifier};
use crate::schema::{
    check_schema, first_variant_error, schema_error, variant_error, CssFieldAttrs, Field, FunctionName, SchemaError, TypeSchema,
    Variant,
};

verus! {

broadcast use vstd::seq_lib::group_seq_properties;

/// How one active field is written as sequence items.
#[derive(Clone, Debug)]
pub enum FieldPlan {
    /// The field's value as one item.
    Item(usize),
    /// Each element of the field as an item.
    Each(usize),
    /// Each element as an item; the text verbatim as one item when empty.
    EachOr(usize, String),
}

pub enum FieldPlanView {
    Item(usize),
    Each(usize),
    EachOr(usize, Seq<char>),
}

/// What a variant writes before any wrapping.
#[derive(Clone, Debug)]
pub enum Body {
    /// A literal text: a keyword or the canonical identifier.
    Text(String),
    /// The one active field's value, written directly.
    Direct(usize),
    /// The active fields as items of a sequence with this separator.
    Sequence(String, Vec<FieldPlan>),
}

pub enum BodyView {
    Text(Seq<char>),
    Direct(usize),
    Sequence(Seq<char>, Seq<FieldPlanView>),
}

/// A variant's plan: an optional text before the body and one after it.
#[derive(Clone, Debug)]
pub struct ArmPlan {
    pub prefix: Option<String>,
    pub body: Body,
    pub suffix: Option<String>,
}

pub struct ArmView {
    pub prefix: Option<Seq<char>>,
    pub body: BodyView,
    pub suffix: Option<Seq<char>>,
}

pub open spec fn opt_view(o: Option<String>) -> Option<Seq<char>> {
    match o {
        Some(s) => Some(s@),
        None => None,
    }
}

pub open spec fn plans(ps: Seq<FieldPlan>) -> Seq<FieldPlanView> {
    ps.map_values(|p: FieldPlan| p@)
}

impl View for FieldPlan {
    type V = FieldPlanView;

    open spec fn view(&self) -> FieldPlanView {
        match *self {
            FieldPlan::Item(i) => FieldPlanView::Item(i),
            FieldPlan::Each(i) => FieldPlanView::Each(i),
            FieldPlan::EachOr(i, t) => FieldPlanView::EachOr(i, t@),
        }
    }
}

impl View for Body {
    type V = BodyView;

    open spec fn view(&self) -> BodyView {
        match *self {
            Body::Text(t) => BodyView::Text(t@),
            Body::Direct(i) => BodyView::Direct(i),
            Body::Sequence(sep, ps) => BodyView::Sequence(sep@, plans(ps@)),
        }
    }
}

impl View for ArmPlan {
    type V = ArmView;

    open spec fn view(&self) -> ArmView {
        ArmView { prefix: opt_view(self.prefix), body: self.body@, suffix: opt_view(self.suffix) }
    }
}

/// The plan of field `index`, which is not skipped.
pub open spec fn field_plan(a: CssFieldAttrs, index: usize) -> FieldPlanView {
    if a.iterable {
        match a.if_empty {
            Some(t) => FieldPlanView::EachOr(index, t@),
            None => FieldPlanView::Each(index),
        }
    } else {
        FieldPlanView::Item(index)
    }
}

/// The plans of the fields that are not skipped, in declaration order.
pub open spec fn field_plans(fs: Seq<Field>) -> Seq<FieldPlanView>
    decreases fs.len(),
{
    if fs.len() == 0 {
        Seq::empty()
    } else if fs.last().attrs.skip {
        field_plans(fs.drop_last())
    } else {
        field_plans(fs.drop_last()).push(field_plan(fs.last().attrs, (fs.len() - 1) as usize))
    }
}

pub open spec fn separator(comma: bool) -> Seq<char> {
    if comma {
        seq![',', ' ']
    } else {
        seq![' ']
    }
}

pub open spec fn body_of(v: Variant) -> BodyView {
    match v.attrs.keyword {
        Some(k) => BodyView::Text(k@),
        None => {
            let ps = field_plans(v.fields@);
            if ps.len() == 0 {
                BodyView::Text(css_identifier(v.ident@))
            } else if ps.len() == 1 && ps[0] is Item {
                BodyView::Direct(ps[0]->Item_0)
            } else {
                BodyView::Sequence(separator(v.attrs.comma), ps)
            }
        }
    }
}

pub open spec fn function_name(f: FunctionName, identifier: Seq<char>) -> Seq<char> {
    match f {
        FunctionName::Inherit => identifier,
        FunctionName::Explicit(n) => n@,
    }
}

/// The plan of a variant: `dimension` appends the identifier, `function`
/// wraps the body in a call.
pub open spec fn arm_of(v: Variant) -> ArmView {
    let id = css_identifier(v.ident@);
    if v.attrs.dimension {
        ArmView { prefix: None, body: body_of(v), suffix: Some(id) }
    } else {
        match v.attrs.function {
            Some(f) => ArmView {
                prefix: Some(function_name(f, id).push('(')),
                body: body_of(v),
                suffix: Some(seq![')']),
            },
            None => ArmView { prefix: None, body: body_of(v), suffix: None },
        }
    }
}

/// Whether a field is rendered directly and its type needs the bound.
pub open spec fn needs_bound(f: Field) -> bool {
    !f.attrs.skip && !f.attrs.iterable && !f.attrs.ignore_bound && f.generic
}

pub open spec fn field_bounds(fs: Seq<Field>) -> Set<Seq<char>>
    decreases fs.len(),
{
    if fs.len() == 0 {
        Set::empty()
    } else if needs_bound(fs.last()) {
        field_bounds(fs.drop_last()).insert(fs.last().ty@)
    } else {
        field_bounds(fs.drop_last())
    }
}

pub open spec fn schema_bounds(vs: Seq<Variant>) -> Set<Seq<char>>
    decreases vs.len(),
{
    if vs.len() == 0 {
        Set::empty()
    } else {
        schema_bounds(vs.drop_last()) + field_bounds(vs.last().fields@)
    }
}

/// The field types that must carry the rendering bound, each once.
#[derive(Clone, Debug)]
pub struct BoundSet {
    pub tys: Vec<String>,
}

impl BoundSet {
    pub open spec fn types(&self) -> Seq<Seq<char>> {
        self.tys@.map_values(|s: String| s@)
    }

    pub open spec fn wf(&self) -> bool {
        self.types().no_duplicates()
    }

    pub open spec fn contents(&self) -> Set<Seq<char>> {
        self.types().to_set()
    }

    pub fn new() -> (r: BoundSet)
        ensures
            r.wf(),
            r.contents() == Set::<Seq<char>>::empty(),
    {
        let r = BoundSet { tys: Vec::new() };
        assert(r.types() =~= Seq::<Seq<char>>::empty());
        r
    }

    /// Requires the bound on `ty`; a type already there is not added again.
    pub fn add_trait_bound(&mut self, ty: &String)
        requires
            old(self).wf(),
        ensures
            final(self).wf(),
            final(self).contents() == old(self).contents().insert(ty@),
    {
        let mut i: usize = 0;
        while i < self.tys.len()
            invariant
                i <= self.tys@.len(),
                self.wf(),
                self.tys@ == old(self).tys@,
                forall|j: int| 0 <= j < i ==> self.tys@[j]@ != ty@,
            decreases self.tys@.len() - i,
        {
            if self.tys[i] == *ty {
                assert(self.types()[i as int] == ty@);
                assert(self.contents().insert(ty@) =~= self.contents());
                return;
            }
            i = i + 1;
        }
        let ghost before = self.types();
        self.tys.push(ty.clone());
        assert(self.types() =~= before.push(ty@));
        assert(!before.contains(ty@));
    }
}

/// The rendering plan of a whole type.
#[derive(Clone, Debug)]
pub struct Generated {
    pub arms: Vec<ArmPlan>,
    pub bounds: BoundSet,
    pub derive_debug: bool,
}

/// The generated plan of a whole schema without errors.
pub open spec fn generated_of(s: TypeSchema, g: Generated) -> bool {
    &&& g.arms@.len() == s.variants@.len()
    &&& forall|i: int| 0 <= i < s.variants@.len() ==> #[trigger] g.arms@[i]@ == arm_of(s.variants@[i])
    &&& g.bounds.wf()
    &&& g.bounds.contents() == schema_bounds(s.variants@)
    &&& g.derive_debug == s.attrs.derive_debug
}

/// Plans one active field, requiring the bound on its type when the field
/// is written directly.
pub fn derive_single_field_expr(field: &Field, index: usize, bounds: &mut BoundSet) -> (r: FieldPlan)
    requires
        old(bounds).wf(),
    ensures
        r@ == field_plan(field.attrs, index),
        final(bounds).wf(),
        final(bounds).contents() == (if !field.attrs.iterable && !field.attrs.ignore_bound
            && field.generic {
            old(bounds).contents().insert(field.ty@)
        } else {
            old(bounds).contents()
        }),
{
    if field.attrs.iterable {
        match &field.attrs.if_empty {
            Some(t) => FieldPlan::EachOr(index, t.clone()),
            None => FieldPlan::Each(index),
        }
    } else {
        if !field.attrs.ignore_bound && field.generic {
            bounds.add_trait_bound(&field.ty);
        }
        FieldPlan::Item(index)
    }
}

/// Plans the fields of a variant. `None` when every field is skipped; the
/// single active field written directly when it is not iterable; else a
/// sequence of the active fields with `sep` between items.
pub fn derive_variant_fields_expr(fields: &Vec<Field>, bounds: &mut BoundSet, sep: &str) -> (r:
    Option<Body>)
    requires
        old(bounds).wf(),
    ensures
        final(bounds).wf(),
        final(bounds).contents() == old(bounds).contents() + field_bounds(fields@),
        match r {
            None => field_plans(fields@).len() == 0,
            Some(b) => {
                let ps = field_plans(fields@);
                &&& ps.len() > 0
                &&& b@ == (if ps.len() == 1 && ps[0] is Item {
                    BodyView::Direct(ps[0]->Item_0)
                } else {
                    BodyView::Sequence(sep@, ps)
                })
            },
        },
{
    let mut out: Vec<FieldPlan> = Vec::new();
    let mut i: usize = 0;
    while i < fields.len()
        invariant
            i <= fields@.len(),
            bounds.wf(),
            plans(out@) == field_plans(fields@.take(i as int)),
            bounds.contents() == old(bounds).contents() + field_bounds(fields@.take(i as int)),
        decreases fields@.len() - i,
    {
        let ghost pre = fields@.take(i as int);
        assert(fields@.take(i + 1).drop_last() == pre);
        let f = &fields[i];
        if !f.attrs.skip {
            let ghost before = out@;
            let p = derive_single_field_expr(f, i, bounds);
            out.push(p);
            assert(plans(out@) =~= plans(before).push(p@));
        }
        assert(bounds.contents() =~= old(bounds).contents() + field_bounds(fields@.take(i + 1)));
        i = i + 1;
    }
    assert(fields@.take(i as int) == fields@);
    if out.len() == 0 {
        return None;
    }
    let single = out.len() == 1 && match out[0] {
        FieldPlan::Item(_) => true,
        _ => false,
    };
    assert(plans(out@)[0] == out@[0]@);
    if single {
        match out[0] {
            FieldPlan::Item(k) => Some(Body::Direct(k)),
            _ => None,
        }
    } else {
        let s = String::from_str(sep);
        Some(Body::Sequence(s, out))
    }
}

fn separator_text(comma: bool) -> (r: &'static str)
    ensures
        r@ == separator(comma),
{
    proof {
        reveal_strlit(", ");
        reveal_strlit(" ");
    }
    if comma {
        ", "
    } else {
        " "
    }
}

/// Plans one variant whose directives are legal.
pub fn derive_variant_arm(v: &Variant, bounds: &mut BoundSet) -> (r: ArmPlan)
    requires
        old(bounds).wf(),
        v.attrs.keyword is Some ==> v.fields@.len() == 0,
    ensures
        r@ == arm_of(*v),
        final(bounds).wf(),
        final(bounds).contents() == old(bounds).contents() + field_bounds(v.fields@),
{
    let identifier = to_css_identifier(v.ident.as_str());
    let body = match &v.attrs.keyword {
        Some(k) => {
            assert(field_bounds(v.fields@) =~= Set::<Seq<char>>::empty());
            assert(bounds.contents() =~= bounds.contents() + Set::<Seq<char>>::empty());
            Body::Text(k.clone())
        },
        None => match derive_variant_fields_expr(&v.fields, bounds, separator_text(v.attrs.comma)) {
            Some(b) => b,
            None => Body::Text(identifier.clone()),
        },
    };
    assert(body@ == body_of(*v));
    if v.attrs.dimension {
        ArmPlan { prefix: None, body, suffix: Some(identifier) }
    } else {
        match &v.attrs.function {
            Some(f) => {
                let mut name = match f {
                    FunctionName::Inherit => identifier,
                    FunctionName::Explicit(n) => n.clone(),
                };
                proof {
                    reveal_strlit("(");
                    reveal_strlit(")");
                }
                name.append("(");
                assert(name@ == function_name(*f, css_identifier(v.ident@)).push('('));
                let close = String::from_str(")");
                assert(close@ =~= seq![')']);
                ArmPlan { prefix: Some(name), body, suffix: Some(close) }
            },
            None => ArmPlan { prefix: None, body, suffix: None },
        }
    }
}

/// Every variant of a schema without errors passes its own checks.
pub proof fn lemma_no_variant_error(vs: Seq<Variant>, i: int)
    requires
        first_variant_error(vs) is None,
        0 <= i < vs.len(),
    ensures
        variant_error(vs[i], i as usize) is None,
    decreases vs.len(),
{
    if i < vs.len() - 1 {
        lemma_no_variant_error(vs.drop_last(), i);
    }
}

/// Checks a schema, then plans every variant in declaration order and
/// collects the bounds.
pub fn derive(s: &TypeSchema) -> (r: Result<Generated, SchemaError>)
    ensures
        match schema_error(*s) {
            Some(e) => r == Err::<Generated, SchemaError>(e),
            None => r is Ok && generated_of(*s, r->Ok_0),
        },
{
    match check_schema(s) {
        Some(e) => {
            return Err(e);
        },
        None => {},
    }
    let mut bounds = BoundSet::new();
    let mut arms: Vec<ArmPlan> = Vec::new();
    let mut i: usize = 0;
    while i < s.variants.len()
        invariant
            i <= s.variants@.len(),
            schema_error(*s) is None,
            first_variant_error(s.variants@) is None,
            bounds.wf(),
            bounds.contents() == schema_bounds(s.variants@.take(i as int)),
            arms@.len() == i,
            forall|j: int| 0 <= j < i ==> #[trigger] arms@[j]@ == arm_of(s.variants@[j]),
        decreases s.variants@.len() - i,
    {
        proof {
            lemma_no_variant_error(s.variants@, i as int);
        }
        assert(s.variants@.take(i + 1).drop_last() == s.variants@.take(i as int));
        let a = derive_variant_arm(&s.variants[i], &mut bounds);
        arms.push(a);
        i = i + 1;
    }
    assert(s.variants@.take(i as int) == s.variants@);
    Ok(Generated { arms, bounds, derive_debug: s.attrs.derive_debug })
}

} // verus!
