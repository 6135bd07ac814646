//! Runs a variant's plan on a value: the plan yields the texts to write, in
//! order, and the sink takes them until one fails.
use vstd::prelude::*;
use crate::plan::{plans, ArmPlan, ArmView, Body, BodyView, FieldPlan, FieldPlanView, Generated};

verus! {

broadcast use vstd::seq_lib::group_seq_properties;

/// What a field holds at render time: one value already rendered, or the
/// rendered elements of a collection.
#[derive(Clone, Debug)]
pub enum FieldValue {
    One(String),
    Many(Vec<String>),
}

pub enum FieldValueView {
    One(Seq<char>),
    Many(Seq<Seq<char>>),
}

pub open spec fn strs(v: Seq<String>) -> Seq<Seq<char>> {
    v.map_values(|s: String| s@)
}

impl View for FieldValue {
    type V = FieldValueView;

    open spec fn view(&self) -> FieldValueView {
        match *self {
            FieldValue::One(s) => FieldValueView::One(s@),
            FieldValue::Many(v) => FieldValueView::Many(strs(v@)),
        }
    }
}

/// A value of the schema's type: which variant, and its fields in
/// declaration order.
#[derive(Clone, Debug)]
pub struct Value {
    pub variant: usize,
    pub fields: Vec<FieldValue>,
}

pub open spec fn values(v: Seq<FieldValue>) -> Seq<FieldValueView> {
    v.map_values(|f: FieldValue| f@)
}

/// The sink refused a write.
#[derive(Clone, Copy, Debug, PartialEq, Eq, Structural)]
pub struct WriteError;

/// A text sink that holds at most `limit` characters: a write that would
/// pass the limit fails and leaves the text as it was.
#[derive(Clone, Debug)]
pub struct Sink {
    pub text: String,
    pub limit: usize,
}

/// Writes `ws` in order from `text`; stops at the first write that does not
/// fit. Gives the final text and whether every write went through.
pub open spec fn run(text: Seq<char>, limit: nat, ws: Seq<Seq<char>>) -> (Seq<char>, bool)
    decreases ws.len(),
{
    if ws.len() == 0 {
        (text, true)
    } else if text.len() + ws[0].len() <= limit {
        run(text + ws[0], limit, ws.skip(1))
    } else {
        (text, false)
    }
}

impl Sink {
    pub open spec fn wf(&self) -> bool {
        self.text@.len() <= self.limit
    }

    pub fn new(limit: usize) -> (r: Sink)
        ensures
            r.wf(),
            r.text@ == Seq::<char>::empty(),
            r.limit == limit,
    {
        Sink { text: String::new(), limit }
    }

    /// Appends `s` when it fits under the limit.
    pub fn write_str(&mut self, s: &str) -> (r: Result<(), WriteError>)
        requires
            old(self).wf(),
        ensures
            final(self).wf(),
            final(self).limit == old(self).limit,
            (final(self).text@, r is Ok) == run(old(self).text@, old(self).limit as nat, seq![s@]),
    {
        let ghost ws = seq![s@];
        assert(ws.skip(1) =~= Seq::<Seq<char>>::empty());
        assert(ws[0] == s@);
        let ghost t0 = self.text@;
        let used = self.text.as_str().unicode_len();
        let n = s.unicode_len();
        if n <= self.limit - used {
            self.text.append(s);
            assert(run(t0 + s@, self.limit as nat, ws.skip(1)) == (t0 + s@, true));
            Ok(())
        } else {
            Err(WriteError)
        }
    }
}

/// The items a field contributes to a sequence.
pub open spec fn field_items(p: FieldPlanView, fields: Seq<FieldValueView>) -> Seq<Seq<char>> {
    match p {
        FieldPlanView::Item(i) => match fields[i as int] {
            FieldValueView::One(t) => seq![t],
            FieldValueView::Many(_) => Seq::empty(),
        },
        FieldPlanView::Each(i) => match fields[i as int] {
            FieldValueView::Many(es) => es,
            FieldValueView::One(_) => Seq::empty(),
        },
        FieldPlanView::EachOr(i, t) => match fields[i as int] {
            FieldValueView::Many(es) => if es.len() == 0 {
                seq![t]
            } else {
                es
            },
            FieldValueView::One(_) => Seq::empty(),
        },
    }
}

pub open spec fn plan_items(ps: Seq<FieldPlanView>, fields: Seq<FieldValueView>) -> Seq<Seq<char>>
    decreases ps.len(),
{
    if ps.len() == 0 {
        Seq::empty()
    } else {
        plan_items(ps.drop_last(), fields) + field_items(ps.last(), fields)
    }
}

/// The writes of a sequence: an empty item writes nothing, and the
/// separator goes before each non-empty item after the first.
pub open spec fn item_writes(items: Seq<Seq<char>>, sep: Seq<char>, started: bool) -> Seq<
    Seq<char>,
>
    decreases items.len(),
{
    if items.len() == 0 {
        Seq::empty()
    } else if items[0].len() == 0 {
        item_writes(items.skip(1), sep, started)
    } else if started {
        seq![sep, items[0]] + item_writes(items.skip(1), sep, true)
    } else {
        seq![items[0]] + item_writes(items.skip(1), sep, true)
    }
}

pub open spec fn body_writes(b: BodyView, fields: Seq<FieldValueView>) -> Seq<Seq<char>> {
    match b {
        BodyView::Text(t) => seq![t],
        BodyView::Direct(i) => match fields[i as int] {
            FieldValueView::One(t) => seq![t],
            FieldValueView::Many(_) => Seq::empty(),
        },
        BodyView::Sequence(sep, ps) => item_writes(plan_items(ps, fields), sep, false),
    }
}

pub open spec fn opt_writes(o: Option<Seq<char>>) -> Seq<Seq<char>> {
    match o {
        Some(t) => seq![t],
        None => Seq::empty(),
    }
}

/// Every write of a variant, in order.
pub open spec fn arm_writes(a: ArmView, fields: Seq<FieldValueView>) -> Seq<Seq<char>> {
    opt_writes(a.prefix) + body_writes(a.body, fields) + opt_writes(a.suffix)
}

pub open spec fn plan_fits(p: FieldPlanView, fields: Seq<FieldValueView>) -> bool {
    match p {
        FieldPlanView::Item(i) => i < fields.len() && fields[i as int] is One,
        FieldPlanView::Each(i) => i < fields.len() && fields[i as int] is Many,
        FieldPlanView::EachOr(i, _) => i < fields.len() && fields[i as int] is Many,
    }
}

/// Whether the fields have the shapes that the plan reads.
pub open spec fn arm_fits(a: ArmView, fields: Seq<FieldValueView>) -> bool {
    match a.body {
        BodyView::Text(_) => true,
        BodyView::Direct(i) => i < fields.len() && fields[i as int] is One,
        BodyView::Sequence(_, ps) => plans_fit(ps, fields),
    }
}

pub open spec fn plans_fit(ps: Seq<FieldPlanView>, fields: Seq<FieldValueView>) -> bool {
    forall|k: int| 0 <= k < ps.len() ==> plan_fits(#[trigger] ps[k], fields)
}

/// Pushes copies of `src` onto `out`.
fn extend_strings(out: &mut Vec<String>, src: &Vec<String>)
    ensures
        strs(final(out)@) == strs(old(out)@) + strs(src@),
{
    let ghost base = strs(out@);
    let mut j: usize = 0;
    while j < src.len()
        invariant
            j <= src@.len(),
            strs(out@) == base + strs(src@.take(j as int)),
        decreases src@.len() - j,
    {
        let ghost before = out@;
        out.push(src[j].clone());
        assert(strs(out@) =~= strs(before).push(src@[j as int]@));
        assert(strs(src@.take(j + 1)) =~= strs(src@.take(j as int)).push(src@[j as int]@));
        j = j + 1;
    }
    assert(src@.take(j as int) =~= src@);
}

/// The items of the active fields, in plan order.
pub fn collect_items(ps: &Vec<FieldPlan>, fields: &Vec<FieldValue>) -> (r: Vec<String>)
    requires
        plans_fit(plans(ps@), values(fields@)),
    ensures
        strs(r@) == plan_items(plans(ps@), values(fields@)),
{
    let ghost fv = values(fields@);
    let mut items: Vec<String> = Vec::new();
    let mut k: usize = 0;
    while k < ps.len()
        invariant
            k <= ps@.len(),
            fv == values(fields@),
            forall|m: int| 0 <= m < ps@.len() ==> plan_fits(#[trigger] plans(ps@)[m], fv),
            strs(items@) == plan_items(plans(ps@).take(k as int), fv),
        decreases ps@.len() - k,
    {
        assert(plans(ps@).take(k + 1).drop_last() =~= plans(ps@).take(k as int));
        assert(plans(ps@)[k as int] == ps@[k as int]@);
        assert(plan_fits(plans(ps@)[k as int], fv));
        let ghost before = strs(items@);
        match &ps[k] {
            FieldPlan::Item(i) => {
                assert(fv[*i as int] == fields@[*i as int]@);
                match &fields[*i] {
                    FieldValue::One(t) => {
                        items.push(t.clone());
                        assert(strs(items@) =~= before + seq![t@]);
                    },
                    FieldValue::Many(_) => {},
                }
            },
            FieldPlan::Each(i) => {
                assert(fv[*i as int] == fields@[*i as int]@);
                match &fields[*i] {
                    FieldValue::Many(es) => {
                        extend_strings(&mut items, es);
                    },
                    FieldValue::One(_) => {},
                }
            },
            FieldPlan::EachOr(i, t) => {
                assert(fv[*i as int] == fields@[*i as int]@);
                match &fields[*i] {
                    FieldValue::Many(es) => {
                        if es.len() == 0 {
                            items.push(t.clone());
                            assert(strs(items@) =~= before + seq![t@]);
                        } else {
                            extend_strings(&mut items, es);
                        }
                    },
                    FieldValue::One(_) => {},
                }
            },
        }
        assert(strs(items@) == before + field_items(plans(ps@)[k as int], fv));
        k = k + 1;
    }
    assert(plans(ps@).take(k as int) =~= plans(ps@));
    items
}

/// Joins the items with the separator, skipping empty items.
pub fn sequence_writes(items: &Vec<String>, sep: &String) -> (r: Vec<String>)
    ensures
        strs(r@) == item_writes(strs(items@), sep@, false),
{
    let ghost all = strs(items@);
    let mut out: Vec<String> = Vec::new();
    let mut started = false;
    let mut k: usize = 0;
    while k < items.len()
        invariant
            k <= items@.len(),
            all == strs(items@),
            strs(out@) + item_writes(all.skip(k as int), sep@, started) == item_writes(
                all,
                sep@,
                false,
            ),
        decreases items@.len() - k,
    {
        let ghost rest = all.skip(k as int);
        assert(rest.skip(1) =~= all.skip(k + 1));
        assert(rest[0] == items@[k as int]@);
        let ghost before = strs(out@);
        let t = &items[k];
        if t.as_str().unicode_len() != 0 {
            if started {
                out.push(sep.clone());
                out.push(t.clone());
                assert(strs(out@) =~= before + seq![sep@, t@]);
            } else {
                out.push(t.clone());
                assert(strs(out@) =~= before + seq![t@]);
            }
            started = true;
        }
        k = k + 1;
    }
    assert(all.skip(k as int) =~= Seq::<Seq<char>>::empty());
    assert(strs(out@) + Seq::<Seq<char>>::empty() =~= strs(out@));
    out
}

/// Every write of a variant's plan on the given fields, in order.
pub fn plan_writes(a: &ArmPlan, fields: &Vec<FieldValue>) -> (r: Vec<String>)
    requires
        arm_fits(a@, values(fields@)),
    ensures
        strs(r@) == arm_writes(a@, values(fields@)),
{
    let ghost fv = values(fields@);
    let mut out: Vec<String> = Vec::new();
    match &a.prefix {
        Some(p) => out.push(p.clone()),
        None => {},
    }
    assert(strs(out@) =~= opt_writes(a@.prefix));
    let ghost after_prefix = strs(out@);
    match &a.body {
        Body::Text(t) => {
            out.push(t.clone());
            assert(strs(out@) =~= after_prefix + seq![t@]);
        },
        Body::Direct(i) => {
            assert(fv[*i as int] == fields@[*i as int]@);
            match &fields[*i] {
                FieldValue::One(t) => {
                    out.push(t.clone());
                    assert(strs(out@) =~= after_prefix + seq![t@]);
                },
                FieldValue::Many(_) => {},
            }
        },
        Body::Sequence(sep, ps) => {
            assert(a@.body == BodyView::Sequence(sep@, plans(ps@)));
            let items = collect_items(ps, fields);
            let ws = sequence_writes(&items, sep);
            extend_strings(&mut out, &ws);
        },
    }
    assert(strs(out@) == after_prefix + body_writes(a@.body, fv));
    let ghost after_body = strs(out@);
    match &a.suffix {
        Some(x) => {
            out.push(x.clone());
            assert(strs(out@) =~= after_body + seq![x@]);
        },
        None => {
            assert(after_body + Seq::<Seq<char>>::empty() =~= after_body);
        },
    }
    out
}

/// Writes each text in order, stopping at the first failure.
pub fn write_all(sink: &mut Sink, ws: &Vec<String>) -> (r: Result<(), WriteError>)
    requires
        old(sink).wf(),
    ensures
        final(sink).wf(),
        final(sink).limit == old(sink).limit,
        (final(sink).text@, r is Ok) == run(old(sink).text@, old(sink).limit as nat, strs(ws@)),
{
    let ghost total = run(sink.text@, sink.limit as nat, strs(ws@));
    let mut k: usize = 0;
    while k < ws.len()
        invariant
            k <= ws@.len(),
            sink.wf(),
            sink.limit == old(sink).limit,
            run(sink.text@, sink.limit as nat, strs(ws@).skip(k as int)) == total,
            total == run(old(sink).text@, old(sink).limit as nat, strs(ws@)),
        decreases ws@.len() - k,
    {
        let ghost rest = strs(ws@).skip(k as int);
        assert(rest.skip(1) =~= strs(ws@).skip(k + 1));
        assert(rest[0] == ws@[k as int]@);
        let ghost t0 = sink.text@;
        let ghost one = seq![rest[0]];
        assert(one.skip(1) =~= Seq::<Seq<char>>::empty());
        assert(one[0] == rest[0]);
        let w = sink.write_str(ws[k].as_str());
        proof {
            if t0.len() + rest[0].len() <= sink.limit {
                assert(run(t0 + rest[0], sink.limit as nat, one.skip(1)) == (t0 + rest[0], true));
            }
        }
        if w.is_err() {
            return w;
        }
        k = k + 1;
    }
    assert(strs(ws@).skip(k as int) =~= Seq::<Seq<char>>::empty());
    Ok(())
}

/// Renders `v` into `sink`: the writes of its variant's plan, in order,
/// until one fails.
pub fn to_css(g: &Generated, v: &Value, sink: &mut Sink) -> (r: Result<(), WriteError>)
    requires
        old(sink).wf(),
        v.variant < g.arms@.len(),
        arm_fits(g.arms@[v.variant as int]@, values(v.fields@)),
    ensures
        final(sink).wf(),
        final(sink).limit == old(sink).limit,
        (final(sink).text@, r is Ok) == run(
            old(sink).text@,
            old(sink).limit as nat,
            arm_writes(g.arms@[v.variant as int]@, values(v.fields@)),
        ),
{
    let ws = plan_writes(&g.arms[v.variant], &v.fields);
    write_all(sink, &ws)
}

} // verus!
