//! Records: field chains, record literals and destructuring.

use crate::ast::{Expr, RecordDestructField, RecordLitField};
use crate::lower::ctx::LowerCtx;
use crate::lower::graph::PortRef;
use crate::lower::names::{at, find_key, pairs, put, put_key, without, Named};
use crate::lower::state::{
    clone_fields, lemma_record_binding, Binding, BindingView, LocalRecord, LowerState,
};
use crate::lower::task::{run_task, runs, step, such, total, Runs, Task, TaskView};
use vstd::prelude::*;

verus! {

broadcast use lemma_record_binding;

/// What an identifier, or a chain of fields of records, stands for.
pub open spec fn chain_binding(s: LowerState, e: Expr) -> Option<BindingView>
    decreases e,
{
    match e {
        Expr::Ident { name, .. } => s.binding(name@),
        Expr::FieldAccess { obj, field, .. } => match chain_binding(s, *obj) {
            Some(BindingView::Record(fields)) => at(fields, field@),
            _ => None,
        },
        _ => None,
    }
}

pub fn resolve_field_chain<'a, 'b>(ctx: &'b LowerCtx<'a>, e: &Expr) -> (r: Option<&'b Binding<'a>>)
    ensures
        r is Some <==> chain_binding(ctx@, *e) is Some,
        r matches Some(b) ==> chain_binding(ctx@, *e) == Some(b@),
    decreases e,
{
    match e {
        Expr::Ident { name, .. } => ctx.get(name.as_str()),
        Expr::FieldAccess { obj, field, .. } => match resolve_field_chain(ctx, obj) {
            Some(Binding::Record(fields)) => match find_key(fields, field.as_str()) {
                Some(i) => Some(&fields[i].1),
                None => None,
            },
            _ => None,
        },
        _ => None,
    }
}

/// A copy of what a chain of fields stands for.
pub fn chain_cloned<'a>(ctx: &LowerCtx<'a>, e: &Expr) -> (r: Option<Binding<'a>>)
    ensures
        r is Some <==> chain_binding(ctx@, *e) is Some,
        r matches Some(b) ==> chain_binding(ctx@, *e) == Some(b@),
{
    match resolve_field_chain(ctx, e) {
        Some(b) => Some(b.clone()),
        None => None,
    }
}

/// The first `n` fields of `src` put into `m`, later ones overriding.
pub open spec fn put_all(m: Named<BindingView>, src: Named<BindingView>, n: nat) -> Named<
    BindingView,
>
    decreases n,
{
    if n == 0 || n > src.len() {
        m
    } else {
        put(put_all(m, src, (n - 1) as nat), src[n - 1].0, src[n - 1].1)
    }
}

/// The first `n` fields of a record literal lead from `s` to `after` and give
/// the fields `map`.
pub open spec fn record_built(
    run: Runs,
    s: LowerState,
    fields: Seq<RecordLitField>,
    n: nat,
    after: LowerState,
    map: Named<BindingView>,
) -> bool
    decreases fields, n,
{
    if n == 0 || n > fields.len() {
        after == s && map == Seq::<(Seq<char>, BindingView)>::empty()
    } else {
        exists|mid: LowerState, before: Named<BindingView>|
            #![trigger such((mid, before))]
            such((mid, before)) && record_built(run, s, fields, (n - 1) as nat, mid, before)
                && field_built(run, mid, before, fields[n - 1], after, map)
    }
}

/// One more field of a record literal. A nested literal is a record; what
/// stands for something in scope is that thing; anything else is a value.
pub open spec fn field_built(
    run: Runs,
    s: LowerState,
    before: Named<BindingView>,
    field: RecordLitField,
    after: LowerState,
    map: Named<BindingView>,
) -> bool
    decreases field, 0nat,
{
    match field {
        RecordLitField::Named { name, value, .. } => match value {
            Expr::RecordLit { fields, .. } => exists|inner: Named<BindingView>|
                #![trigger such(inner)]
                such(inner) && record_built(run, s, fields@, fields@.len(), after, inner) && map
                    == put(before, name@, BindingView::Record(inner)),
            _ => match chain_binding(s, value) {
                Some(b) => after == s && map == put(before, name@, b),
                None => exists|p: PortRef| #[trigger]
                    step(run, s, TaskView::Expr(value), after, p) && map == put(
                        before,
                        name@,
                        BindingView::Local(p),
                    ),
            },
        },
        RecordLitField::Shorthand { name, .. } => after == s && map == match s.binding(name@) {
            Some(b) => put(before, name@, b),
            None => before,
        },
        RecordLitField::Spread { value, .. } => after == s && map == match chain_binding(
            s,
            value,
        ) {
            Some(BindingView::Record(src)) => put_all(before, src, src.len()),
            _ => before,
        },
    }
}

/// Lowers a record literal to its fields.
pub fn lower_record_lit<'a, F: Fn(LowerCtx<'a>, Task<'a>) -> (LowerCtx<'a>, PortRef)>(
    f: &F,
    ctx: &mut LowerCtx<'a>,
    fields: &'a Vec<RecordLitField>,
) -> (r: Vec<(String, Binding<'a>)>)
    requires
        total(*f),
    ensures
        record_built(runs(*f), old(ctx)@, fields@, fields@.len(), final(ctx)@, pairs(r@)),
    decreases fields@, 0nat,
{
    let ghost run = runs(*f);
    let mut map: Vec<(String, Binding<'a>)> = Vec::new();
    let mut i: usize = 0;
    assert(pairs(map@) =~= Seq::empty());
    while i < fields.len()
        invariant
            total(*f),
            run == runs(*f),
            i <= fields@.len(),
            record_built(run, old(ctx)@, fields@, i as nat, ctx@, pairs(map@)),
        decreases fields.len() - i,
    {
        let ghost mid = ctx@;
        let ghost before = pairs(map@);
        assert(decreases_to!(fields@ => fields@[i as int]));
        lower_record_field(f, ctx, &mut map, &fields[i]);
        assert(such((mid, before)));
        assert(field_built(run, mid, before, fields@[i as int], ctx@, pairs(map@)));
        i += 1;
    }
    map
}

fn put_fields<'a>(map: &mut Vec<(String, Binding<'a>)>, src: &Vec<(String, Binding<'a>)>)
    ensures
        pairs(final(map)@) == put_all(pairs(old(map)@), pairs(src@), src@.len()),
{
    let mut i: usize = 0;
    while i < src.len()
        invariant
            i <= src@.len(),
            pairs(map@) == put_all(pairs(old(map)@), pairs(src@), i as nat),
        decreases src.len() - i,
    {
        put_key(map, src[i].0.clone(), src[i].1.clone());
        i += 1;
    }
}

fn lower_record_field<'a, F: Fn(LowerCtx<'a>, Task<'a>) -> (LowerCtx<'a>, PortRef)>(
    f: &F,
    ctx: &mut LowerCtx<'a>,
    map: &mut Vec<(String, Binding<'a>)>,
    field: &'a RecordLitField,
)
    requires
        total(*f),
    ensures
        field_built(
            runs(*f),
            old(ctx)@,
            pairs(old(map)@),
            *field,
            final(ctx)@,
            pairs(final(map)@),
        ),
    decreases field, 0nat,
{
    match field {
        RecordLitField::Named { name, value, .. } => {
            if let Expr::RecordLit { fields: inner_fields, .. } = value {
                let inner = lower_record_lit(f, ctx, inner_fields);
                assert(such(pairs(inner@)));
                put_key(map, name.clone(), Binding::Record(inner));
            } else if let Some(binding) = chain_cloned(ctx, value) {
                put_key(map, name.clone(), binding);
            } else {
                let port = run_task(f, ctx, Task::Expr(value));
                put_key(map, name.clone(), Binding::Local(LocalRecord { port }));
            }
        },
        RecordLitField::Shorthand { name, .. } => {
            if let Some(binding) = ctx.get_cloned(name.as_str()) {
                put_key(map, name.clone(), binding);
            }
        },
        RecordLitField::Spread { value, .. } => {
            if let Some(Binding::Record(src)) = chain_cloned(ctx, value) {
                put_fields(map, &src);
            }
        },
    }
}

/// The first `n` names of a destructuring bound to the fields of a record.
/// The second value is what is left of the record.
pub open spec fn destructured(
    s: LowerState,
    src: Named<BindingView>,
    fields: Seq<RecordDestructField>,
    n: nat,
) -> (LowerState, Named<BindingView>)
    decreases n,
{
    if n == 0 || n > fields.len() {
        (s, src)
    } else {
        let (s1, remaining) = destructured(s, src, fields, (n - 1) as nat);
        match fields[n - 1] {
            RecordDestructField::Named { name, alias, .. } => match at(remaining, name@) {
                Some(b) => (
                    s1.with_binding(
                        match alias {
                            Some(a) => a@,
                            None => name@,
                        },
                        b,
                    ),
                    without(remaining, name@),
                ),
                None => (s1, remaining),
            },
            RecordDestructField::Rest { name, .. } => (
                s1.with_binding(name@, BindingView::Record(remaining)),
                remaining,
            ),
        }
    }
}

/// Binds the names of a destructuring to the fields of a record.
pub fn install_record_destruct<'a>(
    ctx: &mut LowerCtx<'a>,
    src: &Vec<(String, Binding<'a>)>,
    destruct_fields: &Vec<RecordDestructField>,
)
    ensures
        final(ctx)@ == destructured(
            old(ctx)@,
            pairs(src@),
            destruct_fields@,
            destruct_fields@.len(),
        ).0,
{
    let mut remaining = clone_fields(src);
    let mut i: usize = 0;
    while i < destruct_fields.len()
        invariant
            i <= destruct_fields@.len(),
            (ctx@, pairs(remaining@)) == destructured(
                old(ctx)@,
                pairs(src@),
                destruct_fields@,
                i as nat,
            ),
        decreases destruct_fields.len() - i,
    {
        let ghost before = remaining@;
        match &destruct_fields[i] {
            RecordDestructField::Named { name, alias, .. } => {
                if let Some(k) = find_key(&remaining, name.as_str()) {
                    let (_, binding) = remaining.remove(k);
                    assert(pairs(remaining@) =~= without(pairs(before), name@));
                    match alias {
                        Some(a) => ctx.bind_name(a.as_str(), binding),
                        None => ctx.bind_name(name.as_str(), binding),
                    }
                }
            },
            RecordDestructField::Rest { name, .. } => {
                let rest = clone_fields(&remaining);
                ctx.bind_name(name.as_str(), Binding::Record(rest));
            },
        }
        i += 1;
    }
}

} // verus!
