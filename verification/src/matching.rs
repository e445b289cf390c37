use vstd::prelude::*;
use crate::collection::stmts_view;
use crate::filters::lemma_filter_push;
use crate::order::{lex_le, lex_lt, str_le, str_lt};
use crate::types::{Entity, Object, ObjectV, Statement, StatementV, object_eq};

verus! {

/// The value an optional entity filter stands for.
pub open spec fn opt_entity_view(o: Option<Entity>) -> Option<u64> {
    match o {
        Some(e) => Some(e.id),
        None => None,
    }
}

/// The value an optional predicate filter stands for.
pub open spec fn opt_string_view(o: Option<String>) -> Option<Seq<char>> {
    match o {
        Some(s) => Some(s@),
        None => None,
    }
}

/// The value an optional object filter stands for.
pub open spec fn opt_object_view(o: Option<Object>) -> Option<ObjectV> {
    match o {
        Some(x) => Some(x@),
        None => None,
    }
}

/// A statement matches when every present criterion equals the corresponding
/// field; absent criteria are wildcards.
pub open spec fn stmt_matches(
    st: StatementV,
    sub: Option<u64>,
    pred: Option<Seq<char>>,
    obj: Option<ObjectV>,
    ctx: Option<u64>,
) -> bool {
    &&& (match sub {
        Some(e) => st.subject == e,
        None => true,
    })
    &&& (match pred {
        Some(p) => st.predicate == p,
        None => true,
    })
    &&& (match obj {
        Some(o) => st.object == o,
        None => true,
    })
    &&& (match ctx {
        Some(c) => st.context == c,
        None => true,
    })
}

/// Keeps the statements matching the four criteria.
pub open spec fn match_pred(
    sub: Option<u64>,
    pred: Option<Seq<char>>,
    obj: Option<ObjectV>,
    ctx: Option<u64>,
) -> spec_fn(StatementV) -> bool {
    |st: StatementV| stmt_matches(st, sub, pred, obj, ctx)
}

/// Exactly the statements of `s` matching the four criteria, in order.
pub open spec fn matching(
    s: Seq<StatementV>,
    sub: Option<u64>,
    pred: Option<Seq<char>>,
    obj: Option<ObjectV>,
    ctx: Option<u64>,
) -> Seq<StatementV> {
    s.filter(match_pred(sub, pred, obj, ctx))
}

/// A half-open range `[start, end)` over one literal kind.  Statements whose
/// object is of another kind never fall in a range.
#[allow(inconsistent_fields)]
#[derive(Debug)]
pub enum ObjectRange {
    StringRange { start: String, end: String },
    LongRange { start: i64, end: i64 },
}

/// The mathematical value of an [`ObjectRange`].
#[allow(inconsistent_fields)]
pub enum ObjectRangeV {
    StringRange { start: Seq<char>, end: Seq<char> },
    LongRange { start: i64, end: i64 },
}

impl View for ObjectRange {
    type V = ObjectRangeV;

    open spec fn view(&self) -> ObjectRangeV {
        match self {
            ObjectRange::StringRange { start, end } => ObjectRangeV::StringRange {
                start: start@,
                end: end@,
            },
            ObjectRange::LongRange { start, end } => ObjectRangeV::LongRange {
                start: *start,
                end: *end,
            },
        }
    }
}

/// The lower bound of a range must not lie above its upper bound.
pub open spec fn range_valid(r: ObjectRangeV) -> bool {
    match r {
        ObjectRangeV::StringRange { start, end } => lex_le(start, end),
        ObjectRangeV::LongRange { start, end } => start <= end,
    }
}

/// The object lies in the half-open range (same literal kind, within bounds).
pub open spec fn in_range(o: ObjectV, r: ObjectRangeV) -> bool {
    match r {
        ObjectRangeV::StringRange { start, end } => match o {
            ObjectV::StringLiteral(s) => lex_le(start, s) && lex_lt(s, end),
            _ => false,
        },
        ObjectRangeV::LongRange { start, end } => match o {
            ObjectV::LongLiteral(v) => start <= v && v < end,
            _ => false,
        },
    }
}

/// A statement matches when subject, predicate and context criteria match and
/// the object lies in the range, if one is given.
pub open spec fn stmt_matches_range(
    st: StatementV,
    sub: Option<u64>,
    pred: Option<Seq<char>>,
    range: Option<ObjectRangeV>,
    ctx: Option<u64>,
) -> bool {
    &&& stmt_matches(st, sub, pred, None, ctx)
    &&& (match range {
        Some(r) => in_range(st.object, r),
        None => true,
    })
}

/// Keeps the statements matching the range criteria.
pub open spec fn range_pred(
    sub: Option<u64>,
    pred: Option<Seq<char>>,
    range: Option<ObjectRangeV>,
    ctx: Option<u64>,
) -> spec_fn(StatementV) -> bool {
    |st: StatementV| stmt_matches_range(st, sub, pred, range, ctx)
}

/// Exactly the statements of `s` matching the range criteria, in order.
pub open spec fn matching_range(
    s: Seq<StatementV>,
    sub: Option<u64>,
    pred: Option<Seq<char>>,
    range: Option<ObjectRangeV>,
    ctx: Option<u64>,
) -> Seq<StatementV> {
    s.filter(range_pred(sub, pred, range, ctx))
}

/// The value an optional range stands for.
pub open spec fn opt_range_view(o: Option<ObjectRange>) -> Option<ObjectRangeV> {
    match o {
        Some(r) => Some(r@),
        None => None,
    }
}

/// Decides `range_valid`.
pub fn range_is_valid(r: &ObjectRange) -> (res: bool)
    ensures
        res == range_valid(r@),
{
    match r {
        ObjectRange::StringRange { start, end } => str_le(start, end),
        ObjectRange::LongRange { start, end } => *start <= *end,
    }
}

/// Decides `in_range`.
fn object_in_range(o: &Object, r: &ObjectRange) -> (res: bool)
    ensures
        res == in_range(o@, r@),
{
    match (o, r) {
        (Object::StringLiteral(s), ObjectRange::StringRange { start, end }) => {
            if str_le(start, s) {
                str_lt(s, end)
            } else {
                false
            }
        },
        (Object::LongLiteral(v), ObjectRange::LongRange { start, end }) => {
            *start <= *v && *v < *end
        },
        _ => false,
    }
}

/// Decides `stmt_matches`.
fn stmt_matches_exec(
    st: &Statement,
    sub: &Option<Entity>,
    pred: &Option<String>,
    obj: &Option<Object>,
    ctx: &Option<Entity>,
) -> (res: bool)
    ensures
        res == stmt_matches(
            st@,
            opt_entity_view(*sub),
            opt_string_view(*pred),
            opt_object_view(*obj),
            opt_entity_view(*ctx),
        ),
{
    let sub_ok = match sub {
        Some(e) => st.subject.id == e.id,
        None => true,
    };
    let pred_ok = match pred {
        Some(p) => st.predicate == *p,
        None => true,
    };
    let obj_ok = match obj {
        Some(o) => object_eq(&st.object, o),
        None => true,
    };
    let ctx_ok = match ctx {
        Some(c) => st.context.id == c.id,
        None => true,
    };
    sub_ok && pred_ok && obj_ok && ctx_ok
}

/// The statements of `stmts` matching the four criteria, as fresh values.
pub fn filter_matching(
    stmts: &Vec<Statement>,
    sub: &Option<Entity>,
    pred: &Option<String>,
    obj: &Option<Object>,
    ctx: &Option<Entity>,
) -> (out: Vec<Statement>)
    ensures
        stmts_view(out@) == matching(
            stmts_view(stmts@),
            opt_entity_view(*sub),
            opt_string_view(*pred),
            opt_object_view(*obj),
            opt_entity_view(*ctx),
        ),
{
    let ghost sv = stmts_view(stmts@);
    let ghost p = match_pred(
        opt_entity_view(*sub),
        opt_string_view(*pred),
        opt_object_view(*obj),
        opt_entity_view(*ctx),
    );
    let mut out: Vec<Statement> = Vec::new();
    let n = stmts.len();
    let mut i: usize = 0;
    proof {
        reveal(Seq::filter);
        assert(sv.take(0) =~= Seq::<StatementV>::empty());
    }
    while i < n
        invariant
            i <= n,
            n == stmts.len(),
            sv == stmts_view(stmts@),
            p == match_pred(
                opt_entity_view(*sub),
                opt_string_view(*pred),
                opt_object_view(*obj),
                opt_entity_view(*ctx),
            ),
            stmts_view(out@) == sv.take(i as int).filter(p),
        decreases n - i,
    {
        proof {
            assert(sv.take(i + 1) =~= sv.take(i as int).push(sv[i as int]));
            lemma_filter_push(sv.take(i as int), sv[i as int], p);
        }
        let ghost prev_out = stmts_view(out@);
        if stmt_matches_exec(&stmts[i], sub, pred, obj, ctx) {
            out.push(stmts[i].duplicate());
            proof {
                assert(stmts_view(out@) =~= prev_out.push(sv[i as int]));
            }
        }
        i = i + 1;
    }
    proof {
        assert(sv.take(n as int) =~= sv);
    }
    out
}

/// The statements of `stmts` matching the range criteria, as fresh values.
pub fn filter_matching_range(
    stmts: &Vec<Statement>,
    sub: &Option<Entity>,
    pred: &Option<String>,
    range: &Option<ObjectRange>,
    ctx: &Option<Entity>,
) -> (out: Vec<Statement>)
    ensures
        stmts_view(out@) == matching_range(
            stmts_view(stmts@),
            opt_entity_view(*sub),
            opt_string_view(*pred),
            opt_range_view(*range),
            opt_entity_view(*ctx),
        ),
{
    let ghost sv = stmts_view(stmts@);
    let ghost p = range_pred(
        opt_entity_view(*sub),
        opt_string_view(*pred),
        opt_range_view(*range),
        opt_entity_view(*ctx),
    );
    let mut out: Vec<Statement> = Vec::new();
    let n = stmts.len();
    let mut i: usize = 0;
    proof {
        reveal(Seq::filter);
        assert(sv.take(0) =~= Seq::<StatementV>::empty());
    }
    while i < n
        invariant
            i <= n,
            n == stmts.len(),
            sv == stmts_view(stmts@),
            p == range_pred(
                opt_entity_view(*sub),
                opt_string_view(*pred),
                opt_range_view(*range),
                opt_entity_view(*ctx),
            ),
            stmts_view(out@) == sv.take(i as int).filter(p),
        decreases n - i,
    {
        proof {
            assert(sv.take(i + 1) =~= sv.take(i as int).push(sv[i as int]));
            lemma_filter_push(sv.take(i as int), sv[i as int], p);
        }
        let ghost prev_out = stmts_view(out@);
        let none_obj: Option<Object> = None;
        let base_ok = stmt_matches_exec(&stmts[i], sub, pred, &none_obj, ctx);
        let range_ok = match range {
            Some(r) => object_in_range(&stmts[i].object, r),
            None => true,
        };
        if base_ok && range_ok {
            out.push(stmts[i].duplicate());
            proof {
                assert(stmts_view(out@) =~= prev_out.push(sv[i as int]));
            }
        }
        i = i + 1;
    }
    proof {
        assert(sv.take(n as int) =~= sv);
    }
    out
}

} // verus!
