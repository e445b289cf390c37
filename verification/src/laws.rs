use vstd::prelude::*;
use crate::collection::{
    CollectionV, alloc_result, col_after_add, col_after_alloc, col_after_remove_entity,
    col_after_remove_stmt, empty_col, mentions, ne_stmt_pred, not_mentions_pred, stmt_set,
};
use crate::types::DEFAULT_CONTEXT;
use crate::filters::{lemma_filter_all_kept, lemma_filter_contains_iff, lemma_push_contains};
use crate::matching::{
    ObjectRangeV, match_pred, matching, matching_range, range_pred, stmt_matches,
    stmt_matches_range,
};
use crate::order::lex_lt;
use crate::state::{ColV, col_of, has_col, keys, state_map, wf_state};
use crate::store::{ReadTx, Store, WriteTx};
use crate::types::{ObjectV, StatementV};

verus! {

/// A collection read back right after its creation is empty: creating a fresh
/// name binds it to the empty collection, and reading yields that
/// collection's statements, of which there are none.
pub proof fn lemma_create_then_read_empty(before: Seq<ColV>, after: Seq<ColV>, name: Seq<char>)
    requires
        state_map(after) == state_map(before).insert(name, empty_col()),
        has_col(after, name),
    ensures
        col_of(after, name).statements.len() == 0,
{
    assert(state_map(after).dom().contains(name));
    assert(state_map(after)[name] == empty_col());
}

/// Entity allocation in one collection yields strictly increasing
/// identifiers, and a fresh collection's first identifier is 1; two
/// collections each run their own sequence, so each starts at 1.
pub proof fn lemma_new_entity_monotonic(c: CollectionV)
    requires
        c.counter + 2 <= u64::MAX,
    ensures
        alloc_result(c) < alloc_result(col_after_alloc(c)),
        alloc_result(empty_col()) == 1,
{
}

/// Adding a statement twice is adding it once: the collection's statement set
/// gains exactly that statement, and a second addition changes nothing.
pub proof fn lemma_add_statement_idempotent(c: CollectionV, st: StatementV)
    ensures
        col_after_add(col_after_add(c, st), st) == col_after_add(c, st),
        stmt_set(col_after_add(c, st)) == stmt_set(c).insert(st),
        c.statements.len() == 0 ==> stmt_set(col_after_add(c, st)).len() == 1,
{
    let c1 = col_after_add(c, st);
    if c.statements.contains(st) {
        assert(stmt_set(c1) =~= stmt_set(c).insert(st));
    } else {
        assert(c1.statements == c.statements.push(st));
        assert(c1.statements[c.statements.len() as int] == st);
        assert(c1.statements.contains(st));
        assert forall|x: StatementV| #[trigger]
            stmt_set(c1).contains(x) <==> stmt_set(c).insert(st).contains(x) by {
            lemma_push_contains(c.statements, st, x);
        }
        assert(stmt_set(c1) =~= stmt_set(c).insert(st));
    }
    if c.statements.len() == 0 {
        assert(stmt_set(c) =~= Set::<StatementV>::empty());
        assert(stmt_set(c1) =~= Set::<StatementV>::empty().insert(st));
    }
}

/// Removing a statement that is not present changes nothing.
pub proof fn lemma_remove_absent_statement_noop(c: CollectionV, st: StatementV)
    requires
        !c.statements.contains(st),
    ensures
        col_after_remove_stmt(c, st) == c,
{
    assert forall|i: int| 0 <= i < c.statements.len() implies ne_stmt_pred(st)(
        c.statements[i],
    ) by {
        if c.statements[i] == st {
            assert(c.statements.contains(st));
        }
    }
    lemma_filter_all_kept(c.statements, ne_stmt_pred(st));
    assert(col_after_remove_stmt(c, st) =~= c);
}

/// Removing an entity removes exactly the statements mentioning it as
/// subject, object or context, and no others.  The default context is never
/// an allocatable entity, so removing it is a no-op.
pub proof fn lemma_remove_entity_exact(c: CollectionV, e: u64, st: StatementV)
    ensures
        e != DEFAULT_CONTEXT ==> (col_after_remove_entity(c, e).statements.contains(st)
            <==> c.statements.contains(st) && !mentions(st, e)),
        e == DEFAULT_CONTEXT ==> col_after_remove_entity(c, e) == c,
{
    lemma_filter_contains_iff(c.statements, not_mentions_pred(e), st);
}

/// Matching returns exactly the statements agreeing with every present
/// criterion, for any combination of present and absent criteria.
pub proof fn lemma_match_exact(
    s: Seq<StatementV>,
    sub: Option<u64>,
    pred: Option<Seq<char>>,
    obj: Option<ObjectV>,
    ctx: Option<u64>,
    st: StatementV,
)
    ensures
        matching(s, sub, pred, obj, ctx).contains(st) <==> s.contains(st) && stmt_matches(
            st,
            sub,
            pred,
            obj,
            ctx,
        ),
{
    lemma_filter_contains_iff(s, match_pred(sub, pred, obj, ctx), st);
}

/// Range matching returns exactly the statements agreeing with the present
/// criteria whose object lies in the range.
pub proof fn lemma_match_range_exact(
    s: Seq<StatementV>,
    sub: Option<u64>,
    pred: Option<Seq<char>>,
    range: Option<ObjectRangeV>,
    ctx: Option<u64>,
    st: StatementV,
)
    ensures
        matching_range(s, sub, pred, range, ctx).contains(st) <==> s.contains(st)
            && stmt_matches_range(st, sub, pred, range, ctx),
{
    lemma_filter_contains_iff(s, range_pred(sub, pred, range, ctx), st);
}

/// Of two write transactions opened from the same base version, at most one
/// can commit: a successful commit moves the store's version past the base,
/// so the other transaction's compare-and-publish check fails and its commit
/// returns `CommitConflict` (see `WriteTx::commit`).
pub proof fn lemma_commit_single_winner(s0: Store, s1: Store, t1: WriteTx, t2: WriteTx)
    requires
        s0.version < u64::MAX,
        t1.base == s0.version,
        t2.base == s0.version,
        s1.version == s0.version + 1,
    ensures
        s1.version != t2.base,
{
}

/// The collection names of a well-formed state are strictly sorted, so
/// `collections` (and its prefix and range variants, which filter the same
/// sequence) list names in canonical order without duplicates.
pub proof fn lemma_collection_names_sorted(s: Seq<ColV>)
    requires
        wf_state(s),
    ensures
        forall|i: int, j: int|
            0 <= i < j < keys(s).len() ==> lex_lt(keys(s)[i], keys(s)[j]),
{
}

/// What a read transaction sees is a function of its snapshot alone: two
/// transactions holding equal snapshots see the same collections and
/// statements, and a commit's contract touches only the store and the
/// committing transaction, never an outstanding snapshot.
pub proof fn lemma_reads_determined_by_snapshot(r1: ReadTx, r2: ReadTx, name: Seq<char>)
    requires
        r1.snapshot@ == r2.snapshot@,
    ensures
        has_col(r1.snapshot@, name) == has_col(r2.snapshot@, name),
        has_col(r1.snapshot@, name) ==> col_of(r1.snapshot@, name) == col_of(
            r2.snapshot@,
            name,
        ),
{
}

} // verus!
