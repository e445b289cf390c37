use vstd::prelude::*;
use crate::filters::{
    lemma_filter_contains_iff, lemma_filter_distinct, lemma_filter_push, lemma_push_contains,
};
use crate::types::{DEFAULT_CONTEXT, ObjectV, Statement, StatementV, statement_eq};

verus! {

/// The values of a sequence of statements.
pub open spec fn stmts_view(s: Seq<Statement>) -> Seq<StatementV> {
    Seq::new(s.len(), |i: int| s[i]@)
}

/// One collection's contents: its entity-allocator counter, the entities
/// still valid in it, and its statements.
#[derive(Debug)]
pub struct CollectionData {
    pub counter: u64,
    pub entities: Vec<u64>,
    pub statements: Vec<Statement>,
}

/// The mathematical value of a collection.
#[verifier::ext_equal]
pub struct CollectionV {
    pub counter: u64,
    pub entities: Seq<u64>,
    pub statements: Seq<StatementV>,
}

impl View for CollectionData {
    type V = CollectionV;

    open spec fn view(&self) -> CollectionV {
        CollectionV {
            counter: self.counter,
            entities: self.entities@,
            statements: stmts_view(self.statements@),
        }
    }
}

/// The value of a freshly created collection.
pub open spec fn empty_col() -> CollectionV {
    CollectionV { counter: 0, entities: Seq::empty(), statements: Seq::empty() }
}

/// The statements of a collection, as a set (collections have set semantics).
pub open spec fn stmt_set(c: CollectionV) -> Set<StatementV> {
    c.statements.to_set()
}

/// `st` refers to entity `e` as subject, object or context.
pub open spec fn mentions(st: StatementV, e: u64) -> bool {
    st.subject == e || st.context == e || st.object == ObjectV::Entity(e)
}

/// Every entity `st` refers to is valid in `c`; the default context needs no
/// allocation.
pub open spec fn valid_statement(st: StatementV, c: CollectionV) -> bool {
    &&& c.entities.contains(st.subject)
    &&& (st.context == DEFAULT_CONTEXT || c.entities.contains(st.context))
    &&& (match st.object {
        ObjectV::Entity(e) => c.entities.contains(e),
        _ => true,
    })
}

/// Well-formedness of a collection: entities are distinct, strictly positive
/// and never exceed the allocator counter; statements are distinct and refer
/// only to valid entities.
pub open spec fn wf_col(c: CollectionV) -> bool {
    &&& (forall|i: int, j: int|
        0 <= i < j < c.entities.len() ==> c.entities[i] != c.entities[j])
    &&& (forall|i: int|
        0 <= i < c.entities.len() ==> 1 <= #[trigger] c.entities[i] && c.entities[i] <= c.counter)
    &&& (forall|i: int, j: int|
        0 <= i < j < c.statements.len() ==> c.statements[i] != c.statements[j])
    &&& (forall|i: int| 0 <= i < c.statements.len() ==> valid_statement(c.statements[i], c))
}

/// Keeps statements different from `st`.
pub open spec fn ne_stmt_pred(st: StatementV) -> spec_fn(StatementV) -> bool {
    |x: StatementV| x != st
}

/// Keeps entities different from `e`.
pub open spec fn ne_entity_pred(e: u64) -> spec_fn(u64) -> bool {
    |x: u64| x != e
}

/// Keeps statements that do not mention `e`.
pub open spec fn not_mentions_pred(e: u64) -> spec_fn(StatementV) -> bool {
    |x: StatementV| !mentions(x, e)
}

/// The collection after allocating one entity.
pub open spec fn col_after_alloc(c: CollectionV) -> CollectionV
    recommends
        c.counter < u64::MAX,
{
    CollectionV {
        counter: (c.counter + 1) as u64,
        entities: c.entities.push((c.counter + 1) as u64),
        statements: c.statements,
    }
}

/// The entity returned by allocating one entity.
pub open spec fn alloc_result(c: CollectionV) -> u64
    recommends
        c.counter < u64::MAX,
{
    (c.counter + 1) as u64
}

/// The collection after adding a statement: unchanged when the statement is
/// already present (set semantics).
pub open spec fn col_after_add(c: CollectionV, st: StatementV) -> CollectionV {
    if c.statements.contains(st) {
        c
    } else {
        CollectionV { counter: c.counter, entities: c.entities, statements: c.statements.push(st) }
    }
}

/// The collection after removing a statement: every occurrence of `st` (at
/// most one, by well-formedness) is dropped, everything else is kept.
pub open spec fn col_after_remove_stmt(c: CollectionV, st: StatementV) -> CollectionV {
    CollectionV {
        counter: c.counter,
        entities: c.entities,
        statements: c.statements.filter(ne_stmt_pred(st)),
    }
}

/// The collection after removing an entity: the entity stops being valid and
/// exactly the statements mentioning it disappear.  The default context is
/// never an allocatable entity, so removing it changes nothing: statements
/// stored with the default context stay.
pub open spec fn col_after_remove_entity(c: CollectionV, e: u64) -> CollectionV {
    if e == DEFAULT_CONTEXT {
        c
    } else {
        CollectionV {
            counter: c.counter,
            entities: c.entities.filter(ne_entity_pred(e)),
            statements: c.statements.filter(not_mentions_pred(e)),
        }
    }
}

impl CollectionData {
    /// A freshly created, empty collection.
    pub fn empty() -> (c: CollectionData)
        ensures
            c@ == empty_col(),
            wf_col(c@),
    {
        let c = CollectionData { counter: 0, entities: Vec::new(), statements: Vec::new() };
        proof {
            assert(c@ =~= empty_col());
        }
        c
    }

    /// Whether `e` is a valid (allocated and not removed) entity here.
    pub fn contains_entity(&self, e: u64) -> (r: bool)
        ensures
            r == self@.entities.contains(e),
    {
        let n = self.entities.len();
        let mut i: usize = 0;
        while i < n
            invariant
                i <= n,
                n == self.entities.len(),
                forall|j: int| 0 <= j < i ==> self.entities@[j] != e,
            decreases n - i,
        {
            if self.entities[i] == e {
                return true;
            }
            i = i + 1;
        }
        false
    }

    /// Whether the statement is present in this collection.
    pub fn contains_statement(&self, st: &Statement) -> (r: bool)
        ensures
            r == self@.statements.contains(st@),
    {
        let n = self.statements.len();
        let mut i: usize = 0;
        while i < n
            invariant
                i <= n,
                n == self.statements.len(),
                forall|j: int| 0 <= j < i ==> self@.statements[j] != st@,
            decreases n - i,
        {
            if statement_eq(&self.statements[i], st) {
                assert(self@.statements[i as int] == st@);
                return true;
            }
            i = i + 1;
        }
        false
    }

    /// Allocates the next entity identifier: strictly increasing, starting
    /// at 1 for a fresh collection.
    pub fn alloc_entity(&mut self) -> (e: u64)
        requires
            old(self)@.counter < u64::MAX,
            wf_col(old(self)@),
        ensures
            e == alloc_result(old(self)@),
            final(self)@ == col_after_alloc(old(self)@),
            wf_col(final(self)@),
    {
        let e = self.counter + 1;
        self.counter = e;
        self.entities.push(e);
        proof {
            assert(self@ =~= col_after_alloc(old(self)@));
            assert forall|x: u64|
                old(self)@.entities.contains(x) implies self@.entities.contains(x) by {
                lemma_push_contains(old(self)@.entities, e, x);
            }
            assert forall|i: int|
                0 <= i < self@.statements.len() implies valid_statement(
                self@.statements[i],
                self@,
            ) by {
                lemma_entities_grow(old(self)@.entities, self@.entities, old(self)@.statements[i]);
            }
        }
        e
    }

    /// Adds a statement; a statement already present is not duplicated.
    pub fn insert_statement(&mut self, st: Statement)
        requires
            wf_col(old(self)@),
            valid_statement(st@, old(self)@),
        ensures
            final(self)@ == col_after_add(old(self)@, st@),
            wf_col(final(self)@),
    {
        let present = self.contains_statement(&st);
        if !present {
            let ghost prev = self@;
            self.statements.push(st);
            proof {
                assert(self@.statements =~= prev.statements.push(st@));
                assert(self@ =~= col_after_add(prev, st@));
            }
        } else {
            proof {
                assert(self@ =~= col_after_add(old(self)@, st@));
            }
        }
    }

    /// Removes a statement; removing an absent statement changes nothing.
    pub fn remove_statement(&mut self, st: &Statement)
        requires
            wf_col(old(self)@),
        ensures
            final(self)@ == col_after_remove_stmt(old(self)@, st@),
            wf_col(final(self)@),
    {
        let ghost cv = old(self)@;
        let ghost pred = ne_stmt_pred(st@);
        let mut out: Vec<Statement> = Vec::new();
        let n = self.statements.len();
        let mut i: usize = 0;
        proof {
            reveal(Seq::filter);
            assert(cv.statements.take(0) =~= Seq::<StatementV>::empty());
        }
        while i < n
            invariant
                i <= n,
                n == self.statements.len(),
                *self == *old(self),
                stmts_view(out@) == cv.statements.take(i as int).filter(pred),
                cv == self@,
                pred == ne_stmt_pred(st@),
            decreases n - i,
        {
            proof {
                assert(cv.statements.take(i + 1) =~= cv.statements.take(i as int).push(
                    cv.statements[i as int],
                ));
                lemma_filter_push(cv.statements.take(i as int), cv.statements[i as int], pred);
            }
            let ghost prev_out = stmts_view(out@);
            if !statement_eq(&self.statements[i], st) {
                out.push(self.statements[i].duplicate());
                proof {
                    assert(stmts_view(out@) =~= prev_out.push(cv.statements[i as int]));
                }
            }
            i = i + 1;
        }
        proof {
            assert(cv.statements.take(n as int) =~= cv.statements);
        }
        self.statements = out;
        proof {
            assert(self@ =~= col_after_remove_stmt(cv, st@));
            lemma_filter_distinct(cv.statements, pred);
            lemma_filtered_statements_stay_valid(cv, self@, pred);
        }
    }

    /// Removes an entity and, with it, every statement mentioning it as
    /// subject, object or context; an entity never allocated here leaves the
    /// statements untouched.  In particular the default context, which is
    /// never allocated, cannot be removed: the call is then a no-op.
    pub fn remove_entity(&mut self, e: u64)
        requires
            wf_col(old(self)@),
        ensures
            final(self)@ == col_after_remove_entity(old(self)@, e),
            wf_col(final(self)@),
    {
        if e == DEFAULT_CONTEXT {
            return ;
        }
        let ghost cv = old(self)@;
        let ghost epred = ne_entity_pred(e);
        let ghost spred = not_mentions_pred(e);
        // entities
        let mut ents: Vec<u64> = Vec::new();
        let n = self.entities.len();
        let mut i: usize = 0;
        proof {
            reveal(Seq::filter);
            assert(cv.entities.take(0) =~= Seq::<u64>::empty());
        }
        while i < n
            invariant
                i <= n,
                n == self.entities.len(),
                *self == *old(self),
                ents@ == cv.entities.take(i as int).filter(epred),
                cv == self@,
                epred == ne_entity_pred(e),
            decreases n - i,
        {
            proof {
                assert(cv.entities.take(i + 1) =~= cv.entities.take(i as int).push(
                    cv.entities[i as int],
                ));
                lemma_filter_push(cv.entities.take(i as int), cv.entities[i as int], epred);
            }
            if self.entities[i] != e {
                ents.push(self.entities[i]);
            }
            i = i + 1;
        }
        proof {
            assert(cv.entities.take(n as int) =~= cv.entities);
        }
        // statements
        let mut out: Vec<Statement> = Vec::new();
        let m = self.statements.len();
        let mut k: usize = 0;
        proof {
            assert(cv.statements.take(0) =~= Seq::<StatementV>::empty());
        }
        while k < m
            invariant
                k <= m,
                m == self.statements.len(),
                *self == *old(self),
                stmts_view(out@) == cv.statements.take(k as int).filter(spred),
                cv == self@,
                spred == not_mentions_pred(e),
            decreases m - k,
        {
            proof {
                assert(cv.statements.take(k + 1) =~= cv.statements.take(k as int).push(
                    cv.statements[k as int],
                ));
                lemma_filter_push(cv.statements.take(k as int), cv.statements[k as int], spred);
            }
            let ghost prev_out = stmts_view(out@);
            let s = &self.statements[k];
            let obj_mentions = match &s.object {
                crate::types::Object::Entity(oe) => oe.id == e,
                _ => false,
            };
            if !(s.subject.id == e || s.context.id == e || obj_mentions) {
                out.push(self.statements[k].duplicate());
                proof {
                    assert(stmts_view(out@) =~= prev_out.push(cv.statements[k as int]));
                }
            }
            k = k + 1;
        }
        proof {
            assert(cv.statements.take(m as int) =~= cv.statements);
        }
        self.entities = ents;
        self.statements = out;
        proof {
            assert(self@ =~= col_after_remove_entity(cv, e));
            lemma_filter_distinct(cv.entities, epred);
            lemma_filter_distinct(cv.statements, spred);
            lemma_remove_entity_wf(cv, self@, e);
        }
    }
}

impl CollectionData {
    /// A deep copy sharing nothing with the original.
    pub fn duplicate(&self) -> (r: CollectionData)
        ensures
            r@ == self@,
    {
        let r = CollectionData {
            counter: self.counter,
            entities: clone_entities(&self.entities),
            statements: clone_statements(&self.statements),
        };
        proof {
            assert(r@ =~= self@);
        }
        r
    }
}

/// A copy of an entity vector, equal values in the same order.
pub fn clone_entities(v: &Vec<u64>) -> (r: Vec<u64>)
    ensures
        r@ == v@,
{
    let mut r: Vec<u64> = Vec::new();
    let n = v.len();
    let mut i: usize = 0;
    while i < n
        invariant
            i <= n,
            n == v.len(),
            r@ == v@.take(i as int),
        decreases n - i,
    {
        r.push(v[i]);
        proof {
            assert(r@ =~= v@.take(i + 1));
        }
        i = i + 1;
    }
    proof {
        assert(v@.take(n as int) =~= v@);
    }
    r
}

/// A copy of a statement vector, equal values in the same order.
pub fn clone_statements(v: &Vec<Statement>) -> (r: Vec<Statement>)
    ensures
        r@ == v@,
{
    let mut r: Vec<Statement> = Vec::new();
    let n = v.len();
    let mut i: usize = 0;
    while i < n
        invariant
            i <= n,
            n == v.len(),
            r@ == v@.take(i as int),
        decreases n - i,
    {
        r.push(v[i].duplicate());
        proof {
            assert(r@ =~= v@.take(i + 1));
        }
        i = i + 1;
    }
    proof {
        assert(v@.take(n as int) =~= v@);
    }
    r
}

/// Entities only grow when one is allocated, so statements valid before stay
/// valid.
proof fn lemma_entities_grow(before: Seq<u64>, after: Seq<u64>, st: StatementV)
    requires
        forall|x: u64| before.contains(x) ==> after.contains(x),
        valid_statement(st, CollectionV { counter: 0, entities: before, statements: Seq::empty() }),
    ensures
        valid_statement(st, CollectionV { counter: 0, entities: after, statements: Seq::empty() }),
{
}

/// After filtering statements by any predicate, the survivors are still valid
/// with respect to the unchanged entities.
proof fn lemma_filtered_statements_stay_valid(
    cv: CollectionV,
    nv: CollectionV,
    pred: spec_fn(StatementV) -> bool,
)
    requires
        wf_col(cv),
        nv.counter == cv.counter,
        nv.entities == cv.entities,
        nv.statements == cv.statements.filter(pred),
    ensures
        forall|i: int| 0 <= i < nv.statements.len() ==> valid_statement(nv.statements[i], nv),
{
    assert forall|i: int| 0 <= i < nv.statements.len() implies valid_statement(
        nv.statements[i],
        nv,
    ) by {
        assert(nv.statements.contains(nv.statements[i]));
        lemma_filter_contains_iff(cv.statements, pred, nv.statements[i]);
        let j = choose|j: int|
            0 <= j < cv.statements.len() && cv.statements[j] == nv.statements[i];
        assert(valid_statement(cv.statements[j], cv));
    }
}

/// Removing an entity keeps the collection well-formed: the surviving
/// statements mention only surviving entities.
proof fn lemma_remove_entity_wf(cv: CollectionV, nv: CollectionV, e: u64)
    requires
        wf_col(cv),
        e != DEFAULT_CONTEXT,
        nv == col_after_remove_entity(cv, e),
        forall|i: int, j: int| 0 <= i < j < nv.entities.len() ==> nv.entities[i] != nv.entities[j],
        forall|i: int, j: int|
            0 <= i < j < nv.statements.len() ==> nv.statements[i] != nv.statements[j],
    ensures
        wf_col(nv),
{
    assert forall|i: int|
        0 <= i < nv.entities.len() implies 1 <= #[trigger] nv.entities[i] && nv.entities[i]
        <= nv.counter by {
        assert(nv.entities.contains(nv.entities[i]));
        lemma_filter_contains_iff(cv.entities, ne_entity_pred(e), nv.entities[i]);
        let j = choose|j: int| 0 <= j < cv.entities.len() && cv.entities[j] == nv.entities[i];
    }
    assert forall|i: int| 0 <= i < nv.statements.len() implies valid_statement(
        nv.statements[i],
        nv,
    ) by {
        let st = nv.statements[i];
        assert(nv.statements.contains(st));
        lemma_filter_contains_iff(cv.statements, not_mentions_pred(e), st);
        let j = choose|j: int| 0 <= j < cv.statements.len() && cv.statements[j] == st;
        assert(valid_statement(cv.statements[j], cv));
        assert(!mentions(st, e));
        lemma_filter_contains_iff(cv.entities, ne_entity_pred(e), st.subject);
        if st.context != DEFAULT_CONTEXT {
            lemma_filter_contains_iff(cv.entities, ne_entity_pred(e), st.context);
        }
        if st.object is Entity {
            lemma_filter_contains_iff(cv.entities, ne_entity_pred(e), st.object->Entity_0);
        }
    }
}

} // verus!
