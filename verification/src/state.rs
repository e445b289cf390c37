use std::rc::Rc;
use vstd::prelude::*;
use crate::collection::{
    CollectionData, CollectionV, alloc_result, clone_statements, col_after_add, col_after_alloc,
    col_after_remove_entity, col_after_remove_stmt, empty_col, stmts_view, valid_statement, wf_col,
};
use crate::matching::{
    ObjectRange, filter_matching, filter_matching_range, matching, matching_range, opt_entity_view,
    opt_object_view, opt_range_view, opt_string_view,
};
use crate::error::LigatureError;
use crate::filters::lemma_filter_push;
use crate::order::{
    is_prefix, lemma_lex_lt_trans, lemma_lex_trichotomy, lex_le, lex_lt, str_has_prefix, str_le,
    str_lt,
};
use crate::types::{DEFAULT_CONTEXT, Entity, Object, Statement};

verus! {

/// One named collection of the store.
#[derive(Debug)]
pub struct Col {
    pub name: String,
    pub data: CollectionData,
}

/// The mathematical value of a named collection.
#[verifier::ext_equal]
pub struct ColV {
    pub name: Seq<char>,
    pub data: CollectionV,
}

impl View for Col {
    type V = ColV;

    open spec fn view(&self) -> ColV {
        ColV { name: self.name@, data: self.data@ }
    }
}

impl Col {
    /// A deep copy sharing nothing with the original: the copy a write
    /// transaction makes of a collection before changing it.
    pub fn duplicate(&self) -> (r: Col)
        ensures
            r@ == self@,
    {
        let r = Col { name: self.name.clone(), data: self.data.duplicate() };
        proof {
            assert(r@ =~= self@);
        }
        r
    }
}

/// Relies on Rc::clone: the new handle refers to the same shared collection,
/// so copying a state shares every untouched collection.
#[verifier::external_body]
fn col_rc_clone(rc: &Rc<Col>) -> (r: Rc<Col>)
    ensures
        r@ == rc@,
{
    Rc::clone(rc)
}

/// Relies on Rc::as_ref: the reference leads to the shared collection.
#[verifier::external_body]
fn col_rc_ref(rc: &Rc<Col>) -> (r: &Col)
    ensures
        r@ == rc@,
{
    rc.as_ref()
}

/// The values of a sequence of shared named collections.
pub open spec fn cols_view(s: Seq<Rc<Col>>) -> Seq<ColV> {
    Seq::new(s.len(), |i: int| s[i]@)
}

/// The values of a sequence of strings.
pub open spec fn strings_view(s: Seq<String>) -> Seq<Seq<char>> {
    Seq::new(s.len(), |i: int| s[i]@)
}

/// One immutable version of the whole store: the named collections, kept
/// sorted by name.  A commit replaces a store's state wholesale; older
/// versions stay valid for the readers still holding them.
/// Collections are held behind reference-counted handles: a snapshot or a
/// working copy shares every collection it does not change.
#[derive(Debug)]
pub struct StoreState {
    pub cols: Vec<Rc<Col>>,
}

impl View for StoreState {
    type V = Seq<ColV>;

    open spec fn view(&self) -> Seq<ColV> {
        cols_view(self.cols@)
    }
}

/// The collection names, in storage (sorted) order.
pub open spec fn keys(s: Seq<ColV>) -> Seq<Seq<char>> {
    Seq::new(s.len(), |i: int| s[i].name)
}

/// Whether a collection of that name exists.
pub open spec fn has_col(s: Seq<ColV>, n: Seq<char>) -> bool {
    exists|i: int| 0 <= i < s.len() && s[i].name == n
}

/// The index of the collection of that name (unique in a well-formed state).
pub open spec fn idx_of(s: Seq<ColV>, n: Seq<char>) -> int {
    choose|i: int| 0 <= i < s.len() && s[i].name == n
}

/// The collection of that name.
pub open spec fn col_of(s: Seq<ColV>, n: Seq<char>) -> CollectionV {
    s[idx_of(s, n)].data
}

/// The store state as a map from collection name to collection value: the
/// model all mutation contracts speak of.
pub open spec fn state_map(s: Seq<ColV>) -> Map<Seq<char>, CollectionV> {
    Map::new(|n: Seq<char>| has_col(s, n), |n: Seq<char>| col_of(s, n))
}

/// Well-formedness: names strictly sorted (hence unique) and every collection
/// well-formed.
pub open spec fn wf_state(s: Seq<ColV>) -> bool {
    &&& (forall|i: int, j: int| 0 <= i < j < s.len() ==> lex_lt(s[i].name, s[j].name))
    &&& (forall|i: int| 0 <= i < s.len() ==> wf_col(#[trigger] s[i].data))
}

/// Keeps the names carrying the given prefix.
pub open spec fn prefix_pred(p: Seq<char>) -> spec_fn(Seq<char>) -> bool {
    |n: Seq<char>| is_prefix(p, n)
}

/// Keeps the names in the half-open range `[from, to)`.
pub open spec fn between_pred(from: Seq<char>, to: Seq<char>) -> spec_fn(Seq<char>) -> bool {
    |n: Seq<char>| lex_le(from, n) && lex_lt(n, to)
}

/// In a well-formed state, an index holding a name is the only one: looking
/// the name up yields exactly that entry.
pub proof fn lemma_idx_unique(s: Seq<ColV>, i: int, n: Seq<char>)
    requires
        wf_state(s),
        0 <= i < s.len(),
        s[i].name == n,
    ensures
        has_col(s, n),
        idx_of(s, n) == i,
        col_of(s, n) == s[i].data,
{
    assert(has_col(s, n));
    let j = idx_of(s, n);
    assert(0 <= j < s.len() && s[j].name == n);
    if i != j {
        lemma_lex_trichotomy(n, n);
        if i < j {
            assert(lex_lt(s[i].name, s[j].name));
        } else {
            assert(lex_lt(s[j].name, s[i].name));
        }
    }
}

/// Replacing the data of one entry, name kept, preserves well-formedness and
/// acts on the map model as an insert at that name.
pub proof fn lemma_update_entry(s: Seq<ColV>, t: Seq<ColV>, i: int, d: CollectionV)
    requires
        wf_state(s),
        0 <= i < s.len(),
        wf_col(d),
        t == s.update(i, ColV { name: s[i].name, data: d }),
    ensures
        wf_state(t),
        keys(t) == keys(s),
        state_map(t) == state_map(s).insert(s[i].name, d),
{
    assert(keys(t) =~= keys(s));
    assert forall|a: int, b: int| 0 <= a < b < t.len() implies lex_lt(t[a].name, t[b].name) by {
        assert(t[a].name == s[a].name && t[b].name == s[b].name);
    }
    assert forall|k: int| 0 <= k < t.len() implies wf_col(#[trigger] t[k].data) by {
        if k != i {
            assert(t[k].data == s[k].data);
        }
    }
    let n = s[i].name;
    lemma_idx_unique(s, i, n);
    lemma_idx_unique(t, i, n);
    assert forall|m: Seq<char>| #[trigger] has_col(t, m) implies has_col(s, m) by {
        let k = choose|k: int| 0 <= k < t.len() && t[k].name == m;
        assert(s[k].name == m);
    }
    assert forall|m: Seq<char>| #[trigger] has_col(s, m) implies has_col(t, m) by {
        let k = choose|k: int| 0 <= k < s.len() && s[k].name == m;
        assert(t[k].name == m);
    }
    assert forall|m: Seq<char>| has_col(s, m) implies #[trigger] state_map(t)[m] == state_map(
        s,
    ).insert(n, d)[m] by {
        let k = choose|k: int| 0 <= k < s.len() && s[k].name == m;
        lemma_idx_unique(s, k, m);
        lemma_idx_unique(t, k, m);
        if m == n {
            lemma_idx_unique(s, i, n);
            lemma_idx_unique(t, i, n);
        }
    }
    assert(state_map(t) =~= state_map(s).insert(n, d));
}

/// Inserting a fresh name at its sorted position preserves well-formedness
/// and acts on the map model as an insert of that name.
pub proof fn lemma_insert_entry(s: Seq<ColV>, t: Seq<ColV>, i: int, c: ColV)
    requires
        wf_state(s),
        wf_col(c.data),
        0 <= i <= s.len(),
        forall|j: int| 0 <= j < i ==> lex_lt(s[j].name, c.name),
        forall|j: int| i <= j < s.len() ==> lex_lt(c.name, s[j].name),
        t == s.insert(i, c),
    ensures
        wf_state(t),
        state_map(t) == state_map(s).insert(c.name, c.data),
        forall|m: Seq<char>| has_col(t, m) <==> has_col(s, m) || m == c.name,
{
    assert forall|a: int, b: int| 0 <= a < b < t.len() implies lex_lt(t[a].name, t[b].name) by {
        if a < i && b > i {
            lemma_lex_lt_trans(s[a].name, c.name, s[b - 1].name);
        }
    }
    assert forall|k: int| 0 <= k < t.len() implies wf_col(#[trigger] t[k].data) by {
        if k < i {
            assert(t[k].data == s[k].data);
        } else if k > i {
            assert(t[k].data == s[k - 1].data);
        }
    }
    assert forall|m: Seq<char>| #[trigger] has_col(t, m) implies has_col(s, m) || m == c.name by {
        let k = choose|k: int| 0 <= k < t.len() && t[k].name == m;
        if k < i {
            assert(s[k].name == m);
        } else if k > i {
            assert(s[k - 1].name == m);
        }
    }
    assert forall|m: Seq<char>| has_col(s, m) || m == c.name implies #[trigger] has_col(t, m) by {
        if m == c.name {
            assert(t[i].name == m);
        } else if has_col(s, m) {
            let k = choose|k: int| 0 <= k < s.len() && s[k].name == m;
            if k < i {
                assert(t[k].name == m);
            } else {
                assert(t[k + 1].name == m);
            }
        }
    }
    assert forall|m: Seq<char>| has_col(t, m) implies #[trigger] state_map(t)[m] == state_map(
        s,
    ).insert(c.name, c.data)[m] by {
        if m == c.name {
            lemma_idx_unique(t, i, m);
        } else {
            let k = choose|k: int| 0 <= k < s.len() && s[k].name == m;
            lemma_idx_unique(s, k, m);
            if k < i {
                lemma_idx_unique(t, k, m);
            } else {
                lemma_idx_unique(t, k + 1, m);
            }
        }
    }
    assert(state_map(t) =~= state_map(s).insert(c.name, c.data));
}

/// Removing one entry preserves well-formedness and acts on the map model as
/// a removal of its name.
pub proof fn lemma_remove_entry(s: Seq<ColV>, t: Seq<ColV>, i: int)
    requires
        wf_state(s),
        0 <= i < s.len(),
        t == s.remove(i),
    ensures
        wf_state(t),
        state_map(t) == state_map(s).remove(s[i].name),
        forall|m: Seq<char>| has_col(t, m) <==> has_col(s, m) && m != s[i].name,
{
    let n = s[i].name;
    assert forall|a: int, b: int| 0 <= a < b < t.len() implies lex_lt(t[a].name, t[b].name) by {
        if a < i && b >= i {
            assert(t[a].name == s[a].name && t[b].name == s[b + 1].name);
        }
    }
    assert forall|k: int| 0 <= k < t.len() implies wf_col(#[trigger] t[k].data) by {
        if k < i {
            assert(t[k].data == s[k].data);
        } else {
            assert(t[k].data == s[k + 1].data);
        }
    }
    assert forall|m: Seq<char>| #[trigger] has_col(t, m) implies has_col(s, m) && m != n by {
        let k = choose|k: int| 0 <= k < t.len() && t[k].name == m;
        if k < i {
            assert(s[k].name == m);
            lemma_idx_unique(s, k, m);
            if m == n {
                lemma_idx_unique(s, i, n);
            }
        } else {
            assert(s[k + 1].name == m);
            lemma_idx_unique(s, k + 1, m);
            if m == n {
                lemma_idx_unique(s, i, n);
            }
        }
    }
    assert forall|m: Seq<char>| has_col(s, m) && m != n implies #[trigger] has_col(t, m) by {
        let k = choose|k: int| 0 <= k < s.len() && s[k].name == m;
        if k < i {
            assert(t[k].name == m);
        } else if k > i {
            assert(t[k - 1].name == m);
        } else {
            assert(m == n);
        }
    }
    assert forall|m: Seq<char>| has_col(t, m) implies #[trigger] state_map(t)[m] == state_map(
        s,
    ).remove(n)[m] by {
        let k = choose|k: int| 0 <= k < s.len() && s[k].name == m;
        lemma_idx_unique(s, k, m);
        if k < i {
            lemma_idx_unique(t, k, m);
        } else {
            lemma_idx_unique(t, k - 1, m);
        }
    }
    assert(state_map(t) =~= state_map(s).remove(n));
}

impl StoreState {
    /// A new, empty store state.
    pub fn new() -> (s: StoreState)
        ensures
            s@ == Seq::<ColV>::empty(),
            wf_state(s@),
    {
        let s = StoreState { cols: Vec::new() };
        proof {
            assert(s@ =~= Seq::<ColV>::empty());
        }
        s
    }

    /// The position of the named collection, if present.
    fn find(&self, name: &String) -> (r: Option<usize>)
        ensures
            match r {
                Some(i) => 0 <= i < self@.len() && self@[i as int].name == name@,
                None => !has_col(self@, name@),
            },
    {
        let n = self.cols.len();
        let mut i: usize = 0;
        while i < n
            invariant
                i <= n,
                n == self.cols.len(),
                forall|j: int| 0 <= j < i ==> self@[j].name != name@,
            decreases n - i,
        {
            if col_rc_ref(&self.cols[i]).name == *name {
                return Some(i);
            }
            i = i + 1;
        }
        None
    }

    /// Whether a collection of that name exists in this state.
    pub fn contains_collection(&self, name: &String) -> (r: bool)
        ensures
            r == has_col(self@, name@),
    {
        match self.find(name) {
            Some(i) => {
                proof {
                    assert(has_col(self@, name@));
                }
                true
            },
            None => false,
        }
    }

    /// The position the named collection occupies, or would occupy, in the
    /// sorted name order.
    fn lower_bound(&self, name: &String) -> (i: usize)
        requires
            wf_state(self@),
        ensures
            i <= self@.len(),
            forall|j: int| 0 <= j < i ==> lex_lt(self@[j].name, name@),
            i < self@.len() ==> !lex_lt(self@[i as int].name, name@),
    {
        let n = self.cols.len();
        let mut i: usize = 0;
        while i < n
            invariant
                i <= n,
                n == self.cols.len(),
                forall|j: int| 0 <= j < i ==> lex_lt(self@[j].name, name@),
            decreases n - i,
        {
            if !str_lt(&col_rc_ref(&self.cols[i]).name, name) {
                return i;
            }
            i = i + 1;
        }
        n
    }

    /// Inserts an empty collection under the name; a name already bound keeps
    /// its collection (no error).
    pub fn create_collection(&mut self, name: &String)
        requires
            wf_state(old(self)@),
        ensures
            wf_state(final(self)@),
            has_col(old(self)@, name@) ==> final(self)@ == old(self)@,
            !has_col(old(self)@, name@) ==> state_map(final(self)@) == state_map(
                old(self)@,
            ).insert(name@, empty_col()),
            forall|m: Seq<char>|
                has_col(final(self)@, m) <==> has_col(old(self)@, m) || m == name@,
    {
        let i = self.lower_bound(name);
        if i < self.cols.len() && col_rc_ref(&self.cols[i]).name == *name {
            proof {
                assert(has_col(self@, name@));
            }
            return ;
        }
        let ghost prev = self@;
        let col = Rc::new(Col { name: name.clone(), data: CollectionData::empty() });
        self.cols.insert(i, col);
        proof {
            assert(self@ =~= prev.insert(i as int, ColV { name: name@, data: empty_col() }));
            assert forall|j: int| i <= j < prev.len() implies lex_lt(name@, prev[j].name) by {
                lemma_lex_trichotomy(prev[i as int].name, name@);
                if j > i {
                    lemma_lex_lt_trans(name@, prev[i as int].name, prev[j].name);
                }
            }
            assert(!has_col(prev, name@)) by {
                if has_col(prev, name@) {
                    let k = choose|k: int| 0 <= k < prev.len() && prev[k].name == name@;
                    lemma_lex_trichotomy(name@, name@);
                }
            }
            lemma_insert_entry(
                prev,
                self@,
                i as int,
                ColV { name: name@, data: empty_col() },
            );
        }
    }

    /// Deletes the named collection and all its statements; a name not bound
    /// changes nothing (no error).
    pub fn delete_collection(&mut self, name: &String)
        requires
            wf_state(old(self)@),
        ensures
            wf_state(final(self)@),
            state_map(final(self)@) == state_map(old(self)@).remove(name@),
            forall|m: Seq<char>|
                has_col(final(self)@, m) <==> has_col(old(self)@, m) && m != name@,
    {
        match self.find(name) {
            None => {
                proof {
                    assert(state_map(self@) =~= state_map(self@).remove(name@));
                }
            },
            Some(i) => {
                let ghost prev = self@;
                let _ = self.cols.remove(i);
                proof {
                    assert(self@ =~= prev.remove(i as int));
                    lemma_remove_entry(prev, self@, i as int);
                }
            },
        }
    }

    /// Allocates the next entity in the named collection.
    pub fn new_entity(&mut self, name: &String) -> (r: Result<u64, LigatureError>)
        requires
            wf_state(old(self)@),
            has_col(old(self)@, name@) ==> col_of(old(self)@, name@).counter < u64::MAX,
        ensures
            wf_state(final(self)@),
            match r {
                Ok(e) => has_col(old(self)@, name@) && e == alloc_result(
                    col_of(old(self)@, name@),
                ) && state_map(final(self)@) == state_map(old(self)@).insert(
                    name@,
                    col_after_alloc(col_of(old(self)@, name@)),
                ),
                Err(err) => err == LigatureError::CollectionNotFound && !has_col(
                    old(self)@,
                    name@,
                ) && final(self)@ == old(self)@,
            },
    {
        match self.find(name) {
            None => Err(LigatureError::CollectionNotFound),
            Some(i) => {
                let ghost prev = self@;
                proof {
                    lemma_idx_unique(prev, i as int, name@);
                }
                let shared = self.cols.remove(i);
                let mut col = col_rc_ref(&shared).duplicate();
                let e = col.data.alloc_entity();
                let ghost d = col.data@;
                self.cols.insert(i, Rc::new(col));
                proof {
                    assert(self@ =~= prev.update(i as int, ColV { name: name@, data: d }));
                    lemma_update_entry(prev, self@, i as int, d);
                }
                Ok(e)
            },
        }
    }

    /// Removes an entity from the named collection, along with every
    /// statement mentioning it; an entity never allocated there — the
    /// never-allocatable default context included — leaves the collection
    /// unchanged.
    pub fn remove_entity(&mut self, name: &String, e: u64) -> (r: Result<(), LigatureError>)
        requires
            wf_state(old(self)@),
        ensures
            wf_state(final(self)@),
            match r {
                Ok(u) => has_col(old(self)@, name@) && state_map(final(self)@) == state_map(
                    old(self)@,
                ).insert(name@, col_after_remove_entity(col_of(old(self)@, name@), e)),
                Err(err) => err == LigatureError::CollectionNotFound && !has_col(
                    old(self)@,
                    name@,
                ) && final(self)@ == old(self)@,
            },
    {
        match self.find(name) {
            None => Err(LigatureError::CollectionNotFound),
            Some(i) => {
                let ghost prev = self@;
                proof {
                    lemma_idx_unique(prev, i as int, name@);
                }
                let shared = self.cols.remove(i);
                let mut col = col_rc_ref(&shared).duplicate();
                col.data.remove_entity(e);
                let ghost d = col.data@;
                self.cols.insert(i, Rc::new(col));
                proof {
                    assert(self@ =~= prev.update(i as int, ColV { name: name@, data: d }));
                    lemma_update_entry(prev, self@, i as int, d);
                }
                Ok(())
            },
        }
    }

    /// Adds a statement to the named collection; every entity the statement
    /// refers to must be valid there.
    pub fn add_statement(&mut self, name: &String, st: Statement) -> (r: Result<
        (),
        LigatureError,
    >)
        requires
            wf_state(old(self)@),
        ensures
            wf_state(final(self)@),
            match r {
                Ok(u) => has_col(old(self)@, name@) && valid_statement(
                    st@,
                    col_of(old(self)@, name@),
                ) && state_map(final(self)@) == state_map(old(self)@).insert(
                    name@,
                    col_after_add(col_of(old(self)@, name@), st@),
                ),
                Err(err) => final(self)@ == old(self)@ && (if !has_col(old(self)@, name@) {
                    err == LigatureError::CollectionNotFound
                } else {
                    err == LigatureError::UnknownEntity && !valid_statement(
                        st@,
                        col_of(old(self)@, name@),
                    )
                }),
            },
    {
        match self.find(name) {
            None => Err(LigatureError::CollectionNotFound),
            Some(i) => {
                let ghost prev = self@;
                proof {
                    lemma_idx_unique(prev, i as int, name@);
                }
                let shared = self.cols.remove(i);
                let sub_ok = col_rc_ref(&shared).data.contains_entity(st.subject.id);
                let ctx_ok = st.context.id == DEFAULT_CONTEXT || col_rc_ref(
                    &shared,
                ).data.contains_entity(st.context.id);
                let obj_ok = match &st.object {
                    Object::Entity(oe) => col_rc_ref(&shared).data.contains_entity(oe.id),
                    _ => true,
                };
                if sub_ok && ctx_ok && obj_ok {
                    let mut col = col_rc_ref(&shared).duplicate();
                    col.data.insert_statement(st);
                    let ghost d = col.data@;
                    self.cols.insert(i, Rc::new(col));
                    proof {
                        assert(self@ =~= prev.update(i as int, ColV { name: name@, data: d }));
                        lemma_update_entry(prev, self@, i as int, d);
                    }
                    Ok(())
                } else {
                    self.cols.insert(i, shared);
                    proof {
                        assert(self@ =~= prev);
                    }
                    Err(LigatureError::UnknownEntity)
                }
            },
        }
    }

    /// Removes a statement from the named collection; removing an absent
    /// statement changes nothing.
    pub fn remove_statement(&mut self, name: &String, st: &Statement) -> (r: Result<
        (),
        LigatureError,
    >)
        requires
            wf_state(old(self)@),
        ensures
            wf_state(final(self)@),
            match r {
                Ok(u) => has_col(old(self)@, name@) && state_map(final(self)@) == state_map(
                    old(self)@,
                ).insert(name@, col_after_remove_stmt(col_of(old(self)@, name@), st@)),
                Err(err) => err == LigatureError::CollectionNotFound && !has_col(
                    old(self)@,
                    name@,
                ) && final(self)@ == old(self)@,
            },
    {
        match self.find(name) {
            None => Err(LigatureError::CollectionNotFound),
            Some(i) => {
                let ghost prev = self@;
                proof {
                    lemma_idx_unique(prev, i as int, name@);
                }
                let shared = self.cols.remove(i);
                let mut col = col_rc_ref(&shared).duplicate();
                col.data.remove_statement(st);
                let ghost d = col.data@;
                self.cols.insert(i, Rc::new(col));
                proof {
                    assert(self@ =~= prev.update(i as int, ColV { name: name@, data: d }));
                    lemma_update_entry(prev, self@, i as int, d);
                }
                Ok(())
            },
        }
    }

    /// All collection names, in sorted order.
    pub fn collection_names(&self) -> (out: Vec<String>)
        ensures
            strings_view(out@) == keys(self@),
    {
        let mut out: Vec<String> = Vec::new();
        let n = self.cols.len();
        let mut i: usize = 0;
        proof {
            assert(strings_view(out@) =~= keys(self@).take(0));
        }
        while i < n
            invariant
                i <= n,
                n == self.cols.len(),
                strings_view(out@) == keys(self@).take(i as int),
            decreases n - i,
        {
            let ghost prev_out = strings_view(out@);
            out.push(col_rc_ref(&self.cols[i]).name.clone());
            proof {
                assert(strings_view(out@) =~= prev_out.push(self@[i as int].name));
                assert(keys(self@).take(i + 1) =~= keys(self@).take(i as int).push(
                    keys(self@)[i as int],
                ));
            }
            i = i + 1;
        }
        proof {
            assert(keys(self@).take(n as int) =~= keys(self@));
        }
        out
    }

    /// The collection names carrying the prefix, in sorted order.
    pub fn names_with_prefix(&self, prefix: &String) -> (out: Vec<String>)
        ensures
            strings_view(out@) == keys(self@).filter(prefix_pred(prefix@)),
    {
        let ghost p = prefix_pred(prefix@);
        let mut out: Vec<String> = Vec::new();
        let n = self.cols.len();
        let mut i: usize = 0;
        proof {
            reveal(Seq::filter);
            assert(keys(self@).take(0) =~= Seq::<Seq<char>>::empty());
        }
        while i < n
            invariant
                i <= n,
                n == self.cols.len(),
                p == prefix_pred(prefix@),
                strings_view(out@) == keys(self@).take(i as int).filter(p),
            decreases n - i,
        {
            proof {
                assert(keys(self@).take(i + 1) =~= keys(self@).take(i as int).push(
                    keys(self@)[i as int],
                ));
                lemma_filter_push(keys(self@).take(i as int), keys(self@)[i as int], p);
            }
            let ghost prev_out = strings_view(out@);
            if str_has_prefix(&col_rc_ref(&self.cols[i]).name, prefix) {
                out.push(col_rc_ref(&self.cols[i]).name.clone());
                proof {
                    assert(strings_view(out@) =~= prev_out.push(self@[i as int].name));
                }
            }
            i = i + 1;
        }
        proof {
            assert(keys(self@).take(n as int) =~= keys(self@));
        }
        out
    }

    /// The collection names in the half-open range `[from, to)`, in sorted
    /// order.
    pub fn names_in_range(&self, from: &String, to: &String) -> (out: Vec<String>)
        ensures
            strings_view(out@) == keys(self@).filter(between_pred(from@, to@)),
    {
        let ghost p = between_pred(from@, to@);
        let mut out: Vec<String> = Vec::new();
        let n = self.cols.len();
        let mut i: usize = 0;
        proof {
            reveal(Seq::filter);
            assert(keys(self@).take(0) =~= Seq::<Seq<char>>::empty());
        }
        while i < n
            invariant
                i <= n,
                n == self.cols.len(),
                p == between_pred(from@, to@),
                strings_view(out@) == keys(self@).take(i as int).filter(p),
            decreases n - i,
        {
            proof {
                assert(keys(self@).take(i + 1) =~= keys(self@).take(i as int).push(
                    keys(self@)[i as int],
                ));
                lemma_filter_push(keys(self@).take(i as int), keys(self@)[i as int], p);
            }
            let ghost prev_out = strings_view(out@);
            if str_le(from, &col_rc_ref(&self.cols[i]).name) && str_lt(&col_rc_ref(&self.cols[i]).name, to) {
                out.push(col_rc_ref(&self.cols[i]).name.clone());
                proof {
                    assert(strings_view(out@) =~= prev_out.push(self@[i as int].name));
                }
            }
            i = i + 1;
        }
        proof {
            assert(keys(self@).take(n as int) =~= keys(self@));
        }
        out
    }

    /// All statements of the named collection, as fresh values.
    pub fn statements_of(&self, name: &String) -> (r: Option<Vec<Statement>>)
        requires
            wf_state(self@),
        ensures
            match r {
                Some(v) => has_col(self@, name@) && stmts_view(v@) == col_of(
                    self@,
                    name@,
                ).statements,
                None => !has_col(self@, name@),
            },
    {
        match self.find(name) {
            None => None,
            Some(i) => {
                proof {
                    lemma_idx_unique(self@, i as int, name@);
                }
                Some(clone_statements(&col_rc_ref(&self.cols[i]).data.statements))
            },
        }
    }

    /// The statements of the named collection matching the four criteria.
    pub fn match_in(
        &self,
        name: &String,
        sub: &Option<Entity>,
        pred: &Option<String>,
        obj: &Option<Object>,
        ctx: &Option<Entity>,
    ) -> (r: Option<Vec<Statement>>)
        requires
            wf_state(self@),
        ensures
            match r {
                Some(v) => has_col(self@, name@) && stmts_view(v@) == matching(
                    col_of(self@, name@).statements,
                    opt_entity_view(*sub),
                    opt_string_view(*pred),
                    opt_object_view(*obj),
                    opt_entity_view(*ctx),
                ),
                None => !has_col(self@, name@),
            },
    {
        match self.find(name) {
            None => None,
            Some(i) => {
                proof {
                    lemma_idx_unique(self@, i as int, name@);
                }
                Some(filter_matching(&col_rc_ref(&self.cols[i]).data.statements, sub, pred, obj, ctx))
            },
        }
    }

    /// The statements of the named collection matching the range criteria.
    pub fn match_range_in(
        &self,
        name: &String,
        sub: &Option<Entity>,
        pred: &Option<String>,
        range: &Option<ObjectRange>,
        ctx: &Option<Entity>,
    ) -> (r: Option<Vec<Statement>>)
        requires
            wf_state(self@),
        ensures
            match r {
                Some(v) => has_col(self@, name@) && stmts_view(v@) == matching_range(
                    col_of(self@, name@).statements,
                    opt_entity_view(*sub),
                    opt_string_view(*pred),
                    opt_range_view(*range),
                    opt_entity_view(*ctx),
                ),
                None => !has_col(self@, name@),
            },
    {
        match self.find(name) {
            None => None,
            Some(i) => {
                proof {
                    lemma_idx_unique(self@, i as int, name@);
                }
                Some(filter_matching_range(&col_rc_ref(&self.cols[i]).data.statements, sub, pred, range, ctx))
            },
        }
    }

    /// A copy of the state for a write transaction's private working copy:
    /// every collection is shared with the base version until a mutation
    /// copies it.
    pub fn duplicate(&self) -> (r: StoreState)
        ensures
            r@ == self@,
    {
        let mut cols: Vec<Rc<Col>> = Vec::new();
        let n = self.cols.len();
        let mut i: usize = 0;
        proof {
            assert(cols_view(cols@) =~= self@.take(0));
        }
        while i < n
            invariant
                i <= n,
                n == self.cols.len(),
                cols_view(cols@) == self@.take(i as int),
            decreases n - i,
        {
            let ghost prev = cols_view(cols@);
            let c = col_rc_clone(&self.cols[i]);
            cols.push(c);
            proof {
                assert(cols_view(cols@) =~= prev.push(self@[i as int]));
            }
            i = i + 1;
        }
        proof {
            assert(self@.take(n as int) =~= self@);
        }
        let r = StoreState { cols };
        r
    }
}

} // verus!
