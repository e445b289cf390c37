use std::rc::Rc;
use vstd::prelude::*;
use crate::collection::{
    alloc_result, col_after_add, col_after_alloc, col_after_remove_entity, col_after_remove_stmt,
    empty_col, stmts_view, valid_statement,
};
use crate::error::LigatureError;
use crate::matching::{
    ObjectRange, ObjectRangeV, matching, matching_range, opt_entity_view, opt_object_view,
    opt_range_view, opt_string_view, range_is_valid, range_valid,
};
use crate::order::{lex_lt, str_lt};
use crate::state::{
    ColV, StoreState, between_pred, col_of, has_col, keys, prefix_pred, state_map, strings_view,
    wf_state,
};
use crate::types::{Entity, Object, Statement};

verus! {

/// Relies on Rc::clone: the new handle refers to the same shared value, so a
/// snapshot is captured without copying the state.
#[verifier::external_body]
fn rc_clone(rc: &Rc<StoreState>) -> (r: Rc<StoreState>)
    ensures
        r@ == rc@,
{
    Rc::clone(rc)
}

/// Relies on Rc::as_ref: the reference leads to the shared value.
#[verifier::external_body]
fn rc_as_ref(rc: &Rc<StoreState>) -> (r: &StoreState)
    ensures
        r@ == rc@,
{
    rc.as_ref()
}

/// The store: owns the current published state, hands out transactions bound
/// to it, and tracks its open/closed lifecycle.
#[derive(Debug)]
pub struct Store {
    /// The current published state; replaced wholesale by a commit, never
    /// mutated, so outstanding snapshots stay valid.
    pub state: Rc<StoreState>,
    /// Counts successful commits: the compare-and-publish token.
    pub version: u64,
    pub open: bool,
}

/// A read transaction: bound at creation to one immutable snapshot, which
/// every read sees unchanged, whatever commits happen later.
#[derive(Debug)]
pub struct ReadTx {
    pub snapshot: Rc<StoreState>,
    pub open: bool,
}

/// A write transaction: a private working copy seeded from the store's state
/// at open, plus the base version its commit is checked against.
#[derive(Debug)]
pub struct WriteTx {
    pub working: StoreState,
    pub base: u64,
    pub open: bool,
}

/// A new, empty, open store.
pub fn ligature_in_memory() -> (s: Store)
    ensures
        s.open,
        s.version == 0,
        s.state@ == Seq::<ColV>::empty(),
        s.inv(),
{
    Store { state: Rc::new(StoreState::new()), version: 0, open: true }
}

impl Store {
    /// The published state is well-formed.
    pub open spec fn inv(&self) -> bool {
        wf_state(self.state@)
    }

    /// Whether the store is open.
    pub fn is_open(&self) -> (r: bool)
        ensures
            r == self.open,
    {
        self.open
    }

    /// A read transaction over the current state; the snapshot is captured by
    /// reference, not copied.
    pub fn read_tx(&self) -> (r: Result<ReadTx, LigatureError>)
        ensures
            match r {
                Ok(tx) => self.open && tx.open && tx.snapshot@ == self.state@,
                Err(e) => !self.open && e == LigatureError::StoreClosed,
            },
    {
        if !self.open {
            return Err(LigatureError::StoreClosed);
        }
        Ok(ReadTx { snapshot: rc_clone(&self.state), open: true })
    }

    /// A write transaction whose working copy and base version are seeded
    /// from the current state.
    pub fn write_tx(&self) -> (r: Result<WriteTx, LigatureError>)
        ensures
            match r {
                Ok(tx) => self.open && tx.open && tx.working@ == self.state@ && tx.base
                    == self.version,
                Err(e) => !self.open && e == LigatureError::StoreClosed,
            },
    {
        if !self.open {
            return Err(LigatureError::StoreClosed);
        }
        Ok(WriteTx { working: rc_as_ref(&self.state).duplicate(), base: self.version, open: true })
    }

    /// Closes the store: no new transactions, no more commits; the reference
    /// to the current state is released.  Closing twice is an error.
    pub fn close(&mut self) -> (r: Result<(), LigatureError>)
        ensures
            !old(self).open ==> r == Err::<(), LigatureError>(LigatureError::AlreadyClosed)
                && *final(self) == *old(self),
            old(self).open ==> r == Ok::<(), LigatureError>(()) && !final(self).open && final(self).inv()
                && final(self).state@ == Seq::<ColV>::empty() && final(self).version == old(self).version,
    {
        if !self.open {
            return Err(LigatureError::AlreadyClosed);
        }
        self.open = false;
        self.state = Rc::new(StoreState::new());
        Ok(())
    }
}

impl ReadTx {
    /// The snapshot is well-formed.
    pub open spec fn inv(&self) -> bool {
        wf_state(self.snapshot@)
    }

    /// Whether the transaction is still usable.
    pub fn is_open(&self) -> (r: bool)
        ensures
            r == self.open,
    {
        self.open
    }

    /// Releases the transaction's hold on its snapshot; every later read
    /// fails with `TransactionClosed`.
    pub fn cancel(&mut self)
        ensures
            !final(self).open,
    {
        self.open = false;
        self.snapshot = Rc::new(StoreState::new());
    }

    /// All collection names in the snapshot, in sorted order.
    pub fn collections(&self) -> (r: Result<Vec<String>, LigatureError>)
        ensures
            match r {
                Ok(v) => self.open && strings_view(v@) == keys(self.snapshot@),
                Err(e) => !self.open && e == LigatureError::TransactionClosed,
            },
    {
        if !self.open {
            return Err(LigatureError::TransactionClosed);
        }
        Ok(rc_as_ref(&self.snapshot).collection_names())
    }

    /// The collection names carrying the prefix, in sorted order.
    pub fn collections_prefix(&self, prefix: &String) -> (r: Result<Vec<String>, LigatureError>)
        ensures
            match r {
                Ok(v) => self.open && strings_view(v@) == keys(self.snapshot@).filter(
                    prefix_pred(prefix@),
                ),
                Err(e) => !self.open && e == LigatureError::TransactionClosed,
            },
    {
        if !self.open {
            return Err(LigatureError::TransactionClosed);
        }
        Ok(rc_as_ref(&self.snapshot).names_with_prefix(prefix))
    }

    /// The collection names in `[from, to)`, in sorted order; the bounds must
    /// not be inverted.
    pub fn collections_range(&self, from: &String, to: &String) -> (r: Result<
        Vec<String>,
        LigatureError,
    >)
        ensures
            match r {
                Ok(v) => self.open && !lex_lt(to@, from@) && strings_view(v@) == keys(
                    self.snapshot@,
                ).filter(between_pred(from@, to@)),
                Err(e) => if !self.open {
                    e == LigatureError::TransactionClosed
                } else {
                    e == LigatureError::InvalidRange && lex_lt(to@, from@)
                },
            },
    {
        if !self.open {
            return Err(LigatureError::TransactionClosed);
        }
        if str_lt(to, from) {
            return Err(LigatureError::InvalidRange);
        }
        Ok(rc_as_ref(&self.snapshot).names_in_range(from, to))
    }

    /// All statements of the named collection, in the snapshot's stable
    /// order.
    pub fn all_statements(&self, collection: &String) -> (r: Result<Vec<Statement>, LigatureError>)
        requires
            self.inv(),
        ensures
            match r {
                Ok(v) => self.open && has_col(self.snapshot@, collection@) && stmts_view(v@)
                    == col_of(self.snapshot@, collection@).statements,
                Err(e) => if !self.open {
                    e == LigatureError::TransactionClosed
                } else {
                    e == LigatureError::CollectionNotFound && !has_col(
                        self.snapshot@,
                        collection@,
                    )
                },
            },
    {
        if !self.open {
            return Err(LigatureError::TransactionClosed);
        }
        match rc_as_ref(&self.snapshot).statements_of(collection) {
            Some(v) => Ok(v),
            None => Err(LigatureError::CollectionNotFound),
        }
    }

    /// The statements of the named collection whose fields equal every
    /// present criterion; absent criteria are wildcards.
    pub fn match_statements(
        &self,
        collection: &String,
        subject: Option<Entity>,
        predicate: Option<String>,
        object: Option<Object>,
        context: Option<Entity>,
    ) -> (r: Result<Vec<Statement>, LigatureError>)
        requires
            self.inv(),
        ensures
            match r {
                Ok(v) => self.open && has_col(self.snapshot@, collection@) && stmts_view(v@)
                    == matching(
                    col_of(self.snapshot@, collection@).statements,
                    opt_entity_view(subject),
                    opt_string_view(predicate),
                    opt_object_view(object),
                    opt_entity_view(context),
                ),
                Err(e) => if !self.open {
                    e == LigatureError::TransactionClosed
                } else {
                    e == LigatureError::CollectionNotFound && !has_col(
                        self.snapshot@,
                        collection@,
                    )
                },
            },
    {
        if !self.open {
            return Err(LigatureError::TransactionClosed);
        }
        match rc_as_ref(&self.snapshot).match_in(
            collection,
            &subject,
            &predicate,
            &object,
            &context,
        ) {
            Some(v) => Ok(v),
            None => Err(LigatureError::CollectionNotFound),
        }
    }

    /// Like `match_statements`, but the object criterion is a half-open range
    /// over one literal kind; objects of other kinds never match.
    pub fn match_statements_range(
        &self,
        collection: &String,
        subject: Option<Entity>,
        predicate: Option<String>,
        range: Option<ObjectRange>,
        context: Option<Entity>,
    ) -> (r: Result<Vec<Statement>, LigatureError>)
        requires
            self.inv(),
        ensures
            match r {
                Ok(v) => self.open && opt_range_ok(opt_range_view(range)) && has_col(
                    self.snapshot@,
                    collection@,
                ) && stmts_view(v@) == matching_range(
                    col_of(self.snapshot@, collection@).statements,
                    opt_entity_view(subject),
                    opt_string_view(predicate),
                    opt_range_view(range),
                    opt_entity_view(context),
                ),
                Err(e) => if !self.open {
                    e == LigatureError::TransactionClosed
                } else if !opt_range_ok(opt_range_view(range)) {
                    e == LigatureError::InvalidRange
                } else {
                    e == LigatureError::CollectionNotFound && !has_col(
                        self.snapshot@,
                        collection@,
                    )
                },
            },
    {
        if !self.open {
            return Err(LigatureError::TransactionClosed);
        }
        let range_ok = match &range {
            Some(rr) => range_is_valid(rr),
            None => true,
        };
        if !range_ok {
            return Err(LigatureError::InvalidRange);
        }
        match rc_as_ref(&self.snapshot).match_range_in(
            collection,
            &subject,
            &predicate,
            &range,
            &context,
        ) {
            Some(v) => Ok(v),
            None => Err(LigatureError::CollectionNotFound),
        }
    }
}

/// An absent range is trivially in order; a present one must not be inverted.
pub open spec fn opt_range_ok(r: Option<ObjectRangeV>) -> bool {
    match r {
        Some(rr) => range_valid(rr),
        None => true,
    }
}

impl WriteTx {
    /// The working copy is well-formed.
    pub open spec fn inv(&self) -> bool {
        wf_state(self.working@)
    }

    /// Whether the transaction is still usable.
    pub fn is_open(&self) -> (r: bool)
        ensures
            r == self.open,
    {
        self.open
    }

    /// Discards the working copy; the transaction can no longer be used.
    /// Cancelling a transaction already closed is an error.
    pub fn cancel(&mut self) -> (r: Result<(), LigatureError>)
        ensures
            !old(self).open ==> r == Err::<(), LigatureError>(LigatureError::TransactionClosed)
                && *final(self) == *old(self),
            old(self).open ==> r == Ok::<(), LigatureError>(()) && !final(self).open && final(self).inv(),
    {
        if !self.open {
            return Err(LigatureError::TransactionClosed);
        }
        self.open = false;
        self.working = StoreState::new();
        Ok(())
    }

    /// Stages the creation of an empty collection; a name already bound keeps
    /// its collection (no error).
    pub fn create_collection(&mut self, name: &String) -> (r: Result<(), LigatureError>)
        requires
            old(self).inv(),
        ensures
            final(self).inv(),
            final(self).base == old(self).base,
            !old(self).open ==> r == Err::<(), LigatureError>(LigatureError::TransactionClosed)
                && *final(self) == *old(self),
            old(self).open ==> r == Ok::<(), LigatureError>(()) && final(self).open && (has_col(
                old(self).working@,
                name@,
            ) ==> final(self).working@ == old(self).working@) && (!has_col(
                old(self).working@,
                name@,
            ) ==> state_map(final(self).working@) == state_map(old(self).working@).insert(
                name@,
                empty_col(),
            )) && (forall|m: Seq<char>|
                has_col(final(self).working@, m) <==> has_col(old(self).working@, m) || m
                    == name@),
    {
        if !self.open {
            return Err(LigatureError::TransactionClosed);
        }
        self.working.create_collection(name);
        Ok(())
    }

    /// Stages the deletion of a collection and all its statements; a name not
    /// bound changes nothing (no error).
    pub fn delete_collection(&mut self, name: &String) -> (r: Result<(), LigatureError>)
        requires
            old(self).inv(),
        ensures
            final(self).inv(),
            final(self).base == old(self).base,
            !old(self).open ==> r == Err::<(), LigatureError>(LigatureError::TransactionClosed)
                && *final(self) == *old(self),
            old(self).open ==> r == Ok::<(), LigatureError>(()) && final(self).open && state_map(
                final(self).working@,
            ) == state_map(old(self).working@).remove(name@) && (forall|m: Seq<char>|
                has_col(final(self).working@, m) <==> has_col(old(self).working@, m) && m
                    != name@),
    {
        if !self.open {
            return Err(LigatureError::TransactionClosed);
        }
        self.working.delete_collection(name);
        Ok(())
    }

    /// Allocates the next entity in the named collection: strictly
    /// increasing, starting at 1 for a fresh collection.
    pub fn new_entity(&mut self, collection: &String) -> (r: Result<Entity, LigatureError>)
        requires
            old(self).inv(),
            has_col(old(self).working@, collection@) ==> col_of(
                old(self).working@,
                collection@,
            ).counter < u64::MAX,
        ensures
            final(self).inv(),
            final(self).base == old(self).base,
            !old(self).open ==> r == Err::<Entity, LigatureError>(LigatureError::TransactionClosed)
                && *final(self) == *old(self),
            old(self).open ==> final(self).open && (match r {
                Ok(e) => has_col(old(self).working@, collection@) && e.id == alloc_result(
                    col_of(old(self).working@, collection@),
                ) && state_map(final(self).working@) == state_map(old(self).working@).insert(
                    collection@,
                    col_after_alloc(col_of(old(self).working@, collection@)),
                ),
                Err(err) => err == LigatureError::CollectionNotFound && !has_col(
                    old(self).working@,
                    collection@,
                ) && final(self).working@ == old(self).working@,
            }),
    {
        if !self.open {
            return Err(LigatureError::TransactionClosed);
        }
        match self.working.new_entity(collection) {
            Ok(e) => Ok(Entity { id: e }),
            Err(err) => Err(err),
        }
    }

    /// Removes an entity and, with it, every statement mentioning it as
    /// subject, object or context; an entity never allocated there leaves the
    /// statements untouched.  The default context is never allocated, so
    /// removing it is a no-op: statements stored with the default context
    /// stay.
    pub fn remove_entity(&mut self, collection: &String, entity: Entity) -> (r: Result<
        (),
        LigatureError,
    >)
        requires
            old(self).inv(),
        ensures
            final(self).inv(),
            final(self).base == old(self).base,
            !old(self).open ==> r == Err::<(), LigatureError>(LigatureError::TransactionClosed)
                && *final(self) == *old(self),
            old(self).open ==> final(self).open && (match r {
                Ok(u) => has_col(old(self).working@, collection@) && state_map(
                    final(self).working@,
                ) == state_map(old(self).working@).insert(
                    collection@,
                    col_after_remove_entity(col_of(old(self).working@, collection@), entity.id),
                ),
                Err(err) => err == LigatureError::CollectionNotFound && !has_col(
                    old(self).working@,
                    collection@,
                ) && final(self).working@ == old(self).working@,
            }),
    {
        if !self.open {
            return Err(LigatureError::TransactionClosed);
        }
        self.working.remove_entity(collection, entity.id)
    }

    /// Adds a statement to the named collection; a statement already present
    /// is not duplicated.  Every entity the statement refers to must be valid
    /// in that collection.
    pub fn add_statement(&mut self, collection: &String, statement: Statement) -> (r: Result<
        (),
        LigatureError,
    >)
        requires
            old(self).inv(),
        ensures
            final(self).inv(),
            final(self).base == old(self).base,
            !old(self).open ==> r == Err::<(), LigatureError>(LigatureError::TransactionClosed)
                && *final(self) == *old(self),
            old(self).open ==> final(self).open && (match r {
                Ok(u) => has_col(old(self).working@, collection@) && valid_statement(
                    statement@,
                    col_of(old(self).working@, collection@),
                ) && state_map(final(self).working@) == state_map(old(self).working@).insert(
                    collection@,
                    col_after_add(col_of(old(self).working@, collection@), statement@),
                ),
                Err(err) => final(self).working@ == old(self).working@ && (if !has_col(
                    old(self).working@,
                    collection@,
                ) {
                    err == LigatureError::CollectionNotFound
                } else {
                    err == LigatureError::UnknownEntity && !valid_statement(
                        statement@,
                        col_of(old(self).working@, collection@),
                    )
                }),
            }),
    {
        if !self.open {
            return Err(LigatureError::TransactionClosed);
        }
        self.working.add_statement(collection, statement)
    }

    /// Removes a statement from the named collection; removing an absent
    /// statement changes nothing.
    pub fn remove_statement(&mut self, collection: &String, statement: &Statement) -> (r: Result<
        (),
        LigatureError,
    >)
        requires
            old(self).inv(),
        ensures
            final(self).inv(),
            final(self).base == old(self).base,
            !old(self).open ==> r == Err::<(), LigatureError>(LigatureError::TransactionClosed)
                && *final(self) == *old(self),
            old(self).open ==> final(self).open && (match r {
                Ok(u) => has_col(old(self).working@, collection@) && state_map(
                    final(self).working@,
                ) == state_map(old(self).working@).insert(
                    collection@,
                    col_after_remove_stmt(col_of(old(self).working@, collection@), statement@),
                ),
                Err(err) => err == LigatureError::CollectionNotFound && !has_col(
                    old(self).working@,
                    collection@,
                ) && final(self).working@ == old(self).working@,
            }),
    {
        if !self.open {
            return Err(LigatureError::TransactionClosed);
        }
        self.working.remove_statement(collection, statement)
    }

    /// Attempts to publish the working copy as the store's new current state.
    /// The compare-and-publish step succeeds only when the store is open and
    /// no other commit was published since this transaction was opened; a
    /// failed commit changes nothing and leaves the transaction open.
    pub fn commit(&mut self, store: &mut Store) -> (r: Result<(), LigatureError>)
        requires
            old(self).inv(),
            old(store).version < u64::MAX,
        ensures
            final(self).inv(),
            !old(self).open ==> r == Err::<(), LigatureError>(LigatureError::TransactionClosed)
                && *final(self) == *old(self) && *final(store) == *old(store),
            old(self).open && !old(store).open ==> r == Err::<(), LigatureError>(
                LigatureError::StoreClosed,
            ) && *final(self) == *old(self) && *final(store) == *old(store),
            old(self).open && old(store).open && old(store).version != old(self).base ==> r
                == Err::<(), LigatureError>(LigatureError::CommitConflict) && *final(self) == *old(self) && *final(store) == *old(store),
            old(self).open && old(store).open && old(store).version == old(self).base ==> r
                == Ok::<(), LigatureError>(()) && final(store).open && final(store).version == old(store).version + 1 && final(store).state@ == old(self).working@ && !final(self).open,
    {
        if !self.open {
            return Err(LigatureError::TransactionClosed);
        }
        if !store.open {
            return Err(LigatureError::StoreClosed);
        }
        if store.version != self.base {
            return Err(LigatureError::CommitConflict);
        }
        let mut published = StoreState::new();
        core::mem::swap(&mut published, &mut self.working);
        store.state = Rc::new(published);
        store.version = store.version + 1;
        self.open = false;
        Ok(())
    }
}

} // verus!
