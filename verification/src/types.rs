use vstd::prelude::*;

verus! {

/// The context entity used for statements stored with no explicit context.
/// Allocated entities are strictly positive, so this value never collides
/// with one.
pub const DEFAULT_CONTEXT: u64 = 0;

/// An opaque entity identifier, unique within the collection that allocated
/// it.  Allocated identifiers are strictly positive; the reserved value
/// [`DEFAULT_CONTEXT`] marks the default context.
#[derive(Clone, Copy, Debug, PartialEq, Eq, Structural, Hash)]
pub struct Entity {
    pub id: u64,
}

/// The well-known default context entity.
pub fn default_context() -> (e: Entity)
    ensures
        e.id == DEFAULT_CONTEXT,
{
    Entity { id: DEFAULT_CONTEXT }
}

/// The object position of a statement: an entity reference or a literal of
/// one of the closed set of kinds.
#[derive(Debug)]
pub enum Object {
    Entity(Entity),
    StringLiteral(String),
    LongLiteral(i64),
}

/// The mathematical value of an [`Object`].
pub enum ObjectV {
    Entity(u64),
    StringLiteral(Seq<char>),
    LongLiteral(i64),
}

impl View for Object {
    type V = ObjectV;

    open spec fn view(&self) -> ObjectV {
        match self {
            Object::Entity(e) => ObjectV::Entity(e.id),
            Object::StringLiteral(s) => ObjectV::StringLiteral(s@),
            Object::LongLiteral(n) => ObjectV::LongLiteral(*n),
        }
    }
}

impl Object {
    /// A copy of this object, equal to the original.
    pub fn duplicate(&self) -> (r: Object)
        ensures
            r == *self,
    {
        match self {
            Object::Entity(e) => Object::Entity(*e),
            Object::StringLiteral(s) => Object::StringLiteral(s.clone()),
            Object::LongLiteral(n) => Object::LongLiteral(*n),
        }
    }
}

/// Equality of objects, decided by variant and value.
pub fn object_eq(a: &Object, b: &Object) -> (r: bool)
    ensures
        r == (a@ == b@),
{
    match (a, b) {
        (Object::Entity(x), Object::Entity(y)) => x.id == y.id,
        (Object::StringLiteral(x), Object::StringLiteral(y)) => *x == *y,
        (Object::LongLiteral(x), Object::LongLiteral(y)) => *x == *y,
        _ => false,
    }
}

/// A statement: the atomic fact unit of the store.  Two statements are equal
/// exactly when all four fields are equal.
#[derive(Debug)]
pub struct Statement {
    pub subject: Entity,
    pub predicate: String,
    pub object: Object,
    pub context: Entity,
}

/// The mathematical value of a [`Statement`].
pub struct StatementV {
    pub subject: u64,
    pub predicate: Seq<char>,
    pub object: ObjectV,
    pub context: u64,
}

impl View for Statement {
    type V = StatementV;

    open spec fn view(&self) -> StatementV {
        StatementV {
            subject: self.subject.id,
            predicate: self.predicate@,
            object: self.object@,
            context: self.context.id,
        }
    }
}

impl Statement {
    /// A statement with the default context.
    pub fn new(subject: Entity, predicate: String, object: Object) -> (r: Statement)
        ensures
            r@ == (StatementV {
                subject: subject.id,
                predicate: predicate@,
                object: object@,
                context: DEFAULT_CONTEXT,
            }),
    {
        Statement { subject, predicate, object, context: Entity { id: DEFAULT_CONTEXT } }
    }

    /// A copy of this statement, equal to the original.
    pub fn duplicate(&self) -> (r: Statement)
        ensures
            r == *self,
    {
        Statement {
            subject: self.subject,
            predicate: self.predicate.clone(),
            object: self.object.duplicate(),
            context: self.context,
        }
    }
}

/// Equality of statements: all four fields must be equal.
pub fn statement_eq(a: &Statement, b: &Statement) -> (r: bool)
    ensures
        r == (a@ == b@),
{
    a.subject.id == b.subject.id && a.predicate == b.predicate && object_eq(&a.object, &b.object)
        && a.context.id == b.context.id
}

} // verus!
