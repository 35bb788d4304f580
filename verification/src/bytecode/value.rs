//! Values of the stack machine and the objects of its heap.

use vstd::prelude::*;
use crate::number::Number;
use hashers::fnv::FNV1aHasher64;
use std::collections::HashMap;
use std::hash::BuildHasherDefault;

verus! {

/// A value on the stack or in the constant pool. `Obj` is a handle: the
/// index of an object in the heap of the chunk that the value belongs to.
#[derive(Clone, Copy, Debug)]
pub enum Value {
    Number(Number),
    Boolean(bool),
    Nil,
    Obj { idx: usize },
}

impl Value {
    /// Equality of two values as such: numbers by IEEE equality, handles by
    /// index, values of different kinds never.
    pub open spec fn same(self, other: Value) -> bool {
        match (self, other) {
            (Value::Number(l), Value::Number(r)) => l.same(r),
            (Value::Boolean(l), Value::Boolean(r)) => l == r,
            (Value::Nil, Value::Nil) => true,
            (Value::Obj { idx: l }, Value::Obj { idx: r }) => l == r,
            _ => false,
        }
    }

    /// `nil` and `false` are falsy; everything else is truthy.
    pub open spec fn truthy(self) -> bool {
        match self {
            Value::Nil => false,
            Value::Boolean(b) => b,
            _ => true,
        }
    }

    /// Both values are of one kind.
    pub open spec fn same_kind(self, other: Value) -> bool {
        match (self, other) {
            (Value::Number(_), Value::Number(_)) => true,
            (Value::Boolean(_), Value::Boolean(_)) => true,
            (Value::Nil, Value::Nil) => true,
            (Value::Obj { .. }, Value::Obj { .. }) => true,
            _ => false,
        }
    }

    /// `self < other`, which only two numbers can satisfy.
    pub open spec fn below(self, other: Value) -> bool {
        match (self, other) {
            (Value::Number(l), Value::Number(r)) => l.below(r),
            _ => false,
        }
    }

    pub fn is_truthy(&self) -> (r: bool)
        ensures
            r == self.truthy(),
    {
        match self {
            Value::Nil => false,
            Value::Boolean(b) => *b,
            _ => true,
        }
    }

    /// Logical negation by truthiness.
    pub fn not(self) -> (r: Value)
        ensures
            r == Value::Boolean(!self.truthy()),
    {
        Value::Boolean(!self.is_truthy())
    }

    /// Arithmetic negation of a number.
    pub fn neg(self) -> (r: Value)
        requires
            self is Number,
        ensures
            r == Value::Number(Number { bits: self->Number_0.bits ^ crate::number::SIGN_BIT }),
    {
        match self {
            Value::Number(n) => Value::Number(n.negate()),
            _ => self,
        }
    }

    pub fn matches_kind(&self, other: &Value) -> (r: bool)
        ensures
            r == self.same_kind(*other),
    {
        match (self, other) {
            (Value::Number(_), Value::Number(_)) => true,
            (Value::Boolean(_), Value::Boolean(_)) => true,
            (Value::Nil, Value::Nil) => true,
            (Value::Obj { .. }, Value::Obj { .. }) => true,
            _ => false,
        }
    }

    pub fn less(&self, other: &Value) -> (r: bool)
        ensures
            r == self.below(*other),
    {
        match (self, other) {
            (Value::Number(l), Value::Number(r)) => l.less(*r),
            _ => false,
        }
    }

    pub fn greater(&self, other: &Value) -> (r: bool)
        ensures
            r == other.below(*self),
    {
        other.less(self)
    }
}

impl PartialEq for Value {
    fn eq(&self, other: &Value) -> (r: bool) {
        match (self, other) {
            (Value::Number(l), Value::Number(r)) => l.equals(*r),
            (Value::Boolean(l), Value::Boolean(r)) => *l == *r,
            (Value::Nil, Value::Nil) => true,
            (Value::Obj { idx: l }, Value::Obj { idx: r }) => *l == *r,
            _ => false,
        }
    }
}

impl vstd::std_specs::cmp::PartialEqSpecImpl for Value {
    open spec fn obeys_eq_spec() -> bool {
        true
    }

    open spec fn eq_spec(&self, other: &Value) -> bool {
        self.same(*other)
    }
}

/// A table from names to values: a `HashMap` that hashes with
/// `hashers::fnv::FNV1aHasher64`.
#[verifier::external_body]
#[derive(Debug)]
pub struct HashTable {
    inner: HashMap<String, Value, BuildHasherDefault<FNV1aHasher64>>,
}

/// What a table holds: the value under each name.
pub uninterp spec fn table_entries(t: HashTable) -> Map<Seq<char>, Value>;

/// The table without entries.
pub open spec fn no_entries() -> Map<Seq<char>, Value> {
    Map::empty()
}

/// `HashMap::default` with the FNV-1a hasher of `hashers`: a table that
/// holds nothing.
#[verifier::external_body]
fn table_new() -> (r: HashTable)
    ensures
        table_entries(r) == no_entries(),
{
    HashTable { inner: HashMap::default() }
}

/// `HashMap::insert`: afterwards `key` maps to `value`, and every other name
/// to what it mapped to before.
#[verifier::external_body]
fn table_insert(t: &mut HashTable, key: String, value: Value)
    ensures
        table_entries(*final(t)) == table_entries(*old(t)).insert(key@, value),
{
    t.inner.insert(key, value);
}

/// `HashMap::get`: the value under `key`, if the table has that name.
#[verifier::external_body]
fn table_get(t: &HashTable, key: &str) -> (r: Option<Value>)
    ensures
        r == (if table_entries(*t).dom().contains(key@) {
            Some(table_entries(*t)[key@])
        } else {
            None
        }),
{
    t.inner.get(key).copied()
}

/// `HashMap::iter`: every entry once, as a pair of name and value, in the
/// order in which the map walks them, of which nothing is claimed.
#[verifier::external_body]
fn table_pairs(t: &HashTable) -> (r: Vec<(String, Value)>)
    ensures
        r@.len() == table_entries(*t).dom().len(),
        forall|i: int|
            0 <= i < r@.len() ==> table_entries(*t).dom().contains(#[trigger] r@[i].0@)
                && table_entries(*t)[r@[i].0@] == r@[i].1,
        forall|i: int, j: int| 0 <= i < j < r@.len() ==> r@[i].0@ != r@[j].0@,
{
    t.inner.iter().map(|(k, v)| (k.clone(), *v)).collect()
}

impl HashTable {
    pub open spec fn entries(self) -> Map<Seq<char>, Value> {
        table_entries(self)
    }

    pub fn new() -> (r: HashTable)
        ensures
            r.entries() == no_entries(),
    {
        table_new()
    }

    /// Binds `key` to `value`, replacing what it was bound to.
    pub fn insert(&mut self, key: &str, value: Value)
        ensures
            final(self).entries() == old(self).entries().insert(key@, value),
    {
        table_insert(self, String::from_str(key), value)
    }

    pub fn get(&self, key: &str) -> (r: Option<Value>)
        ensures
            r == (if self.entries().dom().contains(key@) {
                Some(self.entries()[key@])
            } else {
                None
            }),
    {
        table_get(self, key)
    }

    /// Whether both tables have the same names, each bound to equal values.
    pub fn equals(&self, other: &HashTable) -> (r: bool)
        ensures
            r == tables_agree(self.entries(), other.entries()),
    {
        table_eq(self, other)
    }

    /// Every entry once, in no particular order.
    pub fn pairs(&self) -> (r: Vec<(String, Value)>)
        ensures
            r@.len() == self.entries().dom().len(),
            forall|i: int|
                0 <= i < r@.len() ==> self.entries().dom().contains(#[trigger] r@[i].0@)
                    && self.entries()[r@[i].0@] == r@[i].1,
            forall|i: int, j: int| 0 <= i < j < r@.len() ==> r@[i].0@ != r@[j].0@,
    {
        table_pairs(self)
    }
}

/// Both maps have the same names, each bound to equal values.
pub open spec fn tables_agree(a: Map<Seq<char>, Value>, b: Map<Seq<char>, Value>) -> bool {
    &&& a.dom() == b.dom()
    &&& forall|k: Seq<char>| a.dom().contains(k) ==> (#[trigger] a[k]).same(b[k])
}

/// `==` on two `HashMap`s: true where both hold the same names and the
/// values under each name are equal as `Value::eq` has it.
#[verifier::external_body]
fn table_eq(a: &HashTable, b: &HashTable) -> (r: bool)
    ensures
        r == tables_agree(table_entries(*a), table_entries(*b)),
{
    a.inner == b.inner
}

/// An object of the heap.
#[derive(Debug)]
pub enum Obj {
    String(String),
    HashTable { entries: HashTable },
}

/// What an object holds.
pub enum ObjView {
    Text(Seq<char>),
    Table(Map<Seq<char>, Value>),
}

impl View for Obj {
    type V = ObjView;

    open spec fn view(&self) -> ObjView {
        match self {
            Obj::String(s) => ObjView::Text(s@),
            Obj::HashTable { entries } => ObjView::Table(entries.entries()),
        }
    }
}

/// Equality of two objects by what they hold.
pub open spec fn objects_agree(a: ObjView, b: ObjView) -> bool {
    match (a, b) {
        (ObjView::Text(l), ObjView::Text(r)) => l == r,
        (ObjView::Table(l), ObjView::Table(r)) => tables_agree(l, r),
        _ => false,
    }
}

impl Obj {
    pub fn string(s: &str) -> (r: Obj)
        ensures
            r@ == ObjView::Text(s@),
    {
        Obj::String(String::from_str(s))
    }

    pub fn hash_table(entries: HashTable) -> (r: Obj)
        ensures
            r@ == ObjView::Table(entries.entries()),
    {
        Obj::HashTable { entries }
    }

    pub fn equals(&self, other: &Obj) -> (r: bool)
        ensures
            r == objects_agree(self@, other@),
    {
        match (self, other) {
            (Obj::String(l), Obj::String(r)) => *l == *r,
            (Obj::HashTable { entries: l }, Obj::HashTable { entries: r }) => l.equals(r),
            _ => false,
        }
    }
}

impl PartialEq for Obj {
    fn eq(&self, other: &Obj) -> (r: bool) {
        self.equals(other)
    }
}

impl vstd::std_specs::cmp::PartialEqSpecImpl for Obj {
    open spec fn obeys_eq_spec() -> bool {
        true
    }

    open spec fn eq_spec(&self, other: &Obj) -> bool {
        objects_agree(self@, other@)
    }
}

} // verus!
