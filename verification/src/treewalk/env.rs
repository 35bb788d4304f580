//! The environment: a stack of frames, each a map from names to values.

use vstd::prelude::*;
use crate::treewalk::error::Error;
use crate::treewalk::value::Value;
use hash_chain::ChainMap;

verus! {

/// The frames of an environment: a `hash_chain::ChainMap` from names to
/// values.
#[verifier::external_body]
#[derive(Debug)]
pub struct Frames {
    inner: ChainMap<String, Value>,
}

/// The frames that a chain map holds, the outermost first.
pub uninterp spec fn frames_of(f: Frames) -> Seq<Map<Seq<char>, Value>>;

/// A frame that binds nothing.
pub open spec fn empty_frame() -> Map<Seq<char>, Value> {
    Map::empty()
}

/// The index of the innermost frame that binds `name`, if one does.
pub open spec fn holder(frames: Seq<Map<Seq<char>, Value>>, name: Seq<char>) -> Option<int>
    decreases frames.len(),
{
    if frames.len() == 0 {
        None
    } else if frames.last().dom().contains(name) {
        Some(frames.len() - 1)
    } else {
        holder(frames.drop_last(), name)
    }
}

/// `frames` with `name` bound to `value` in frame `idx`.
pub open spec fn bind_at(
    frames: Seq<Map<Seq<char>, Value>>,
    idx: int,
    name: Seq<char>,
    value: Value,
) -> Seq<Map<Seq<char>, Value>> {
    frames.update(idx, frames[idx].insert(name, value))
}

/// `ChainMap::default`: one frame, which binds nothing.
#[verifier::external_body]
fn frames_default() -> (r: Frames)
    ensures
        frames_of(r) == seq![empty_frame()],
{
    Frames { inner: ChainMap::default() }
}

/// `ChainMap::child_len`: the number of frames.
#[verifier::external_body]
fn frames_len(f: &Frames) -> (r: usize)
    ensures
        r == frames_of(*f).len(),
{
    f.inner.child_len()
}

/// `ChainMap::new_child`: one more frame on top, which binds nothing.
#[verifier::external_body]
fn frames_new_child(f: &mut Frames)
    ensures
        frames_of(*final(f)) == frames_of(*old(f)).push(empty_frame()),
{
    f.inner.new_child()
}

/// `ChainMap::remove_child`: the top frame leaves; where it is the only
/// one, it stays and is emptied. Without frames nothing happens.
#[verifier::external_body]
fn frames_remove_child(f: &mut Frames)
    ensures
        frames_of(*final(f)) == (if frames_of(*old(f)).len() == 1 {
            seq![empty_frame()]
        } else if frames_of(*old(f)).len() == 0 {
            frames_of(*old(f))
        } else {
            frames_of(*old(f)).drop_last()
        }),
{
    let _ = f.inner.remove_child();
}

/// `ChainMap::insert`: binds `key` to `value` in the top frame. Without
/// frames nothing happens.
#[verifier::external_body]
fn frames_insert(f: &mut Frames, key: String, value: Value)
    ensures
        frames_of(*final(f)) == (if frames_of(*old(f)).len() == 0 {
            frames_of(*old(f))
        } else {
            bind_at(frames_of(*old(f)), frames_of(*old(f)).len() - 1, key@, value)
        }),
{
    let _ = f.inner.insert(key, value);
}

/// `ChainMap::insert_at`: binds `key` to `value` in frame `idx`, which must
/// be there.
#[verifier::external_body]
fn frames_insert_at(f: &mut Frames, idx: usize, key: String, value: Value)
    requires
        idx < frames_of(*old(f)).len(),
    ensures
        frames_of(*final(f)) == bind_at(frames_of(*old(f)), idx as int, key@, value),
{
    let _ = f.inner.insert_at(idx, key, value);
}

/// `ChainMap::get_before`: what the innermost frame below `idx` that binds
/// `key` binds it to; every frame counts where `idx` is not below their
/// number.
#[verifier::external_body]
fn frames_get_before<'a>(f: &'a Frames, idx: usize, key: &str) -> (r: Option<&'a Value>)
    ensures
        r is Some == holder(below(frames_of(*f), idx), key@) is Some,
        r is Some ==> *r->Some_0 == frames_of(*f)[holder(below(frames_of(*f), idx), key@)->Some_0][key@],
{
    f.inner.get_before(idx, key)
}

/// The frames below `idx`, or all of them where `idx` is not below their
/// number.
pub open spec fn below(frames: Seq<Map<Seq<char>, Value>>, idx: usize) -> Seq<Map<Seq<char>, Value>> {
    if idx >= frames.len() {
        frames
    } else {
        frames.subrange(0, idx as int)
    }
}

/// `ChainMap::get_last_index`: the index of the innermost frame that binds
/// `key`.
#[verifier::external_body]
fn frames_last_index(f: &Frames, key: &str) -> (r: Option<usize>)
    ensures
        r is Some == holder(frames_of(*f), key@) is Some,
        r is Some ==> r->Some_0 == holder(frames_of(*f), key@)->Some_0,
{
    f.inner.get_last_index(key)
}

/// `ChainMap::has_at`: whether frame `idx` is there and binds `key`.
#[verifier::external_body]
fn frames_has_at(f: &Frames, idx: usize, key: &str) -> (r: bool)
    ensures
        r == (idx < frames_of(*f).len() && frames_of(*f)[idx as int].dom().contains(key@)),
{
    f.inner.has_at(idx, key)
}

/// `ChainMap::split_off`: the frames from `idx` on leave and are returned;
/// those below `idx` stay.
#[verifier::external_body]
fn frames_split_off(f: &mut Frames, idx: usize) -> (r: Frames)
    requires
        idx <= frames_of(*old(f)).len(),
    ensures
        frames_of(*final(f)) == frames_of(*old(f)).subrange(0, idx as int),
        frames_of(r) == frames_of(*old(f)).subrange(idx as int, frames_of(*old(f)).len() as int),
{
    Frames { inner: f.inner.split_off(idx) }
}

/// `ChainMap::append`: the frames of `other` are put on top, in their
/// order.
#[verifier::external_body]
fn frames_append(f: &mut Frames, other: Frames)
    ensures
        frames_of(*final(f)) == frames_of(*old(f)) + frames_of(other),
{
    let mut other = other;
    f.inner.append(&mut other.inner)
}

/// `ChainMap::clone`, which the crate derives: the copy holds the same frames
/// in the same order, each key and value copied by its own `clone`. A value's
/// `clone` is proved to return the value's equal, so the copy is taken to be
/// equal to the chain map it was made from.
#[verifier::external_body]
fn frames_clone(f: &Frames) -> (r: Frames)
    ensures
        r == *f,
{
    Frames { inner: f.inner.clone() }
}

impl Clone for Frames {
    fn clone(&self) -> (r: Frames)
        ensures
            r == *self,
    {
        frames_clone(self)
    }
}

/// The frame of the built-in functions.
pub open spec fn builtins() -> Map<Seq<char>, Value> {
    empty_frame().insert("clock"@, Value::clock_value()).insert("mod"@, Value::modulo_value())
}

/// The index of the frame in which `name` is read or assigned: the frame
/// `hop` scopes out from the innermost one, where a hop is given and that
/// frame binds the name; else the innermost frame that binds it.
pub open spec fn target(frames: Seq<Map<Seq<char>, Value>>, name: Seq<char>, hop: Option<usize>) -> Option<
    int,
> {
    if hop is Some && hop->Some_0 < frames.len() && frames[frames.len() - 1
        - hop->Some_0].dom().contains(name) {
        Some(frames.len() - 1 - hop->Some_0)
    } else {
        holder(frames, name)
    }
}

pub proof fn holder_in_range(frames: Seq<Map<Seq<char>, Value>>, name: Seq<char>)
    ensures
        holder(frames, name) matches Some(i) ==> 0 <= i < frames.len() && frames[i].dom().contains(
            name,
        ),
    decreases frames.len(),
{
    if frames.len() > 0 && !frames.last().dom().contains(name) {
        holder_in_range(frames.drop_last(), name);
    }
}

/// In an environment of one frame, a name is found exactly if that frame
/// binds it.
pub proof fn holder_of_one(frames: Seq<Map<Seq<char>, Value>>, name: Seq<char>)
    requires
        frames.len() == 1,
    ensures
        holder(frames, name) == (if frames[0].dom().contains(name) {
            Some(0int)
        } else {
            None
        }),
{
    assert(frames.last() == frames[0]);
    assert(frames.drop_last().len() == 0);
    assert(holder(frames.drop_last(), name) is None);
}

/// A part of an environment that was taken out of it, with the depth it was
/// taken from.
#[derive(Debug, Clone)]
pub struct EnvStub {
    pub values: Frames,
    pub idx: usize,
}

/// A stack of frames. Names are looked up from the innermost frame, the
/// last, outwards.
#[derive(Debug)]
pub struct Env {
    values: Frames,
}

impl Clone for Env {
    fn clone(&self) -> (r: Env)
        ensures
            r == *self,
    {
        Env { values: self.values.clone() }
    }
}

/// The message for a name that no frame binds.
pub open spec fn undefined_text(name: Seq<char>) -> Seq<char> {
    "variable \""@ + name + "\" is not yet defined"@
}

fn undefined(name: &str) -> (r: Error)
    ensures
        r is Runtime,
        r->Runtime_0@ == undefined_text(name@),
{
    Error::Runtime(String::from_str("variable \"").concat(name).concat("\" is not yet defined"))
}

impl Env {
    /// The frames, the outermost first.
    pub closed spec fn frames(&self) -> Seq<Map<Seq<char>, Value>> {
        frames_of(self.values)
    }

    /// The number of frames.
    pub fn depth(&self) -> (r: usize)
        ensures
            r == self.frames().len(),
    {
        frames_len(&self.values)
    }

    /// The environment a program starts in: the frame of the built-in
    /// functions and, on top of it, the empty frame of the program's own
    /// globals.
    pub fn root() -> (r: Env)
        ensures
            r.frames() == seq![builtins(), empty_frame()],
    {
        let mut start = Self::global();
        frames_new_child(&mut start.values);
        start
    }

    fn global() -> (r: Env)
        ensures
            r.frames() == seq![builtins()],
    {
        let mut values = frames_default();
        frames_insert(&mut values, String::from_str("clock"), Value::clock());
        frames_insert(&mut values, String::from_str("mod"), Value::modulo());
        let r = Env { values };
        assert(r.frames() =~= seq![builtins()]);
        r
    }

    /// An environment of `depth` frames on top of the outermost one, none of
    /// which binds anything.
    pub fn new(depth: usize) -> (r: Env)
        ensures
            r.frames() == Seq::new((depth + 1) as nat, |i: int| empty_frame()),
    {
        let mut values = frames_default();
        let mut k: usize = 0;
        while k < depth
            invariant
                k <= depth,
                frames_of(values) == Seq::new((k + 1) as nat, |i: int| empty_frame()),
            decreases depth - k,
        {
            frames_new_child(&mut values);
            k += 1;
            assert(frames_of(values) =~= Seq::new((k + 1) as nat, |i: int| empty_frame()));
        }
        Env { values }
    }

    /// Enters a scope: pushes a frame that binds nothing.
    pub fn descend(&mut self)
        ensures
            final(self).frames() == old(self).frames().push(empty_frame()),
    {
        frames_new_child(&mut self.values)
    }

    /// Leaves a scope: pops the innermost frame. The outermost frame never
    /// leaves; it is emptied instead.
    pub fn ascend(&mut self)
        ensures
            final(self).frames() == (if old(self).frames().len() == 1 {
                seq![empty_frame()]
            } else if old(self).frames().len() == 0 {
                old(self).frames()
            } else {
                old(self).frames().drop_last()
            }),
    {
        frames_remove_child(&mut self.values)
    }

    /// Gives the innermost binding of `s` the value `new` and returns the
    /// value; fails where no frame binds `s`.
    pub fn assign(&mut self, s: &str, new: Value) -> (r: Result<Value, Error>)
        ensures
            assigned(old(self).frames(), final(self).frames(), s@, None, new, r),
            final(self).frames().len() == old(self).frames().len(),
    {
        self.assign_at(s, None, new)
    }

    /// As `assign`, in the frame that `hop` points to.
    pub fn assign_at(&mut self, s: &str, hop: Option<usize>, new: Value) -> (r: Result<
        Value,
        Error,
    >)
        ensures
            assigned(old(self).frames(), final(self).frames(), s@, hop, new, r),
            final(self).frames().len() == old(self).frames().len(),
    {
        match self.find(s, hop) {
            Some(idx) => {
                frames_insert_at(&mut self.values, idx, String::from_str(s), new.clone());
                Ok(new)
            },
            None => Err(undefined(s)),
        }
    }

    /// The index of the frame in which `s` is read or assigned.
    pub fn find(&self, s: &str, hop: Option<usize>) -> (r: Option<usize>)
        ensures
            r is Some == target(self.frames(), s@, hop) is Some,
            r is Some ==> r->Some_0 == target(self.frames(), s@, hop)->Some_0 && r->Some_0
                < self.frames().len() && self.frames()[r->Some_0 as int].dom().contains(s@),
    {
        proof {
            holder_in_range(self.frames(), s@);
        }
        let n = frames_len(&self.values);
        if let Some(h) = hop {
            if h < n && frames_has_at(&self.values, n - 1 - h, s) {
                return Some(n - 1 - h);
            }
        }
        frames_last_index(&self.values, s)
    }

    /// Binds `s` in the innermost frame, to `val` or, without one, to `nil`.
    pub fn define(&mut self, s: &str, val: Option<Value>)
        ensures
            final(self).frames() == (if old(self).frames().len() == 0 {
                old(self).frames()
            } else {
                bind_at(
                    old(self).frames(),
                    old(self).frames().len() - 1,
                    s@,
                    match val {
                        Some(v) => v,
                        None => Value::Nil,
                    },
                )
            }),
    {
        let resolved = match val {
            Some(v) => v,
            None => Value::Nil,
        };
        frames_insert(&mut self.values, String::from_str(s), resolved);
    }

    /// The value of the innermost binding of `s`; fails where no frame binds
    /// `s`.
    pub fn get(&self, s: &str) -> (r: Result<Value, Error>)
        ensures
            fetched(self.frames(), s@, None, r),
    {
        self.get_at(s, None)
    }

    /// As `get`, from the frame that `hop` points to.
    pub fn get_at(&self, s: &str, hop: Option<usize>) -> (r: Result<Value, Error>)
        ensures
            fetched(self.frames(), s@, hop, r),
    {
        let n = frames_len(&self.values);
        match self.find(s, hop) {
            Some(idx) => {
                proof {
                    let part = below(self.frames(), (idx + 1) as usize);
                    assert(part.last() == self.frames()[idx as int]);
                }
                match frames_get_before(&self.values, idx + 1, s) {
                    Some(v) => Ok(v.clone()),
                    None => Err(undefined(s)),
                }
            },
            None => Err(undefined(s)),
        }
    }

    /// Takes the frames above the two outermost ones out of the environment.
    pub fn split_to_base(&mut self) -> (r: Env)
        requires
            old(self).frames().len() >= 2,
        ensures
            final(self).frames() == old(self).frames().subrange(0, 2),
            r.frames() == detached(old(self).frames(), 2),
    {
        self.split(2)
    }

    /// Takes the frames from `idx` on out of the environment and returns
    /// them as an environment of their own, which has one empty frame where
    /// there was none to take.
    pub fn split(&mut self, idx: usize) -> (r: Env)
        requires
            idx <= old(self).frames().len(),
        ensures
            final(self).frames() == old(self).frames().subrange(0, idx as int),
            r.frames() == detached(old(self).frames(), idx as int),
    {
        let mut values = frames_split_off(&mut self.values, idx);
        if frames_len(&values) == 0 {
            frames_new_child(&mut values);
            assert(frames_of(values) =~= seq![empty_frame()]);
        }
        Env { values }
    }

    /// Takes the frames from `idx` on out of the environment and returns
    /// them, none where there is none to take.
    pub fn detach(&mut self, idx: usize) -> (r: Env)
        requires
            idx <= old(self).frames().len(),
        ensures
            final(self).frames() == old(self).frames().subrange(0, idx as int),
            r.frames() == old(self).frames().subrange(idx as int, old(self).frames().len() as int),
    {
        Env { values: frames_split_off(&mut self.values, idx) }
    }

    /// Puts the frames of `other` on top of this environment's.
    pub fn append(&mut self, other: Env)
        ensures
            final(self).frames() == old(self).frames() + other.frames(),
    {
        frames_append(&mut self.values, other.values)
    }

    /// A copy of the frames above the two outermost ones.
    pub fn clone_to_base(&self) -> (r: Env)
        requires
            self.frames().len() >= 2,
        ensures
            r.frames() == detached(self.frames(), 2),
    {
        let mut other = self.clone();
        other.split(2)
    }
}

/// The frames from `idx` on, or one empty frame where there are none.
pub open spec fn detached(frames: Seq<Map<Seq<char>, Value>>, idx: int) -> Seq<
    Map<Seq<char>, Value>,
> {
    if idx >= frames.len() {
        seq![empty_frame()]
    } else {
        frames.subrange(idx, frames.len() as int)
    }
}

/// How reading `name` relates the frames and what is returned.
pub open spec fn fetched(
    frames: Seq<Map<Seq<char>, Value>>,
    name: Seq<char>,
    hop: Option<usize>,
    r: Result<Value, Error>,
) -> bool {
    match target(frames, name, hop) {
        Some(i) => r == Ok::<Value, Error>(frames[i][name]),
        None => r is Err && r->Err_0 is Runtime && r->Err_0->Runtime_0@ == undefined_text(name),
    }
}

/// How assigning `value` to `name` relates the frames before, the frames
/// after and what is returned.
pub open spec fn assigned(
    before: Seq<Map<Seq<char>, Value>>,
    after: Seq<Map<Seq<char>, Value>>,
    name: Seq<char>,
    hop: Option<usize>,
    value: Value,
    r: Result<Value, Error>,
) -> bool {
    match target(before, name, hop) {
        Some(i) => after == bind_at(before, i, name, value) && r == Ok::<Value, Error>(value),
        None => after == before && r is Err && r->Err_0 is Runtime && r->Err_0->Runtime_0@
            == undefined_text(name),
    }
}

} // verus!
