use vstd::prelude::*;
use crate::error::{RloxError, RuntimeErrorKind};
use crate::interpreter::{copy_value, Val, Value};

verus! {

/// One scope frame: its bindings, in order of first definition, and the
/// index of its enclosing frame in the interpreter's frame store.
#[derive(Debug)]
pub struct Environment {
    pub enclosing: Option<usize>,
    pub values: Vec<(String, Value)>,
}

/// The mathematical model of a frame.
pub struct Frame {
    pub enclosing: Option<usize>,
    pub bindings: Seq<(Seq<char>, Val)>,
}

pub open spec fn binding_view(p: (String, Value)) -> (Seq<char>, Val) {
    (p.0@, p.1@)
}

impl View for Environment {
    type V = Frame;

    open spec fn view(&self) -> Frame {
        Frame { enclosing: self.enclosing, bindings: self.values@.map_values(|p: (String, Value)| binding_view(p)) }
    }
}

/// The index of the first binding of `name` at or after `i`.
pub open spec fn find_binding(b: Seq<(Seq<char>, Val)>, name: Seq<char>, i: int) -> Option<int>
    decreases b.len() - i,
{
    if i < 0 || i >= b.len() {
        None
    } else if b[i].0 == name {
        Some(i)
    } else {
        find_binding(b, name, i + 1)
    }
}

pub proof fn lemma_find_binding(b: Seq<(Seq<char>, Val)>, name: Seq<char>, i: int)
    ensures
        match find_binding(b, name, i) {
            Some(j) => 0 <= i <= j < b.len() && b[j].0 == name,
            None => true,
        },
    decreases b.len() - i,
{
    if 0 <= i < b.len() && b[i].0 != name {
        lemma_find_binding(b, name, i + 1);
    }
}

proof fn lemma_find_binding_push(b: Seq<(Seq<char>, Val)>, name: Seq<char>, v: Val, i: int)
    requires
        0 <= i <= b.len(),
        find_binding(b, name, i) is None,
    ensures
        find_binding(b.push((name, v)), name, i) == Some(b.len() as int),
    decreases b.len() - i,
{
    if i < b.len() {
        lemma_find_binding_push(b, name, v, i + 1);
    }
}

proof fn lemma_find_binding_update(b: Seq<(Seq<char>, Val)>, name: Seq<char>, j: int, v: Val, i: int)
    requires
        0 <= i <= j < b.len(),
        find_binding(b, name, i) == Some(j),
    ensures
        find_binding(b.update(j, (name, v)), name, i) == Some(j),
    decreases j - i,
{
    if i < j {
        lemma_find_binding_update(b, name, j, v, i + 1);
    }
}

/// After a definition the frame binds the name to the new value.
pub proof fn lemma_define_then_lookup(f: Frame, name: Seq<char>, v: Val)
    ensures
        frame_lookup(frame_define(f, name, v), name) == Some(v),
{
    lemma_find_binding(f.bindings, name, 0);
    match find_binding(f.bindings, name, 0) {
        Some(j) => lemma_find_binding_update(f.bindings, name, j, v, 0),
        None => lemma_find_binding_push(f.bindings, name, v, 0),
    }
}

/// The value bound to `name` in the frame itself, if any.
pub open spec fn frame_lookup(f: Frame, name: Seq<char>) -> Option<Val> {
    match find_binding(f.bindings, name, 0) {
        Some(j) => Some(f.bindings[j].1),
        None => None,
    }
}

/// The frame after `name` is bound to `v`: a binding already there is
/// replaced, otherwise one is added.
pub open spec fn frame_define(f: Frame, name: Seq<char>, v: Val) -> Frame {
    match find_binding(f.bindings, name, 0) {
        Some(j) => Frame { enclosing: f.enclosing, bindings: f.bindings.update(j, (name, v)) },
        None => Frame { enclosing: f.enclosing, bindings: f.bindings.push((name, v)) },
    }
}

/// The frame reached from `start` by following `depth` enclosing links,
/// if every index on the way is a frame of the store.
pub open spec fn ancestor(frames: Seq<Frame>, start: int, depth: nat) -> Option<int>
    decreases depth,
{
    if start < 0 || start >= frames.len() {
        None
    } else if depth == 0 {
        Some(start)
    } else {
        match frames[start].enclosing {
            Some(p) => ancestor(frames, p as int, (depth - 1) as nat),
            None => None,
        }
    }
}

pub proof fn lemma_ancestor(frames: Seq<Frame>, start: int, depth: nat)
    ensures
        match ancestor(frames, start, depth) {
            Some(k) => 0 <= k < frames.len(),
            None => true,
        },
    decreases depth,
{
    if 0 <= start < frames.len() && depth > 0 {
        if let Some(p) = frames[start].enclosing {
            lemma_ancestor(frames, p as int, (depth - 1) as nat);
        }
    }
}

pub open spec fn runtime_error(kind: RuntimeErrorKind, lexeme: Option<String>) -> RloxError {
    RloxError::RuntimeError { kind, lexeme }
}

/// What reading `name` at `depth` links from `start` gives.
pub open spec fn read_at(frames: Seq<Frame>, start: int, depth: nat, name: String) -> Result<Val, RloxError> {
    match ancestor(frames, start, depth) {
        None => Err(runtime_error(RuntimeErrorKind::InvalidScope, Some(name))),
        Some(k) => match frame_lookup(frames[k], name@) {
            Some(v) => Ok(v),
            None => Err(runtime_error(RuntimeErrorKind::UndefinedVariable, Some(name))),
        },
    }
}

/// The frame store after assigning `v` to the existing binding of `name`
/// at `depth` links from `start`, or the error that prevents it.
pub open spec fn write_at(frames: Seq<Frame>, start: int, depth: nat, name: String, v: Val) -> Result<Seq<Frame>, RloxError> {
    match ancestor(frames, start, depth) {
        None => Err(runtime_error(RuntimeErrorKind::InvalidScope, Some(name))),
        Some(k) => match frame_lookup(frames[k], name@) {
            Some(_) => Ok(frames.update(k, frame_define(frames[k], name@, v))),
            None => Err(runtime_error(RuntimeErrorKind::UndefinedVariable, Some(name))),
        },
    }
}

pub open spec fn frames_view(envs: Seq<Environment>) -> Seq<Frame> {
    envs.map_values(|e: Environment| e@)
}

impl Environment {
    /// A root frame with no bindings.
    pub fn global() -> (r: Environment)
        ensures
            r@.enclosing is None,
            r@.bindings.len() == 0,
    {
        let r = Environment { enclosing: None, values: Vec::new() };
        assert(r@.bindings =~= Seq::<(Seq<char>, Val)>::empty());
        r
    }

    /// An empty frame enclosed by the frame at index `enclosing`.
    pub fn new(enclosing: usize) -> (r: Environment)
        ensures
            r@ == (Frame { enclosing: Some(enclosing), bindings: Seq::empty() }),
    {
        let r = Environment { enclosing: Some(enclosing), values: Vec::new() };
        assert(r@.bindings =~= Seq::<(Seq<char>, Val)>::empty());
        r
    }

    fn position(&self, name: &String) -> (r: Option<usize>)
        ensures
            match r {
                Some(j) => find_binding(self@.bindings, name@, 0) == Some(j as int) && j < self.values.len(),
                None => find_binding(self@.bindings, name@, 0) is None,
            },
    {
        let mut i: usize = 0;
        while i < self.values.len()
            invariant
                i <= self.values.len(),
                self@.bindings.len() == self.values.len(),
                find_binding(self@.bindings, name@, 0) == find_binding(self@.bindings, name@, i as int),
            decreases self.values.len() - i,
        {
            if self.values[i].0 == *name {
                proof { lemma_find_binding(self@.bindings, name@, i as int); }
                return Some(i);
            }
            i = i + 1;
        }
        None
    }

    /// Binds `name` to `value` in this frame, replacing a binding of the
    /// same name.
    pub fn define(&mut self, name: &String, value: Value)
        ensures
            final(self)@ == frame_define(old(self)@, name@, value@),
    {
        let ghost f = self@;
        match self.position(name) {
            Some(j) => {
                self.values.set(j, (name.clone(), value));
                assert(self@.bindings =~= f.bindings.update(j as int, (name@, value@)));
            },
            None => {
                self.values.push((name.clone(), value));
                assert(self@.bindings =~= f.bindings.push((name@, value@)));
            },
        }
    }

    /// The value bound to `name` in this frame itself.
    pub fn get(&self, name: &String) -> (r: Option<Value>)
        ensures
            match r {
                Some(v) => frame_lookup(self@, name@) == Some(v@),
                None => frame_lookup(self@, name@) is None,
            },
    {
        match self.position(name) {
            Some(j) => Some(copy_value(&self.values[j].1)),
            None => None,
        }
    }

    /// Follows `distance` enclosing links from the frame at `start`.
    pub fn ancestor(envs: &Vec<Environment>, start: usize, distance: usize) -> (r: Option<usize>)
        ensures
            match r {
                Some(k) => ancestor(frames_view(envs@), start as int, distance as nat) == Some(k as int) && k < envs.len(),
                None => ancestor(frames_view(envs@), start as int, distance as nat) is None,
            },
    {
        let ghost fr = frames_view(envs@);
        let mut k = start;
        let mut d = distance;
        while d > 0
            invariant
                fr == frames_view(envs@),
                ancestor(fr, start as int, distance as nat) == ancestor(fr, k as int, d as nat),
            decreases d,
        {
            if k >= envs.len() {
                return None;
            }
            match envs[k].enclosing {
                Some(p) => {
                    k = p;
                    d = d - 1;
                },
                None => {
                    return None;
                },
            }
        }
        if k >= envs.len() {
            None
        } else {
            Some(k)
        }
    }

    /// The value of `name` in the frame `distance` links out from `start`.
    pub fn get_at(envs: &Vec<Environment>, start: usize, distance: usize, name: &String) -> (r: Result<Value, RloxError>)
        ensures
            match r {
                Ok(v) => read_at(frames_view(envs@), start as int, distance as nat, *name) == Ok::<Val, RloxError>(v@),
                Err(e) => read_at(frames_view(envs@), start as int, distance as nat, *name) == Err::<Val, RloxError>(e),
            },
    {
        match Environment::ancestor(envs, start, distance) {
            None => Err(RloxError::RuntimeError { kind: RuntimeErrorKind::InvalidScope, lexeme: Some(name.clone()) }),
            Some(k) => match envs[k].get(name) {
                Some(v) => Ok(v),
                None => Err(RloxError::RuntimeError { kind: RuntimeErrorKind::UndefinedVariable, lexeme: Some(name.clone()) }),
            },
        }
    }

    /// Assigns `value` to the existing binding of `name` in the frame
    /// `distance` links out from `start`.
    pub fn assign_at(envs: &mut Vec<Environment>, start: usize, distance: usize, name: &String, value: Value) -> (r: Result<(), RloxError>)
        ensures
            match write_at(frames_view(old(envs)@), start as int, distance as nat, *name, value@) {
                Ok(fr) => r is Ok && frames_view(final(envs)@) == fr,
                Err(e) => r == Err::<(), RloxError>(e) && final(envs)@ == old(envs)@,
            },
    {
        let ghost fr = frames_view(envs@);
        match Environment::ancestor(envs, start, distance) {
            None => Err(RloxError::RuntimeError { kind: RuntimeErrorKind::InvalidScope, lexeme: Some(name.clone()) }),
            Some(k) => {
                if envs[k].position(name).is_none() {
                    return Err(RloxError::RuntimeError { kind: RuntimeErrorKind::UndefinedVariable, lexeme: Some(name.clone()) });
                }
                envs[k].define(name, value);
                assert(frames_view(envs@) =~= fr.update(k as int, frame_define(fr[k as int], name@, value@)));
                Ok(())
            },
        }
    }
}

} // verus!
