//! The environment: a chain of name-to-value frames with ancestor-indexed
//! lookup.
//!
//! Frames live in one arena and refer to their parent by index, so closures
//! can share frames: a mutation through one holder is seen by every other.
//! A frame's bindings are an append-only association list read from the
//! end; its mathematical image is the map of the latest bindings.

use vstd::prelude::*;
use vstd::pervasive::VecAdditionalExecFns;
use vstd::string::StringExecFns;
use crate::loxtype::LoxType;
use crate::loxtype::LoxTypeView;
use crate::text::str_eq;

verus! {

/// Failed lookup or assignment: the name is not bound where it was sought.
#[derive(Debug, PartialEq, Eq, Structural)]
pub struct UndefinedVariable();

/// One frame: optional parent (by arena index) and its bindings.
#[derive(Debug)]
pub struct Frame {
    maybe_enclosing: Option<usize>,
    values: Vec<(String, LoxType)>,
}

/// Mathematical image of a frame: the parent index and the map of the
/// latest bindings.
#[verifier::ext_equal]
pub struct FrameView {
    pub maybe_enclosing: Option<int>,
    pub vars: Map<Seq<char>, LoxTypeView>,
}

/// The binding map of an association list, later entries shadowing earlier.
pub open spec fn vars_map(vs: Seq<(String, LoxType)>) -> Map<Seq<char>, LoxTypeView>
    decreases vs.len(),
{
    if vs.len() == 0 {
        Map::<Seq<char>, LoxTypeView>::empty()
    } else {
        vars_map(vs.drop_last()).insert(vs.last().0@, vs.last().1@)
    }
}

impl View for Frame {
    type V = FrameView;

    closed spec fn view(&self) -> FrameView {
        FrameView {
            maybe_enclosing: match self.maybe_enclosing {
                Some(p) => Some(p as int),
                None => None,
            },
            vars: vars_map(self.values@),
        }
    }
}

/// The arena of all frames; index 0 is the globals frame.
#[derive(Debug)]
pub struct Environment {
    frames: Vec<Frame>,
}

impl View for Environment {
    type V = Seq<FrameView>;

    closed spec fn view(&self) -> Seq<FrameView> {
        self.frames@.map_values(|f: Frame| f@)
    }
}

/// The value of `name`, `distance` parent hops above frame `frame`; `None`
/// both for an unbound name and for a hop past the top of the chain.
pub open spec fn env_get(
    env: Seq<FrameView>,
    frame: int,
    distance: nat,
    name: Seq<char>,
) -> Option<LoxTypeView>
    decreases distance,
{
    if !(0 <= frame < env.len()) {
        None
    } else if distance == 0 {
        if env[frame].vars.contains_key(name) {
            Some(env[frame].vars[name])
        } else {
            None
        }
    } else {
        match env[frame].maybe_enclosing {
            Some(p) => env_get(env, p, (distance - 1) as nat, name),
            None => None,
        }
    }
}

/// The environment after binding `name` to `val` in frame `frame`.
pub open spec fn env_define(
    env: Seq<FrameView>,
    frame: int,
    name: Seq<char>,
    val: LoxTypeView,
) -> Seq<FrameView> {
    env.update(
        frame,
        FrameView { maybe_enclosing: env[frame].maybe_enclosing, vars: env[frame].vars.insert(name, val) },
    )
}

/// The environment after assigning `name`, `distance` hops above `frame`;
/// `None` when the name is not already bound there.
pub open spec fn env_assign(
    env: Seq<FrameView>,
    frame: int,
    distance: nat,
    name: Seq<char>,
    val: LoxTypeView,
) -> Option<Seq<FrameView>>
    decreases distance,
{
    if !(0 <= frame < env.len()) {
        None
    } else if distance == 0 {
        if env[frame].vars.contains_key(name) {
            Some(env_define(env, frame, name, val))
        } else {
            None
        }
    } else {
        match env[frame].maybe_enclosing {
            Some(p) => env_assign(env, p, (distance - 1) as nat, name, val),
            None => None,
        }
    }
}

/// The latest binding of `name` in an association list.
pub(crate) fn find_value(values: &Vec<(String, LoxType)>, name: &str) -> (r: Option<LoxType>)
    ensures
        match r {
            Some(v) => vars_map(values@).contains_key(name@) && vars_map(values@)[name@] == v@,
            None => !vars_map(values@).contains_key(name@),
        },
{
    let mut j: usize = values.len();
    proof {
        assert(values@.take(j as int) =~= values@);
    }
    while j > 0
        invariant
            j <= values.len(),
            forall|k: int| j <= k < values@.len() ==> values@[k].0@ != name@,
            vars_map(values@.take(j as int)).contains_key(name@) == vars_map(
                values@,
            ).contains_key(name@),
            vars_map(values@.take(j as int)).contains_key(name@) ==> vars_map(
                values@.take(j as int),
            )[name@] == vars_map(values@)[name@],
        decreases j,
    {
        proof {
            assert(values@.take(j as int).drop_last() =~= values@.take(j - 1));
            assert(values@.take(j as int).last() == values@[j - 1]);
        }
        if str_eq(values[j - 1].0.as_str(), name) {
            return Some(values[j - 1].1.dup());
        }
        j = j - 1;
    }
    proof {
        assert(values@.take(0) =~= Seq::<(String, LoxType)>::empty());
    }
    None
}

impl Environment {
    /// A fresh arena holding only the globals frame.
    pub fn new() -> (r: Self)
        ensures
            r@.len() == 1,
            r@[0].maybe_enclosing is None,
            r@[0].vars == Map::<Seq<char>, LoxTypeView>::empty(),
    {
        let mut frames: Vec<Frame> = Vec::new();
        frames.push(Frame { maybe_enclosing: None, values: Vec::new() });
        Environment { frames }
    }

    pub fn len(&self) -> (r: usize)
        ensures
            r == self@.len(),
    {
        self.frames.len()
    }

    /// Adds a fresh, empty child of `enclosing` and returns its index.
    pub fn new_frame(&mut self, enclosing: usize) -> (idx: usize)
        ensures
            idx == old(self)@.len(),
            final(self)@ == old(self)@.push(
                FrameView {
                    maybe_enclosing: Some(enclosing as int),
                    vars: Map::<Seq<char>, LoxTypeView>::empty(),
                },
            ),
    {
        let idx = self.frames.len();
        self.frames.push(Frame { maybe_enclosing: Some(enclosing), values: Vec::new() });
        proof {
            assert(final(self)@ =~= old(self)@.push(
                FrameView {
                    maybe_enclosing: Some(enclosing as int),
                    vars: Map::<Seq<char>, LoxTypeView>::empty(),
                },
            ));
        }
        idx
    }

    /// Binds `name` to `value` in frame `frame`, inserting or overwriting.
    pub fn define(&mut self, frame: usize, name: &str, value: LoxType)
        requires
            frame < old(self)@.len(),
        ensures
            final(self)@ == env_define(old(self)@, frame as int, name@, value@),
    {
        let mut taken = Frame { maybe_enclosing: None, values: Vec::new() };
        self.frames.set_and_swap(frame, &mut taken);
        taken.values.push((String::from_str(name), value));
        self.frames.set_and_swap(frame, &mut taken);
        proof {
            assert(final(self).frames@[frame as int].values@.drop_last() =~= old(
                self,
            ).frames@[frame as int].values@);
            assert(final(self)@ =~= env_define(old(self)@, frame as int, name@, value@));
        }
    }

    /// Reads `name` in the frame `distance` hops above `frame`. A missing
    /// binding, and a hop past the top of the chain, are reported, never a
    /// fault.
    pub fn get_at(&self, frame: usize, distance: u32, name: &str) -> (r: Result<
        LoxType,
        UndefinedVariable,
    >)
        ensures
            match env_get(self@, frame as int, distance as nat, name@) {
                Some(v) => r matches Ok(x) && x@ == v,
                None => r is Err,
            },
        decreases distance,
    {
        if frame >= self.frames.len() {
            return Err(UndefinedVariable());
        }
        if distance == 0 {
            match find_value(&self.frames[frame].values, name) {
                Some(v) => Ok(v),
                None => Err(UndefinedVariable()),
            }
        } else {
            match self.frames[frame].maybe_enclosing {
                Some(p) => self.get_at(p, distance - 1, name),
                None => Err(UndefinedVariable()),
            }
        }
    }

    /// Overwrites `name` in the frame `distance` hops above `frame`; the
    /// name must already be bound there.
    pub fn assign_at(&mut self, frame: usize, distance: u32, name: &str, value: LoxType) -> (r:
        Result<(), UndefinedVariable>)
        ensures
            match env_assign(old(self)@, frame as int, distance as nat, name@, value@) {
                Some(e) => r is Ok && final(self)@ == e,
                None => r is Err && final(self)@ == old(self)@,
            },
        decreases distance,
    {
        if frame >= self.frames.len() {
            return Err(UndefinedVariable());
        }
        if distance == 0 {
            let found = match find_value(&self.frames[frame].values, name) {
                Some(_) => true,
                None => false,
            };
            if found {
                self.define(frame, name, value);
                Ok(())
            } else {
                Err(UndefinedVariable())
            }
        } else {
            match self.frames[frame].maybe_enclosing {
                Some(p) => self.assign_at(p, distance - 1, name, value),
                None => Err(UndefinedVariable()),
            }
        }
    }
}

} // verus!

verus! {

/// The arena index of the frame `distance` hops above `frame`.
pub open spec fn frame_at(env: Seq<FrameView>, frame: int, distance: nat) -> Option<int>
    decreases distance,
{
    if !(0 <= frame < env.len()) {
        None
    } else if distance == 0 {
        Some(frame)
    } else {
        match env[frame].maybe_enclosing {
            Some(p) => frame_at(env, p, (distance - 1) as nat),
            None => None,
        }
    }
}

pub proof fn lemma_env_get_frame_at(env: Seq<FrameView>, frame: int, distance: nat, name: Seq<char>)
    ensures
        env_get(env, frame, distance, name) == match frame_at(env, frame, distance) {
            Some(g) => if env[g].vars.contains_key(name) {
                Some(env[g].vars[name])
            } else {
                None
            },
            None => None,
        },
    decreases distance,
{
    if 0 <= frame < env.len() && distance > 0 {
        match env[frame].maybe_enclosing {
            Some(p) => {
                lemma_env_get_frame_at(env, p, (distance - 1) as nat, name);
            },
            None => {},
        }
    }
}

pub proof fn lemma_env_assign_frame_at(
    env: Seq<FrameView>,
    frame: int,
    distance: nat,
    name: Seq<char>,
    v: LoxTypeView,
)
    ensures
        env_assign(env, frame, distance, name, v) == match frame_at(env, frame, distance) {
            Some(g) => if env[g].vars.contains_key(name) {
                Some(env_define(env, g, name, v))
            } else {
                None
            },
            None => None,
        },
    decreases distance,
{
    if 0 <= frame < env.len() && distance > 0 {
        match env[frame].maybe_enclosing {
            Some(p) => {
                lemma_env_assign_frame_at(env, p, (distance - 1) as nat, name, v);
            },
            None => {},
        }
    }
}

/// Overwriting a binding changes no frame's parent, so every hop chain
/// still reaches the same frame.
pub proof fn lemma_frame_at_stable(
    env: Seq<FrameView>,
    g: int,
    name: Seq<char>,
    v: LoxTypeView,
    frame: int,
    distance: nat,
)
    requires
        0 <= g < env.len(),
    ensures
        frame_at(env_define(env, g, name, v), frame, distance) == frame_at(env, frame, distance),
    decreases distance,
{
    let env2 = env_define(env, g, name, v);
    if 0 <= frame < env.len() && distance > 0 {
        assert(env2[frame].maybe_enclosing == env[frame].maybe_enclosing);
        match env[frame].maybe_enclosing {
            Some(p) => {
                lemma_frame_at_stable(env, g, name, v, p, (distance - 1) as nat);
            },
            None => {},
        }
    }
}

pub proof fn lemma_frame_at_range(env: Seq<FrameView>, frame: int, distance: nat)
    ensures
        match frame_at(env, frame, distance) {
            Some(g) => 0 <= g < env.len(),
            None => true,
        },
    decreases distance,
{
    if 0 <= frame < env.len() && distance > 0 {
        match env[frame].maybe_enclosing {
            Some(p) => {
                lemma_frame_at_range(env, p, (distance - 1) as nat);
            },
            None => {},
        }
    }
}

/// Closures share their captured frames: when two hop chains (say, the
/// environments of two captured functions) reach the same frame, a
/// mutation of a variable through one chain is seen by a read through the
/// other.
pub proof fn lemma_closure_shared_capture(
    env: Seq<FrameView>,
    f1: int,
    d1: nat,
    f2: int,
    d2: nat,
    name: Seq<char>,
    v: LoxTypeView,
    env2: Seq<FrameView>,
)
    requires
        frame_at(env, f1, d1) is Some,
        frame_at(env, f1, d1) == frame_at(env, f2, d2),
        env_assign(env, f1, d1, name, v) == Some(env2),
    ensures
        env_get(env2, f2, d2, name) == Some(v),
{
    let g = frame_at(env, f1, d1).unwrap();
    lemma_frame_at_range(env, f1, d1);
    lemma_env_assign_frame_at(env, f1, d1, name, v);
    lemma_frame_at_stable(env, g, name, v, f2, d2);
    lemma_env_get_frame_at(env2, f2, d2, name);
}

} // verus!
