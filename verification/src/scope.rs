use vstd::prelude::*;
use crate::ast::{Type, TypeV};

verus! {

/// The bindings of one block, oldest first; a later binding of a name hides
/// an earlier one.
pub type FrameV = Seq<(Seq<char>, TypeV)>;

/// A chain of variable scopes: the innermost block's variables and the
/// scope it is nested in.
pub struct Scope {
    vars: Vec<(String, Type)>,
    parent: Option<Box<Scope>>,
}

pub open spec fn frame_view(v: Seq<(String, Type)>) -> FrameV {
    v.map_values(|b: (String, Type)| (b.0@, b.1@))
}

/// The frames of a scope, innermost first.
pub closed spec fn scope_view(s: Scope) -> Seq<FrameV>
    decreases s,
{
    match s.parent {
        Some(p) => seq![frame_view(s.vars@)] + scope_view(*p),
        None => seq![frame_view(s.vars@)],
    }
}

impl View for Scope {
    type V = Seq<FrameV>;

    open spec fn view(&self) -> Seq<FrameV> {
        scope_view(*self)
    }
}

/// The latest binding of `name` in a frame.
pub open spec fn frame_get(f: FrameV, name: Seq<char>) -> Option<TypeV>
    decreases f.len(),
{
    if f.len() == 0 {
        None
    } else if f.last().0 == name {
        Some(f.last().1)
    } else {
        frame_get(f.drop_last(), name)
    }
}

/// The type of `name` in the innermost frame that binds it.
pub open spec fn scope_get(s: Seq<FrameV>, name: Seq<char>) -> Option<TypeV>
    decreases s.len(),
{
    if s.len() == 0 {
        None
    } else {
        match frame_get(s[0], name) {
            Some(t) => Some(t),
            None => scope_get(s.drop_first(), name),
        }
    }
}

/// A scope with a binding of `name` added to the innermost frame.
pub open spec fn scope_declare(s: Seq<FrameV>, name: Seq<char>, t: TypeV) -> Seq<FrameV> {
    if s.len() == 0 {
        seq![seq![(name, t)]]
    } else {
        s.update(0, s[0].push((name, t)))
    }
}

/// A scope with a new, empty innermost frame.
pub open spec fn scope_push(s: Seq<FrameV>) -> Seq<FrameV> {
    seq![Seq::empty()] + s
}

/// A scope with one empty frame.
pub open spec fn scope_new() -> Seq<FrameV> {
    seq![Seq::empty()]
}

proof fn lemma_scope_view_nonempty(s: Scope)
    ensures
        scope_view(s).len() >= 1,
        scope_view(s)[0] == frame_view(s.vars@),
        scope_view(s).drop_first() == match s.parent {
            Some(p) => scope_view(*p),
            None => Seq::<FrameV>::empty(),
        },
{
    match s.parent {
        Some(p) => {
            assert((seq![frame_view(s.vars@)] + scope_view(*p)).drop_first() =~= scope_view(*p));
        },
        None => {
            assert(seq![frame_view(s.vars@)].drop_first() =~= Seq::<FrameV>::empty());
        },
    }
}

impl Scope {
    pub fn new() -> (s: Self)
        ensures
            s@ == scope_new(),
    {
        let s = Scope { vars: Vec::new(), parent: None };
        assert(frame_view(s.vars@) =~= Seq::empty());
        s
    }

    /// A copy of this scope.
    pub fn duplicate(&self) -> (s: Self)
        ensures
            s@ == self@,
        decreases self,
    {
        let mut vars: Vec<(String, Type)> = Vec::new();
        let mut i: usize = 0;
        while i < self.vars.len()
            invariant
                i <= self.vars.len(),
                frame_view(vars@) == frame_view(self.vars@.take(i as int)),
            decreases self.vars.len() - i,
        {
            let name = self.vars[i].0.clone();
            let t = self.vars[i].1.duplicate();
            let ghost old_vars = vars@;
            vars.push((name, t));
            proof {
                assert(self.vars@.take(i + 1) =~= self.vars@.take(i as int).push(self.vars@[i as int]));
                assert(frame_view(vars@) =~= frame_view(old_vars).push((self.vars@[i as int].0@, self.vars@[i as int].1@)));
                assert(frame_view(self.vars@.take(i + 1)) =~= frame_view(self.vars@.take(i as int)).push(
                    (self.vars@[i as int].0@, self.vars@[i as int].1@)));
            }
            i = i + 1;
        }
        assert(self.vars@.take(self.vars.len() as int) =~= self.vars@);
        let parent = match &self.parent {
            Some(p) => Some(Box::new(p.duplicate())),
            None => None,
        };
        Scope { vars, parent }
    }

    /// A new scope nested in this one.
    pub fn push(&self) -> (s: Self)
        ensures
            s@ == scope_push(self@),
    {
        let s = Scope { vars: Vec::new(), parent: Some(Box::new(self.duplicate())) };
        assert(frame_view(s.vars@) =~= Seq::empty());
        assert(s@ =~= scope_push(self@));
        s
    }

    /// Binds `name` to `tp` in the innermost frame.
    pub fn declare(&mut self, name: &str, tp: Type)
        ensures
            final(self)@ == scope_declare(old(self)@, name@, tp@),
    {
        let ghost t = tp@;
        let ghost before = self.vars@;
        self.vars.push((String::from_str(name), tp));
        proof {
            assert(frame_view(self.vars@) =~= frame_view(before).push((name@, t)));
            lemma_scope_view_nonempty(*old(self));
            assert(final(self)@ =~= scope_declare(old(self)@, name@, tp@));
        }
    }

    /// The type bound to `name` in the innermost frame that binds it.
    pub fn get(&self, name: &str) -> (r: Option<Type>)
        ensures
            match r {
                Some(t) => scope_get(self@, name@) == Some(t@),
                None => scope_get(self@, name@) is None,
            },
        decreases self,
    {
        let name_s = String::from_str(name);
        let mut i = self.vars.len();
        assert(self.vars@.take(self.vars.len() as int) =~= self.vars@);
        while i > 0
            invariant
                i <= self.vars.len(),
                name_s@ == name@,
                frame_get(frame_view(self.vars@), name@) == frame_get(frame_view(self.vars@.take(i as int)), name@),
            decreases i,
        {
            let ghost f = frame_view(self.vars@.take(i as int));
            proof {
                assert(f.drop_last() =~= frame_view(self.vars@.take(i - 1)));
                assert(f.last() == (self.vars@[i - 1].0@, self.vars@[i - 1].1@));
            }
            if self.vars[i - 1].0 == name_s {
                proof { lemma_scope_view_nonempty(*self); }
                return Some(self.vars[i - 1].1.duplicate());
            }
            i = i - 1;
        }
        proof {
            assert(frame_view(self.vars@.take(0)) =~= Seq::empty());
            assert(self.vars@.take(self.vars.len() as int) =~= self.vars@);
        }
        proof {
            lemma_scope_view_nonempty(*self);
            assert(frame_get(self@[0], name@) is None);
            assert(scope_get(self@, name@) == scope_get(self@.drop_first(), name@));
        }
        match &self.parent {
            Some(p) => {
                assert(self@.drop_first() == scope_view(**p));
                p.get(name)
            },
            None => None,
        }
    }
}

/// A name just declared is found with the type it was declared with.
pub proof fn get_after_declare(s: Seq<FrameV>, name: Seq<char>, t: TypeV)
    ensures
        scope_get(scope_declare(s, name, t), name) == Some(t),
{
    let d = scope_declare(s, name, t);
    if s.len() == 0 {
        assert(d[0].last() == (name, t));
    } else {
        assert(d[0] == s[0].push((name, t)));
        assert(d[0].last() == (name, t));
    }
}

/// Declaring a name leaves the lookup of every other name as it was.
pub proof fn declare_keeps_others(s: Seq<FrameV>, name: Seq<char>, t: TypeV, other: Seq<char>)
    requires
        other != name,
    ensures
        scope_get(scope_declare(s, name, t), other) == scope_get(s, other),
{
    let d = scope_declare(s, name, t);
    if s.len() == 0 {
        assert(d[0].drop_last() =~= Seq::<(Seq<char>, TypeV)>::empty());
        assert(frame_get(d[0].drop_last(), other) is None);
        assert(d.drop_first() =~= Seq::<FrameV>::empty());
        assert(scope_get(d.drop_first(), other) is None);
    } else {
        assert(d[0].drop_last() =~= s[0]);
        assert(frame_get(d[0], other) == frame_get(s[0], other));
        assert(d.drop_first() =~= s.drop_first());
    }
}

/// A nested scope sees every binding of the scope around it.
pub proof fn push_keeps_bindings(s: Seq<FrameV>, name: Seq<char>)
    ensures
        scope_get(scope_push(s), name) == scope_get(s, name),
{
    assert(scope_push(s).drop_first() =~= s);
}

/// A new scope binds no name.
pub proof fn new_scope_is_empty(name: Seq<char>)
    ensures
        scope_get(scope_new(), name) is None,
{
    assert(scope_new().drop_first() =~= Seq::<FrameV>::empty());
    assert(frame_get(scope_new()[0], name) is None);
    assert(scope_get(scope_new().drop_first(), name) is None);
}

} // verus!
