//! The scope chain: name-to-value mappings, each with a link to its
//! enclosing scope.
//!
//! All scopes live in one arena owned by the interpreter; a scope is
//! named by its index. A closure stores such an index, which makes the
//! captured environment a shared, mutably-aliased reference: an
//! assignment through one holder is seen by every other. The chain is
//! acyclic because every scope's parent index is smaller than its own,
//! and it ends at the single global scope at index zero.

use vstd::prelude::*;
use crate::expr::{ExprLiteral, SVal};
use crate::token::Token;

verus! {

/// One scope: its parent (absent only for the global scope) and its
/// bindings, held as an association list with distinct names.
pub struct Frame {
    pub parent: Option<usize>,
    pub entries: Vec<(String, ExprLiteral)>,
}

/// The mathematical model of a scope.
#[verifier::ext_equal]
pub struct SFrame {
    pub parent: Option<nat>,
    pub vals: Map<Seq<char>, SVal>,
}

/// The mapping an association list holds; a later entry would win.
pub open spec fn assoc_map(s: Seq<(String, ExprLiteral)>) -> Map<Seq<char>, SVal>
    decreases s.len(),
{
    if s.len() == 0 {
        Map::empty()
    } else {
        assoc_map(s.subrange(0, s.len() - 1)).insert(s[s.len() - 1].0@, s[s.len() - 1].1@)
    }
}

/// Entry names are distinct.
pub open spec fn distinct_names(s: Seq<(String, ExprLiteral)>) -> bool {
    forall |i: int, j: int| 0 <= i < j < s.len() ==> (#[trigger] s[i]).0@ != (#[trigger] s[j]).0@
}

impl View for Frame {
    type V = SFrame;

    open spec fn view(&self) -> SFrame {
        SFrame {
            parent: match self.parent {
                Option::Some(p) => Option::Some(p as nat),
                Option::None => Option::None,
            },
            vals: assoc_map(self.entries@),
        }
    }
}

/// An entry at a distinct-named index settles membership and value.
pub proof fn lemma_assoc_at(s: Seq<(String, ExprLiteral)>, i: int)
    requires
        distinct_names(s),
        0 <= i < s.len(),
    ensures
        assoc_map(s).contains_key(s[i].0@),
        assoc_map(s)[s[i].0@] == s[i].1@,
    decreases s.len(),
{
    if i < s.len() - 1 {
        lemma_assoc_at(s.subrange(0, s.len() - 1), i);
    }
}

/// A name at no index is not in the mapping.
pub proof fn lemma_assoc_absent(s: Seq<(String, ExprLiteral)>, name: Seq<char>)
    requires
        forall |i: int| 0 <= i < s.len() ==> (#[trigger] s[i]).0@ != name,
    ensures
        !assoc_map(s).contains_key(name),
    decreases s.len(),
{
    if s.len() > 0 {
        lemma_assoc_absent(s.subrange(0, s.len() - 1), name);
    }
}

/// Overwriting the entry that holds a name updates the mapping at that
/// name alone.
pub proof fn lemma_assoc_update(s: Seq<(String, ExprLiteral)>, i: int, e: (String, ExprLiteral))
    requires
        distinct_names(s),
        0 <= i < s.len(),
        e.0@ == s[i].0@,
    ensures
        assoc_map(s.update(i, e)) == assoc_map(s).insert(e.0@, e.1@),
    decreases s.len(),
{
    let t = s.update(i, e);
    let n = s.len();
    if i == n - 1 {
        assert(t.subrange(0, n - 1) =~= s.subrange(0, n - 1));
        assert(assoc_map(t) =~= assoc_map(s).insert(e.0@, e.1@));
    } else {
        assert(t.subrange(0, n - 1) =~= s.subrange(0, n - 1).update(i, e));
        lemma_assoc_update(s.subrange(0, n - 1), i, e);
        assert(t[n - 1] == s[n - 1]);
        assert(assoc_map(t) =~= assoc_map(s).insert(e.0@, e.1@));
    }
}

/// Appending an entry with a fresh name inserts it.
pub proof fn lemma_assoc_push(s: Seq<(String, ExprLiteral)>, e: (String, ExprLiteral))
    ensures
        assoc_map(s.push(e)) == assoc_map(s).insert(e.0@, e.1@),
{
    assert(s.push(e).subrange(0, s.len() as int) =~= s);
    assert(assoc_map(s.push(e)) =~= assoc_map(s).insert(e.0@, e.1@));
}

/// The whole scope arena.
pub struct Environment {
    pub frames: Vec<Frame>,
}

impl View for Environment {
    type V = Seq<SFrame>;

    open spec fn view(&self) -> Seq<SFrame> {
        self.frames@.map_values(|f: Frame| f@)
    }
}

/// Well-formed scope models: at least the global scope, whose parent is
/// absent; every other scope's parent index is smaller than its own.
pub open spec fn wf_env(envs: Seq<SFrame>) -> bool {
    &&& envs.len() >= 1
    &&& envs[0].parent is None
    &&& forall |i: int| 1 <= i < envs.len() ==> (#[trigger] envs[i]).parent is Some
        && envs[i].parent->0 < i
}

/// The value bound to `name` in the nearest scope of the chain that
/// starts at scope `i`, if any.
pub open spec fn slookup(envs: Seq<SFrame>, i: nat, name: Seq<char>) -> Option<SVal>
    decreases i,
{
    if i >= envs.len() {
        Option::None
    } else if envs[i as int].vals.contains_key(name) {
        Option::Some(envs[i as int].vals[name])
    } else {
        match envs[i as int].parent {
            Option::None => Option::None,
            Option::Some(p) => if p < i {
                slookup(envs, p, name)
            } else {
                Option::None
            },
        }
    }
}

/// Binding `name` to `v` in scope `i` itself.
pub open spec fn sdefine(envs: Seq<SFrame>, i: nat, name: Seq<char>, v: SVal) -> Seq<SFrame> {
    envs.update(i as int, SFrame {
        parent: envs[i as int].parent,
        vals: envs[i as int].vals.insert(name, v),
    })
}

/// The arena after assigning `v` to the nearest existing binding of
/// `name` in the chain that starts at scope `i`; absent when no scope
/// of the chain binds it.
pub open spec fn sassign(envs: Seq<SFrame>, i: nat, name: Seq<char>, v: SVal) -> Option<Seq<SFrame>>
    decreases i,
{
    if i >= envs.len() {
        Option::None
    } else if envs[i as int].vals.contains_key(name) {
        Option::Some(sdefine(envs, i, name, v))
    } else {
        match envs[i as int].parent {
            Option::None => Option::None,
            Option::Some(p) => if p < i {
                sassign(envs, p, name, v)
            } else {
                Option::None
            },
        }
    }
}

/// The report of a failed lookup or assignment, naming the variable.
pub open spec fn msg_undefined(name: Seq<char>) -> Seq<char> {
    "Undefined variable "@ + name + "."@
}

impl Environment {
    pub open spec fn wf(&self) -> bool {
        &&& wf_env(self@)
        &&& forall |i: int| 0 <= i < self.frames@.len()
            ==> distinct_names((#[trigger] self.frames@[i]).entries@)
    }

    /// A fresh arena holding only the global scope.
    pub fn new() -> (r: Environment)
        ensures
            r.wf(),
            r@ =~= seq![SFrame { parent: Option::None, vals: Map::empty() }],
    {
        let mut frames: Vec<Frame> = Vec::new();
        frames.push(Frame { parent: Option::None, entries: Vec::new() });
        let r = Environment { frames };
        proof {
            assert(r.frames@[0]@ =~= (SFrame { parent: Option::None, vals: Map::empty() }));
            assert(r@ =~= seq![SFrame { parent: Option::None, vals: Map::empty() }]);
        }
        r
    }

    /// How many scopes the arena holds.
    pub fn len(&self) -> (r: usize)
        ensures
            r == self@.len(),
    {
        self.frames.len()
    }

    /// Opens a new scope chained to `parent` and returns its index.
    pub fn push_scope(&mut self, parent: usize) -> (idx: usize)
        requires
            old(self).wf(),
            parent < old(self)@.len(),
        ensures
            final(self).wf(),
            idx == old(self)@.len(),
            final(self)@ =~= old(self)@.push(SFrame { parent: Option::Some(parent as nat), vals: Map::empty() }),
    {
        let idx = self.frames.len();
        self.frames.push(Frame { parent: Option::Some(parent), entries: Vec::new() });
        proof {
            assert(self.frames@[idx as int]@ =~= (SFrame {
                parent: Option::Some(parent as nat),
                vals: Map::empty(),
            }));
            assert(self@ =~= old(self)@.push(SFrame {
                parent: Option::Some(parent as nat),
                vals: Map::empty(),
            }));
        }
        idx
    }

    /// Binds `name` to `value` in scope `scope` itself, shadowing any
    /// binding of the same name in enclosing scopes and replacing one in
    /// this scope.
    pub fn define(&mut self, scope: usize, name: String, value: ExprLiteral)
        requires
            old(self).wf(),
            scope < old(self)@.len(),
        ensures
            final(self).wf(),
            final(self)@ =~= sdefine(old(self)@, scope as nat, name@, value@),
    {
        let frame = &self.frames[scope];
        let n = frame.entries.len();
        let mut found: Option<usize> = Option::None;
        for k in 0..n
            invariant
                n == self.frames@[scope as int].entries@.len(),
                scope < self.frames@.len(),
                match found {
                    Option::Some(f) => f < k && self.frames@[scope as int].entries@[f as int].0@ == name@,
                    Option::None => forall |j: int| 0 <= j < k
                        ==> (#[trigger] self.frames@[scope as int].entries@[j]).0@ != name@,
                },
            decreases n - k,
        {
            if found.is_none() {
                let frame = &self.frames[scope];
                if frame.entries[k].0 == name {
                    found = Option::Some(k);
                }
            }
        }
        let ghost old_entries = self.frames@[scope as int].entries@;
        match found {
            Option::Some(k) => {
                let frame = &mut self.frames[scope];
                let ghost e0 = frame.entries@;
                frame.entries[k] = (name, value);
                proof {
                    lemma_assoc_update(e0, k as int, (self.frames@[scope as int].entries@[k as int]));
                    assert(self@ =~= sdefine(old(self)@, scope as nat, name@, value@));
                }
            },
            Option::None => {
                let frame = &mut self.frames[scope];
                let ghost e0 = frame.entries@;
                frame.entries.push((name, value));
                proof {
                    lemma_assoc_push(e0, (self.frames@[scope as int].entries@[e0.len() as int]));
                    assert(self@ =~= sdefine(old(self)@, scope as nat, name@, value@));
                }
            },
        }
    }

    /// The value bound in the nearest scope of the chain, or an
    /// undefined-variable report.
    pub fn get(&self, scope: usize, name: &Token) -> (r: Result<ExprLiteral, String>)
        requires
            self.wf(),
            scope < self@.len(),
        ensures
            match slookup(self@, scope as nat, name@.lexeme) {
                Option::Some(v) => r is Ok && r->Ok_0@ == v,
                Option::None => r is Err && r->Err_0@ == msg_undefined(name@.lexeme),
            },
    {
        let mut i = scope;
        loop
            invariant
                self.wf(),
                i < self@.len(),
                slookup(self@, scope as nat, name@.lexeme) == slookup(self@, i as nat, name@.lexeme),
            decreases i,
        {
            let frame = &self.frames[i];
            let n = frame.entries.len();
            for k in 0..n
                invariant
                    self.wf(),
                    i < self@.len(),
                    n == self.frames@[i as int].entries@.len(),
                    forall |j: int| 0 <= j < k
                        ==> (#[trigger] self.frames@[i as int].entries@[j]).0@ != name@.lexeme,
                    slookup(self@, scope as nat, name@.lexeme) == slookup(self@, i as nat, name@.lexeme),
                decreases n - k,
            {
                let frame = &self.frames[i];
                if frame.entries[k].0 == name.lexeme {
                    proof {
                        lemma_assoc_at(self.frames@[i as int].entries@, k as int);
                    }
                    return Result::Ok(frame.entries[k].1.duplicate());
                }
            }
            proof {
                lemma_assoc_absent(self.frames@[i as int].entries@, name@.lexeme);
            }
            match self.frames[i].parent {
                Option::Some(p) => {
                    i = p;
                },
                Option::None => {
                    let mut msg = String::from_str("Undefined variable ");
                    msg.append(name.lexeme.as_str());
                    msg.append(".");
                    return Result::Err(msg);
                },
            }
        }
    }

    /// Replaces the nearest existing binding of the name in the chain,
    /// or reports an undefined variable; a new binding is never created.
    pub fn assign(&mut self, scope: usize, name: &Token, value: ExprLiteral) -> (r: Result<(), String>)
        requires
            old(self).wf(),
            scope < old(self)@.len(),
        ensures
            final(self).wf(),
            final(self)@.len() == old(self)@.len(),
            match sassign(old(self)@, scope as nat, name@.lexeme, value@) {
                Option::Some(e2) => r is Ok && final(self)@ =~= e2,
                Option::None => r is Err && r->Err_0@ == msg_undefined(name@.lexeme)
                    && final(self)@ =~= old(self)@,
            },
    {
        let mut i = scope;
        loop
            invariant
                self.wf(),
                self@ == old(self)@,
                i < self@.len(),
                sassign(self@, scope as nat, name@.lexeme, value@)
                    == sassign(self@, i as nat, name@.lexeme, value@),
            decreases i,
        {
            let frame = &self.frames[i];
            let n = frame.entries.len();
            for k in 0..n
                invariant
                    self.wf(),
                    self@ == old(self)@,
                    i < self@.len(),
                    n == self.frames@[i as int].entries@.len(),
                    forall |j: int| 0 <= j < k
                        ==> (#[trigger] self.frames@[i as int].entries@[j]).0@ != name@.lexeme,
                    sassign(self@, scope as nat, name@.lexeme, value@)
                        == sassign(self@, i as nat, name@.lexeme, value@),
                decreases n - k,
            {
                let frame = &self.frames[i];
                if frame.entries[k].0 == name.lexeme {
                    proof {
                        lemma_assoc_at(self.frames@[i as int].entries@, k as int);
                    }
                    let name_copy = frame.entries[k].0.clone();
                    let frame = &mut self.frames[i];
                    let ghost e0 = frame.entries@;
                    frame.entries[k] = (name_copy, value);
                    proof {
                        lemma_assoc_update(e0, k as int, (self.frames@[i as int].entries@[k as int]));
                        let e2 = sassign(old(self)@, scope as nat, name@.lexeme, value@);
                        assert(e2 == Option::Some(sdefine(old(self)@, i as nat, name@.lexeme, value@)));
                        assert(self@ =~= sdefine(old(self)@, i as nat, name@.lexeme, value@));
                    }
                    return Result::Ok(());
                }
            }
            proof {
                lemma_assoc_absent(self.frames@[i as int].entries@, name@.lexeme);
            }
            match self.frames[i].parent {
                Option::Some(p) => {
                    i = p;
                },
                Option::None => {
                    let mut msg = String::from_str("Undefined variable ");
                    msg.append(name.lexeme.as_str());
                    msg.append(".");
                    return Result::Err(msg);
                },
            }
        }
    }
}

} // verus!
