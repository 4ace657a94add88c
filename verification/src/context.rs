//! The session state: a mapping from variable names to their bound, still
//! unevaluated expressions, plus an optional display precision.

use vstd::prelude::*;

use crate::ast::{Node, NodeV, node_view};

verus! {

/// Mathematical view of a [`Context`].
pub struct ContextV {
    /// The display precision, if one has been assigned.
    pub precision: Option<usize>,
    /// The bindings currently in force: the most recent binding of each name.
    pub vars: Map<Seq<char>, NodeV>,
    /// A bound on how many variable lookups may be chained while resolving a
    /// name.  It never falls below the number of distinct bound names, so a
    /// resolution that fails for lack of budget is genuinely cyclic.
    pub fuel: nat,
}

/// The bindings of an association list, later entries shadowing earlier ones.
pub open spec fn vars_map(s: Seq<(String, Node)>) -> Map<Seq<char>, NodeV>
    decreases s.len(),
{
    if s.len() == 0 {
        Map::empty()
    } else {
        vars_map(s.drop_last()).insert(s.last().0@, node_view(s.last().1))
    }
}

/// The per-session variable environment.
///
/// A binding stores the right-hand side verbatim, so a bound expression may
/// refer to names that are defined only later (or never); such forward
/// references stay symbolic until they can be resolved.
pub struct Context {
    precision: Option<usize>,
    vars: Vec<(String, Node)>,
}

impl View for Context {
    type V = ContextV;

    closed spec fn view(&self) -> ContextV {
        ContextV {
            precision: self.precision,
            vars: vars_map(self.vars@),
            fuel: self.vars@.len() as nat,
        }
    }
}

impl Context {
    /// A fresh session: no bindings, no display precision.
    pub fn new() -> (c: Context)
        ensures
            c@.precision is None,
            c@.vars == Map::<Seq<char>, NodeV>::empty(),
            c@.fuel == 0,
    {
        Context { precision: None, vars: Vec::new() }
    }

    /// The display precision currently in force.
    pub fn precision(&self) -> (r: Option<usize>)
        ensures
            r == self@.precision,
    {
        self.precision
    }

    /// Assigns the display precision.
    pub fn set_precision(&mut self, p: usize)
        ensures
            final(self)@.precision == Some(p),
            final(self)@.vars == old(self)@.vars,
            final(self)@.fuel == old(self)@.fuel,
    {
        self.precision = Some(p);
    }

    /// Binds `node`, unevaluated, to `name`, shadowing any earlier binding.
    pub fn bind(&mut self, name: String, node: Node)
        ensures
            final(self)@.precision == old(self)@.precision,
            final(self)@.vars == old(self)@.vars.insert(name@, node@),
            final(self)@.fuel == old(self)@.fuel + 1,
    {
        let ghost before = self.vars@;
        self.vars.push((name, node));
        proof {
            assert(self.vars@.drop_last() =~= before);
        }
    }

    /// The expression currently bound to `name`, if any.
    pub fn lookup(&self, name: &String) -> (r: Option<&Node>)
        ensures
            match r {
                Some(n) => self@.vars.contains_key(name@) && n@ == self@.vars[name@],
                None => !self@.vars.contains_key(name@),
            },
    {
        let mut i: usize = self.vars.len();
        while i > 0
            invariant
                i <= self.vars@.len(),
                forall|j: int| i <= j < self.vars@.len() ==> self.vars@[j].0@ != name@,
            decreases i,
        {
            i = i - 1;
            if self.vars[i].0 == *name {
                proof {
                    lemma_vars_map_agree(self.vars@, i + 1, name@);
                    assert(self.vars@.take(i + 1).drop_last() =~= self.vars@.take(i as int));
                    assert(self.vars@.take(i + 1).last() == self.vars@[i as int]);
                }
                return Some(&self.vars[i].1);
            }
        }
        proof {
            lemma_vars_map_agree(self.vars@, 0, name@);
            assert(self.vars@.take(0) =~= Seq::<(String, Node)>::empty());
        }
        None
    }

    /// The resolution budget: at least the number of distinct bound names.
    pub fn budget(&self) -> (r: usize)
        ensures
            r == self@.fuel,
    {
        self.vars.len()
    }
}

/// Entries at or after position `i` aside, the bindings of `s` agree at key
/// `k` with the bindings of the prefix of length `i`.
proof fn lemma_vars_map_agree(s: Seq<(String, Node)>, i: int, k: Seq<char>)
    requires
        0 <= i <= s.len(),
        forall|j: int| i <= j < s.len() ==> s[j].0@ != k,
    ensures
        vars_map(s).contains_key(k) == vars_map(s.take(i)).contains_key(k),
        vars_map(s).contains_key(k) ==> vars_map(s)[k] == vars_map(s.take(i))[k],
    decreases s.len() - i,
{
    if i < s.len() {
        lemma_vars_map_agree(s, i + 1, k);
        assert(s.take(i + 1).drop_last() =~= s.take(i));
        assert(s.take(i + 1).last() == s[i]);
        assert(vars_map(s.take(i + 1)) == vars_map(s.take(i)).insert(s[i].0@, node_view(s[i].1)));
    } else {
        assert(s.take(i) =~= s);
    }
}

} // verus!
