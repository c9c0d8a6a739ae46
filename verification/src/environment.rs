//! The lexically scoped environment: an ordered stack of scopes, innermost
//! last. Lookup and assignment search from innermost to outermost and stop at
//! the first scope that binds the name; definition always writes into the
//! innermost scope; entering a block pushes a scope and leaving it pops one.

use vstd::prelude::*;
use crate::value::{LoxValue, ValueModel};

verus! {

/// The model of one scope: its bindings in insertion order.
pub type ScopeModel = Seq<(Seq<char>, ValueModel)>;

/// The model of an environment: its scopes, innermost last.
pub type EnvModel = Seq<ScopeModel>;

/// The value bound to `name` in the scope `s`, searching from entry `i` on;
/// the first binding wins.
pub open spec fn scope_lookup_from(s: ScopeModel, name: Seq<char>, i: int) -> Option<ValueModel>
    decreases s.len() - i,
{
    if i < 0 || i >= s.len() {
        Option::None
    } else if s[i].0 == name {
        Option::Some(s[i].1)
    } else {
        scope_lookup_from(s, name, i + 1)
    }
}

/// The value bound to `name` in the scope `s`.
pub open spec fn scope_lookup(s: ScopeModel, name: Seq<char>) -> Option<ValueModel> {
    scope_lookup_from(s, name, 0)
}

/// The scope `s` with `name` bound to `v`: the first existing binding is
/// replaced, otherwise the binding is appended.
pub open spec fn scope_define_from(s: ScopeModel, name: Seq<char>, v: ValueModel, i: int) -> ScopeModel
    decreases s.len() - i,
{
    if i < 0 || i >= s.len() {
        s.push((name, v))
    } else if s[i].0 == name {
        s.update(i, (name, v))
    } else {
        scope_define_from(s, name, v, i + 1)
    }
}

/// The value bound to `name` in the environment `env`, searching scopes
/// `0 ..= i` from the innermost (`i`) outward.
pub open spec fn env_lookup_from(env: EnvModel, name: Seq<char>, i: int) -> Option<ValueModel>
    decreases i + 1,
{
    if i < 0 || i >= env.len() {
        Option::None
    } else {
        match scope_lookup(env[i], name) {
            Option::Some(v) => Option::Some(v),
            Option::None => env_lookup_from(env, name, i - 1),
        }
    }
}

/// The value bound to `name` in `env`, innermost scope first.
pub open spec fn env_lookup(env: EnvModel, name: Seq<char>) -> Option<ValueModel> {
    env_lookup_from(env, name, env.len() - 1)
}

/// `env` with `name` bound to `v` in the innermost scope.
pub open spec fn env_define(env: EnvModel, name: Seq<char>, v: ValueModel) -> EnvModel {
    env.update(env.len() - 1, scope_define_from(env[env.len() - 1], name, v, 0))
}

/// `env` after assigning `v` to `name`, searching scopes `0 ..= i` from the
/// innermost (`i`) outward: the nearest scope that already binds `name` is
/// updated and the old value returned; an unbound name changes nothing.
pub open spec fn env_assign_from(env: EnvModel, name: Seq<char>, v: ValueModel, i: int) -> (
    EnvModel,
    Option<ValueModel>,
)
    decreases i + 1,
{
    if i < 0 || i >= env.len() {
        (env, Option::None)
    } else {
        match scope_lookup(env[i], name) {
            Option::Some(old_v) => {
                (env.update(i, scope_define_from(env[i], name, v, 0)), Option::Some(old_v))
            },
            Option::None => env_assign_from(env, name, v, i - 1),
        }
    }
}

/// Assignment over the whole scope chain, innermost first.
pub open spec fn env_assign(env: EnvModel, name: Seq<char>, v: ValueModel) -> (
    EnvModel,
    Option<ValueModel>,
) {
    env_assign_from(env, name, v, env.len() - 1)
}

/// The model of one executable scope.
pub open spec fn scope_model(s: Seq<(String, LoxValue)>) -> ScopeModel {
    s.map_values(|p: (String, LoxValue)| (p.0@, p.1@))
}

/// The model of a stack of executable scopes.
pub open spec fn scopes_model(s: Seq<Vec<(String, LoxValue)>>) -> EnvModel {
    s.map_values(|v: Vec<(String, LoxValue)>| scope_model(v@))
}

/// Assigning below the innermost scope leaves that scope alone.
proof fn lemma_assign_from_push(e: EnvModel, s: ScopeModel, name: Seq<char>, v: ValueModel, i: int)
    requires
        i < e.len(),
    ensures
        env_assign_from(e.push(s), name, v, i) == (
            env_assign_from(e, name, v, i).0.push(s),
            env_assign_from(e, name, v, i).1,
        ),
    decreases i + 1,
{
    if i < 0 {
        assert(env_assign_from(e.push(s), name, v, i) == (e.push(s), Option::<ValueModel>::None));
    } else {
        assert(e.push(s)[i] == e[i]);
        match scope_lookup(e[i], name) {
            Option::Some(_) => {
                assert(e.push(s).update(i, scope_define_from(e[i], name, v, 0)) =~= e.update(
                    i,
                    scope_define_from(e[i], name, v, 0),
                ).push(s));
            },
            Option::None => {
                lemma_assign_from_push(e, s, name, v, i - 1);
            },
        }
    }
}

fn scope_get_from(s: &Vec<(String, LoxValue)>, name: &String, i: usize) -> (r: Option<LoxValue>)
    requires
        i <= s@.len(),
    ensures
        match r {
            Option::Some(v) => scope_lookup_from(scope_model(s@), name@, i as int) == Option::Some(
                v@,
            ),
            Option::None => scope_lookup_from(scope_model(s@), name@, i as int) is None,
        },
    decreases s@.len() - i,
{
    if i >= s.len() {
        Option::None
    } else if s[i].0.eq(name) {
        proof {
            assert(scope_model(s@)[i as int] == (s@[i as int].0@, s@[i as int].1@));
        }
        Option::Some(s[i].1.duplicate())
    } else {
        proof {
            assert(scope_model(s@)[i as int] == (s@[i as int].0@, s@[i as int].1@));
        }
        scope_get_from(s, name, i + 1)
    }
}

fn scope_set_from(s: &mut Vec<(String, LoxValue)>, name: String, v: LoxValue, i: usize)
    requires
        i <= old(s)@.len(),
    ensures
        scope_model(final(s)@) == scope_define_from(scope_model(old(s)@), name@, v@, i as int),
    decreases old(s)@.len() - i,
{
    let ghost s0 = scope_model(s@);
    proof {
        if i < s@.len() {
            assert(s0[i as int] == (s@[i as int].0@, s@[i as int].1@));
        }
    }
    if i >= s.len() {
        let ghost nm = name@;
        let ghost vm = v@;
        s.push((name, v));
        assert(scope_model(s@) =~= s0.push((nm, vm)));
    } else if s[i].0.eq(&name) {
        let ghost nm = name@;
        let ghost vm = v@;
        s.set(i, (name, v));
        assert(scope_model(s@) =~= s0.update(i as int, (nm, vm)));
    } else {
        scope_set_from(s, name, v, i + 1);
    }
}

fn assign_scopes(scopes: &mut Vec<Vec<(String, LoxValue)>>, name: &String, value: &LoxValue) -> (r:
    Option<LoxValue>)
    ensures
        match r {
            Option::Some(old_v) => env_assign_from(
                scopes_model(old(scopes)@),
                name@,
                value@,
                old(scopes)@.len() - 1,
            ) == (scopes_model(final(scopes)@), Option::Some(old_v@)),
            Option::None => final(scopes)@ == old(scopes)@ && env_assign_from(
                scopes_model(old(scopes)@),
                name@,
                value@,
                old(scopes)@.len() - 1,
            ) == (scopes_model(old(scopes)@), Option::<ValueModel>::None),
        },
        final(scopes)@.len() == old(scopes)@.len(),
    decreases old(scopes)@.len(),
{
    let ghost e0 = scopes_model(scopes@);
    match scopes.pop() {
        Option::None => Option::None,
        Option::Some(mut top) => {
            let ghost rest = scopes_model(scopes@);
            let ghost topm = scope_model(top@);
            proof {
                assert(e0 =~= rest.push(topm));
                assert(e0[e0.len() - 1] == topm);
            }
            match scope_get_from(&top, name, 0) {
                Option::Some(old_v) => {
                    proof {
                        assert(scope_lookup(topm, name@) == Option::Some(old_v@));
                    }
                    scope_set_from(&mut top, name.clone(), value.duplicate(), 0);
                    let ghost topm2 = scope_model(top@);
                    scopes.push(top);
                    proof {
                        assert(scopes_model(scopes@) =~= rest.push(topm2));
                        assert(e0.update(e0.len() - 1, scope_define_from(topm, name@, value@, 0))
                            =~= rest.push(topm2));
                        assert(env_assign_from(e0, name@, value@, e0.len() - 1).0 =~= scopes_model(
                            scopes@,
                        ));
                        assert(env_assign_from(e0, name@, value@, e0.len() - 1).1 == Option::Some(
                            old_v@,
                        ));
                    }
                    Option::Some(old_v)
                },
                Option::None => {
                    let r = assign_scopes(scopes, name, value);
                    proof {
                        assert(scope_lookup(topm, name@) is None);
                        assert(env_assign_from(e0, name@, value@, e0.len() - 1)
                            == env_assign_from(e0, name@, value@, e0.len() - 2));
                        lemma_assign_from_push(rest, topm, name@, value@, rest.len() - 1);
                        assert(env_assign_from(e0, name@, value@, rest.len() - 1) == (
                            env_assign_from(rest, name@, value@, rest.len() - 1).0.push(topm),
                            env_assign_from(rest, name@, value@, rest.len() - 1).1,
                        ));
                    }
                    match r {
                        Option::Some(old_v) => {
                            let ghost rest2 = scopes_model(scopes@);
                            scopes.push(top);
                            proof {
                                assert(scopes_model(scopes@) =~= rest2.push(topm));
                            }
                            Option::Some(old_v)
                        },
                        Option::None => {
                            scopes.push(top);
                            proof {
                                assert(scopes_model(scopes@) =~= rest.push(topm));
                                assert(scopes_model(scopes@) =~= e0);
                            }
                            Option::None
                        },
                    }
                },
            }
        },
    }
}

/// A lexically scoped environment: a stack of scopes, innermost last.
pub struct Environment {
    pub scopes: Vec<Vec<(String, LoxValue)>>,
}

impl View for Environment {
    type V = EnvModel;

    open spec fn view(&self) -> EnvModel {
        scopes_model(self.scopes@)
    }
}

impl Environment {
    /// An environment is well formed when it has at least one scope.
    pub open spec fn wf(&self) -> bool {
        self@.len() >= 1
    }

    /// A fresh environment with one empty global scope.
    pub fn new() -> (r: Environment)
        ensures
            r@ =~= seq![Seq::<(Seq<char>, ValueModel)>::empty()],
            r.wf(),
    {
        let mut scopes: Vec<Vec<(String, LoxValue)>> = Vec::new();
        scopes.push(Vec::new());
        let r = Environment { scopes };
        proof {
            assert(r@.len() == 1);
            assert(r@[0] =~= Seq::<(Seq<char>, ValueModel)>::empty());
            assert(r@ =~= seq![Seq::<(Seq<char>, ValueModel)>::empty()]);
        }
        r
    }

    /// A new innermost scope enclosing `env`.
    pub fn enclose(env: Environment) -> (r: Environment)
        ensures
            r@ =~= env@.push(Seq::empty()),
            r.wf(),
    {
        let ghost e0 = env@;
        let mut env = env;
        env.scopes.push(Vec::new());
        proof {
            assert(env@[env@.len() - 1] =~= Seq::<(Seq<char>, ValueModel)>::empty());
            assert(env@ =~= e0.push(Seq::empty()));
        }
        env
    }

    /// Drops the innermost scope and hands back the enclosing environment.
    pub fn drop_enclusure(self) -> (r: Environment)
        requires
            self@.len() >= 2,
        ensures
            r@ =~= self@.take(self@.len() - 1),
            r.wf(),
    {
        let mut env = self;
        let ghost e0 = env@;
        let _ = env.scopes.pop();
        assert(env@ =~= e0.take(e0.len() - 1));
        env
    }

    /// Pushes a fresh innermost scope, as entering a block does.
    pub fn create_enclosing(&mut self)
        ensures
            final(self)@ =~= old(self)@.push(Seq::empty()),
            final(self).wf(),
    {
        let ghost e0 = self@;
        self.scopes.push(Vec::new());
        proof {
            assert(self@[self@.len() - 1] =~= Seq::<(Seq<char>, ValueModel)>::empty());
            assert(self@ =~= e0.push(Seq::empty()));
        }
    }

    /// Pops the innermost scope, as leaving a block does, and returns the
    /// dropped scope as an environment of its own; with only the global
    /// scope left there is nothing to drop.
    pub fn drop_enclosing(&mut self) -> (r: Option<Environment>)
        ensures
            old(self)@.len() >= 2 ==> final(self)@ =~= old(self)@.take(old(self)@.len() - 1) && (
            r matches Option::Some(d) && d@ =~= seq![old(self)@[old(self)@.len() - 1]]),
            old(self)@.len() < 2 ==> final(self)@ == old(self)@ && r is None,
            old(self).wf() ==> final(self).wf(),
    {
        let ghost e0 = self@;
        if self.scopes.len() >= 2 {
            let dropped = match self.scopes.pop() {
                Option::Some(s) => s,
                Option::None => Vec::new(),
            };
            assert(self@ =~= e0.take(e0.len() - 1));
            let ghost dm = scope_model(dropped@);
            proof {
                assert(dm == e0[e0.len() - 1]);
            }
            let mut scopes: Vec<Vec<(String, LoxValue)>> = Vec::new();
            scopes.push(dropped);
            let d = Environment { scopes };
            proof {
                assert(d@.len() == 1);
                assert(d@[0] == dm);
                assert(d@ =~= seq![dm]);
            }
            Option::Some(d)
        } else {
            assert(self@ =~= e0);
            Option::None
        }
    }

    /// Binds `name` to `value` in the innermost scope: a fresh binding, or
    /// an overwrite of an existing one in that same scope.
    pub fn define(&mut self, name: String, value: LoxValue)
        requires
            old(self).wf(),
        ensures
            final(self)@ == env_define(old(self)@, name@, value@),
            final(self).wf(),
    {
        let ghost e0 = self@;
        let mut top = match self.scopes.pop() {
            Option::Some(s) => s,
            Option::None => Vec::new(),
        };
        let ghost rest = scopes_model(self.scopes@);
        let ghost topm = scope_model(top@);
        proof {
            assert(e0 =~= rest.push(topm));
            assert(e0[e0.len() - 1] == topm);
        }
        let ghost nm = name@;
        let ghost vm = value@;
        scope_set_from(&mut top, name, value, 0);
        let ghost topm2 = scope_model(top@);
        self.scopes.push(top);
        proof {
            assert(self@ =~= rest.push(topm2));
            assert(env_define(e0, nm, vm) =~= rest.push(
                scope_define_from(topm, nm, vm, 0),
            ));
        }
    }

    /// Looks `name` up through the scope chain, innermost first, and hands
    /// back a copy of the bound value.
    pub fn get(&self, name: &String) -> (r: Option<LoxValue>)
        ensures
            match r {
                Option::Some(v) => env_lookup(self@, name@) == Option::Some(v@),
                Option::None => env_lookup(self@, name@) is None,
            },
    {
        let mut i = self.scopes.len();
        loop
            invariant
                i <= self.scopes@.len(),
                env_lookup(self@, name@) == env_lookup_from(self@, name@, i as int - 1),
            decreases i,
        {
            if i == 0 {
                return Option::None;
            }
            i = i - 1;
            proof {
                assert(self@[i as int] == scope_model(self.scopes@[i as int]@));
            }
            match scope_get_from(&self.scopes[i], name, 0) {
                Option::Some(v) => {
                    return Option::Some(v);
                },
                Option::None => {},
            }
        }
    }

    /// Assigns `value` to `name` in the nearest enclosing scope that already
    /// binds it, returning the old value; assignment never creates a
    /// binding, so an unbound name leaves the environment unchanged and
    /// yields `None`.
    pub fn update(&mut self, name: String, value: LoxValue) -> (r: Option<LoxValue>)
        ensures
            match r {
                Option::Some(old_v) => env_assign(old(self)@, name@, value@) == (
                    final(self)@,
                    Option::Some(old_v@),
                ),
                Option::None => final(self)@ == old(self)@ && env_assign(
                    old(self)@,
                    name@,
                    value@,
                ) == (old(self)@, Option::<ValueModel>::None),
            },
            final(self)@.len() == old(self)@.len(),
    {
        assign_scopes(&mut self.scopes, &name, &value)
    }
}

/// Entering a block, shadowing a name there, and leaving the block restores
/// every lookup: an inner shadow never leaks out.
pub proof fn lemma_shadowing_does_not_leak(
    env: EnvModel,
    name: Seq<char>,
    v: ValueModel,
    other: Seq<char>,
)
    requires
        env.len() >= 1,
    ensures
        ({
            let inner = env_define(env.push(Seq::empty()), name, v);
            env_lookup(inner, name) == Option::Some(v) && inner.take(inner.len() - 1) =~= env
                && env_lookup(inner.take(inner.len() - 1), other) == env_lookup(env, other)
        }),
{
    let pushed = env.push(Seq::<(Seq<char>, ValueModel)>::empty());
    let defined = scope_define_from(Seq::empty(), name, v, 0);
    assert(defined =~= Seq::<(Seq<char>, ValueModel)>::empty().push((name, v)));
    let inner = env_define(pushed, name, v);
    assert(inner =~= pushed.update(env.len() as int, defined));
    assert(inner[inner.len() - 1] == defined);
    assert(scope_lookup(defined, name) == Option::Some(v));
    assert(inner.take(inner.len() - 1) =~= env);
}

} // verus!
