//! The environment: a chain of lexical scopes from names to values.
//!
//! The scopes of a chain are numbered from the outermost, number zero, to
//! the innermost. All bindings of a chain lie in one arena, each with the
//! number of the scope that it belongs to.

use super::panics::Error;
use super::value::{RuntimeValue, Value};
use vstd::prelude::*;

verus! {

/// One scope as a mathematical value.
pub type Scope = Map<Seq<char>, Value>;

/// The nearest scope, at or below number `top`, that binds `name`.
pub open spec fn holder(scopes: Seq<Scope>, name: Seq<char>, top: int) -> Option<int>
    decreases top + 1,
{
    if top < 0 {
        None
    } else if top < scopes.len() && scopes[top].contains_key(name) {
        Some(top)
    } else {
        holder(scopes, name, top - 1)
    }
}

/// What `holder` finds is a scope that binds the name, at or below `top`.
pub proof fn lemma_holder_found(scopes: Seq<Scope>, name: Seq<char>, top: int)
    ensures
        match holder(scopes, name, top) {
            Some(k) => 0 <= k <= top && k < scopes.len() && scopes[k].contains_key(name),
            None => true,
        },
    decreases top + 1,
{
    if top >= 0 && !(top < scopes.len() && scopes[top].contains_key(name)) {
        lemma_holder_found(scopes, name, top - 1);
    }
}

/// The value that `name` resolves to: that of the nearest scope, from the
/// innermost outward, that binds it.
pub open spec fn resolve(scopes: Seq<Scope>, name: Seq<char>) -> Option<Value> {
    match holder(scopes, name, scopes.len() - 1) {
        Some(k) => Some(scopes[k][name]),
        None => None,
    }
}

/// The scopes after `name` is declared with `value` in the innermost
/// scope; `None` where that scope binds the name already.
pub open spec fn declare(scopes: Seq<Scope>, name: Seq<char>, value: Value) -> Option<Seq<Scope>> {
    if scopes.len() == 0 || scopes.last().contains_key(name) {
        None
    } else {
        Some(scopes.update(scopes.len() - 1, scopes.last().insert(name, value)))
    }
}

/// The scopes after `value` is assigned to the nearest binding of `name`;
/// `None` where no scope binds the name.
pub open spec fn assign(scopes: Seq<Scope>, name: Seq<char>, value: Value) -> Option<Seq<Scope>> {
    match holder(scopes, name, scopes.len() - 1) {
        Some(k) => Some(scopes.update(k, scopes[k].insert(name, value))),
        None => None,
    }
}

/// The first binding of `name` in scope `level`, from index `from` on.
pub open spec fn slot(names: Seq<String>, levels: Seq<usize>, name: Seq<char>, level: int, from: int) -> Option<
    int,
>
    decreases names.len() - from,
{
    if from < 0 || from >= names.len() || names.len() != levels.len() {
        None
    } else if names[from]@ == name && levels[from] == level {
        Some(from)
    } else {
        slot(names, levels, name, level, from + 1)
    }
}

/// What `slot` finds is a binding of the name in the scope, at or behind
/// the index that the search started from.
pub proof fn lemma_slot_found(names: Seq<String>, levels: Seq<usize>, name: Seq<char>, level: int, from: int)
    ensures
        match slot(names, levels, name, level, from) {
            Some(i) => from <= i < names.len() && names[i]@ == name && levels[i] == level,
            None => true,
        },
    decreases names.len() - from,
{
    if !(from < 0 || from >= names.len() || names.len() != levels.len()) && !(names[from]@ == name
        && levels[from] == level) {
        lemma_slot_found(names, levels, name, level, from + 1);
    }
}

/// What `slot` finds once one more binding lies at the end of the arena.
pub proof fn lemma_slot_push(
    names: Seq<String>,
    levels: Seq<usize>,
    added: String,
    at: usize,
    name: Seq<char>,
    level: int,
    from: int,
)
    requires
        names.len() == levels.len(),
        0 <= from <= names.len(),
    ensures
        slot(names.push(added), levels.push(at), name, level, from) == match slot(
            names,
            levels,
            name,
            level,
            from,
        ) {
            Some(i) => Some(i),
            None => if added@ == name && at == level {
                Some(names.len() as int)
            } else {
                None
            },
        },
    decreases names.len() - from,
{
    let names2 = names.push(added);
    let levels2 = levels.push(at);
    if from < names.len() {
        if !(names[from]@ == name && levels[from] == level) {
            lemma_slot_push(names, levels, added, at, name, level, from + 1);
        }
    } else {
        assert(slot(names2, levels2, name, level, from + 1) is None);
    }
}

/// A name that is declared cannot be declared again in the same scope,
/// whatever the two values are.
pub proof fn lemma_redeclaration_fails(scopes: Seq<Scope>, name: Seq<char>, first: Value, second: Value)
    requires
        declare(scopes, name, first) is Some,
    ensures
        declare(declare(scopes, name, first).unwrap(), name, second) is None,
{
}

/// A name that no scope binds is in no scope at or below `top`.
pub proof fn lemma_holder_none(scopes: Seq<Scope>, name: Seq<char>, top: int)
    requires
        forall|k: int| 0 <= k < scopes.len() ==> !(#[trigger] scopes[k]).contains_key(name),
    ensures
        holder(scopes, name, top) is None,
    decreases top + 1,
{
    if top >= 0 {
        lemma_holder_none(scopes, name, top - 1);
    }
}

/// A name that no scope binds neither resolves nor can be assigned to,
/// whatever the value is.
pub proof fn lemma_undeclared_fails(scopes: Seq<Scope>, name: Seq<char>, value: Value)
    requires
        forall|k: int| 0 <= k < scopes.len() ==> !(#[trigger] scopes[k]).contains_key(name),
    ensures
        resolve(scopes, name) is None,
        assign(scopes, name, value) is None,
{
    lemma_holder_none(scopes, name, scopes.len() - 1);
}

/// A name resolves, and can be assigned to, exactly where some scope
/// binds it.
pub proof fn lemma_declared_resolves(scopes: Seq<Scope>, name: Seq<char>, value: Value, k: int)
    requires
        0 <= k < scopes.len(),
        scopes[k].contains_key(name),
    ensures
        resolve(scopes, name) is Some,
        assign(scopes, name, value) is Some,
{
    lemma_holder_some(scopes, name, scopes.len() - 1, k);
}

/// A scope at or below `top` that binds the name is found, or a nearer one.
pub proof fn lemma_holder_some(scopes: Seq<Scope>, name: Seq<char>, top: int, k: int)
    requires
        0 <= k <= top,
        k < scopes.len(),
        scopes[k].contains_key(name),
    ensures
        holder(scopes, name, top) is Some,
    decreases top + 1,
{
    if !(top < scopes.len() && scopes[top].contains_key(name)) {
        lemma_holder_some(scopes, name, top - 1, k);
    }
}

/// A chain of scopes.
#[derive(Debug)]
pub struct Env {
    pub names: Vec<String>,
    pub values: Vec<RuntimeValue>,
    pub levels: Vec<usize>,
    pub depth: usize,
}

impl Env {
    /// The invariant of the arena: a name, a value and a scope number for
    /// each binding.
    pub open spec fn wf(&self) -> bool {
        &&& self.names@.len() == self.values@.len() == self.levels@.len()
        &&& forall|i: int| 0 <= i < self.levels@.len() ==> self.levels@[i] <= self.depth
    }

    /// Scope number `level` as a mathematical value.
    pub open spec fn scope(&self, level: int) -> Scope {
        Map::new(
            |name: Seq<char>| slot(self.names@, self.levels@, name, level, 0) is Some,
            |name: Seq<char>| self.values@[slot(self.names@, self.levels@, name, level, 0).unwrap()]@,
        )
    }
}

impl View for Env {
    type V = Seq<Scope>;

    /// The scopes of the chain, the innermost last.
    open spec fn view(&self) -> Seq<Scope> {
        Seq::new((self.depth + 1) as nat, |level: int| self.scope(level))
    }
}

impl Env {
    /// A chain of one empty scope, or `parent` with an empty scope within
    /// its innermost one.
    pub fn new(parent: Option<Env>) -> (r: Self)
        requires
            match parent {
                Some(outer) => outer.wf() && outer.depth < usize::MAX,
                None => true,
            },
        ensures
            r.wf(),
            r@ == match parent {
                Some(outer) => outer@.push(Map::empty()),
                None => seq![Map::empty()],
            },
    {
        match parent {
            Some(outer) => {
                let inner = Env {
                    names: outer.names,
                    values: outer.values,
                    levels: outer.levels,
                    depth: outer.depth + 1,
                };
                proof {
                    assert forall|name: Seq<char>|
                        slot(inner.names@, inner.levels@, name, inner.depth as int, 0) is None by {
                        inner.lemma_levels(name, inner.depth as int);
                    }
                    assert(inner.scope(inner.depth as int) =~= Map::empty());
                    assert(inner@ =~= outer@.push(Map::empty()));
                }
                inner
            },
            None => {
                let root = Env { names: Vec::new(), values: Vec::new(), levels: Vec::new(), depth: 0 };
                proof {
                    assert(root.scope(0) =~= Map::empty());
                    assert(root@ =~= seq![Map::empty()]);
                }
                root
            },
        }
    }

    /// Declares `var_name` with `value` in the innermost scope, unless that
    /// scope binds the name already.
    pub fn add(&mut self, var_name: String, value: RuntimeValue) -> (r: Result<(), Error>)
        requires
            old(self).wf(),
        ensures
            final(self).wf(),
            final(self).depth == old(self).depth,
            match declare(old(self)@, var_name@, value@) {
                Some(scopes) => r is Ok && final(self)@ == scopes,
                None => r == Err::<(), Error>(Error::NameError) && *final(self) == *old(self),
            },
    {
        match self.find(&var_name, self.depth) {
            Some(_) => Err(Error::NameError),
            None => {
                let ghost before = *self;
                let level = self.depth;
                self.names.push(var_name);
                self.values.push(value);
                self.levels.push(level);
                proof {
                    let top = before.depth as int;
                    assert(before@[top] == before.scope(top));
                    let expected = before@.update(top, before.scope(top).insert(var_name@, value@));
                    assert forall|k: int| 0 <= k <= top implies self.scope(k) == expected[k] by {
                        let target = if k == top {
                            before.scope(top).insert(var_name@, value@)
                        } else {
                            before.scope(k)
                        };
                        assert(before@[k] == before.scope(k));
                        assert(expected[k] == target);
                        let now = self.scope(k);
                        assert forall|name: Seq<char>|
                            #[trigger] now.dom().contains(name) == target.dom().contains(name) by {
                            lemma_slot_push(before.names@, before.levels@, var_name, level, name, k, 0);
                            lemma_slot_found(before.names@, before.levels@, name, k, 0);
                        }
                        assert(now.dom() =~= target.dom());
                        assert forall|name: Seq<char>| #[trigger]
                            now.dom().contains(name) implies now[name] == target[name] by {
                            lemma_slot_push(before.names@, before.levels@, var_name, level, name, k, 0);
                            lemma_slot_found(before.names@, before.levels@, name, k, 0);
                        }
                        assert(now =~= target);
                    }
                    assert(self@ =~= expected);
                }
                Ok(())
            },
        }
    }

    /// Assigns `value` to the nearest binding of `var_name`, searching from
    /// the innermost scope outward.
    pub fn update(&mut self, var_name: String, value: RuntimeValue) -> (r: Result<(), Error>)
        requires
            old(self).wf(),
        ensures
            final(self).wf(),
            final(self).depth == old(self).depth,
            match assign(old(self)@, var_name@, value@) {
                Some(scopes) => r is Ok && final(self)@ == scopes,
                None => r == Err::<(), Error>(Error::NameError) && *final(self) == *old(self),
            },
    {
        match self.nearest(&var_name) {
            Some(at) => {
                let ghost before = *self;
                let ghost k = before.levels@[at as int] as int;
                self.values.set(at, value);
                proof {
                    lemma_holder_found(before@, var_name@, before.depth as int);
                    assert(before@[k] == before.scope(k));
                    let expected = before@.update(k, before.scope(k).insert(var_name@, value@));
                    lemma_slot_found(before.names@, before.levels@, var_name@, k, 0);
                    assert forall|j: int| 0 <= j <= before.depth implies self.scope(j) == expected[j] by {
                        let target = if j == k {
                            before.scope(k).insert(var_name@, value@)
                        } else {
                            before.scope(j)
                        };
                        assert(before@[j] == before.scope(j));
                        assert(expected[j] == target);
                        assert forall|name: Seq<char>|
                            self.scope(j).dom().contains(name) == target.dom().contains(name) && (
                            self.scope(j).dom().contains(name) ==> self.scope(j)[name] == target[name]) by {
                            lemma_slot_found(before.names@, before.levels@, name, j, 0);
                        }
                        assert(self.scope(j) =~= target);
                    }
                    assert(self@ =~= expected);
                }
                Ok(())
            },
            None => Err(Error::NameError),
        }
    }

    /// The value of the nearest binding of `var_name`, searching from the
    /// innermost scope outward.
    pub fn get(&self, var_name: &str) -> (r: Result<&RuntimeValue, Error>)
        requires
            self.wf(),
        ensures
            match resolve(self@, var_name@) {
                Some(value) => r is Ok && r.unwrap()@ == value,
                None => r == Err::<&RuntimeValue, Error>(Error::NameError),
            },
    {
        let key = String::from_str(var_name);
        proof {
            assert(self@.len() - 1 == self.depth as int);
        }
        match self.nearest(&key) {
            Some(at) => {
                proof {
                    let k = self.levels@[at as int] as int;
                    lemma_holder_found(self@, key@, self.depth as int);
                    assert(self@[k] == self.scope(k));
                }
                Ok(&self.values[at])
            },
            None => Err(Error::NameError),
        }
    }

    /// The chain with every binding copied.
    pub fn duplicate(&self) -> (r: Env)
        requires
            self.wf(),
        ensures
            r.wf(),
            r.depth == self.depth,
            r@ == self@,
    {
        let mut names: Vec<String> = Vec::new();
        let mut values: Vec<RuntimeValue> = Vec::new();
        let mut levels: Vec<usize> = Vec::new();
        let n = self.names.len();
        let mut i: usize = 0;
        while i < n
            invariant
                self.wf(),
                n == self.names@.len(),
                i <= n,
                names@ == self.names@.subrange(0, i as int),
                values@ == self.values@.subrange(0, i as int),
                levels@ == self.levels@.subrange(0, i as int),
            decreases n - i,
        {
            names.push(self.names[i].clone());
            values.push(self.values[i].clone());
            levels.push(self.levels[i]);
            i += 1;
            proof {
                assert(names@ =~= self.names@.subrange(0, i as int));
                assert(values@ =~= self.values@.subrange(0, i as int));
                assert(levels@ =~= self.levels@.subrange(0, i as int));
            }
        }
        let copy = Env { names, values, levels, depth: self.depth };
        proof {
            assert(copy.names@ =~= self.names@);
            assert(copy.values@ =~= self.values@);
            assert(copy.levels@ =~= self.levels@);
            assert forall|level: int| copy.scope(level) == self.scope(level) by {
                assert(copy.scope(level) =~= self.scope(level));
            }
            assert(copy@ =~= self@);
        }
        copy
    }

    /// No binding is found in a scope that holds none.
    proof fn lemma_levels(&self, name: Seq<char>, level: int)
        requires
            self.wf(),
            forall|i: int| 0 <= i < self.levels@.len() ==> self.levels@[i] != level,
        ensures
            slot(self.names@, self.levels@, name, level, 0) is None,
    {
        lemma_slot_found(self.names@, self.levels@, name, level, 0);
    }

    /// The index of the first binding of `name` in scope `level`.
    fn find(&self, name: &String, level: usize) -> (r: Option<usize>)
        requires
            self.wf(),
        ensures
            match r {
                Some(i) => slot(self.names@, self.levels@, name@, level as int, 0) == Some(i as int) && i
                    < self.names@.len(),
                None => slot(self.names@, self.levels@, name@, level as int, 0) is None,
            },
    {
        let n = self.names.len();
        let mut i: usize = 0;
        while i < n
            invariant
                self.wf(),
                n == self.names@.len(),
                i <= n,
                slot(self.names@, self.levels@, name@, level as int, 0) == slot(
                    self.names@,
                    self.levels@,
                    name@,
                    level as int,
                    i as int,
                ),
            decreases n - i,
        {
            if self.levels[i] == level && self.names[i] == *name {
                return Some(i);
            }
            i += 1;
        }
        None
    }

    /// The index of the nearest binding of `name`, from the innermost scope
    /// outward.
    fn nearest(&self, name: &String) -> (r: Option<usize>)
        requires
            self.wf(),
        ensures
            match r {
                Some(i) => {
                    &&& i < self.names@.len()
                    &&& holder(self@, name@, self.depth as int) == Some(self.levels@[i as int] as int)
                    &&& slot(self.names@, self.levels@, name@, self.levels@[i as int] as int, 0) == Some(
                        i as int,
                    )
                },
                None => holder(self@, name@, self.depth as int) is None,
            },
    {
        let mut level = self.depth;
        loop
            invariant
                self.wf(),
                level <= self.depth,
                holder(self@, name@, self.depth as int) == holder(self@, name@, level as int),
            decreases level,
        {
            match self.find(name, level) {
                Some(i) => {
                    proof {
                        lemma_slot_found(self.names@, self.levels@, name@, level as int, 0);
                    }
                    return Some(i);
                },
                None => {},
            }
            if level == 0 {
                return None;
            }
            level -= 1;
        }
    }
}

} // verus!
