//! The scope chain: every scope that a program has made, each with its
//! bindings and the scope that encloses it, and a cursor on the current one.
//!
//! Scopes are held in one table and named by their index, so that several
//! functions can close over the same scope and see each other's assignments.
//! A scope's enclosing scope always has a smaller index.

use vstd::prelude::*;
use crate::interpreter::{ExpressionResult, undefined_variable, undefined_variable_error};
use crate::token::{Token, Value, ValueView};

verus! {

/// One scope: its names, the value bound to each, and the enclosing scope.
pub struct Scope {
    names: Vec<String>,
    values: Vec<Value>,
    enclosing: Option<usize>,
}

pub struct Environment {
    scopes: Vec<Scope>,
    current: usize,
}

/// The first index at or after `from` whose name reads `name`.
pub open spec fn position(names: Seq<String>, name: Seq<char>, from: int) -> Option<int>
    decreases names.len() - from,
{
    if from < 0 || from >= names.len() {
        None
    } else if names[from]@ == name {
        Some(from)
    } else {
        position(names, name, from + 1)
    }
}

/// A position that is found lies in range and holds the name; nothing
/// before it does.
pub proof fn position_is_first(names: Seq<String>, name: Seq<char>, from: int)
    requires
        0 <= from,
    ensures
        match position(names, name, from) {
            Some(i) => from <= i < names.len() && names[i]@ == name && forall|j: int|
                from <= j < i ==> names[j]@ != name,
            None => forall|j: int| from <= j < names.len() ==> names[j]@ != name,
        },
    decreases names.len() - from,
{
    if from < names.len() && names[from]@ != name {
        position_is_first(names, name, from + 1);
    }
}

/// Appending a name changes no position that was found, and gives the new
/// name the last position if it was not found before.
pub proof fn position_after_push(names: Seq<String>, added: String, name: Seq<char>, from: int)
    requires
        0 <= from <= names.len(),
    ensures
        position(names.push(added), name, from) == match position(names, name, from) {
            Some(i) => Some(i),
            None => if added@ == name {
                Some(names.len() as int)
            } else {
                None
            },
        },
    decreases names.len() - from,
{
    let longer = names.push(added);
    if from < names.len() {
        assert(longer[from] == names[from]);
        if names[from]@ != name {
            position_after_push(names, added, name, from + 1);
        }
    } else {
        assert(longer[from] == added);
        assert(position(longer, name, from + 1) is None);
    }
}

impl Scope {
    spec fn well_formed(&self) -> bool {
        self.names.len() == self.values.len()
    }

    /// The value that the scope binds to a name.
    spec fn binding(&self, name: Seq<char>) -> Option<ValueView> {
        match position(self.names@, name, 0) {
            Some(i) => Some(self.values[i]@),
            None => None,
        }
    }

    /// The index of a name in the scope.
    fn find(&self, name: &String) -> (found: Option<usize>)
        requires
            self.well_formed(),
        ensures
            match found {
                Some(i) => position(self.names@, name@, 0) == Some(i as int) && i
                    < self.names.len(),
                None => position(self.names@, name@, 0) is None,
            },
    {
        let mut i: usize = 0;
        while i < self.names.len()
            invariant
                i <= self.names.len(),
                position(self.names@, name@, 0) == position(self.names@, name@, i as int),
            decreases self.names.len() - i,
        {
            if self.names[i] == *name {
                return Some(i);
            }
            i += 1;
        }
        None
    }
}

impl Environment {
    /// The number of scopes.
    pub closed spec fn size(&self) -> nat {
        self.scopes.len() as nat
    }

    /// The index of the current scope.
    pub closed spec fn cursor(&self) -> nat {
        self.current as nat
    }

    /// The scope that encloses a scope, if one does.
    pub closed spec fn parent(&self, scope: int) -> Option<nat> {
        if 0 <= scope < self.scopes.len() {
            match self.scopes[scope].enclosing {
                Some(p) => Some(p as nat),
                None => None,
            }
        } else {
            None
        }
    }

    /// The value that a scope itself binds to a name.
    pub closed spec fn local(&self, scope: int, name: Seq<char>) -> Option<ValueView> {
        if 0 <= scope < self.scopes.len() {
            self.scopes[scope].binding(name)
        } else {
            None
        }
    }

    /// There is a current scope, and every enclosing scope was made before
    /// the scope that it encloses.
    pub closed spec fn well_formed(&self) -> bool {
        &&& self.current < self.scopes.len()
        &&& forall|i: int| 0 <= i < self.scopes.len() ==> (#[trigger] self.scopes[i]).well_formed()
        &&& forall|i: int|
            0 <= i < self.scopes.len() ==> match (#[trigger] self.scopes[i]).enclosing {
                Some(p) => p < i,
                None => true,
            }
    }

    /// The nearest scope, from `scope` outwards, that binds the name.
    pub open spec fn holder(&self, scope: int, name: Seq<char>) -> Option<int>
        decreases scope,
    {
        if scope < 0 {
            None
        } else if self.local(scope, name) is Some {
            Some(scope)
        } else {
            match self.parent(scope) {
                Some(p) => if p < scope {
                    self.holder(p as int, name)
                } else {
                    None
                },
                None => None,
            }
        }
    }

    /// What a name means in a scope: its value in the nearest scope that
    /// binds it.
    pub open spec fn lookup(&self, scope: int, name: Seq<char>) -> Option<ValueView> {
        match self.holder(scope, name) {
            Some(s) => self.local(s, name),
            None => None,
        }
    }

    /// Two environments have the same scopes in the same order, each with
    /// the same enclosing scope, and the same cursor.
    pub open spec fn same_shape(&self, other: &Environment) -> bool {
        &&& self.size() == other.size()
        &&& self.cursor() == other.cursor()
        &&& forall|s: int| self.parent(s) == other.parent(s)
    }

    /// `self` is `before` with one binding set: `name` to `value` in `scope`.
    pub open spec fn binds(
        &self,
        before: &Environment,
        scope: int,
        name: Seq<char>,
        value: ValueView,
    ) -> bool {
        &&& self.same_shape(before)
        &&& forall|s: int, k: Seq<char>|
            #![trigger self.local(s, k)]
            self.local(s, k) == if s == scope && k == name {
                Some(value)
            } else {
                before.local(s, k)
            }
    }

    /// The two environments have the same scopes with the same bindings;
    /// their cursors may differ.
    pub open spec fn same_scopes(&self, other: &Environment) -> bool {
        &&& self.size() == other.size()
        &&& forall|s: int| self.parent(s) == other.parent(s)
        &&& forall|s: int, k: Seq<char>| self.local(s, k) == other.local(s, k)
    }

    /// The two environments have the same scopes with the same bindings and
    /// the same cursor.
    pub open spec fn same_bindings(&self, other: &Environment) -> bool {
        &&& self.same_scopes(other)
        &&& self.cursor() == other.cursor()
    }

    /// A well-formed environment's cursor is one of its scopes, and a scope's
    /// enclosing scope comes before it.
    pub proof fn structure(&self)
        requires
            self.well_formed(),
        ensures
            self.cursor() < self.size(),
            forall|s: int| self.parent(s) is Some ==> 0 <= s < self.size() && self.parent(s)->0 < s,
            forall|s: int, k: Seq<char>| self.local(s, k) is Some ==> 0 <= s < self.size(),
    {
        assert forall|s: int| self.parent(s) is Some implies 0 <= s < self.size() && self.parent(
            s,
        )->0 < s by {
            assert(self.scopes[s].enclosing is Some);
        }
    }

    /// A new environment: the global one where `enclosing` is `None`, or
    /// the scopes of `enclosing` and one new, empty scope inside its
    /// current one. The new scope is the current one.
    pub fn new(enclosing: Option<Box<Environment>>) -> (environment: Environment)
        requires
            match enclosing {
                Some(outer) => outer.well_formed(),
                None => true,
            },
        ensures
            environment.well_formed(),
            forall|k: Seq<char>| environment.local(environment.cursor() as int, k) is None,
            match enclosing {
                Some(outer) => {
                    &&& environment.size() == outer.size() + 1
                    &&& environment.cursor() == outer.size()
                    &&& environment.parent(environment.cursor() as int) == Some(outer.cursor())
                    &&& forall|s: int| 0 <= s < outer.size() ==> environment.parent(s) == outer.parent(s)
                    &&& forall|s: int, k: Seq<char>|
                        0 <= s < outer.size() ==> environment.local(s, k) == outer.local(s, k)
                },
                None => {
                    &&& environment.size() == 1
                    &&& environment.cursor() == 0
                    &&& environment.parent(0) is None
                },
            },
    {
        match enclosing {
            Some(outer) => {
                let mut environment = *outer;
                let inside = environment.current;
                environment.enter(inside);
                environment
            },
            None => {
                let mut scopes: Vec<Scope> = Vec::new();
                scopes.push(Scope { names: Vec::new(), values: Vec::new(), enclosing: None });
                Environment { scopes, current: 0 }
            },
        }
    }

    /// Makes a new, empty scope inside `enclosing` and moves the cursor to
    /// it.
    pub fn enter(&mut self, enclosing: usize) -> (scope: usize)
        requires
            old(self).well_formed(),
            enclosing < old(self).size(),
        ensures
            final(self).well_formed(),
            scope == old(self).size(),
            final(self).size() == old(self).size() + 1,
            final(self).cursor() == scope,
            final(self).parent(scope as int) == Some(enclosing as nat),
            forall|k: Seq<char>| final(self).local(scope as int, k) is None,
            forall|s: int| 0 <= s < old(self).size() ==> final(self).parent(s) == old(self).parent(s),
            forall|s: int, k: Seq<char>|
                0 <= s < old(self).size() ==> final(self).local(s, k) == old(self).local(s, k),
    {
        let scope = self.scopes.len();
        self.scopes.push(Scope { names: Vec::new(), values: Vec::new(), enclosing: Some(enclosing) });
        self.current = scope;
        proof {
            assert forall|i: int| 0 <= i < self.scopes.len() implies (#[trigger] self.scopes[i]).well_formed()
                && match self.scopes[i].enclosing {
                Some(p) => p < i,
                None => true,
            } by {
                if i < scope {
                    assert(self.scopes[i] == old(self).scopes[i]);
                }
            }
            assert forall|s: int| 0 <= s < old(self).size() implies final(self).parent(s) == old(
                self,
            ).parent(s) by {
                assert(self.scopes[s] == old(self).scopes[s]);
            }
            assert forall|s: int, k: Seq<char>| 0 <= s < old(self).size() implies final(self).local(
                s,
                k,
            ) == old(self).local(s, k) by {
                assert(self.scopes[s] == old(self).scopes[s]);
            }
        }
        scope
    }

    /// Moves the cursor to a scope.
    pub fn select(&mut self, scope: usize)
        requires
            old(self).well_formed(),
            scope < old(self).size(),
        ensures
            final(self).well_formed(),
            final(self).cursor() == scope,
            final(self).size() == old(self).size(),
            forall|s: int| final(self).parent(s) == old(self).parent(s),
            forall|s: int, k: Seq<char>| final(self).local(s, k) == old(self).local(s, k),
    {
        self.current = scope;
    }

    /// The index of the current scope.
    pub fn current(&self) -> (scope: usize)
        ensures
            scope == self.cursor(),
    {
        self.current
    }

    /// The number of scopes.
    pub fn len(&self) -> (count: usize)
        ensures
            count == self.size(),
    {
        self.scopes.len()
    }

    /// The scope that encloses the current one.
    pub fn enclosing(&self) -> (outer: Option<usize>)
        requires
            self.well_formed(),
        ensures
            match outer {
                Some(p) => self.parent(self.cursor() as int) == Some(p as nat),
                None => self.parent(self.cursor() as int) is None,
            },
    {
        self.scopes[self.current].enclosing
    }

    /// Binds a name in the current scope, whether or not the scope or an
    /// enclosing one binds it already.
    pub fn define(&mut self, name: &Token, value: &Value)
        requires
            old(self).well_formed(),
        ensures
            final(self).well_formed(),
            final(self).binds(old(self), old(self).cursor() as int, name.lexeme@, value@),
    {
        let scope = self.current;
        let copy = value.duplicate();
        self.set(scope, &name.lexeme, copy);
    }

    /// Sets a name in a scope: overwrites its value, or adds the binding.
    fn set(&mut self, scope: usize, name: &String, value: Value)
        requires
            old(self).well_formed(),
            scope < old(self).scopes.len(),
        ensures
            final(self).well_formed(),
            final(self).binds(old(self), scope as int, name@, value@),
    {
        let found = self.scopes[scope].find(name);
        match found {
            Some(i) => {
                self.scopes[scope].values[i] = value;
                proof {
                    let before = old(self).scopes[scope as int];
                    let after = self.scopes[scope as int];
                    assert(before.well_formed());
                    assert(after.names@ == before.names@);
                    assert(after.values@ == before.values@.update(i as int, value));
                    assert(after.enclosing == before.enclosing);
                    assert forall|s: int, k: Seq<char>|
                        #![trigger final(self).local(s, k)]
                        final(self).local(s, k) == if s == scope && k == name@ {
                            Some(value@)
                        } else {
                            old(self).local(s, k)
                        } by {
                        if s == scope {
                            position_is_first(before.names@, k, 0);
                            position_is_first(before.names@, name@, 0);
                            match position(before.names@, k, 0) {
                                Some(j) => {
                                    if j != i {
                                        assert(after.values[j] == before.values[j]);
                                    }
                                },
                                None => {},
                            }
                        } else if 0 <= s < self.scopes.len() {
                            assert(self.scopes[s] == old(self).scopes[s]);
                        }
                    }
                    assert forall|s: int| final(self).parent(s) == old(self).parent(s) by {
                        if 0 <= s < self.scopes.len() && s != scope {
                            assert(self.scopes[s] == old(self).scopes[s]);
                        }
                    }
                    assert forall|i: int| 0 <= i < self.scopes.len() implies (
                    #[trigger] self.scopes[i]).well_formed() && match self.scopes[i].enclosing {
                        Some(p) => p < i,
                        None => true,
                    } by {
                        if i != scope {
                            assert(self.scopes[i] == old(self).scopes[i]);
                        } else {
                            assert(old(self).scopes[i].well_formed());
                        }
                    }
                }
            },
            None => {
                let copy = name.clone();
                self.scopes[scope].names.push(copy);
                self.scopes[scope].values.push(value);
                proof {
                    let before = old(self).scopes[scope as int];
                    let after = self.scopes[scope as int];
                    assert(before.well_formed());
                    assert(after.names@ == before.names@.push(copy));
                    assert(after.values@ == before.values@.push(value));
                    assert(after.enclosing == before.enclosing);
                    assert forall|s: int, k: Seq<char>|
                        #![trigger final(self).local(s, k)]
                        final(self).local(s, k) == if s == scope && k == name@ {
                            Some(value@)
                        } else {
                            old(self).local(s, k)
                        } by {
                        if s == scope {
                            position_after_push(before.names@, copy, k, 0);
                            position_is_first(before.names@, k, 0);
                            match position(before.names@, k, 0) {
                                Some(i) => {
                                    assert(after.values[i] == before.values[i]);
                                    assert(after.binding(k) == before.binding(k));
                                    assert(k != name@);
                                },
                                None => {
                                    if k == name@ {
                                        assert(after.values[before.names.len() as int] == value);
                                    }
                                },
                            }
                        } else if 0 <= s < self.scopes.len() {
                            assert(self.scopes[s] == old(self).scopes[s]);
                        }
                    }
                    assert forall|s: int| final(self).parent(s) == old(self).parent(s) by {
                        if 0 <= s < self.scopes.len() && s != scope {
                            assert(self.scopes[s] == old(self).scopes[s]);
                        }
                    }
                    assert forall|i: int| 0 <= i < self.scopes.len() implies (
                    #[trigger] self.scopes[i]).well_formed() && match self.scopes[i].enclosing {
                        Some(p) => p < i,
                        None => true,
                    } by {
                        if i != scope {
                            assert(self.scopes[i] == old(self).scopes[i]);
                        } else {
                            assert(old(self).scopes[i].well_formed());
                        }
                    }
                }
            },
        }
    }

    /// Overwrites the value of a name in the nearest scope that binds it,
    /// and returns the value. Fails, and binds nothing, where no scope from
    /// the current one outwards binds the name.
    pub fn assign(&mut self, name: &Token, value: &Value) -> (result: ExpressionResult)
        requires
            old(self).well_formed(),
        ensures
            final(self).well_formed(),
            match old(self).holder(old(self).cursor() as int, name.lexeme@) {
                Some(scope) => {
                    &&& result is Ok
                    &&& result->Ok_0@ == value@
                    &&& final(self).binds(old(self), scope, name.lexeme@, value@)
                },
                None => {
                    &&& result is Err
                    &&& result->Err_0@ == undefined_variable(name@)
                    &&& final(self).same_bindings(old(self))
                },
            },
    {
        let mut scope = self.current;
        loop
            invariant
                self.well_formed(),
                *self == *old(self),
                scope < self.scopes.len(),
                self.holder(self.cursor() as int, name.lexeme@) == self.holder(
                    scope as int,
                    name.lexeme@,
                ),
            decreases scope,
        {
            let found = self.scopes[scope].find(&name.lexeme);
            match found {
                Some(_) => {
                    self.set(scope, &name.lexeme, value.duplicate());
                    return Ok(value.duplicate());
                },
                None => {
                    match self.scopes[scope].enclosing {
                        Some(outer) => {
                            scope = outer;
                        },
                        None => {
                            return Err(undefined_variable_error(name.ttype, &name.lexeme));
                        },
                    }
                },
            }
        }
    }

    /// The value of a name in the nearest scope that binds it. Fails where
    /// no scope from the current one outwards binds the name.
    pub fn get(&self, name: Token) -> (result: ExpressionResult)
        requires
            self.well_formed(),
        ensures
            match self.lookup(self.cursor() as int, name.lexeme@) {
                Some(value) => result is Ok && result->Ok_0@ == value,
                None => result is Err && result->Err_0@ == undefined_variable(name@),
            },
    {
        let mut scope = self.current;
        loop
            invariant
                self.well_formed(),
                scope < self.scopes.len(),
                self.holder(self.cursor() as int, name.lexeme@) == self.holder(
                    scope as int,
                    name.lexeme@,
                ),
            decreases scope,
        {
            let found = self.scopes[scope].find(&name.lexeme);
            match found {
                Some(i) => {
                    return Ok(self.scopes[scope].values[i].duplicate());
                },
                None => {
                    match self.scopes[scope].enclosing {
                        Some(outer) => {
                            scope = outer;
                        },
                        None => {
                            return Err(undefined_variable_error(name.ttype, &name.lexeme));
                        },
                    }
                },
            }
        }
    }
}

impl Environment {
    /// The scope that a name resolves to lies on the way outwards: it is
    /// the scope asked from or one made before it, and it binds the name.
    pub proof fn holder_lies_outwards(&self, scope: int, name: Seq<char>)
        ensures
            match self.holder(scope, name) {
                Some(found) => 0 <= found <= scope && self.local(found, name) is Some,
                None => true,
            },
        decreases scope,
    {
        if scope >= 0 && self.local(scope, name) is None {
            match self.parent(scope) {
                Some(outer) => {
                    if outer < scope {
                        self.holder_lies_outwards(outer as int, name);
                    }
                },
                None => {},
            }
        }
    }

    /// A name that no scope binds resolves nowhere, from whatever scope it
    /// is asked for: reading it and assigning to it fail at any depth.
    pub proof fn unbound_names_resolve_nowhere(&self, scope: int, name: Seq<char>)
        requires
            forall|s: int| self.local(s, name) is None,
        ensures
            self.holder(scope, name) is None,
            self.lookup(scope, name) is None,
        decreases scope,
    {
        if scope >= 0 {
            match self.parent(scope) {
                Some(outer) => {
                    if outer < scope {
                        self.unbound_names_resolve_nowhere(outer as int, name);
                    }
                },
                None => {},
            }
        }
    }

    /// Shadowing: a binding set in one scope is what the name means in that
    /// scope, and leaves what every other scope binds to the name as it was.
    pub proof fn a_binding_shadows_and_leaves_other_scopes_alone(
        &self,
        before: &Environment,
        scope: int,
        name: Seq<char>,
        value: ValueView,
        other: int,
    )
        requires
            self.binds(before, scope, name, value),
            0 <= scope,
            other != scope,
        ensures
            self.lookup(scope, name) == Some(value),
            self.local(other, name) == before.local(other, name),
    {
    }

    /// Shared scopes: once a binding has been set in the scope that a name
    /// resolves to, every scope from which the name resolved to that scope
    /// sees the new value.
    pub proof fn an_assignment_is_seen_wherever_the_name_resolves_to_it(
        &self,
        before: &Environment,
        holder: int,
        name: Seq<char>,
        value: ValueView,
        scope: int,
    )
        requires
            self.binds(before, holder, name, value),
            before.holder(scope, name) == Some(holder),
        ensures
            self.holder(scope, name) == Some(holder),
            self.lookup(scope, name) == Some(value),
        decreases scope,
    {
        before.holder_lies_outwards(scope, name);
        if before.local(scope, name) is None {
            match before.parent(scope) {
                Some(outer) => {
                    before.holder_lies_outwards(outer as int, name);
                    self.an_assignment_is_seen_wherever_the_name_resolves_to_it(
                        before,
                        holder,
                        name,
                        value,
                        outer as int,
                    );
                },
                None => {},
            }
        }
    }
}

} // verus!
