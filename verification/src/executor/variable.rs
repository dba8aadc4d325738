//! The scopes of a running program: the variables and definitions of the global scope and
//! of each active routine call, innermost last.
use crate::assoc::{distinct_names, find_name, lemma_distinct_push, lemma_find_name, lemma_table_push, table_map};
use crate::executor::files::FileTable;
use crate::types::{TypeV, VariableType};
use vstd::prelude::*;

verus! {

/// A variable: its value (a handle that the interpreter reads and writes through), its
/// type and whether it may be assigned (constants may not).
pub struct Variable<V> {
    pub value: V,
    pub t: VariableType,
    pub mutable: bool,
}

/// What a variable is to the specifications: its value, its type and whether it may be
/// assigned.
pub struct VariableV<V> {
    pub value: V,
    pub t: TypeV,
    pub mutable: bool,
}

impl<V> Variable<V> {
    pub open spec fn spec(&self) -> VariableV<V> {
        VariableV { value: self.value, t: self.t@, mutable: self.mutable }
    }
}

/// The variables and definitions declared in one scope.
pub struct State<V, D> {
    pub variables: Vec<(String, Variable<V>)>,
    pub defs: Vec<(String, D)>,
}

impl<V, D> State<V, D> {
    pub fn new() -> (s: Self)
        ensures
            s.variables@.len() == 0,
            s.defs@.len() == 0,
    {
        State { variables: Vec::new(), defs: Vec::new() }
    }

    /// No name is declared twice as a variable or as a definition.
    pub open spec fn wf(&self) -> bool {
        distinct_names(self.variables@) && distinct_names(self.defs@)
    }

    /// The variables of the scope by name.
    pub open spec fn vars(&self) -> Map<Seq<char>, VariableV<V>> {
        table_map(self.variables@).map_values(|v: Variable<V>| v.spec())
    }

    /// The definitions of the scope by name.
    pub open spec fn def_map(&self) -> Map<Seq<char>, D> {
        table_map(self.defs@)
    }
}

/// A scope: the global one or that of a routine call.
pub enum Scope<V, D> {
    Global(State<V, D>),
    Local(State<V, D>),
}

/// What a scope is to the specifications: its variables and its definitions by name.
pub struct ScopeV<V, D> {
    pub vars: Map<Seq<char>, VariableV<V>>,
    pub defs: Map<Seq<char>, D>,
}

impl<V, D> Scope<V, D> {
    pub open spec fn state(&self) -> &State<V, D> {
        match self {
            Scope::Global(s) => s,
            Scope::Local(s) => s,
        }
    }

    pub open spec fn spec(&self) -> ScopeV<V, D> {
        ScopeV { vars: self.state().vars(), defs: self.state().def_map() }
    }
}

/// Why a scope operation was refused.
#[derive(Clone, Copy, Debug, PartialEq, Eq, Structural)]
pub enum ScopeError {
    /// A variable of that name is already declared in the innermost scope.
    AlreadyInitialized,
    /// A definition of that name is already declared in the innermost scope.
    AlreadyDeclared,
    /// No scope declares the name.
    NotDeclared,
    /// The name is a constant, which cannot be assigned.
    Constant,
}

/// The scope empty of variables and definitions.
pub open spec fn empty_scope<V, D>() -> ScopeV<V, D> {
    ScopeV { vars: Map::empty(), defs: Map::empty() }
}

/// The variable that a name denotes: the one of the innermost scope that declares it.
pub open spec fn lookup_var<V, D>(s: Seq<ScopeV<V, D>>, key: Seq<char>) -> Option<VariableV<V>>
    decreases s.len(),
{
    if s.len() == 0 {
        None
    } else if s.last().vars.contains_key(key) {
        Some(s.last().vars[key])
    } else {
        lookup_var(s.drop_last(), key)
    }
}

/// The definition that a name denotes: the one of the innermost scope that declares it.
pub open spec fn lookup_def<V, D>(s: Seq<ScopeV<V, D>>, key: Seq<char>) -> Option<D>
    decreases s.len(),
{
    if s.len() == 0 {
        None
    } else if s.last().defs.contains_key(key) {
        Some(s.last().defs[key])
    } else {
        lookup_def(s.drop_last(), key)
    }
}

/// The scopes after declaring the variable `key` in the innermost one.
pub open spec fn with_var<V, D>(s: Seq<ScopeV<V, D>>, key: Seq<char>, v: VariableV<V>) -> Seq<ScopeV<V, D>> {
    s.update(s.len() - 1, ScopeV { vars: s.last().vars.insert(key, v), defs: s.last().defs })
}

/// The scopes after declaring the definition `key` in the innermost one.
pub open spec fn with_def<V, D>(s: Seq<ScopeV<V, D>>, key: Seq<char>, d: D) -> Seq<ScopeV<V, D>> {
    s.update(s.len() - 1, ScopeV { vars: s.last().vars, defs: s.last().defs.insert(key, d) })
}

/// The state of a running program: its scopes, innermost last, and its open files.
pub struct Executor<V, D> {
    pub scopes: Vec<Scope<V, D>>,
    pub file_handles: FileTable,
}

impl<V, D> Executor<V, D> {
    /// The scopes as the specifications see them.
    pub open spec fn scopes_view(&self) -> Seq<ScopeV<V, D>> {
        self.scopes@.map_values(|s: Scope<V, D>| s.spec())
    }

    /// Every scope is well formed and the global scope is present.
    pub open spec fn wf(&self) -> bool {
        &&& self.scopes@.len() > 0
        &&& forall|i: int| 0 <= i < self.scopes@.len() ==> (#[trigger] self.scopes@[i]).state().wf()
        &&& self.file_handles.wf()
    }

    /// A program state with the empty global scope and no open file.
    pub fn new() -> (e: Self)
        ensures
            e.wf(),
            e.scopes_view() == seq![empty_scope::<V, D>()],
            e.file_handles.files@.len() == 0,
    {
        let e = Executor { scopes: vec![Scope::Global(State::new())], file_handles: FileTable::new() };
        proof {
            assert(e.scopes_view()[0].vars =~= Map::empty());
            assert(e.scopes_view()[0].defs =~= Map::empty());
            assert(e.scopes_view() =~= seq![empty_scope::<V, D>()]);
        }
        e
    }

    /// Opens the scope of a routine call.
    pub fn enter_scope(&mut self)
        requires
            old(self).wf(),
        ensures
            final(self).wf(),
            final(self).scopes_view() == old(self).scopes_view().push(empty_scope::<V, D>()),
            final(self).file_handles == old(self).file_handles,
    {
        self.scopes.push(Scope::Local(State::new()));
        proof {
            let n = self.scopes@.len() - 1;
            assert(self.scopes_view()[n].vars =~= Map::empty());
            assert(self.scopes_view()[n].defs =~= Map::empty());
            assert(self.scopes_view() =~= old(self).scopes_view().push(empty_scope::<V, D>()));
        }
    }

    /// Closes the innermost scope and hands it back.
    pub fn exit_scope(&mut self) -> (s: Scope<V, D>)
        requires
            old(self).wf(),
            old(self).scopes@.len() > 1,
        ensures
            final(self).wf(),
            final(self).scopes_view() == old(self).scopes_view().drop_last(),
            s.spec() == old(self).scopes_view().last(),
            final(self).file_handles == old(self).file_handles,
    {
        let s = self.scopes.pop().unwrap();
        proof {
            assert(self.scopes_view() =~= old(self).scopes_view().drop_last());
        }
        s
    }

    /// Declares a variable in the innermost scope; refused where that scope already has
    /// a variable of the name.
    pub fn declare_var(&mut self, identifier: &String, value: V, t: &VariableType, mutable: bool) -> (r: Result<
        (),
        ScopeError,
    >)
        requires
            old(self).wf(),
        ensures
            final(self).wf(),
            final(self).file_handles == old(self).file_handles,
            old(self).scopes_view().last().vars.contains_key(identifier@) ==> r == Err::<(), ScopeError>(
                ScopeError::AlreadyInitialized,
            ) && final(self).scopes_view() == old(self).scopes_view(),
            !old(self).scopes_view().last().vars.contains_key(identifier@) ==> r is Ok
                && final(self).scopes_view() == with_var(
                old(self).scopes_view(),
                identifier@,
                VariableV { value, t: t@, mutable },
            ),
    {
        let n = self.scopes.len() - 1;
        let ghost old_view = self.scopes_view();
        let popped = self.scopes.pop().unwrap();
        let (global, mut state) = match popped {
            Scope::Global(st) => (true, st),
            Scope::Local(st) => (false, st),
        };
        let r = {
            {
                let found = find_name(&state.variables, identifier.as_str());
                proof {
                    lemma_find_name(state.variables@, identifier@, found);
                }
                match found {
                    Some(_) => Err(ScopeError::AlreadyInitialized),
                    None => {
                        let entry = (identifier.clone(), Variable { value, t: t.clone(), mutable });
                        proof {
                            lemma_distinct_push(state.variables@, entry);
                            lemma_table_push(state.variables@, entry);
                        }
                        state.variables.push(entry);
                        Ok(())
                    },
                }
            }
        };
        let scope = if global {
            Scope::Global(state)
        } else {
            Scope::Local(state)
        };
        self.scopes.push(scope);
        proof {
            assert(self.scopes@ =~= old(self).scopes@.update(n as int, scope));
            assert forall|i: int| 0 <= i < self.scopes@.len() implies (#[trigger] self.scopes@[i]).state().wf() by {
                if i != n {
                    assert(self.scopes@[i] == old(self).scopes@[i]);
                }
            }
            if r is Ok {
                assert(scope.spec().vars =~= old_view.last().vars.insert(
                    identifier@,
                    VariableV { value, t: t@, mutable },
                ));
                assert(self.scopes_view() =~= with_var(old_view, identifier@, VariableV { value, t: t@, mutable }));
            } else {
                assert(self.scopes_view() =~= old_view);
            }
        }
        r
    }

    /// The innermost scope that declares a variable `identifier`, and the entry's place.
    fn find_var(&self, identifier: &String) -> (r: Option<(usize, usize)>)
        requires
            self.wf(),
        ensures
            match lookup_var(self.scopes_view(), identifier@) {
                Some(v) => r matches Some((i, k)) && i < self.scopes@.len() && k
                    < self.scopes@[i as int].state().variables@.len()
                    && self.scopes@[i as int].state().variables@[k as int].0@ == identifier@
                    && self.scopes@[i as int].state().variables@[k as int].1.spec() == v,
                None => r is None,
            },
    {
        let mut i = self.scopes.len();
        proof {
            assert(self.scopes_view().subrange(0, i as int) =~= self.scopes_view());
        }
        while i > 0
            invariant
                i <= self.scopes@.len(),
                self.wf(),
                lookup_var(self.scopes_view(), identifier@) == lookup_var(
                    self.scopes_view().subrange(0, i as int),
                    identifier@,
                ),
            decreases i,
        {
            let ghost sub = self.scopes_view().subrange(0, i as int);
            proof {
                assert(sub.drop_last() =~= self.scopes_view().subrange(0, i - 1));
                assert(sub.last() == self.scopes@[i - 1].spec());
            }
            let found = match &self.scopes[i - 1] {
                Scope::Global(state) | Scope::Local(state) => {
                    let f = find_name(&state.variables, identifier.as_str());
                    proof {
                        lemma_find_name(state.variables@, identifier@, f);
                        assert(self.scopes@[i - 1].state().wf());
                    }
                    f
                },
            };
            match found {
                Some(k) => {
                    proof {
                        lemma_find_name(self.scopes@[i - 1].state().variables@, identifier@, found);
                    }
                    return Some((i - 1, k));
                },
                None => {},
            }
            i = i - 1;
        }
        proof {
            assert(self.scopes_view().subrange(0, 0) =~= Seq::<ScopeV<V, D>>::empty());
        }
        None
    }

    /// Whether any scope declares a variable `identifier`.
    pub fn var_exist(&self, identifier: &String) -> (b: bool)
        requires
            self.wf(),
        ensures
            b == lookup_var(self.scopes_view(), identifier@).is_some(),
    {
        self.find_var(identifier).is_some()
    }

    /// The variable `identifier` of the innermost scope that declares one.
    pub fn get_var(&self, identifier: &String) -> (r: Result<&Variable<V>, ScopeError>)
        requires
            self.wf(),
        ensures
            match lookup_var(self.scopes_view(), identifier@) {
                Some(v) => r matches Ok(x) && x.spec() == v,
                None => r == Err::<&Variable<V>, ScopeError>(ScopeError::NotDeclared),
            },
    {
        match self.find_var(identifier) {
            Some((i, k)) => match &self.scopes[i] {
                Scope::Global(state) | Scope::Local(state) => Ok(&state.variables[k].1),
            },
            None => Err(ScopeError::NotDeclared),
        }
    }

    /// The variable `identifier`, for assignment: as `get_var`, but a constant is refused.
    /// The variable's value is a handle through which the caller assigns; the variable
    /// itself is not changed.
    pub fn get_var_mut(&self, identifier: &String) -> (r: Result<&Variable<V>, ScopeError>)
        requires
            self.wf(),
        ensures
            match lookup_var(self.scopes_view(), identifier@) {
                Some(v) => if v.mutable {
                    r matches Ok(x) && x.spec() == v
                } else {
                    r == Err::<&Variable<V>, ScopeError>(ScopeError::Constant)
                },
                None => r == Err::<&Variable<V>, ScopeError>(ScopeError::NotDeclared),
            },
    {
        match self.get_var(identifier) {
            Ok(v) => if v.mutable {
                Ok(v)
            } else {
                Err(ScopeError::Constant)
            },
            Err(e) => Err(e),
        }
    }

    /// Declares a definition (a routine, class, record, enumeration or pointer type) in
    /// the innermost scope; refused where that scope already has one of the name.
    pub fn declare_def(&mut self, identifier: &String, def: D) -> (r: Result<(), ScopeError>)
        requires
            old(self).wf(),
        ensures
            final(self).wf(),
            final(self).file_handles == old(self).file_handles,
            old(self).scopes_view().last().defs.contains_key(identifier@) ==> r == Err::<(), ScopeError>(
                ScopeError::AlreadyDeclared,
            ) && final(self).scopes_view() == old(self).scopes_view(),
            !old(self).scopes_view().last().defs.contains_key(identifier@) ==> r is Ok
                && final(self).scopes_view() == with_def(old(self).scopes_view(), identifier@, def),
    {
        let n = self.scopes.len() - 1;
        let ghost old_view = self.scopes_view();
        let popped = self.scopes.pop().unwrap();
        let (global, mut state) = match popped {
            Scope::Global(st) => (true, st),
            Scope::Local(st) => (false, st),
        };
        let r = {
            {
                let found = find_name(&state.defs, identifier.as_str());
                proof {
                    lemma_find_name(state.defs@, identifier@, found);
                }
                match found {
                    Some(_) => Err(ScopeError::AlreadyDeclared),
                    None => {
                        let entry = (identifier.clone(), def);
                        proof {
                            lemma_distinct_push(state.defs@, entry);
                            lemma_table_push(state.defs@, entry);
                        }
                        state.defs.push(entry);
                        Ok(())
                    },
                }
            }
        };
        let scope = if global {
            Scope::Global(state)
        } else {
            Scope::Local(state)
        };
        self.scopes.push(scope);
        proof {
            assert(self.scopes@ =~= old(self).scopes@.update(n as int, scope));
            assert forall|i: int| 0 <= i < self.scopes@.len() implies (#[trigger] self.scopes@[i]).state().wf() by {
                if i != n {
                    assert(self.scopes@[i] == old(self).scopes@[i]);
                }
            }
            if r is Ok {
                assert(scope.spec().defs =~= old_view.last().defs.insert(identifier@, def));
                assert(scope.spec().vars =~= old_view.last().vars);
                assert(self.scopes_view() =~= with_def(old_view, identifier@, def));
            } else {
                assert(self.scopes_view() =~= old_view);
            }
        }
        r
    }

    /// The definition `identifier` of the innermost scope that declares one.
    pub fn get_def(&self, identifier: &String) -> (r: Result<&D, ScopeError>)
        requires
            self.wf(),
        ensures
            match lookup_def(self.scopes_view(), identifier@) {
                Some(d) => r matches Ok(x) && *x == d,
                None => r == Err::<&D, ScopeError>(ScopeError::NotDeclared),
            },
    {
        let mut i = self.scopes.len();
        proof {
            assert(self.scopes_view().subrange(0, i as int) =~= self.scopes_view());
        }
        while i > 0
            invariant
                i <= self.scopes@.len(),
                self.wf(),
                lookup_def(self.scopes_view(), identifier@) == lookup_def(
                    self.scopes_view().subrange(0, i as int),
                    identifier@,
                ),
            decreases i,
        {
            let ghost sub = self.scopes_view().subrange(0, i as int);
            proof {
                assert(sub.drop_last() =~= self.scopes_view().subrange(0, i - 1));
                assert(sub.last() == self.scopes@[i - 1].spec());
                assert(self.scopes@[i - 1].state().wf());
            }
            match &self.scopes[i - 1] {
                Scope::Global(state) | Scope::Local(state) => {
                    let f = find_name(&state.defs, identifier.as_str());
                    proof {
                        lemma_find_name(state.defs@, identifier@, f);
                    }
                    match f {
                        Some(k) => {
                            return Ok(&state.defs[k].1);
                        },
                        None => {},
                    }
                },
            }
            i = i - 1;
        }
        proof {
            assert(self.scopes_view().subrange(0, 0) =~= Seq::<ScopeV<V, D>>::empty());
        }
        Err(ScopeError::NotDeclared)
    }
}

/// A variable declared in the innermost scope is what its name then denotes, whatever
/// outer scopes declare under that name.
pub proof fn law_declared_variable_is_found<V, D>(s: Seq<ScopeV<V, D>>, key: Seq<char>, v: VariableV<V>)
    requires
        s.len() > 0,
    ensures
        lookup_var(with_var(s, key, v), key) == Some(v),
{
    assert(with_var(s, key, v).last().vars.contains_key(key));
}

/// Declaring a variable changes what no other name denotes.
pub proof fn law_declaration_keeps_other_names<V, D>(
    s: Seq<ScopeV<V, D>>,
    key: Seq<char>,
    other: Seq<char>,
    v: VariableV<V>,
)
    requires
        s.len() > 0,
        other != key,
    ensures
        lookup_var(with_var(s, key, v), other) == lookup_var(s, other),
        lookup_def(with_var(s, key, v), other) == lookup_def(s, other),
{
    let t = with_var(s, key, v);
    assert(t.drop_last() =~= s.drop_last());
}

/// A variable once declared in a scope stays there: declaring it again in the same scope
/// is refused (see `Executor::declare_var`).
pub proof fn law_redeclaration_is_refused<V, D>(s: Seq<ScopeV<V, D>>, key: Seq<char>, v: VariableV<V>)
    requires
        s.len() > 0,
    ensures
        with_var(s, key, v).last().vars.contains_key(key),
{
}

/// Opening a routine's scope changes what no name denotes.
pub proof fn law_entering_a_scope_hides_nothing<V, D>(s: Seq<ScopeV<V, D>>, key: Seq<char>)
    ensures
        lookup_var(s.push(empty_scope()), key) == lookup_var(s, key),
        lookup_def(s.push(empty_scope()), key) == lookup_def(s, key),
{
    assert(s.push(empty_scope::<V, D>()).drop_last() =~= s);
}

/// What a routine declares in its own scope is gone once the scope is closed: entering a
/// scope, declaring in it and leaving it restores the scopes as they were.
pub proof fn law_leaving_a_scope_restores<V, D>(s: Seq<ScopeV<V, D>>, key: Seq<char>, v: VariableV<V>, d: D)
    ensures
        with_var(s.push(empty_scope()), key, v).drop_last() == s,
        with_def(s.push(empty_scope()), key, d).drop_last() == s,
{
    assert(with_var(s.push(empty_scope()), key, v).drop_last() =~= s);
    assert(with_def(s.push(empty_scope()), key, d).drop_last() =~= s);
}

/// A definition declared in the innermost scope is what its name then denotes, and
/// declaring it changes what no other name denotes.
pub proof fn law_declared_definition_is_found<V, D>(s: Seq<ScopeV<V, D>>, key: Seq<char>, other: Seq<char>, d: D)
    requires
        s.len() > 0,
        other != key,
    ensures
        lookup_def(with_def(s, key, d), key) == Some(d),
        lookup_def(with_def(s, key, d), other) == lookup_def(s, other),
        lookup_var(with_def(s, key, d), other) == lookup_var(s, other),
        lookup_var(with_def(s, key, d), key) == lookup_var(s, key),
{
    let t = with_def(s, key, d);
    assert(t.drop_last() =~= s.drop_last());
    assert(t.last().defs.contains_key(key));
}

} // verus!
