//! The rules a class definition must keep: member names are unique, the constructor `new`
//! is a public procedure, and a class has one.
use crate::assoc::{distinct_names, find_name, lemma_distinct_push, lemma_find_name, lemma_table_push, table_map};
use crate::text::str_eq;
use vstd::prelude::*;

verus! {

/// What a member of a class is, as far as the rules of classes go.
#[derive(Clone, Copy, Debug, PartialEq, Eq, Structural)]
pub enum MemberKind {
    Property,
    Method { private: bool, is_function: bool },
}

/// Why a class definition was refused.
#[derive(Clone, Copy, Debug, PartialEq, Eq, Structural)]
pub enum ClassError {
    /// A property of that name was declared before.
    PropertyExists,
    /// A method of that name was declared before.
    MethodExists,
    /// The constructor `new` is private.
    PrivateConstructor,
    /// The constructor `new` is a function.
    ConstructorReturns,
    /// The class has no method `new`.
    NoConstructor,
}

/// The refusal, if any, of a method declaration: the constructor `new` must be public and
/// a procedure.
pub open spec fn method_error(name: Seq<char>, private: bool, is_function: bool) -> Option<ClassError> {
    if name == "new"@ && private {
        Some(ClassError::PrivateConstructor)
    } else if name == "new"@ && is_function {
        Some(ClassError::ConstructorReturns)
    } else {
        None
    }
}

/// Checks a method declaration of a class.
pub fn check_method(name: &str, private: bool, is_function: bool) -> (r: Result<(), ClassError>)
    ensures
        match method_error(name@, private, is_function) {
            Some(e) => r == Err::<(), ClassError>(e),
            None => r is Ok,
        },
{
    let is_new = str_eq(name, "new");
    if is_new && private {
        Err(ClassError::PrivateConstructor)
    } else if is_new && is_function {
        Err(ClassError::ConstructorReturns)
    } else {
        Ok(())
    }
}

/// The members of a class declared so far, by name; no name occurs twice.
pub struct ClassMembers {
    pub members: Vec<(String, MemberKind)>,
}

impl ClassMembers {
    pub fn new() -> (c: Self)
        ensures
            c.wf(),
            c.map() == Map::<Seq<char>, MemberKind>::empty(),
    {
        let c = ClassMembers { members: Vec::new() };
        proof {
            assert(c.map() =~= Map::<Seq<char>, MemberKind>::empty());
        }
        c
    }

    pub open spec fn wf(&self) -> bool {
        distinct_names(self.members@)
    }

    /// The members by name.
    pub open spec fn map(&self) -> Map<Seq<char>, MemberKind> {
        table_map(self.members@)
    }

    /// Adds a member; refused where a member of the name exists, with the error naming
    /// the kind of the member being added.
    pub fn add(&mut self, name: &String, kind: MemberKind) -> (r: Result<(), ClassError>)
        requires
            old(self).wf(),
        ensures
            final(self).wf(),
            old(self).map().contains_key(name@) ==> r == Err::<(), ClassError>(
                if kind is Property {
                    ClassError::PropertyExists
                } else {
                    ClassError::MethodExists
                },
            ) && final(self).map() == old(self).map(),
            !old(self).map().contains_key(name@) ==> r is Ok && final(self).map() == old(self).map().insert(
                name@,
                kind,
            ),
    {
        let found = find_name(&self.members, name.as_str());
        proof {
            lemma_find_name(self.members@, name@, found);
        }
        if found.is_some() {
            return match kind {
                MemberKind::Property => Err(ClassError::PropertyExists),
                MemberKind::Method { .. } => Err(ClassError::MethodExists),
            };
        }
        let entry = (name.clone(), kind);
        proof {
            lemma_distinct_push(self.members@, entry);
            lemma_table_push(self.members@, entry);
        }
        self.members.push(entry);
        Ok(())
    }

    /// The check once all members are declared: the class must have a method `new`.
    pub fn check_constructor(&self) -> (r: Result<(), ClassError>)
        requires
            self.wf(),
        ensures
            r is Ok <==> (self.map().contains_key("new"@) && self.map()["new"@] is Method),
            r is Err ==> r == Err::<(), ClassError>(ClassError::NoConstructor),
    {
        let found = find_name(&self.members, "new");
        proof {
            lemma_find_name(self.members@, "new"@, found);
        }
        match found {
            Some(k) => match self.members[k].1 {
                MemberKind::Method { .. } => Ok(()),
                MemberKind::Property => Err(ClassError::NoConstructor),
            },
            None => Err(ClassError::NoConstructor),
        }
    }
}

} // verus!
