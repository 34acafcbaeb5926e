//! The table of declared functions: one function per name, a later
//! declaration replacing an earlier one.

use crate::ast::{Function, FunctionView};
use vstd::prelude::*;

verus! {

/// The views of a sequence of functions.
pub open spec fn function_views(v: Seq<Function>) -> Seq<FunctionView> {
    v.map_values(|f: Function| f@)
}

/// The mapping that a list of declarations stands for: each name maps to
/// the last declaration that carries it.
pub open spec fn table_of(entries: Seq<FunctionView>) -> Map<Seq<char>, FunctionView>
    decreases entries.len(),
{
    if entries.len() == 0 {
        Map::empty()
    } else {
        table_of(entries.drop_last()).insert(entries.last().name, entries.last())
    }
}

/// Whether `at` is the last declaration in `entries` that carries its name.
pub open spec fn last_of_its_name(entries: Seq<FunctionView>, at: int) -> bool {
    &&& 0 <= at < entries.len()
    &&& forall|j: int| at < j < entries.len() ==> entries[j].name != entries[at].name
}

proof fn lemma_table_absent(entries: Seq<FunctionView>, name: Seq<char>)
    requires
        forall|i: int| 0 <= i < entries.len() ==> entries[i].name != name,
    ensures
        !table_of(entries).contains_key(name),
    decreases entries.len(),
{
    if entries.len() > 0 {
        lemma_table_absent(entries.drop_last(), name);
    }
}

proof fn lemma_table_present(entries: Seq<FunctionView>, at: int)
    requires
        last_of_its_name(entries, at),
    ensures
        table_of(entries).contains_key(entries[at].name),
        table_of(entries)[entries[at].name] == entries[at],
    decreases entries.len(),
{
    if at < entries.len() - 1 {
        lemma_table_present(entries.drop_last(), at);
    }
}

proof fn lemma_table_replace(entries: Seq<FunctionView>, at: int, function: FunctionView)
    requires
        last_of_its_name(entries, at),
        entries[at].name == function.name,
    ensures
        table_of(entries.update(at, function)) == table_of(entries).insert(
            function.name,
            function,
        ),
    decreases entries.len(),
{
    let updated = entries.update(at, function);
    if at == entries.len() - 1 {
        assert(updated.drop_last() =~= entries.drop_last());
        assert(table_of(updated) =~= table_of(entries).insert(function.name, function));
    } else {
        lemma_table_replace(entries.drop_last(), at, function);
        assert(updated.drop_last() =~= entries.drop_last().update(at, function));
        assert(updated.last() == entries.last());
        assert(entries.last().name != function.name);
        assert(table_of(updated) =~= table_of(entries).insert(function.name, function));
    }
}

/// The functions declared so far, by name.
pub struct FunctionTable {
    entries: Vec<Function>,
}

impl View for FunctionTable {
    type V = Map<Seq<char>, FunctionView>;

    closed spec fn view(&self) -> Map<Seq<char>, FunctionView> {
        table_of(function_views(self.entries@))
    }
}

impl FunctionTable {
    /// A table without functions.
    pub fn new() -> (table: FunctionTable)
        ensures
            table@ == Map::<Seq<char>, FunctionView>::empty(),
    {
        FunctionTable { entries: Vec::new() }
    }

    /// The position of the last function named `name`, if there is one.
    fn position(&self, name: &String) -> (at: Option<usize>)
        ensures
            match at {
                Some(i) => last_of_its_name(function_views(self.entries@), i as int)
                    && self.entries@[i as int].name@ == name@,
                None => forall|i: int|
                    0 <= i < self.entries@.len() ==> function_views(self.entries@)[i].name
                        != name@,
            },
    {
        let mut i: usize = self.entries.len();
        while i > 0
            invariant
                i <= self.entries@.len(),
                forall|j: int| i <= j < self.entries@.len() ==> self.entries@[j].name@ != name@,
            decreases i,
        {
            i -= 1;
            if self.entries[i].name == *name {
                return Some(i);
            }
        }
        None
    }

    /// Declares `function`, replacing a function of the same name.
    pub fn insert(&mut self, function: Function)
        ensures
            final(self)@ == old(self)@.insert(function.name@, function@),
    {
        let ghost before = function_views(self.entries@);
        match self.position(&function.name) {
            Some(at) => {
                proof {
                    lemma_table_replace(before, at as int, function@);
                }
                self.entries.set(at, function);
                assert(function_views(self.entries@) =~= before.update(at as int, function@));
            },
            None => {
                self.entries.push(function);
                assert(function_views(self.entries@) =~= before.push(function@));
                assert(function_views(self.entries@).drop_last() =~= before);
            },
        }
    }

    /// The function named `name`, if one has been declared.
    pub fn get(&self, name: &String) -> (found: Option<&Function>)
        ensures
            match found {
                Some(function) => self@.contains_key(name@) && function@ == self@[name@],
                None => !self@.contains_key(name@),
            },
    {
        match self.position(name) {
            Some(at) => {
                proof {
                    lemma_table_present(function_views(self.entries@), at as int);
                }
                Some(&self.entries[at])
            },
            None => {
                proof {
                    lemma_table_absent(function_views(self.entries@), name@);
                }
                None
            },
        }
    }
}

/// A function declared twice under one name resolves to the second
/// declaration, whatever the first was.
pub proof fn lemma_redefinition_wins(
    table: Map<Seq<char>, FunctionView>,
    first: FunctionView,
    second: FunctionView,
)
    requires
        first.name == second.name,
    ensures
        table.insert(first.name, first).insert(second.name, second) == table.insert(
            second.name,
            second,
        ),
        table.insert(first.name, first).insert(second.name, second)[second.name] == second,
{
    assert(table.insert(first.name, first).insert(second.name, second) =~= table.insert(
        second.name,
        second,
    ));
}

} // verus!
