//! The state that a generation pass carries from statement to statement.
use vstd::prelude::*;
use vstd::string::*;
use vstd::hash_map::StringHashMap;
use crate::text::{decimal, decimal_string, views};
use crate::ast::GenError;

verus! {

/// The generator: the guards seen in the current group of branches, the
/// prefix bound to each variable, the counter of each name, and the guard
/// recorded by a `Return`.
pub struct DSC {
    pub current_cases: Vec<String>,
    pub var_prefixes: StringHashMap<String>,
    pub prefixes: StringHashMap<u32>,
    pub return_condition: Option<String>,
}

/// What a `DSC` holds, as plain sequences and maps.
pub ghost struct Context {
    pub cases: Seq<Seq<char>>,
    pub var_prefixes: Map<Seq<char>, Seq<char>>,
    pub counters: Map<Seq<char>, u32>,
    pub return_condition: Option<Seq<char>>,
}

/// A context in which nothing has been recorded.
pub open spec fn empty_context() -> Context {
    Context {
        cases: Seq::empty(),
        var_prefixes: Map::empty(),
        counters: Map::empty(),
        return_condition: None,
    }
}

/// How often `name` has been bound so far.
pub open spec fn count_of(c: Context, name: Seq<char>) -> u32 {
    if c.counters.contains_key(name) {
        c.counters[name]
    } else {
        0
    }
}

/// The context after `name` has been bound once more: its counter goes up by
/// one and its prefix becomes the name followed by the new count.
pub open spec fn with_var(c: Context, name: Seq<char>) -> Context {
    let id = count_of(c, name) + 1;
    Context {
        counters: c.counters.insert(name, id as u32),
        var_prefixes: c.var_prefixes.insert(name, name + decimal(id as nat)),
        ..c
    }
}

/// The context at the start of an output file: no prefix is bound and no
/// return guard is pending; guards and counters stay.
pub open spec fn file_start(c: Context) -> Context {
    Context { var_prefixes: Map::empty(), return_condition: None, ..c }
}

/// The context at the start of a group of branches.
pub open spec fn case_start(c: Context) -> Context {
    Context { cases: Seq::empty(), ..c }
}

/// Binding a name raises its counter by one and leaves every other
/// counter; neither the start of a file nor that of a group of branches
/// changes a counter.
pub proof fn lemma_counters_persist(c: Context, name: Seq<char>, other: Seq<char>)
    requires
        count_of(c, name) < u32::MAX,
    ensures
        count_of(with_var(c, name), name) == count_of(c, name) + 1,
        other != name ==> count_of(with_var(c, name), other) == count_of(c, other),
        count_of(file_start(c), other) == count_of(c, other),
        count_of(case_start(c), other) == count_of(c, other),
{
}

impl View for DSC {
    type V = Context;

    open spec fn view(&self) -> Context {
        Context {
            cases: views(self.current_cases@),
            var_prefixes: Map::new(
                |k: Seq<char>| self.var_prefixes@.contains_key(k),
                |k: Seq<char>| self.var_prefixes@[k]@,
            ),
            counters: self.prefixes@,
            return_condition: match self.return_condition {
                Some(s) => Some(s@),
                None => None,
            },
        }
    }
}

impl DSC {
    pub fn new() -> (r: Self)
        ensures
            r@ == empty_context(),
    {
        let r = Self {
            current_cases: Vec::new(),
            var_prefixes: StringHashMap::new(),
            prefixes: StringHashMap::new(),
            return_condition: None,
        };
        assert(r@.cases =~= Seq::empty());
        assert(r@.var_prefixes =~= Map::empty());
        r
    }

    /// Binds `prefix` to a fresh variable prefix. Fails, and changes nothing,
    /// when the name's counter cannot go up.
    pub fn new_var(&mut self, prefix: &str) -> (r: Result<(), GenError>)
        ensures
            count_of(old(self)@, prefix@) < u32::MAX ==> r.is_ok() && final(self)@ == with_var(
                old(self)@,
                prefix@,
            ),
            count_of(old(self)@, prefix@) == u32::MAX ==> r == Err::<(), GenError>(
                GenError::CounterOverflow,
            ) && final(self)@ == old(self)@,
    {
        let last: u32 = match self.prefixes.get(prefix) {
            Some(n) => *n,
            None => 0,
        };
        if last == u32::MAX {
            return Err(GenError::CounterOverflow);
        }
        let id: u32 = last + 1;
        self.prefixes.insert(String::from_str(prefix), id);
        let mut var = String::from_str(prefix);
        var.append(decimal_string(id as u64).as_str());
        self.var_prefixes.insert(String::from_str(prefix), var);
        assert(self@.var_prefixes =~= with_var(old(self)@, prefix@).var_prefixes);
        Ok(())
    }

    /// Forgets the guards of the current group of branches.
    pub fn reset_cases(&mut self)
        ensures
            final(self)@ == case_start(old(self)@),
    {
        self.current_cases = Vec::new();
        assert(self@.cases =~= Seq::empty());
    }

    /// Forgets the bound prefixes and the pending return guard.
    pub fn reset_context(&mut self)
        ensures
            final(self)@ == file_start(old(self)@),
    {
        self.var_prefixes = StringHashMap::new();
        self.return_condition = None;
        assert(self@.var_prefixes =~= Map::empty());
    }
}

} // verus!
