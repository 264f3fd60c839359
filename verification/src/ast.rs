//! The syntax tree that the generator reads, and the errors it reports.
use vstd::prelude::*;
use vstd::string::*;
use crate::text::{decimal, decimal_string, occurs_at, views};

verus! {

/// Why a generation pass failed.
#[derive(Clone, Copy, Debug, PartialEq, Eq)]
pub enum GenError {
    /// A construct of the tree that has no rendering yet.
    Unsupported,
    /// A metadata value of the wrong shape.
    MalformedMetadata,
    /// A class parameter's index lies beyond the parameter list.
    OutOfRange,
    /// A state declaration names a resource or state that does not exist.
    MissingReference,
    /// Nothing was generated and no destination was configured.
    NoOutput,
    /// A variable name has been bound too often for its counter.
    CounterOverflow,
}

/// The message of each error.
pub open spec fn error_message(e: GenError) -> Seq<char> {
    match e {
        GenError::Unsupported => "Construct is not implemented"@,
        GenError::MalformedMetadata => "Expected value type for class parameters metadata: Number"@,
        GenError::OutOfRange => "Class parameter indexes are out of method bounds"@,
        GenError::MissingReference => "No method relies on the declared resource and state"@,
        GenError::NoOutput => "No file to create"@,
        GenError::CounterOverflow => "Too many bindings of one variable"@,
    }
}

impl GenError {
    /// The error as a message for the user.
    pub fn message(&self) -> (out: String)
        ensures
            out@ == error_message(*self),
    {
        String::from_str(
            match self {
                GenError::Unsupported => "Construct is not implemented",
                GenError::MalformedMetadata => "Expected value type for class parameters metadata: Number",
                GenError::OutOfRange => "Class parameter indexes are out of method bounds",
                GenError::MissingReference => "No method relies on the declared resource and state",
                GenError::NoOutput => "No file to create",
                GenError::CounterOverflow => "Too many bindings of one variable",
            },
        )
    }
}

/// One piece of an interpolated string.
#[derive(Debug)]
pub enum Fragment {
    Static(String),
    Variable(String),
}

/// A boolean condition over enumerated classes.
#[derive(Debug)]
pub enum EnumExpression {
    And(Box<EnumExpression>, Box<EnumExpression>),
    Or(Box<EnumExpression>, Box<EnumExpression>),
    Not(Box<EnumExpression>),
    /// Variable, enum and item.
    Compare(String, String, String),
    /// Variable, enum and the two ends of the range.
    RangeCompare(String, String, String, String),
    Default,
    NoDefault,
}

/// A number: its canonical text, and its value where it is a non-negative
/// integer that fits.
#[derive(Debug)]
pub struct Number {
    pub text: String,
    pub whole: Option<u64>,
}

impl Number {
    /// Whether the text of a whole number is its decimal numeral.
    pub open spec fn is_consistent(&self) -> bool {
        match self.whole {
            Some(k) => self.text@ == decimal(k as nat),
            None => true,
        }
    }

    /// The whole number `n`.
    pub fn from_whole(n: u64) -> (r: Number)
        ensures
            r.whole == Some(n),
            r.text@ == decimal(n as nat),
            r.is_consistent(),
    {
        Number { text: decimal_string(n), whole: Some(n) }
    }
}

/// A typed value.
#[derive(Debug)]
pub enum Value {
    Text(Vec<Fragment>),
    Number(Number),
    Boolean(bool),
    List(Vec<Value>),
    Struct(Vec<(String, Value)>),
    EnumExpression(EnumExpression),
}

/// A formal parameter: its name and a value that carries its type.
#[derive(Debug)]
pub struct Parameter {
    pub name: String,
    pub value: Value,
}

/// The result of applying a state.
#[derive(Clone, Copy, Debug, PartialEq, Eq)]
pub enum Outcome {
    Kept,
    Repaired,
    Error,
}

/// A call of a resource's state.
#[derive(Debug)]
pub struct StateDeclaration {
    pub resource: String,
    pub state: String,
    pub outcome: Option<String>,
    pub resource_params: Vec<Value>,
    pub state_params: Vec<Value>,
    pub metadata: Vec<(String, Value)>,
}

#[derive(Debug)]
pub enum Statement {
    StateDeclaration(StateDeclaration),
    Case(Vec<(EnumExpression, Vec<Statement>)>),
    Fail(Value),
    Log(Value),
    Return(Outcome),
    Noop,
}

/// A named operation of a resource.
#[derive(Debug)]
pub struct StateDef {
    pub name: String,
    /// The name of the source file that declares the state.
    pub file: String,
    pub parameters: Vec<Parameter>,
    pub metadata: Vec<(String, Value)>,
    pub statements: Vec<Statement>,
}

#[derive(Debug)]
pub struct ResourceDef {
    pub name: String,
    pub parameters: Vec<Parameter>,
    pub metadata: Vec<(String, Value)>,
    pub states: Vec<StateDef>,
}

/// A whole technique: its resources in a fixed order, and the names of the
/// enums whose items need no variable prefix.
#[derive(Debug)]
pub struct AST {
    pub resources: Vec<ResourceDef>,
    pub global_enums: Vec<String>,
}

/// The first position at or after `i` whose key is `key`, or the length.
pub open spec fn key_index_from(entries: Seq<(String, Value)>, key: Seq<char>, i: int) -> int
    decreases entries.len() - i,
{
    if i < 0 || i >= entries.len() {
        entries.len() as int
    } else if entries[i].0@ == key {
        i
    } else {
        key_index_from(entries, key, i + 1)
    }
}

/// The first position whose key is `key`, or the length.
pub open spec fn key_index(entries: Seq<(String, Value)>, key: Seq<char>) -> int {
    key_index_from(entries, key, 0)
}

/// Whether two strings hold the same text.
pub fn same_text(a: &str, b: &str) -> (r: bool)
    ensures
        r == (a@ == b@),
{
    let r = a.unicode_len() == b.unicode_len() && occurs_at(a, 0, b);
    proof {
        if a@.len() == b@.len() {
            assert(a@.subrange(0, a@.len() as int) =~= a@);
        }
    }
    r
}

/// Finds the first entry under `key`.
pub fn find_key(entries: &Vec<(String, Value)>, key: &str) -> (i: usize)
    ensures
        i == key_index(entries@, key@),
        i <= entries.len(),
{
    let mut i: usize = 0;
    while i < entries.len()
        invariant
            i <= entries.len(),
            key_index(entries@, key@) == key_index_from(entries@, key@, i as int),
        decreases entries.len() - i,
    {
        if same_text(entries[i].0.as_str(), key) {
            return i;
        }
        i = i + 1;
    }
    i
}

/// Whether `name` is one of `names`.
pub fn contains_name(names: &Vec<String>, name: &str) -> (r: bool)
    ensures
        r == views(names@).contains(name@),
{
    let mut i: usize = 0;
    while i < names.len()
        invariant
            i <= names.len(),
            forall|j: int| 0 <= j < i ==> views(names@)[j] != name@,
        decreases names.len() - i,
    {
        if same_text(names[i].as_str(), name) {
            assert(views(names@)[i as int] == name@);
            return true;
        }
        i = i + 1;
    }
    false
}

impl AST {
    /// Whether the enum `name` is declared globally.
    pub open spec fn is_global(&self, name: Seq<char>) -> bool {
        views(self.global_enums@).contains(name)
    }

    /// Whether the items of enum `name` are written without a prefix.
    pub fn enum_is_global(&self, name: &str) -> (r: bool)
        ensures
            r == self.is_global(name@),
    {
        contains_name(&self.global_enums, name)
    }
}

} // verus!
