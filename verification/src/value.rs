//! Run-time values, tables and errors, with their mathematical views.

use crate::ast::{FuncDecl, SpecFuncDecl};
use vstd::prelude::*;
use vstd::string::StringExecFns;

verus! {

/// What went wrong at run time.
#[derive(Debug, Clone, Copy, PartialEq, Eq, Structural)]
pub enum ErrorKind {
    /// A name that no enclosing scope binds.
    UndefinedIdentifier,
    /// An operand or argument of the wrong kind.
    Type,
    /// Too few arguments to a built-in.
    Arity,
    /// Division or modulo by zero.
    DivisionByZero,
    /// An integer result outside the 64-bit range.
    Overflow,
    /// Text that does not convert to a number.
    Conversion,
    /// A call of something that is not a function.
    NotCallable,
    /// A built-in tag that names no built-in.
    UnknownBuiltin,
    /// A `for` loop with step zero, or a `sqrt` of a negative number.
    Domain,
    /// Calls nested deeper than the interpreter allows.
    DepthExceeded,
    /// A `while` loop that ran longer than the interpreter allows.
    IterationLimit,
}

/// A run-time error: its kind, its message, and the line where one is known.
#[derive(Debug, Clone, PartialEq)]
pub struct RuntimeError {
    pub kind: ErrorKind,
    pub message: String,
    pub line: Option<usize>,
}

/// A run-time error as a mathematical value.
pub ghost struct SpecError {
    pub kind: ErrorKind,
    pub message: Seq<char>,
    pub line: Option<usize>,
}

/// The error of the given kind and message that names no line.
pub open spec fn error(kind: ErrorKind, message: Seq<char>) -> SpecError {
    SpecError { kind, message, line: None }
}

impl RuntimeError {
    /// This error as a mathematical value.
    pub open spec fn view(&self) -> SpecError {
        SpecError { kind: self.kind, message: self.message@, line: self.line }
    }

    /// The error of the given kind and message that names no line.
    pub fn new(kind: ErrorKind, msg: &str) -> (e: Self)
        ensures
            e@ == error(kind, msg@),
    {
        Self { kind, message: msg.to_owned(), line: None }
    }

    /// The error of the given kind and message at the given line.
    pub fn with_line(kind: ErrorKind, msg: &str, line: usize) -> (e: Self)
        ensures
            e@ == (SpecError { kind, message: msg@, line: Some(line) }),
    {
        Self { kind, message: msg.to_owned(), line: Some(line) }
    }

    /// The error as one line of text: the message, behind `Line N: ` where a
    /// line is known.
    pub fn describe(&self) -> (text: String)
        ensures
            text@ == describe_error(self@),
    {
        match self.line {
            Some(line) => {
                let mut text = "Line ".to_owned();
                let number = crate::text::usize_to_string(line);
                text.append(number.as_str());
                text.append(": ");
                text.append(self.message.as_str());
                text
            },
            None => self.message.clone(),
        }
    }
}

/// An error as one line of text.
pub open spec fn describe_error(e: SpecError) -> Seq<char> {
    match e.line {
        Some(line) => "Line "@ + crate::text::decimal(line as int) + ": "@ + e.message,
        None => e.message,
    }
}

/// A value of the language.
///
/// A float is held as the bit pattern of an IEEE 754 double. A function
/// refers to its declaration in the program and names the environment that
/// it closes over by that environment's index.
#[derive(Debug, PartialEq)]
pub enum Value<'p> {
    Int(i64),
    Float(u64),
    Bool(bool),
    String(String),
    Function { decl: &'p FuncDecl, closure: Option<usize> },
    Table(Table<'p>),
    BuiltinFunction(String),
    Nil,
}

/// A mapping from text keys to values. No key occurs twice.
#[derive(Debug, PartialEq)]
pub struct Table<'p> {
    entries: Vec<(String, Value<'p>)>,
}

/// A value as a mathematical value. A table is the sequence of its entries,
/// in the order in which their keys were first set.
pub ghost enum SpecValue {
    Int(i64),
    Float(u64),
    Bool(bool),
    String(Seq<char>),
    Function { decl: SpecFuncDecl, closure: Option<int> },
    Table(Seq<(Seq<char>, SpecValue)>),
    BuiltinFunction(Seq<char>),
    Nil,
}

/// An optional index as a mathematical value.
pub open spec fn index_view(index: Option<usize>) -> Option<int> {
    match index {
        Some(i) => Some(i as int),
        None => None,
    }
}

/// The index of the first entry at or behind `from` whose key is `key`, or
/// the number of entries where there is none.
pub open spec fn find_key(entries: Seq<(Seq<char>, SpecValue)>, key: Seq<char>, from: int) -> int
    decreases entries.len() - from,
{
    if from < 0 || from >= entries.len() {
        entries.len() as int
    } else if entries[from].0 == key {
        from
    } else {
        find_key(entries, key, from + 1)
    }
}

/// The search for a key stops at the first entry that holds it, or behind
/// the last entry.
pub proof fn lemma_find_key(entries: Seq<(Seq<char>, SpecValue)>, key: Seq<char>, from: int)
    requires
        0 <= from <= entries.len(),
    ensures
        from <= find_key(entries, key, from) <= entries.len(),
        find_key(entries, key, from) < entries.len() ==> entries[find_key(entries, key, from)].0
            == key,
        forall|i: int| from <= i < find_key(entries, key, from) ==> entries[i].0 != key,
    decreases entries.len() - from,
{
    if from < entries.len() && entries[from].0 != key {
        lemma_find_key(entries, key, from + 1);
    }
}

/// The value that `entries` holds for `key`.
pub open spec fn entries_get(entries: Seq<(Seq<char>, SpecValue)>, key: Seq<char>) -> Option<
    SpecValue,
> {
    let i = find_key(entries, key, 0);
    if i < entries.len() {
        Some(entries[i].1)
    } else {
        None
    }
}

/// `entries` with `key` set to `value`: in place where the key is present,
/// else at the end.
pub open spec fn entries_put(
    entries: Seq<(Seq<char>, SpecValue)>,
    key: Seq<char>,
    value: SpecValue,
) -> Seq<(Seq<char>, SpecValue)> {
    let i = find_key(entries, key, 0);
    if i < entries.len() {
        entries.update(i, (key, value))
    } else {
        entries.push((key, value))
    }
}

/// No key occurs twice.
pub open spec fn keys_distinct(entries: Seq<(Seq<char>, SpecValue)>) -> bool {
    forall|i: int, j: int|
        0 <= i < j < entries.len() ==> (#[trigger] entries[i]).0 != (#[trigger] entries[j]).0
}

/// Setting a key keeps the keys distinct, and the key then holds the value
/// while every other key holds what it held.
pub proof fn lemma_entries_put(
    entries: Seq<(Seq<char>, SpecValue)>,
    key: Seq<char>,
    value: SpecValue,
    other: Seq<char>,
)
    requires
        keys_distinct(entries),
    ensures
        keys_distinct(entries_put(entries, key, value)),
        entries_get(entries_put(entries, key, value), key) == Some(value),
        other != key ==> entries_get(entries_put(entries, key, value), other) == entries_get(
            entries,
            other,
        ),
        entries_put(entries, key, value).len() == entries.len() + (if entries_get(entries, key)
            is Some {
            0int
        } else {
            1int
        }),
{
    let after = entries_put(entries, key, value);
    let i = find_key(entries, key, 0);
    lemma_find_key(entries, key, 0);
    lemma_find_key(after, key, 0);
    lemma_find_key(entries, other, 0);
    lemma_find_key(after, other, 0);
    if i < entries.len() {
        assert(after[i].0 == key);
    } else {
        assert(after[entries.len() as int].0 == key);
    }
    assert(keys_distinct(after)) by {
        assert forall|a: int, b: int| 0 <= a < b < after.len() implies (#[trigger] after[a]).0 != (
        #[trigger] after[b]).0 by {
            if i < entries.len() {
                if a == i {
                    assert(entries[i].0 == key);
                    assert(entries[b].0 != entries[i].0);
                } else if b == i {
                    assert(entries[a].0 != entries[i].0);
                } else {
                    assert(entries[a].0 != entries[b].0);
                }
            } else {
                if b == entries.len() {
                    assert(entries[a].0 != key);
                } else {
                    assert(entries[a].0 != entries[b].0);
                }
            }
        }
    }
    if other != key {
        let j = find_key(entries, other, 0);
        let k = find_key(after, other, 0);
        if j < entries.len() {
            assert(after[j].0 == other);
            assert(after[j] == entries[j]);
            if k < j {
                assert(after[k].0 == other);
                assert(entries[k].0 == other);
            }
            assert(k == j);
        } else {
            if k < after.len() {
                assert(after[k].0 == other);
                if k < entries.len() {
                    assert(entries[k].0 == other);
                }
            }
        }
    }
}

impl<'p> Value<'p> {
    /// This value as a mathematical value.
    pub open spec fn view(&self) -> SpecValue
        decreases self,
    {
        match self {
            Value::Int(i) => SpecValue::Int(*i),
            Value::Float(bits) => SpecValue::Float(*bits),
            Value::Bool(b) => SpecValue::Bool(*b),
            Value::String(s) => SpecValue::String(s@),
            Value::Function { decl, closure } => SpecValue::Function {
                decl: decl.view(),
                closure: index_view(*closure),
            },
            Value::Table(t) => SpecValue::Table(t.view()),
            Value::BuiltinFunction(name) => SpecValue::BuiltinFunction(name@),
            Value::Nil => SpecValue::Nil,
        }
    }

    /// A copy of this value. A function's copy refers to the same declaration
    /// and the same environment.
    pub fn duplicate(&self) -> (r: Value<'p>)
        ensures
            r@ == self@,
        decreases self,
    {
        match self {
            Value::Int(i) => Value::Int(*i),
            Value::Float(bits) => Value::Float(*bits),
            Value::Bool(b) => Value::Bool(*b),
            Value::String(s) => Value::String(s.clone()),
            Value::Function { decl, closure } => Value::Function { decl: *decl, closure: *closure },
            Value::Table(t) => Value::Table(t.duplicate()),
            Value::BuiltinFunction(name) => Value::BuiltinFunction(name.clone()),
            Value::Nil => Value::Nil,
        }
    }
}

impl<'p> Clone for Value<'p> {
    fn clone(&self) -> (r: Self)
        ensures
            r@ == self@,
    {
        self.duplicate()
    }
}

impl<'p> Table<'p> {
    /// The entries of this table.
    pub closed spec fn view(&self) -> Seq<(Seq<char>, SpecValue)>
        decreases self,
    {
        Seq::new(
            self.entries.len() as nat,
            |i: int|
                if 0 <= i < self.entries.len() {
                    (self.entries[i].0@, self.entries[i].1.view())
                } else {
                    (Seq::empty(), SpecValue::Nil)
                },
        )
    }

    /// No key occurs twice.
    pub open spec fn wf(&self) -> bool {
        keys_distinct(self@)
    }

    /// An empty table.
    pub fn new() -> (t: Self)
        ensures
            t@ == Seq::<(Seq<char>, SpecValue)>::empty(),
            t.wf(),
    {
        let t = Table { entries: Vec::new() };
        assert(t@ =~= Seq::<(Seq<char>, SpecValue)>::empty());
        t
    }

    /// The number of entries.
    pub fn len(&self) -> (n: usize)
        ensures
            n == self@.len(),
    {
        self.entries.len()
    }

    fn find(&self, key: &str) -> (i: usize)
        ensures
            i == find_key(self@, key@, 0),
            i <= self.entries.len(),
    {
        let mut i: usize = 0;
        while i < self.entries.len()
            invariant
                i <= self.entries.len(),
                find_key(self@, key@, i as int) == find_key(self@, key@, 0),
            decreases self.entries.len() - i,
        {
            if crate::text::str_eq(self.entries[i].0.as_str(), key) {
                return i;
            }
            i += 1;
        }
        i
    }

    /// The value held for `key`.
    pub fn get(&self, key: &str) -> (r: Option<&Value<'p>>)
        ensures
            match r {
                Some(v) => entries_get(self@, key@) == Some(v@),
                None => entries_get(self@, key@) is None,
            },
    {
        let i = self.find(key);
        if i < self.entries.len() {
            Some(&self.entries[i].1)
        } else {
            None
        }
    }

    /// Sets `key` to `value`.
    pub fn insert(&mut self, key: String, value: Value<'p>)
        ensures
            final(self)@ == entries_put(old(self)@, key@, value@),
            old(self).wf() ==> final(self).wf(),
    {
        proof {
            if self.wf() {
                lemma_entries_put(self@, key@, value@, key@);
            }
        }
        let i = self.find(key.as_str());
        if i < self.entries.len() {
            self.entries[i] = (key, value);
            assert(self@ =~= entries_put(old(self)@, key@, value@));
        } else {
            self.entries.push((key, value));
            assert(self@ =~= entries_put(old(self)@, key@, value@));
        }
    }

    /// A copy of this table.
    pub fn duplicate(&self) -> (r: Table<'p>)
        ensures
            r@ == self@,
        decreases self,
    {
        let mut entries: Vec<(String, Value<'p>)> = Vec::new();
        let mut i: usize = 0;
        while i < self.entries.len()
            invariant
                i <= self.entries.len(),
                entries.len() == i,
                forall|j: int|
                    0 <= j < i ==> (#[trigger] entries[j]).0@ == self.entries[j].0@
                        && entries[j].1.view() == self.entries[j].1.view(),
            decreases self.entries.len() - i,
        {
            let key = self.entries[i].0.clone();
            let value = self.entries[i].1.duplicate();
            entries.push((key, value));
            i += 1;
        }
        let r = Table { entries };
        assert(r@ =~= self@);
        r
    }
}

impl<'p> Clone for Table<'p> {
    fn clone(&self) -> (r: Self)
        ensures
            r@ == self@,
    {
        self.duplicate()
    }
}

/// How a statement ended: it ran through, or control left it by `return`,
/// `break` or `continue`.
#[derive(Debug, PartialEq)]
pub enum Flow<'p> {
    Normal,
    Return(Value<'p>),
    Break,
    Continue,
}

/// How a statement ended, as a mathematical value.
pub ghost enum SpecFlow {
    Normal,
    Return(SpecValue),
    Break,
    Continue,
}

impl<'p> Flow<'p> {
    /// This as a mathematical value.
    pub open spec fn view(&self) -> SpecFlow {
        match self {
            Flow::Normal => SpecFlow::Normal,
            Flow::Return(v) => SpecFlow::Return(v@),
            Flow::Break => SpecFlow::Break,
            Flow::Continue => SpecFlow::Continue,
        }
    }
}

/// The truth of a value in a condition: a Bool by its own value, Nil false,
/// everything else true.
pub open spec fn truthy(v: SpecValue) -> bool {
    match v {
        SpecValue::Bool(b) => b,
        SpecValue::Nil => false,
        _ => true,
    }
}

} // verus!
