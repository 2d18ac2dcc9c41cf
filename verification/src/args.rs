//! The arguments of a tool call: a JSON object seen through its keys, each
//! bound to a string, a boolean, an unsigned integer or some other JSON value.
use crate::text::str_eq;
use vstd::prelude::*;

verus! {

/// A JSON value as far as argument lookups read it.
#[derive(Debug)]
pub enum ArgValue {
    /// A JSON string.
    Str(String),
    /// A JSON boolean.
    Bool(bool),
    /// A JSON number that is a non-negative integer within `u64`.
    UInt(u64),
    /// Anything else: `null`, other numbers, arrays, objects.
    Other,
}

/// The keys of a JSON object and the values bound to them.
///
/// A later binding of a key replaces an earlier one.
#[derive(Debug)]
pub struct ArgMap {
    entries: Vec<(String, ArgValue)>,
}

/// The map that a list of bindings denotes, later bindings winning.
pub open spec fn bindings_map(s: Seq<(String, ArgValue)>) -> Map<Seq<char>, ArgValue>
    decreases s.len(),
{
    if s.len() == 0 {
        Map::empty()
    } else {
        bindings_map(s.drop_last()).insert(s.last().0@, s.last().1)
    }
}

impl View for ArgMap {
    type V = Map<Seq<char>, ArgValue>;

    closed spec fn view(&self) -> Map<Seq<char>, ArgValue> {
        bindings_map(self.entries@)
    }
}

/// The string bound to `key`, if `key` is bound to a string.
pub open spec fn str_arg_of(args: Map<Seq<char>, ArgValue>, key: Seq<char>) -> Option<Seq<char>> {
    if args.contains_key(key) {
        match args[key] {
            ArgValue::Str(s) => Some(s@),
            _ => None,
        }
    } else {
        None
    }
}

/// The boolean bound to `key`; `false` when `key` is not bound to a boolean.
pub open spec fn bool_arg_of(args: Map<Seq<char>, ArgValue>, key: Seq<char>) -> bool {
    args.contains_key(key) && (args[key] matches ArgValue::Bool(b) && b)
}

/// The unsigned integer bound to `key`, if any.
pub open spec fn u64_arg_of(args: Map<Seq<char>, ArgValue>, key: Seq<char>) -> Option<u64> {
    if args.contains_key(key) {
        match args[key] {
            ArgValue::UInt(n) => Some(n),
            _ => None,
        }
    } else {
        None
    }
}

/// The view of an optional string slice.
pub open spec fn opt_str_view(o: Option<&str>) -> Option<Seq<char>> {
    match o {
        Some(s) => Some(s@),
        None => None,
    }
}

/// Reading a key after binding it gives what was bound, read as the reader
/// reads it; reading any other key gives what it gave before.
pub proof fn lemma_read_after_insert(m: Map<Seq<char>, ArgValue>, key: Seq<char>, v: ArgValue, other: Seq<char>)
    ensures
        str_arg_of(m.insert(key, v), key) == (match v {
            ArgValue::Str(s) => Some(s@),
            _ => None,
        }),
        bool_arg_of(m.insert(key, v), key) == (v matches ArgValue::Bool(b) && b),
        u64_arg_of(m.insert(key, v), key) == (match v {
            ArgValue::UInt(n) => Some(n),
            _ => None,
        }),
        other != key ==> str_arg_of(m.insert(key, v), other) == str_arg_of(m, other)
            && bool_arg_of(m.insert(key, v), other) == bool_arg_of(m, other)
            && u64_arg_of(m.insert(key, v), other) == u64_arg_of(m, other),
{
}

proof fn lemma_last_binding(s: Seq<(String, ArgValue)>, key: Seq<char>, i: int)
    requires
        0 <= i < s.len(),
        s[i].0@ == key,
        forall|j: int| i < j < s.len() ==> (#[trigger] s[j]).0@ != key,
    ensures
        bindings_map(s).contains_key(key),
        bindings_map(s)[key] == s[i].1,
    decreases s.len(),
{
    if i < s.len() - 1 {
        lemma_last_binding(s.drop_last(), key, i);
    }
}

proof fn lemma_unbound(s: Seq<(String, ArgValue)>, key: Seq<char>)
    requires
        forall|j: int| 0 <= j < s.len() ==> (#[trigger] s[j]).0@ != key,
    ensures
        !bindings_map(s).contains_key(key),
    decreases s.len(),
{
    if s.len() > 0 {
        lemma_unbound(s.drop_last(), key);
    }
}

impl ArgMap {
    /// An object with no keys.
    pub fn new() -> (r: ArgMap)
        ensures
            r@ == Map::<Seq<char>, ArgValue>::empty(),
    {
        ArgMap { entries: Vec::new() }
    }

    /// Binds `key` to `value`, replacing any earlier binding of `key`.
    pub fn insert(&mut self, key: String, value: ArgValue)
        ensures
            final(self)@ == old(self)@.insert(key@, value),
    {
        self.entries.push((key, value));
        assert(self.entries@.drop_last() =~= old(self).entries@);
    }

    /// The position of the binding of `key` that is in force.
    fn position(&self, key: &str) -> (r: Option<usize>)
        ensures
            match r {
                Some(i) => i < self.entries@.len() && self@.contains_key(key@) && self@[key@]
                    == self.entries@[i as int].1,
                None => !self@.contains_key(key@),
            },
    {
        let mut i: usize = self.entries.len();
        while i > 0
            invariant
                i <= self.entries@.len(),
                forall|j: int| i <= j < self.entries@.len() ==> (#[trigger] self.entries@[j]).0@
                    != key@,
            decreases i,
        {
            i -= 1;
            if str_eq(self.entries[i].0.as_str(), key) {
                proof {
                    lemma_last_binding(self.entries@, key@, i as int);
                }
                return Some(i);
            }
        }
        proof {
            lemma_unbound(self.entries@, key@);
        }
        None
    }

    /// The string bound to `key`, as `args.get(key).and_then(|v| v.as_str())` reads it.
    pub fn str_arg(&self, key: &str) -> (r: Option<&str>)
        ensures
            opt_str_view(r) == str_arg_of(self@, key@),
    {
        match self.position(key) {
            Some(i) => match &self.entries[i].1 {
                ArgValue::Str(s) => Some(s.as_str()),
                _ => None,
            },
            None => None,
        }
    }

    /// The boolean bound to `key`, `false` when there is none, as
    /// `args.get(key).and_then(|v| v.as_bool()).unwrap_or(false)` reads it.
    pub fn bool_arg(&self, key: &str) -> (r: bool)
        ensures
            r == bool_arg_of(self@, key@),
    {
        match self.position(key) {
            Some(i) => match &self.entries[i].1 {
                ArgValue::Bool(b) => *b,
                _ => false,
            },
            None => false,
        }
    }

    /// The unsigned integer bound to `key`, as
    /// `args.get(key).and_then(|v| v.as_u64())` reads it.
    pub fn u64_arg(&self, key: &str) -> (r: Option<u64>)
        ensures
            r == u64_arg_of(self@, key@),
    {
        match self.position(key) {
            Some(i) => match &self.entries[i].1 {
                ArgValue::UInt(n) => Some(*n),
                _ => None,
            },
            None => None,
        }
    }
}

} // verus!
