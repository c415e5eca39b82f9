//! The variables handed to the front-end, and the script that defines them.

use vstd::prelude::*;
use crate::escape::{escape_value, push_escaped};

verus! {

/// Whether `c` may start a key: an ASCII letter, `_` or `$`.
pub open spec fn is_key_start(c: char) -> bool {
    ||| 'a' <= c <= 'z'
    ||| 'A' <= c <= 'Z'
    ||| c == '_'
    ||| c == '$'
}

/// Whether `c` may stand inside a key: what may start one, or an ASCII digit.
pub open spec fn is_key_part(c: char) -> bool {
    is_key_start(c) || '0' <= c <= '9'
}

/// Whether `key` can be written as a field name of the injected object: it is
/// not empty, starts with a letter, `_` or `$`, and goes on with these or
/// digits.
pub open spec fn valid_key(key: Seq<char>) -> bool {
    &&& key.len() > 0
    &&& is_key_start(key[0])
    &&& forall|i: int| 0 < i < key.len() ==> is_key_part(#[trigger] key[i])
}

/// Tells whether `key` can be written as a field name of the injected object.
pub fn is_valid_key(key: &str) -> (valid: bool)
    ensures
        valid == valid_key(key@),
{
    let mut first = true;
    let mut valid = true;
    for c in it: key.chars()
        invariant
            it.seq() == key@,
            first == (it.index() == 0),
            valid == (forall|i: int|
                0 <= i < it.index() ==> if i == 0 {
                    is_key_start(#[trigger] key@[i])
                } else {
                    is_key_part(key@[i])
                }),
    {
        let start = ('a' <= c && c <= 'z') || ('A' <= c && c <= 'Z') || c == '_' || c == '$';
        let part = start || ('0' <= c && c <= '9');
        if first {
            valid = valid && start;
        } else {
            valid = valid && part;
        }
        first = false;
    }
    valid && !first
}

/// Why a set of variables cannot be written as a script.
#[derive(Debug, Clone, Copy, PartialEq, Eq, Structural)]
pub enum ConfigError {
    /// The key of the entry at `index` is empty.
    EmptyKey { index: usize },
    /// The key of the entry at `index` holds a character that a field name
    /// cannot hold, or starts with a digit.
    InvalidKey { index: usize },
}

/// The error that the malformed `key` of the entry at `index` gives.
pub open spec fn key_error(index: usize, key: Seq<char>) -> ConfigError {
    if key.len() == 0 {
        ConfigError::EmptyKey { index }
    } else {
        ConfigError::InvalidKey { index }
    }
}

/// The index of the entry that `error` speaks of.
pub open spec fn error_index(error: ConfigError) -> int {
    match error {
        ConfigError::EmptyKey { index } => index as int,
        ConfigError::InvalidKey { index } => index as int,
    }
}

/// Whether every key of `entries` can be written as a field name.
pub open spec fn all_keys_valid(entries: Seq<(Seq<char>, Seq<char>)>) -> bool {
    forall|i: int| 0 <= i < entries.len() ==> valid_key((#[trigger] entries[i]).0)
}

/// What opens the script: the diagnostic marker and the start of the object.
pub open spec fn script_head() -> Seq<char> {
    "\n        console.log(\"Successfully injected InputShare variables\");\n        window.__INJECTED__ = {\n            "@
}

/// What closes the script.
pub open spec fn script_tail() -> Seq<char> {
    "\n        };\n    "@
}

/// What stands between two fields.
pub open spec fn field_separator() -> Seq<char> {
    ",\n"@
}

/// What stands between a key and its value: the colon and the opening quote.
pub open spec fn value_opener() -> Seq<char> {
    ": '"@
}

/// What ends a value: the closing quote.
pub open spec fn value_closer() -> Seq<char> {
    "'"@
}

/// One field of the object: the key, a colon, and the value as a
/// single-quoted literal.
pub open spec fn render_field(entry: (Seq<char>, Seq<char>)) -> Seq<char> {
    entry.0 + value_opener() + escape_value(entry.1) + value_closer()
}

/// The fields of the object, in order, with a separator between neighbours.
pub open spec fn render_fields(entries: Seq<(Seq<char>, Seq<char>)>) -> Seq<char>
    decreases entries.len(),
{
    if entries.len() == 0 {
        Seq::empty()
    } else if entries.len() == 1 {
        render_field(entries[0])
    } else {
        render_fields(entries.drop_last()) + field_separator() + render_field(entries.last())
    }
}

/// The script that defines the injected object with the fields `entries`.
pub open spec fn script_text(entries: Seq<(Seq<char>, Seq<char>)>) -> Seq<char> {
    script_head() + render_fields(entries) + script_tail()
}

/// Whether `error` is what the first malformed key of `entries` gives: it
/// names the first entry whose key cannot be written as a field name, and
/// says whether that key is empty.
pub open spec fn reports_first_bad_key(
    entries: Seq<(Seq<char>, Seq<char>)>,
    error: ConfigError,
) -> bool {
    &&& 0 <= error_index(error) < entries.len()
    &&& !valid_key(entries[error_index(error)].0)
    &&& error == key_error(error_index(error) as usize, entries[error_index(error)].0)
    &&& forall|j: int| 0 <= j < error_index(error) ==> valid_key((#[trigger] entries[j]).0)
}

/// Whether no key stands twice among `entries`.
pub open spec fn distinct_keys(entries: Seq<(Seq<char>, Seq<char>)>) -> bool {
    forall|i: int, j: int|
        0 <= i < j < entries.len() ==> (#[trigger] entries[i]).0 != (#[trigger] entries[j]).0
}

/// Whether `key` is the key of some entry.
pub open spec fn has_key(entries: Seq<(Seq<char>, Seq<char>)>, key: Seq<char>) -> bool {
    exists|i: int| 0 <= i < entries.len() && (#[trigger] entries[i]).0 == key
}

/// The variables handed to the front-end: keys with their values, in the order
/// in which the keys were first inserted. No key stands twice.
pub struct InjectedVars {
    entries: Vec<(String, String)>,
}

impl View for InjectedVars {
    type V = Seq<(Seq<char>, Seq<char>)>;

    closed spec fn view(&self) -> Seq<(Seq<char>, Seq<char>)> {
        Seq::new(self.entries@.len(), |i: int| (self.entries@[i].0@, self.entries@[i].1@))
    }
}

impl InjectedVars {
    /// The invariant of the type: no key stands twice.
    pub open spec fn wf(&self) -> bool {
        distinct_keys(self@)
    }

    /// An empty set of variables.
    pub fn new() -> (vars: InjectedVars)
        ensures
            vars.wf(),
            vars@ == Seq::<(Seq<char>, Seq<char>)>::empty(),
    {
        let vars = InjectedVars { entries: Vec::new() };
        assert(vars@ =~= Seq::<(Seq<char>, Seq<char>)>::empty());
        vars
    }

    /// The number of variables.
    pub fn len(&self) -> (n: usize)
        ensures
            n == self@.len(),
    {
        self.entries.len()
    }

    /// The position of `key`, if it is present.
    pub fn position(&self, key: &str) -> (found: Option<usize>)
        ensures
            match found {
                Some(i) => i < self@.len() && self@[i as int].0 == key@,
                None => !has_key(self@, key@),
            },
    {
        let wanted = key.to_owned();
        let mut i: usize = 0;
        while i < self.entries.len()
            invariant
                i <= self.entries@.len(),
                wanted@ == key@,
                forall|j: int| 0 <= j < i ==> (#[trigger] self@[j]).0 != key@,
            decreases self.entries@.len() - i,
        {
            if self.entries[i].0 == wanted {
                return Some(i);
            }
            i = i + 1;
        }
        None
    }

    /// The value of `key`, if it is present.
    pub fn get(&self, key: &str) -> (value: Option<&String>)
        requires
            self.wf(),
        ensures
            !has_key(self@, key@) ==> value is None,
            forall|i: int|
                0 <= i < self@.len() && (#[trigger] self@[i]).0 == key@ ==> (value matches Some(v)
                    && v@ == self@[i].1),
    {
        match self.position(key) {
            Some(i) => Some(&self.entries[i].1),
            None => None,
        }
    }

    /// Sets `key` to `value`. A key that is present keeps its place and hands
    /// back the value it had; a new key goes to the end.
    pub fn insert(&mut self, key: &str, value: String) -> (previous: Option<String>)
        requires
            old(self).wf(),
        ensures
            final(self).wf(),
            !has_key(old(self)@, key@) ==> previous is None && final(self)@ == old(self)@.push(
                (key@, value@),
            ),
            forall|i: int|
                0 <= i < old(self)@.len() && (#[trigger] old(self)@[i]).0 == key@ ==> (previous matches Some(p)
                    && p@ == old(self)@[i].1 && final(self)@ == old(self)@.update(
                    i,
                    (key@, value@),
                )),
    {
        let ghost before = self@;
        match self.position(key) {
            Some(i) => {
                let replaced = self.entries.remove(i);
                self.entries.insert(i, (key.to_owned(), value));
                assert(self@ =~= before.update(i as int, (key@, value@)));
                Some(replaced.1)
            },
            None => {
                self.entries.push((key.to_owned(), value));
                assert(self@ =~= before.push((key@, value@)));
                None
            },
        }
    }

    /// Looks for the first key that cannot be written as a field name.
    pub fn check_keys(&self) -> (outcome: Result<(), ConfigError>)
        ensures
            outcome is Ok <==> all_keys_valid(self@),
            outcome matches Err(error) ==> reports_first_bad_key(self@, error),
    {
        let mut i: usize = 0;
        while i < self.entries.len()
            invariant
                i <= self.entries@.len(),
                forall|j: int| 0 <= j < i ==> valid_key((#[trigger] self@[j]).0),
            decreases self.entries@.len() - i,
        {
            let key = self.entries[i].0.as_str();
            assert(key@ == self@[i as int].0);
            if !is_valid_key(key) {
                if key.is_empty() {
                    return Err(ConfigError::EmptyKey { index: i });
                } else {
                    return Err(ConfigError::InvalidKey { index: i });
                }
            }
            i = i + 1;
        }
        Ok(())
    }

    /// Appends the fields of the object to `out`.
    pub fn push_fields(&self, out: &mut String)
        ensures
            final(out)@ == old(out)@ + render_fields(self@),
    {
        let ghost before = out@;
        let mut i: usize = 0;
        while i < self.entries.len()
            invariant
                i <= self.entries@.len(),
                out@ == before + render_fields(self@.take(i as int)),
            decreases self.entries@.len() - i,
        {
            if i > 0 {
                out.append(",\n");
            }
            out.append(self.entries[i].0.as_str());
            out.append(": '");
            push_escaped(out, self.entries[i].1.as_str());
            out.append("'");
            proof {
                let taken = self@.take(i + 1);
                assert(taken.drop_last() =~= self@.take(i as int));
                assert(taken.last() == self@[i as int]);
                assert(out@ =~= before + render_fields(taken));
            }
            i = i + 1;
        }
        assert(self@.take(i as int) =~= self@);
    }
}

/// Builds the script that defines the injected object.
///
/// The script logs a marker and then assigns to `window.__INJECTED__` an object
/// with one string field per variable, in the variables' order. Each value is
/// written as an escaped literal. Fails on the first key that cannot be
/// written as a field name.
pub fn create_init_script(vars: &InjectedVars) -> (outcome: Result<String, ConfigError>)
    ensures
        outcome is Ok <==> all_keys_valid(vars@),
        outcome matches Ok(script) ==> script@ == script_text(vars@),
        outcome matches Err(error) ==> reports_first_bad_key(vars@, error),
{
    match vars.check_keys() {
        Err(error) => Err(error),
        Ok(_) => {
            let mut script = String::new();
            script.append(
                "\n        console.log(\"Successfully injected InputShare variables\");\n        window.__INJECTED__ = {\n            ",
            );
            vars.push_fields(&mut script);
            script.append("\n        };\n    ");
            Ok(script)
        },
    }
}

} // verus!
