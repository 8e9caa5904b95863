//! One tree for a parsed TOML, JSON or YAML document, and the ways the
//! manifest rules read it.
//!
//! Tables keep their entries in document order, with unique keys as the
//! parsers make them. A YAML tag is kept as a `Tagged` node around the
//! tagged value: some readings look through tags, others do not.

use vstd::prelude::*;
use crate::text::str_eq;

verus! {

/// A node of a parsed document.
pub enum UnifiedValue {
    /// A string.
    Str(String),
    /// An integer, as the format's integer reading gives it: any TOML
    /// integer, any JSON integer, a YAML integer that fits in an `i64`.
    Int(i128),
    /// An array (YAML: a sequence).
    Array(Vec<UnifiedValue>),
    /// A table (JSON: an object, YAML: a mapping), entries in order.
    Table(Vec<Entry>),
    /// A value carrying a YAML tag.
    Tagged(Box<UnifiedValue>),
    /// Anything the rules never read inside: null, booleans, floats,
    /// datetimes and YAML integers beyond `i64`.
    Other,
}

/// An entry of a table. `key` is `None` for a YAML key that is not a plain
/// string: no string lookup finds such an entry.
pub struct Entry {
    pub key: Option<String>,
    pub value: UnifiedValue,
}

/// The value of the first entry of `entries` under the key `key`.
pub open spec fn lookup(entries: Seq<Entry>, key: Seq<char>) -> Option<UnifiedValue>
    decreases entries.len(),
{
    if entries.len() == 0 {
        None
    } else {
        match entries[0].key {
            Some(k) if k@ == key => Some(entries[0].value),
            _ => lookup(entries.drop_first(), key),
        }
    }
}

/// The value an optional reference points to.
pub open spec fn deref_opt(r: Option<&UnifiedValue>) -> Option<UnifiedValue> {
    match r {
        Some(v) => Some(*v),
        None => None,
    }
}

/// The characters of an optional string.
pub open spec fn str_view_opt(r: Option<&str>) -> Option<Seq<char>> {
    match r {
        Some(s) => Some(s@),
        None => None,
    }
}

impl UnifiedValue {
    /// The value with its YAML tags taken off.
    pub open spec fn untagged(self) -> UnifiedValue
        decreases self,
    {
        match self {
            UnifiedValue::Tagged(inner) => (*inner).untagged(),
            _ => self,
        }
    }

    /// The entry under `key` when this node itself is a table.
    pub open spec fn spec_step(self, key: Seq<char>) -> Option<UnifiedValue> {
        match self {
            UnifiedValue::Table(entries) => lookup(entries@, key),
            _ => None,
        }
    }

    /// The entry under `key` of the table this node is once its tags are
    /// taken off.
    pub open spec fn spec_index(self, key: Seq<char>) -> Option<UnifiedValue> {
        self.untagged().spec_step(key)
    }

    /// The node reached by following `path` from here, a step per key,
    /// through tables only.
    pub open spec fn spec_get_path(self, path: Seq<Seq<char>>) -> Option<UnifiedValue>
        decreases path.len(),
    {
        if path.len() == 0 {
            Some(self)
        } else {
            match self.spec_step(path[0]) {
                Some(child) => child.spec_get_path(path.drop_first()),
                None => None,
            }
        }
    }

    /// The string this node is, tags taken off.
    pub open spec fn spec_as_str(self) -> Option<Seq<char>> {
        match self.untagged() {
            UnifiedValue::Str(s) => Some(s@),
            _ => None,
        }
    }

    /// The integer this node is, tags taken off, when it lies in `0..=u32::MAX`.
    pub open spec fn spec_as_u32(self) -> Option<u32> {
        match self.untagged() {
            UnifiedValue::Int(n) => if 0 <= n <= u32::MAX {
                Some(n as u32)
            } else {
                None
            },
            _ => None,
        }
    }

    /// The elements of this node when it is itself an array.
    pub open spec fn spec_as_array(self) -> Option<Seq<UnifiedValue>> {
        match self {
            UnifiedValue::Array(items) => Some(items@),
            _ => None,
        }
    }

    /// This node with its YAML tags taken off.
    pub fn untag(&self) -> (inner: &UnifiedValue)
        ensures
            *inner == self.untagged(),
        decreases self,
    {
        match self {
            UnifiedValue::Tagged(inner) => inner.untag(),
            _ => self,
        }
    }

    /// The entry under `key` when this node itself is a table.
    pub fn step(&self, key: &str) -> (child: Option<&UnifiedValue>)
        ensures
            deref_opt(child) == self.spec_step(key@),
    {
        match self {
            UnifiedValue::Table(entries) => {
                let n = entries.len();
                assert(entries@.skip(0) == entries@);
                for i in 0..n
                    invariant
                        n == entries@.len(),
                        self.spec_step(key@) == lookup(entries@.skip(i as int), key@),
                {
                    assert(entries@.skip(i as int).drop_first() == entries@.skip(i + 1));
                    assert(entries@.skip(i as int)[0] == entries@[i as int]);
                    match &entries[i].key {
                        Some(k) => {
                            if str_eq(k.as_str(), key) {
                                return Some(&entries[i].value);
                            }
                        },
                        None => {},
                    }
                }
                assert(entries@.skip(n as int).len() == 0);
                None
            },
            _ => None,
        }
    }

    /// The entry under `key` of the table this node is once its tags are
    /// taken off (`get` with a string index).
    pub fn get(&self, key: &str) -> (child: Option<&UnifiedValue>)
        ensures
            deref_opt(child) == self.spec_index(key@),
    {
        self.untag().step(key)
    }

    /// The node reached by following `path`, a step per key, through tables
    /// only; `None` as soon as a step finds nothing.
    pub fn get_path(&self, path: &[&str]) -> (found: Option<&UnifiedValue>)
        ensures
            deref_opt(found) == self.spec_get_path(path@.map_values(|k: &str| k@)),
    {
        let ghost keys = path@.map_values(|k: &str| k@);
        let mut current: &UnifiedValue = self;
        let n = path.len();
        assert(keys.skip(0) == keys);
        for i in 0..n
            invariant
                n == path@.len(),
                keys == path@.map_values(|k: &str| k@),
                self.spec_get_path(keys) == current.spec_get_path(keys.skip(i as int)),
        {
            assert(keys.skip(i as int)[0] == path@[i as int]@);
            assert(keys.skip(i as int).drop_first() == keys.skip(i + 1));
            match current.step(path[i]) {
                Some(child) => {
                    current = child;
                },
                None => {
                    return None;
                },
            }
        }
        assert(keys.skip(n as int).len() == 0);
        Some(current)
    }

    /// The string this node is, tags taken off.
    pub fn as_str(&self) -> (s: Option<&str>)
        ensures
            str_view_opt(s) == self.spec_as_str(),
    {
        match self.untag() {
            UnifiedValue::Str(s) => Some(s.as_str()),
            _ => None,
        }
    }

    /// The integer this node is, tags taken off, when it fits in a `u32`.
    pub fn as_u32(&self) -> (n: Option<u32>)
        ensures
            n == self.spec_as_u32(),
    {
        match self.untag() {
            UnifiedValue::Int(n) => {
                if 0 <= *n && *n <= 0xffff_ffff {
                    Some(*n as u32)
                } else {
                    None
                }
            },
            _ => None,
        }
    }

    /// The elements of this node when it is itself an array.
    pub fn as_array(&self) -> (items: Option<&Vec<UnifiedValue>>)
        ensures
            match items {
                Some(v) => self.spec_as_array() == Some(v@),
                None => self.spec_as_array() is None,
            },
    {
        match self {
            UnifiedValue::Array(items) => Some(items),
            _ => None,
        }
    }
}

} // verus!
