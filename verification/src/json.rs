//! The JSON value a tool request carries, held as plain values: the shape of
//! each node, the integer reading of a number, and the node's own JSON text
//! (used where an error quotes the value it refused). A number that is not
//! an integer is held by its text alone; no floating-point value enters the
//! library.
use vstd::prelude::*;
use crate::text::{chars_eq_str, chars_of};

verus! {

/// The shape of one JSON node.
#[derive(Debug)]
pub enum JsonNode {
    Null,
    Bool(bool),
    /// A non-negative integer.
    PosInt(u64),
    /// A negative integer.
    NegInt(i64),
    /// A number with a fraction or an exponent; its value is in the node's text.
    Float,
    Str(String),
    Array(Vec<Json>),
    /// The members in document order.
    Object(Vec<(String, Json)>),
}

/// A JSON node together with its compact JSON text.
#[derive(Debug)]
pub struct Json {
    pub node: JsonNode,
    pub text: String,
}

/// The member `key` of an object's member list: the first one so named.
pub open spec fn lookup(members: Seq<(String, Json)>, key: Seq<char>) -> Option<Json>
    decreases members.len(),
{
    if members.len() == 0 {
        None
    } else if members[0].0@ == key {
        Some(members[0].1)
    } else {
        lookup(members.drop_first(), key)
    }
}

impl Json {
    /// What `value.get(key)` gives: the member of an object, `None` for a
    /// missing member or a node that is not an object.
    pub open spec fn spec_get(self, key: Seq<char>) -> Option<Json> {
        match self.node {
            JsonNode::Object(members) => lookup(members@, key),
            _ => None,
        }
    }

    pub open spec fn spec_as_u64(self) -> Option<u64> {
        match self.node {
            JsonNode::PosInt(n) => Some(n),
            _ => None,
        }
    }

    pub open spec fn spec_as_i64(self) -> Option<i64> {
        match self.node {
            JsonNode::PosInt(n) => if n <= i64::MAX as u64 {
                Some(n as i64)
            } else {
                None
            },
            JsonNode::NegInt(n) => Some(n),
            _ => None,
        }
    }

    pub open spec fn spec_as_bool(self) -> Option<bool> {
        match self.node {
            JsonNode::Bool(b) => Some(b),
            _ => None,
        }
    }

    pub open spec fn spec_as_str(self) -> Option<Seq<char>> {
        match self.node {
            JsonNode::Str(s) => Some(s@),
            _ => None,
        }
    }

    pub open spec fn spec_is_null(self) -> bool {
        self.node is Null
    }

    /// The member `key` read as a string.
    pub open spec fn str_at(self, key: Seq<char>) -> Option<Seq<char>> {
        match self.spec_get(key) {
            Some(v) => v.spec_as_str(),
            None => None,
        }
    }

    /// The member `key` read as an unsigned integer.
    pub open spec fn u64_at(self, key: Seq<char>) -> Option<u64> {
        match self.spec_get(key) {
            Some(v) => v.spec_as_u64(),
            None => None,
        }
    }

    /// The member `key` read as a signed integer.
    pub open spec fn i64_at(self, key: Seq<char>) -> Option<i64> {
        match self.spec_get(key) {
            Some(v) => v.spec_as_i64(),
            None => None,
        }
    }

    /// The member `key` read as a boolean.
    pub open spec fn bool_at(self, key: Seq<char>) -> Option<bool> {
        match self.spec_get(key) {
            Some(v) => v.spec_as_bool(),
            None => None,
        }
    }

    /// The member `key`, unless it is missing or `null`.
    pub open spec fn present(self, key: Seq<char>) -> Option<Json> {
        match self.spec_get(key) {
            Some(v) => if v.spec_is_null() {
                None
            } else {
                Some(v)
            },
            None => None,
        }
    }

    /// The member `key` of an object.
    pub fn get(&self, key: &str) -> (r: Option<&Json>)
        ensures
            r matches Some(v) ==> self.spec_get(key@) == Some(*v),
            r is None ==> self.spec_get(key@) is None,
    {
        match &self.node {
            JsonNode::Object(members) => {
                let mut i: usize = 0;
                assert(self.spec_get(key@) == lookup(members@, key@));
                assert(members@.skip(0) =~= members@);
                while i < members.len()
                    invariant
                        i <= members.len(),
                        self.spec_get(key@) == lookup(members@, key@),
                        lookup(members@, key@) == lookup(members@.skip(i as int), key@),
                    decreases members.len() - i,
                {
                    let name = chars_of(members[i].0.as_str());
                    assert(members@.skip(i as int)[0] == members@[i as int]);
                    if chars_eq_str(name.as_slice(), key) {
                        assert(members@.skip(i as int)[0].0@ == key@);
                        assert(members@.skip(i as int).len() > 0);
                        assert(lookup(members@.skip(i as int), key@) == Some(members@[i as int].1));
                        let found = &members[i].1;
                        assert(*found == members@[i as int].1);
                        return Some(found);
                    }
                    assert(members@.skip(i as int).drop_first() =~= members@.skip(i + 1));
                    i += 1;
                }
                None
            },
            _ => None,
        }
    }

    pub fn as_u64(&self) -> (r: Option<u64>)
        ensures
            r == self.spec_as_u64(),
    {
        match &self.node {
            JsonNode::PosInt(n) => Some(*n),
            _ => None,
        }
    }

    pub fn as_i64(&self) -> (r: Option<i64>)
        ensures
            r == self.spec_as_i64(),
    {
        match &self.node {
            JsonNode::PosInt(n) => if *n <= i64::MAX as u64 {
                Some(*n as i64)
            } else {
                None
            },
            JsonNode::NegInt(n) => Some(*n),
            _ => None,
        }
    }

    pub fn as_bool(&self) -> (r: Option<bool>)
        ensures
            r == self.spec_as_bool(),
    {
        match &self.node {
            JsonNode::Bool(b) => Some(*b),
            _ => None,
        }
    }

    pub fn as_str(&self) -> (r: Option<&str>)
        ensures
            r matches Some(s) ==> self.spec_as_str() == Some(s@),
            r is None ==> self.spec_as_str() is None,
    {
        match &self.node {
            JsonNode::Str(s) => Some(s.as_str()),
            _ => None,
        }
    }

    pub fn as_array(&self) -> (r: Option<&Vec<Json>>)
        ensures
            r matches Some(a) ==> self.node == JsonNode::Array(*a),
            r is None ==> !(self.node is Array),
    {
        match &self.node {
            JsonNode::Array(a) => Some(a),
            _ => None,
        }
    }

    pub fn is_null(&self) -> (r: bool)
        ensures
            r == self.spec_is_null(),
    {
        match &self.node {
            JsonNode::Null => true,
            _ => false,
        }
    }

    /// The member `key` read as a string.
    pub fn str_field(&self, key: &str) -> (r: Option<&str>)
        ensures
            r matches Some(s) ==> self.str_at(key@) == Some(s@),
            r is None ==> self.str_at(key@) is None,
    {
        match self.get(key) {
            Some(v) => v.as_str(),
            None => None,
        }
    }

    /// The member `key` read as an unsigned integer.
    pub fn u64_field(&self, key: &str) -> (r: Option<u64>)
        ensures
            r == self.u64_at(key@),
    {
        match self.get(key) {
            Some(v) => v.as_u64(),
            None => None,
        }
    }

    /// The member `key` read as a signed integer.
    pub fn i64_field(&self, key: &str) -> (r: Option<i64>)
        ensures
            r == self.i64_at(key@),
    {
        match self.get(key) {
            Some(v) => v.as_i64(),
            None => None,
        }
    }

    /// The member `key` read as a boolean.
    pub fn bool_field(&self, key: &str) -> (r: Option<bool>)
        ensures
            r == self.bool_at(key@),
    {
        match self.get(key) {
            Some(v) => v.as_bool(),
            None => None,
        }
    }

    /// The member `key`, unless it is missing or `null`.
    pub fn present_field(&self, key: &str) -> (r: Option<&Json>)
        ensures
            r matches Some(v) ==> self.present(key@) == Some(*v),
            r is None ==> self.present(key@) is None,
    {
        match self.get(key) {
            Some(v) => if v.is_null() {
                None
            } else {
                Some(v)
            },
            None => None,
        }
    }
}

} // verus!
