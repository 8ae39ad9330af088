//! The header of a record: a mapping from field name to field value in which
//! the last value written for a name is the one that is kept.

use vstd::prelude::*;
use vstd::string::*;

verus! {

/// One `name: value` pair as it was read.
pub struct HeaderField {
    pub name: String,
    pub value: String,
}

/// The mapping that a sequence of writes leaves behind.
pub open spec fn fields_map(fields: Seq<HeaderField>) -> Map<Seq<char>, Seq<char>>
    decreases fields.len(),
{
    if fields.len() == 0 {
        Map::empty()
    } else {
        fields_map(fields.drop_last()).insert(fields.last().name@, fields.last().value@)
    }
}

/// Header fields, viewed as a map from name to value.
pub struct Header {
    fields: Vec<HeaderField>,
}

impl View for Header {
    type V = Map<Seq<char>, Seq<char>>;

    closed spec fn view(&self) -> Map<Seq<char>, Seq<char>> {
        fields_map(self.fields@)
    }
}

impl Header {
    /// A header without fields.
    pub fn new() -> (h: Header)
        ensures
            h@ == Map::<Seq<char>, Seq<char>>::empty(),
    {
        Header { fields: Vec::new() }
    }

    /// Sets `name` to `value`, replacing what `name` was set to before.
    pub fn insert(&mut self, name: String, value: String)
        ensures
            final(self)@ == old(self)@.insert(name@, value@),
    {
        let ghost before = self.fields@;
        self.fields.push(HeaderField { name, value });
        assert(self.fields@.drop_last() == before);
    }

    /// The value that `name` is set to, if any.
    pub fn get(&self, name: &str) -> (r: Option<&String>)
        ensures
            match r {
                Some(value) => self@.contains_key(name@) && self@[name@] == value@,
                None => !self@.contains_key(name@),
            },
    {
        let key = name.to_owned();
        let mut i: usize = self.fields.len();
        assert(self.fields@.take(i as int) == self.fields@);
        while i > 0
            invariant
                i <= self.fields@.len(),
                key@ == name@,
                self@.contains_key(name@) == fields_map(self.fields@.take(i as int)).contains_key(
                    name@,
                ),
                self@.contains_key(name@) ==> self@[name@] == fields_map(
                    self.fields@.take(i as int),
                )[name@],
            decreases i,
        {
            i -= 1;
            assert(self.fields@.take(i + 1).drop_last() == self.fields@.take(i as int));
            if self.fields[i].name == key {
                return Some(&self.fields[i].value);
            }
        }
        None
    }

    /// Whether `name` is set.
    pub fn contains(&self, name: &str) -> (r: bool)
        ensures
            r == self@.contains_key(name@),
    {
        self.get(name).is_some()
    }
}

} // verus!
