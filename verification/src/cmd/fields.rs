use crate::util::value::{member_trees, object_of, push_member, JsonTree, JsonValue};
pub use crate::util::table::{
    keys_unique, lemma_position_is, lemma_position_none, lemma_position_of, lemma_put, lookup,
    position_of, put,
};
use vstd::prelude::*;
use vstd::string::StringExecFns;

verus! {

/// Named string parameters as a value: pairs of a name and a text, in order.
pub type FieldSeq = Seq<(Seq<char>, Seq<char>)>;

/// `entries` with each pair of `more` set, first to last.
pub open spec fn put_all(entries: FieldSeq, more: FieldSeq) -> FieldSeq
    decreases more.len(),
{
    if more.len() == 0 {
        entries
    } else {
        put_all(put(entries, more[0].0, more[0].1), more.skip(1))
    }
}

/// The members of a JSON object that holds each pair as a text under its name.
pub open spec fn field_members(fields: FieldSeq) -> Seq<(Seq<char>, JsonTree)> {
    Seq::new(fields.len(), |i: int| (fields[i].0, JsonTree::Text(fields[i].1)))
}

/// The object of pairs of which no two have the same name can be written.
pub proof fn lemma_field_members_printable(fields: FieldSeq)
    requires
        keys_unique(fields),
    ensures
        JsonTree::Object(field_members(fields)).printable(),
{
    let members = field_members(fields);
    assert forall|i: int, j: int| 0 <= i < j < members.len() implies (#[trigger] members[i]).0
        != (#[trigger] members[j]).0 by {
        assert(fields[i].0 != fields[j].0);
    }
    assert forall|i: int| 0 <= i < members.len() implies (#[trigger] members[i]).1.printable() by {
        assert(members[i].1 == JsonTree::Text(fields[i].1));
    }
}

/// The mapping that the pairs stand for.
pub open spec fn as_map(entries: FieldSeq) -> Map<Seq<char>, Seq<char>> {
    Map::new(
        |key: Seq<char>| position_of(entries, key) is Some,
        |key: Seq<char>| lookup(entries, key)->0,
    )
}

/// Setting a name in the pairs is setting it in the mapping that they stand for.
pub proof fn lemma_put_is_insert(entries: FieldSeq, key: Seq<char>, value: Seq<char>)
    requires
        keys_unique(entries),
    ensures
        as_map(put(entries, key, value)) == as_map(entries).insert(key, value),
{
    lemma_put(entries, key, value);
    let after = put(entries, key, value);
    assert forall|other: Seq<char>| other != key implies (position_of(after, other) is Some
        <==> position_of(entries, other) is Some) by {
        assert(lookup(after, other) == lookup(entries, other));
    }
    assert(as_map(after) =~= as_map(entries).insert(key, value));
}

/// Named string parameters, each name once, in the order in which the names came.
#[derive(Debug)]
pub struct ExtFields {
    entries: Vec<(String, String)>,
}

/// The value of a vector of pairs.
pub open spec fn pairs_view(pairs: Seq<(String, String)>) -> FieldSeq {
    Seq::new(pairs.len(), |i: int| (pairs[i].0@, pairs[i].1@))
}

impl View for ExtFields {
    type V = FieldSeq;

    closed spec fn view(&self) -> FieldSeq {
        pairs_view(self.entries@)
    }
}

impl ExtFields {
    #[verifier::type_invariant]
    spec fn names_apart(self) -> bool {
        keys_unique(pairs_view(self.entries@))
    }

    pub fn new() -> (fields: ExtFields)
        ensures
            fields@ == FieldSeq::empty(),
    {
        let fields = ExtFields { entries: Vec::new() };
        assert(fields@ =~= FieldSeq::empty());
        fields
    }

    pub fn len(&self) -> (n: usize)
        ensures
            n == self@.len(),
    {
        self.entries.len()
    }

    /// The pairs, in order. No name occurs twice among them.
    pub fn entries(&self) -> (pairs: &Vec<(String, String)>)
        ensures
            pairs_view(pairs@) == self@,
            keys_unique(self@),
    {
        proof {
            use_type_invariant(self);
        }
        &self.entries
    }

    fn find(&self, key: &String) -> (r: Option<usize>)
        ensures
            match r {
                Some(i) => position_of(self@, key@) == Some(i as int) && i < self@.len(),
                None => position_of(self@, key@) is None,
            },
    {
        let ghost all = self@;
        let mut i: usize = 0;
        assert(all.skip(0) =~= all);
        while i < self.entries.len()
            invariant
                i <= self.entries.len(),
                all == pairs_view(self.entries@),
                match position_of(all.skip(i as int), key@) {
                    Some(k) => position_of(all, key@) == Some(k + i),
                    None => position_of(all, key@) is None,
                },
            decreases self.entries.len() - i,
        {
            assert(all.skip(i as int).skip(1) =~= all.skip(i + 1));
            if self.entries[i].0 == *key {
                return Some(i);
            }
            i = i + 1;
        }
        None
    }

    /// The text of the pair named `key`.
    pub fn get(&self, key: &str) -> (r: Option<&String>)
        ensures
            match r {
                Some(value) => lookup(self@, key@) == Some(value@),
                None => lookup(self@, key@) is None,
            },
    {
        let wanted = String::from_str(key);
        match self.find(&wanted) {
            Some(i) => Some(&self.entries[i].1),
            None => None,
        }
    }

    /// The JSON object that holds each pair as a text under its name.
    pub fn to_json(&self) -> (json: JsonValue)
        ensures
            json@ == JsonTree::Object(field_members(self@)),
            keys_unique(self@),
    {
        proof {
            use_type_invariant(self);
        }
        let mut members: Vec<(String, JsonValue)> = Vec::new();
        let mut i: usize = 0;
        assert(member_trees(members@) =~= field_members(self@).take(0));
        while i < self.entries.len()
            invariant
                i <= self.entries.len(),
                member_trees(members@) == field_members(self@).take(i as int),
            decreases self.entries.len() - i,
        {
            assert(self@[i as int] == (self.entries@[i as int].0@, self.entries@[i as int].1@));
            push_member(
                &mut members,
                self.entries[i].0.as_str(),
                JsonValue::Text(self.entries[i].1.clone()),
            );
            i = i + 1;
            assert(member_trees(members@) =~= field_members(self@).take(i as int));
        }
        assert(field_members(self@).take(i as int) =~= field_members(self@));
        object_of(members)
    }

    /// Sets `key` to `value`: in its place where the name is there, at the end
    /// where it is new.
    pub fn insert(&mut self, key: String, value: String)
        ensures
            final(self)@ == put(old(self)@, key@, value@),
            keys_unique(final(self)@),
    {
        proof {
            use_type_invariant(&*self);
            lemma_put(self@, key@, value@);
        }
        let found = self.find(&key);
        // The type's invariant holds whenever the vector is in place: it is
        // taken out to be changed, and put back.
        let mut entries: Vec<(String, String)> = Vec::new();
        std::mem::swap(&mut self.entries, &mut entries);
        match found {
            Some(i) => {
                entries.set(i, (key, value));
            },
            None => {
                entries.push((key, value));
            },
        }
        assert(pairs_view(entries@) =~= put(old(self)@, key@, value@));
        std::mem::swap(&mut self.entries, &mut entries);
    }
}

} // verus!
