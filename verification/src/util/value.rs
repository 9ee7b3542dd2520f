use vstd::prelude::*;
use vstd::string::StringExecFns;

verus! {

/// A JSON document as a mathematical value.
pub enum JsonTree {
    Null,
    Bool(bool),
    /// A number that is an integer between the least and the greatest `i64`.
    Int(i64),
    /// Any other number. The library reads nothing of one.
    OtherNumber,
    Text(Seq<char>),
    Array(Seq<JsonTree>),
    /// The members of an object, in the order of the document.
    Object(Seq<(Seq<char>, JsonTree)>),
}

/// The value of the first member named `key`.
pub open spec fn find_member(members: Seq<(Seq<char>, JsonTree)>, key: Seq<char>) -> Option<
    JsonTree,
>
    decreases members.len(),
{
    if members.len() == 0 {
        None
    } else if members[0].0 == key {
        Some(members[0].1)
    } else {
        find_member(members.skip(1), key)
    }
}

/// No name occurs twice among the members.
pub open spec fn names_apart(members: Seq<(Seq<char>, JsonTree)>) -> bool {
    forall|i: int, j: int|
        0 <= i < j < members.len() ==> (#[trigger] members[i]).0 != (#[trigger] members[j]).0
}

/// The first member of a name is the one that `find_member` finds.
pub proof fn lemma_find_member_at(members: Seq<(Seq<char>, JsonTree)>, key: Seq<char>, at: int)
    requires
        0 <= at < members.len(),
        members[at].0 == key,
        forall|j: int| 0 <= j < at ==> (#[trigger] members[j]).0 != key,
    ensures
        find_member(members, key) == Some(members[at].1),
    decreases at,
{
    if at > 0 {
        assert(members[0].0 != key);
        let rest = members.skip(1);
        assert forall|j: int| 0 <= j < at - 1 implies (#[trigger] rest[j]).0 != key by {
            assert(rest[j] == members[j + 1]);
        }
        lemma_find_member_at(rest, key, at - 1);
    }
}

/// Where no member has the name, `find_member` finds nothing.
pub proof fn lemma_find_member_none(members: Seq<(Seq<char>, JsonTree)>, key: Seq<char>)
    requires
        forall|j: int| 0 <= j < members.len() ==> (#[trigger] members[j]).0 != key,
    ensures
        find_member(members, key) is None,
    decreases members.len(),
{
    if members.len() > 0 {
        assert(members[0].0 != key);
        let rest = members.skip(1);
        assert forall|j: int| 0 <= j < rest.len() implies (#[trigger] rest[j]).0 != key by {
            assert(rest[j] == members[j + 1]);
        }
        lemma_find_member_none(rest, key);
    }
}

impl JsonTree {
    /// The value of the member named `key`, where this is an object that has one.
    pub open spec fn member(self, key: Seq<char>) -> Option<JsonTree> {
        match self {
            JsonTree::Object(members) => find_member(members, key),
            _ => None,
        }
    }

    pub open spec fn text(self) -> Option<Seq<char>> {
        match self {
            JsonTree::Text(s) => Some(s),
            _ => None,
        }
    }

    pub open spec fn int64(self) -> Option<i64> {
        match self {
            JsonTree::Int(i) => Some(i),
            _ => None,
        }
    }

    /// The integer that this is, where it is one that an `i32` holds.
    pub open spec fn int32(self) -> Option<i32> {
        match self {
            JsonTree::Int(i) => if i32::MIN <= i <= i32::MAX {
                Some(i as i32)
            } else {
                None
            },
            _ => None,
        }
    }

    /// The 32-bit integer of the member named `key`.
    pub open spec fn member_int32(self, key: Seq<char>) -> Option<i32> {
        match self.member(key) {
            Some(v) => v.int32(),
            None => None,
        }
    }

    /// The integer of the member named `key`.
    pub open spec fn member_int64(self, key: Seq<char>) -> Option<i64> {
        match self.member(key) {
            Some(v) => v.int64(),
            None => None,
        }
    }

    /// The text of the member named `key`.
    pub open spec fn member_text(self, key: Seq<char>) -> Option<Seq<char>> {
        match self.member(key) {
            Some(v) => v.text(),
            None => None,
        }
    }

    pub open spec fn items(self) -> Option<Seq<JsonTree>> {
        match self {
            JsonTree::Array(items) => Some(items),
            _ => None,
        }
    }

    pub open spec fn members(self) -> Option<Seq<(Seq<char>, JsonTree)>> {
        match self {
            JsonTree::Object(members) => Some(members),
            _ => None,
        }
    }
}

impl JsonTree {
    /// Whether the document can be written: it holds no number but integers, and
    /// no object of it has a name twice.
    pub open spec fn printable(self) -> bool
        decreases self,
    {
        match self {
            JsonTree::OtherNumber => false,
            JsonTree::Array(items) => forall|i: int|
                0 <= i < items.len() ==> (#[trigger] items[i]).printable(),
            JsonTree::Object(members) => names_apart(members) && forall|i: int|
                0 <= i < members.len() ==> (#[trigger] members[i]).1.printable(),
            _ => true,
        }
    }
}

/// A JSON document.
#[derive(Debug)]
pub enum JsonValue {
    Null,
    Bool(bool),
    /// A number that is an integer between the least and the greatest `i64`.
    Int(i64),
    /// Any other number. The library reads nothing of one.
    OtherNumber,
    Text(String),
    Array(Vec<JsonValue>),
    /// The members of an object, in the order of the document.
    Object(Vec<(String, JsonValue)>),
}

impl JsonValue {
    /// The value of this document.
    pub open spec fn tree(self) -> JsonTree
        decreases self,
    {
        match self {
            JsonValue::Null => JsonTree::Null,
            JsonValue::Bool(b) => JsonTree::Bool(b),
            JsonValue::Int(i) => JsonTree::Int(i),
            JsonValue::OtherNumber => JsonTree::OtherNumber,
            JsonValue::Text(s) => JsonTree::Text(s@),
            JsonValue::Array(items) => JsonTree::Array(
                Seq::new(
                    items@.len(),
                    |i: int|
                        if 0 <= i < items@.len() {
                            items@[i].tree()
                        } else {
                            JsonTree::Null
                        },
                ),
            ),
            JsonValue::Object(members) => JsonTree::Object(
                Seq::new(
                    members@.len(),
                    |i: int|
                        if 0 <= i < members@.len() {
                            (members@[i].0@, members@[i].1.tree())
                        } else {
                            (Seq::empty(), JsonTree::Null)
                        },
                ),
            ),
        }
    }
}

impl View for JsonValue {
    type V = JsonTree;

    open spec fn view(&self) -> JsonTree {
        self.tree()
    }
}

impl JsonValue {
    /// The value of the first member named `key`, where this is an object that has one.
    pub fn get(&self, key: &str) -> (r: Option<&JsonValue>)
        ensures
            match r {
                Some(v) => self@.member(key@) == Some(v@),
                None => self@.member(key@) is None,
            },
    {
        match self {
            JsonValue::Object(members) => {
                let ghost all = self@->Object_0;
                let wanted = String::from_str(key);
                let mut i: usize = 0;
                assert(all.skip(0) =~= all);
                while i < members.len()
                    invariant
                        i <= members.len(),
                        self@ == JsonTree::Object(all),
                        *self == JsonValue::Object(*members),
                        wanted@ == key@,
                        find_member(all.skip(i as int), key@) == find_member(all, key@),
                    decreases members.len() - i,
                {
                    assert(all.skip(i as int).skip(1) =~= all.skip(i + 1));
                    assert(all[i as int] == (members@[i as int].0@, members@[i as int].1@));
                    if members[i].0 == wanted {
                        return Some(&members[i].1);
                    }
                    i = i + 1;
                }
                None
            },
            _ => None,
        }
    }

    pub fn as_text(&self) -> (r: Option<&String>)
        ensures
            match r {
                Some(s) => self@.text() == Some(s@),
                None => self@.text() is None,
            },
    {
        match self {
            JsonValue::Text(s) => Some(s),
            _ => None,
        }
    }

    pub fn as_i64(&self) -> (r: Option<i64>)
        ensures
            r == self@.int64(),
    {
        match self {
            JsonValue::Int(i) => Some(*i),
            _ => None,
        }
    }

    pub fn as_i32(&self) -> (r: Option<i32>)
        ensures
            r == self@.int32(),
    {
        match self {
            JsonValue::Int(i) => {
                if -0x8000_0000 <= *i && *i <= 0x7FFF_FFFF {
                    Some(*i as i32)
                } else {
                    None
                }
            },
            _ => None,
        }
    }

    /// The 32-bit integer of the member named `key`.
    pub fn get_i32(&self, key: &str) -> (r: Option<i32>)
        ensures
            r == self@.member_int32(key@),
    {
        match self.get(key) {
            Some(v) => v.as_i32(),
            None => None,
        }
    }

    /// The integer of the member named `key`.
    pub fn get_i64(&self, key: &str) -> (r: Option<i64>)
        ensures
            r == self@.member_int64(key@),
    {
        match self.get(key) {
            Some(v) => v.as_i64(),
            None => None,
        }
    }

    /// The text of the member named `key`.
    pub fn get_text(&self, key: &str) -> (r: Option<&String>)
        ensures
            match r {
                Some(s) => self@.member_text(key@) == Some(s@),
                None => self@.member_text(key@) is None,
            },
    {
        match self.get(key) {
            Some(v) => v.as_text(),
            None => None,
        }
    }

    pub fn as_array(&self) -> (r: Option<&Vec<JsonValue>>)
        ensures
            match r {
                Some(items) => self@ == JsonTree::Array(trees(items@)),
                None => self@.items() is None,
            },
    {
        match self {
            JsonValue::Array(items) => {
                assert(self@->Array_0 =~= trees(items@));
                Some(items)
            },
            _ => None,
        }
    }

    pub fn as_object(&self) -> (r: Option<&Vec<(String, JsonValue)>>)
        ensures
            match r {
                Some(members) => self@ == JsonTree::Object(member_trees(members@)),
                None => self@.members() is None,
            },
    {
        match self {
            JsonValue::Object(members) => {
                assert(self@->Object_0 =~= member_trees(members@));
                Some(members)
            },
            _ => None,
        }
    }

    /// Whether the document can be written: it holds no number but integers, and
    /// no object of it has a name twice.
    pub fn is_printable(&self) -> (b: bool)
        ensures
            b == self@.printable(),
        decreases self,
    {
        match self {
            JsonValue::OtherNumber => false,
            JsonValue::Array(items) => {
                let ghost all = trees(items@);
                assert(self@->Array_0 =~= all);
                let mut i: usize = 0;
                while i < items.len()
                    invariant
                        i <= items.len(),
                        all == trees(items@),
                        self@ == JsonTree::Array(all),
                        *self == JsonValue::Array(*items),
                        forall|k: int| 0 <= k < i ==> (#[trigger] all[k]).printable(),
                    decreases items.len() - i,
                {
                    assert(all[i as int] == items@[i as int]@);
                    if !items[i].is_printable() {
                        assert(!self@->Array_0[i as int].printable());
                        return false;
                    }
                    i = i + 1;
                }
                true
            },
            JsonValue::Object(members) => {
                let ghost all = member_trees(members@);
                assert(self@->Object_0 =~= all);
                let mut i: usize = 0;
                while i < members.len()
                    invariant
                        i <= members.len(),
                        all == member_trees(members@),
                        self@ == JsonTree::Object(all),
                        *self == JsonValue::Object(*members),
                        forall|k: int| 0 <= k < i ==> (#[trigger] all[k]).1.printable(),
                        forall|k: int, l: int|
                            0 <= k < i && k < l < all.len() ==> (#[trigger] all[k]).0
                                != (#[trigger] all[l]).0,
                    decreases members.len() - i,
                {
                    assert(all[i as int] == (members@[i as int].0@, members@[i as int].1@));
                    if !members[i].1.is_printable() {
                        assert(!self@->Object_0[i as int].1.printable());
                        return false;
                    }
                    let mut j: usize = i + 1;
                    while j < members.len()
                        invariant
                            i < j <= members.len(),
                            all == member_trees(members@),
                            self@ == JsonTree::Object(all),
                            forall|l: int| i < l < j ==> all[i as int].0 != (#[trigger] all[l]).0,
                        decreases members.len() - j,
                    {
                        assert(all[j as int] == (members@[j as int].0@, members@[j as int].1@));
                        assert(all[i as int] == (members@[i as int].0@, members@[i as int].1@));
                        if members[i].0 == members[j].0 {
                            assert(!names_apart(all)) by {
                                assert(all[i as int].0 == all[j as int].0);
                            }
                            return false;
                        }
                        j = j + 1;
                    }
                    i = i + 1;
                }
                assert(names_apart(all));
                true
            },
            _ => true,
        }
    }
}

/// The values of a vector of documents.
pub open spec fn trees(items: Seq<JsonValue>) -> Seq<JsonTree> {
    Seq::new(items.len(), |i: int| items[i]@)
}

/// The values of the members of an object.
pub open spec fn member_trees(members: Seq<(String, JsonValue)>) -> Seq<(Seq<char>, JsonTree)> {
    Seq::new(members.len(), |i: int| (members[i].0@, members[i].1@))
}

/// Appends a member to the members of an object.
pub fn push_member(members: &mut Vec<(String, JsonValue)>, name: &str, value: JsonValue)
    ensures
        member_trees(final(members)@) == member_trees(old(members)@).push((name@, value@)),
{
    members.push((String::from_str(name), value));
    assert(member_trees(members@) =~= member_trees(old(members)@).push((name@, value@)));
}

/// The object that has the given members.
pub fn object_of(members: Vec<(String, JsonValue)>) -> (json: JsonValue)
    ensures
        json@ == JsonTree::Object(member_trees(members@)),
{
    let json = JsonValue::Object(members);
    assert(json@->Object_0 =~= member_trees(members@));
    json
}

} // verus!
