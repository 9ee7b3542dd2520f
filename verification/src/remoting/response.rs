use crate::error::BodyDecodeError;
use crate::util::json::{normalize, normalized};
use crate::util::number::{decimal_i64, json_i64, parse_i64_chars, parse_json_i64};
use crate::util::strict::{parse_json, strict_json};
use crate::util::table::{
    keys_unique, lemma_put_each_unique, position_of, put, put_by_name, put_each,
};
use crate::util::text::chars_of;
use crate::util::value::{member_trees, trees, JsonTree, JsonValue};
pub use crate::remoting::runtime_info::{BrokerRuntimeInfo, BrokerRuntimeInfoTable};
pub use crate::remoting::topic_stats::{MessageQueue, TopicOffset, TopicStats};
use vstd::prelude::*;
use vstd::slice::slice_subrange;
use vstd::utf8::encode_utf8;

verus! {

/// The role id of the master among the addresses of a broker.
pub const MASTER_KEY: i64 = 0;

/// The texts of an array, where each of its items is a text.
pub open spec fn text_items(items: Seq<JsonTree>) -> Option<Seq<Seq<char>>> {
    if forall|i: int| 0 <= i < items.len() ==> (#[trigger] items[i]) is Text {
        Some(Seq::new(items.len(), |i: int| items[i]->Text_0))
    } else {
        None
    }
}

/// The texts of a document that is an array of texts.
pub open spec fn text_array(tree: JsonTree) -> Option<Seq<Seq<char>>> {
    match tree {
        JsonTree::Array(items) => text_items(items),
        _ => None,
    }
}

/// The texts of the member `key`, an array of texts.
pub open spec fn member_text_array(tree: JsonTree, key: Seq<char>) -> Option<Seq<Seq<char>>> {
    match tree.member(key) {
        Some(value) => text_array(value),
        None => None,
    }
}

/// The texts of a document that is an array of texts.
pub fn texts_from_json(json: &JsonValue) -> (r: Option<Vec<String>>)
    ensures
        match r {
            Some(texts) => text_array(json@) == Some(texts.deep_view()),
            None => text_array(json@) is None,
        },
{
    match json.as_array() {
        None => None,
        Some(items) => {
            let ghost all = trees(items@);
            let mut texts: Vec<String> = Vec::new();
            let mut i: usize = 0;
            while i < items.len()
                invariant
                    i <= items.len(),
                    all == trees(items@),
                    json@ == JsonTree::Array(all),
                    texts@.len() == i,
                    forall|j: int| 0 <= j < i ==> (#[trigger] all[j]) == JsonTree::Text(texts@[j]@),
                decreases items.len() - i,
            {
                assert(all[i as int] == items@[i as int]@);
                match items[i].as_text() {
                    Some(text) => {
                        texts.push(text.clone());
                    },
                    None => {
                        assert(!(all[i as int] is Text));
                        return None;
                    },
                }
                i = i + 1;
            }
            assert(text_items(all)->0 =~= texts.deep_view());
            Some(texts)
        },
    }
}

/// The texts of the member `key`, an array of texts.
pub fn member_texts_from_json(json: &JsonValue, key: &str) -> (r: Option<Vec<String>>)
    ensures
        match r {
            Some(texts) => member_text_array(json@, key@) == Some(texts.deep_view()),
            None => member_text_array(json@, key@) is None,
        },
{
    match json.get(key) {
        Some(value) => texts_from_json(value),
        None => None,
    }
}

/// The addresses of a broker as a value.
pub struct BrokerDataView {
    pub cluster: Seq<char>,
    pub broker_name: Seq<char>,
    pub broker_addrs: Seq<(i64, Seq<char>)>,
}

/// The address under the first role id `role`.
pub open spec fn address_of(addrs: Seq<(i64, Seq<char>)>, role: i64) -> Option<Seq<char>>
    decreases addrs.len(),
{
    if addrs.len() == 0 {
        None
    } else if addrs[0].0 == role {
        Some(addrs[0].1)
    } else {
        address_of(addrs.skip(1), role)
    }
}

/// The role id and the address that one member of an object gives.
pub open spec fn role_pair(member: (Seq<char>, JsonTree)) -> (i64, Seq<char>) {
    (json_i64(member.0)->0, member.1->Text_0)
}

/// The role ids and addresses that the members of an object give, one for one.
pub open spec fn role_pairs(members: Seq<(Seq<char>, JsonTree)>) -> Seq<(i64, Seq<char>)> {
    Seq::new(members.len(), |i: int| role_pair(members[i]))
}

/// The addresses by role id that the members of an object give, where each name
/// is the integer of a role id and each value a text. A role id has one address:
/// the last that the object gives it.
pub open spec fn role_addresses(members: Seq<(Seq<char>, JsonTree)>) -> Option<
    Seq<(i64, Seq<char>)>,
> {
    if forall|i: int|
        0 <= i < members.len() ==> json_i64((#[trigger] members[i]).0) is Some
            && members[i].1 is Text {
        Some(put_each(role_pairs(members)))
    } else {
        None
    }
}

impl BrokerDataView {
    /// The address of the master, if the broker has one.
    pub open spec fn master(self) -> Option<Seq<char>> {
        address_of(self.broker_addrs, MASTER_KEY)
    }

    /// The broker that a JSON document holds.
    pub open spec fn of_tree(tree: JsonTree) -> Option<BrokerDataView> {
        match (
            tree.member_text("cluster"@),
            tree.member_text("brokerName"@),
            tree.member("brokerAddrs"@),
        ) {
            (Some(cluster), Some(broker_name), Some(JsonTree::Object(members))) => {
                match role_addresses(members) {
                    Some(broker_addrs) => Some(
                        BrokerDataView { cluster, broker_name, broker_addrs },
                    ),
                    None => None,
                }
            },
            _ => None,
        }
    }
}

/// One broker: its cluster, its name, and its addresses by role id.
#[derive(Debug)]
pub struct BrokerData {
    cluster: String,
    broker_name: String,
    broker_addrs: Vec<(i64, String)>,
}

impl DeepView for BrokerData {
    type V = BrokerDataView;

    closed spec fn deep_view(&self) -> BrokerDataView {
        BrokerDataView {
            cluster: self.cluster@,
            broker_name: self.broker_name@,
            broker_addrs: self.broker_addrs.deep_view(),
        }
    }
}

/// The position of the first address of the role `role`.
fn find_role(addrs: &Vec<(i64, String)>, role: i64) -> (r: Option<usize>)
    ensures
        match r {
            Some(i) => position_of(addrs.deep_view(), role) == Some(i as int) && i < addrs.len(),
            None => position_of(addrs.deep_view(), role) is None,
        },
{
    let ghost all = addrs.deep_view();
    let mut i: usize = 0;
    assert(all.skip(0) =~= all);
    while i < addrs.len()
        invariant
            i <= addrs.len(),
            all == addrs.deep_view(),
            all.len() == addrs.len(),
            match position_of(all.skip(i as int), role) {
                Some(k) => position_of(all, role) == Some(k + i),
                None => position_of(all, role) is None,
            },
        decreases addrs.len() - i,
    {
        assert(all.skip(i as int).skip(1) =~= all.skip(i + 1));
        assert(all[i as int].0 == addrs@[i as int].0);
        if addrs[i].0 == role {
            return Some(i);
        }
        i = i + 1;
    }
    None
}

/// Gives the role `role` the address `addr`: in its place where the role has
/// one, at the end where it has none.
fn put_by_role(addrs: &mut Vec<(i64, String)>, role: i64, addr: String)
    ensures
        final(addrs).deep_view() == put(old(addrs).deep_view(), role, addr@),
{
    let ghost before = addrs.deep_view();
    let ghost pair = (role, addr@);
    match find_role(addrs, role) {
        Some(i) => {
            addrs.set(i, (role, addr));
            assert(addrs.deep_view() =~= before.update(i as int, pair));
        },
        None => {
            addrs.push((role, addr));
            assert(addrs.deep_view() =~= before.push(pair));
        },
    }
}

impl BrokerData {
    #[verifier::type_invariant]
    spec fn one_address_for_each_role(self) -> bool {
        keys_unique(self.broker_addrs.deep_view())
    }

    pub fn cluster(&self) -> (cluster: &String)
        ensures
            cluster@ == self.deep_view().cluster,
    {
        &self.cluster
    }

    pub fn broker_name(&self) -> (name: &String)
        ensures
            name@ == self.deep_view().broker_name,
    {
        &self.broker_name
    }

    /// The addresses by role id. No role comes twice.
    pub fn broker_addrs(&self) -> (addrs: &Vec<(i64, String)>)
        ensures
            addrs.deep_view() == self.deep_view().broker_addrs,
            keys_unique(addrs.deep_view()),
    {
        proof {
            use_type_invariant(self);
        }
        &self.broker_addrs
    }

    /// The address of the master, if the broker has one.
    pub fn master_broker_addrs(&self) -> (r: Option<&String>)
        ensures
            match r {
                Some(addr) => self.deep_view().master() == Some(addr@),
                None => self.deep_view().master() is None,
            },
    {
        let ghost all = self.broker_addrs.deep_view();
        let mut i: usize = 0;
        assert(all.skip(0) =~= all);
        while i < self.broker_addrs.len()
            invariant
                i <= self.broker_addrs.len(),
                all == self.broker_addrs.deep_view(),
                address_of(all.skip(i as int), MASTER_KEY) == address_of(all, MASTER_KEY),
            decreases self.broker_addrs.len() - i,
        {
            assert(all.skip(i as int).skip(1) =~= all.skip(i + 1));
            if self.broker_addrs[i].0 == MASTER_KEY {
                return Some(&self.broker_addrs[i].1);
            }
            i = i + 1;
        }
        None
    }

    fn addrs_from_json(json: &JsonValue) -> (r: Option<Vec<(i64, String)>>)
        ensures
            match r {
                Some(addrs) => json@ is Object && role_addresses(json@->Object_0) == Some(
                    addrs.deep_view(),
                ) && keys_unique(addrs.deep_view()),
                None => !(json@ is Object) || role_addresses(json@->Object_0) is None,
            },
    {
        match json.as_object() {
            None => None,
            Some(members) => {
                let ghost all = member_trees(members@);
                let ghost pairs = role_pairs(all);
                let mut addrs: Vec<(i64, String)> = Vec::new();
                let mut i: usize = 0;
                assert(addrs.deep_view() =~= put_each(pairs.take(0)));
                while i < members.len()
                    invariant
                        i <= members.len(),
                        all == member_trees(members@),
                        pairs == role_pairs(all),
                        json@ == JsonTree::Object(all),
                        forall|j: int|
                            0 <= j < i ==> json_i64((#[trigger] all[j]).0) is Some
                                && all[j].1 is Text,
                        addrs.deep_view() == put_each(pairs.take(i as int)),
                    decreases members.len() - i,
                {
                    assert(all[i as int] == (members@[i as int].0@, members@[i as int].1@));
                    let role = parse_json_i64(members[i].0.as_str());
                    let addr = members[i].1.as_text();
                    match (role, addr) {
                        (Some(role), Some(addr)) => {
                            proof {
                                assert(pairs.take(i + 1).drop_last() =~= pairs.take(i as int));
                                assert(pairs.take(i + 1).last() == (role, addr@));
                            }
                            put_by_role(&mut addrs, role, addr.clone());
                        },
                        _ => {
                            assert(!(json_i64(all[i as int].0) is Some
                                && all[i as int].1 is Text));
                            return None;
                        },
                    }
                    i = i + 1;
                }
                proof {
                    assert(pairs.take(i as int) =~= pairs);
                    lemma_put_each_unique(pairs);
                }
                Some(addrs)
            },
        }
    }

    /// The broker that a JSON document holds.
    pub fn from_json(json: &JsonValue) -> (r: Option<BrokerData>)
        ensures
            match r {
                Some(broker) => BrokerDataView::of_tree(json@) == Some(broker.deep_view()),
                None => BrokerDataView::of_tree(json@) is None,
            },
    {
        let cluster = json.get_text("cluster");
        let broker_name = json.get_text("brokerName");
        let broker_addrs = match json.get("brokerAddrs") {
            Some(value) => Self::addrs_from_json(value),
            None => None,
        };
        match (cluster, broker_name, broker_addrs) {
            (Some(cluster), Some(broker_name), Some(broker_addrs)) => Some(
                BrokerData {
                    cluster: cluster.clone(),
                    broker_name: broker_name.clone(),
                    broker_addrs,
                },
            ),
            _ => None,
        }
    }
}

/// The document of a response body. The body of a request whose answer comes as
/// relaxed JSON is repaired first.
pub open spec fn body_tree(source: Seq<char>, relaxed: bool) -> Option<JsonTree> {
    if relaxed {
        strict_json(encode_utf8(normalized(source)))
    } else {
        strict_json(encode_utf8(source))
    }
}

/// Reads the document of a response body.
pub fn parse_body(source: &str, relaxed: bool) -> (r: Option<JsonValue>)
    ensures
        match r {
            Some(json) => body_tree(source@, relaxed) == Some(json@),
            None => body_tree(source@, relaxed) is None,
        },
{
    if relaxed {
        let strict = normalize(source);
        parse_json(strict.as_str().as_bytes())
    } else {
        parse_json(source.as_bytes())
    }
}

/// The names and brokers that the members of an object give, one for one.
pub open spec fn broker_pairs(members: Seq<(Seq<char>, JsonTree)>) -> Seq<
    (Seq<char>, BrokerDataView),
> {
    Seq::new(members.len(), |i: int| (members[i].0, BrokerDataView::of_tree(members[i].1)->0))
}

/// The brokers that the members of an object give, each under its name, where
/// each value holds a broker. A name has one broker: the last that the object
/// gives it.
pub open spec fn broker_table(members: Seq<(Seq<char>, JsonTree)>) -> Option<
    Seq<(Seq<char>, BrokerDataView)>,
> {
    if forall|i: int|
        0 <= i < members.len() ==> BrokerDataView::of_tree((#[trigger] members[i]).1) is Some {
        Some(put_each(broker_pairs(members)))
    } else {
        None
    }
}

/// The names and lists of texts that the members of an object give, one for one.
pub open spec fn text_pairs(members: Seq<(Seq<char>, JsonTree)>) -> Seq<
    (Seq<char>, Seq<Seq<char>>),
> {
    Seq::new(members.len(), |i: int| (members[i].0, text_array(members[i].1)->0))
}

/// The lists of texts that the members of an object give, each under its name,
/// where each value is an array of texts. A name has one list: the last that the
/// object gives it.
pub open spec fn text_table(members: Seq<(Seq<char>, JsonTree)>) -> Option<
    Seq<(Seq<char>, Seq<Seq<char>>)>,
> {
    if forall|i: int| 0 <= i < members.len() ==> text_array((#[trigger] members[i]).1) is Some {
        Some(put_each(text_pairs(members)))
    } else {
        None
    }
}

/// The texts of a list, each once, in the order in which they first come.
pub open spec fn once(texts: Seq<Seq<char>>) -> Seq<Seq<char>>
    decreases texts.len(),
{
    if texts.len() == 0 {
        Seq::empty()
    } else if once(texts.drop_last()).contains(texts.last()) {
        once(texts.drop_last())
    } else {
        once(texts.drop_last()).push(texts.last())
    }
}

/// No text comes twice in a list of texts that are each taken once.
pub proof fn lemma_once_no_duplicates(texts: Seq<Seq<char>>)
    ensures
        once(texts).no_duplicates(),
    decreases texts.len(),
{
    if texts.len() > 0 {
        lemma_once_no_duplicates(texts.drop_last());
    }
}

/// Each list of a table, with each of its texts taken once.
pub open spec fn sets_of(table: Seq<(Seq<char>, Seq<Seq<char>>)>) -> Seq<
    (Seq<char>, Seq<Seq<char>>),
> {
    Seq::new(table.len(), |i: int| (table[i].0, once(table[i].1)))
}

/// The sets of names that the members of an object give, each under its name,
/// where each value is an array of texts.
pub open spec fn name_set_table(members: Seq<(Seq<char>, JsonTree)>) -> Option<
    Seq<(Seq<char>, Seq<Seq<char>>)>,
> {
    match text_table(members) {
        Some(table) => Some(sets_of(table)),
        None => None,
    }
}

/// The sets of names under the member `key`, an object of arrays of texts.
pub open spec fn member_name_set_table(tree: JsonTree, key: Seq<char>) -> Option<
    Seq<(Seq<char>, Seq<Seq<char>>)>,
> {
    match tree.member(key) {
        Some(JsonTree::Object(members)) => name_set_table(members),
        _ => None,
    }
}

/// Whether no name comes twice in a table and no text twice in any of its lists.
pub open spec fn is_set_table(table: Seq<(Seq<char>, Seq<Seq<char>>)>) -> bool {
    keys_unique(table) && forall|i: int|
        0 <= i < table.len() ==> (#[trigger] table[i]).1.no_duplicates()
}

/// The texts of a list, each once, in the order in which they first come.
pub fn texts_once(texts: &Vec<String>) -> (r: Vec<String>)
    ensures
        r.deep_view() == once(texts.deep_view()),
{
    let ghost all = texts.deep_view();
    let mut out: Vec<String> = Vec::new();
    let mut i: usize = 0;
    assert(out.deep_view() =~= once(all.take(0)));
    while i < texts.len()
        invariant
            i <= texts.len(),
            all == texts.deep_view(),
            out.deep_view() == once(all.take(i as int)),
        decreases texts.len() - i,
    {
        let ghost seen = out.deep_view();
        proof {
            assert(all.take(i + 1).drop_last() =~= all.take(i as int));
            assert(all.take(i + 1).last() == texts@[i as int]@);
        }
        let mut found = false;
        let mut j: usize = 0;
        while j < out.len()
            invariant
                j <= out.len(),
                seen == out.deep_view(),
                i < texts.len(),
                found <==> exists|k: int| 0 <= k < j && seen[k] == texts@[i as int]@,
            decreases out.len() - j,
        {
            assert(seen[j as int] == out@[j as int]@);
            if out[j] == texts[i] {
                found = true;
            }
            j = j + 1;
        }
        if !found {
            out.push(texts[i].clone());
            assert(out.deep_view() =~= seen.push(texts@[i as int]@));
        }
        i = i + 1;
    }
    assert(all.take(i as int) =~= all);
    out
}

/// The lists of texts under the member `key`, an object of arrays of texts.
pub open spec fn member_text_table(tree: JsonTree, key: Seq<char>) -> Option<
    Seq<(Seq<char>, Seq<Seq<char>>)>,
> {
    match tree.member(key) {
        Some(JsonTree::Object(members)) => text_table(members),
        _ => None,
    }
}

/// The lists of texts that a JSON object of arrays of texts holds.
pub fn text_table_from_json(json: &JsonValue) -> (r: Option<Vec<(String, Vec<String>)>>)
    ensures
        match r {
            Some(table) => json@ is Object && text_table(json@->Object_0) == Some(
                table.deep_view(),
            ) && keys_unique(table.deep_view()),
            None => !(json@ is Object) || text_table(json@->Object_0) is None,
        },
{
    match json.as_object() {
        None => None,
        Some(members) => {
            let ghost all = member_trees(members@);
            let ghost pairs = text_pairs(all);
            let mut table: Vec<(String, Vec<String>)> = Vec::new();
            let mut i: usize = 0;
            assert(table.deep_view() =~= put_each(pairs.take(0)));
            while i < members.len()
                invariant
                    i <= members.len(),
                    all == member_trees(members@),
                    pairs == text_pairs(all),
                    json@ == JsonTree::Object(all),
                    forall|j: int| 0 <= j < i ==> text_array((#[trigger] all[j]).1) is Some,
                    table.deep_view() == put_each(pairs.take(i as int)),
                decreases members.len() - i,
            {
                assert(all[i as int] == (members@[i as int].0@, members@[i as int].1@));
                match texts_from_json(&members[i].1) {
                    Some(texts) => {
                        proof {
                            assert(pairs.take(i + 1).drop_last() =~= pairs.take(i as int));
                            assert(pairs.take(i + 1).last() == (
                                members@[i as int].0@,
                                texts.deep_view(),
                            ));
                        }
                        put_by_name(&mut table, members[i].0.clone(), texts);
                    },
                    None => {
                        return None;
                    },
                }
                i = i + 1;
            }
            proof {
                assert(pairs.take(i as int) =~= pairs);
                lemma_put_each_unique(pairs);
            }
            Some(table)
        },
    }
}

/// The sets of names that a JSON object of arrays of texts holds.
pub fn name_set_table_from_json(json: &JsonValue) -> (r: Option<Vec<(String, Vec<String>)>>)
    ensures
        match r {
            Some(table) => json@ is Object && name_set_table(json@->Object_0) == Some(
                table.deep_view(),
            ) && is_set_table(table.deep_view()),
            None => !(json@ is Object) || name_set_table(json@->Object_0) is None,
        },
{
    match text_table_from_json(json) {
        None => None,
        Some(lists) => {
            let ghost all = lists.deep_view();
            let mut table: Vec<(String, Vec<String>)> = Vec::new();
            let mut i: usize = 0;
            while i < lists.len()
                invariant
                    i <= lists.len(),
                    all == lists.deep_view(),
                    table@.len() == i,
                    forall|j: int|
                        0 <= j < i ==> (#[trigger] table.deep_view()[j]) == (
                            all[j].0,
                            once(all[j].1),
                        ),
                decreases lists.len() - i,
            {
                let ghost before = table.deep_view();
                let names = texts_once(&lists[i].1);
                assert(all[i as int] == (lists@[i as int].0@, lists@[i as int].1.deep_view()));
                table.push((lists[i].0.clone(), names));
                assert(table.deep_view() =~= before.push(
                    (all[i as int].0, once(all[i as int].1)),
                ));
                i = i + 1;
            }
            proof {
                let sets = sets_of(all);
                assert(table.deep_view() =~= sets);
                assert forall|k: int, l: int| 0 <= k < l < sets.len() implies (#[trigger] sets[k]).0
                    != (#[trigger] sets[l]).0 by {
                    assert(all[k].0 != all[l].0);
                }
                assert forall|k: int| 0 <= k < sets.len() implies (
                #[trigger] sets[k]).1.no_duplicates() by {
                    lemma_once_no_duplicates(all[k].1);
                }
            }
            Some(table)
        },
    }
}

/// The brokers of a cluster as a value.
pub struct BrokerInformationView {
    pub broker_addr_table: Seq<(Seq<char>, BrokerDataView)>,
    pub cluster_addr_table: Seq<(Seq<char>, Seq<Seq<char>>)>,
}

/// The addresses of the masters of the brokers of a table, in the order of the
/// table. A broker without a master gives none.
pub open spec fn master_addresses(table: Seq<(Seq<char>, BrokerDataView)>) -> Seq<Seq<char>>
    decreases table.len(),
{
    if table.len() == 0 {
        Seq::empty()
    } else {
        let front = master_addresses(table.drop_last());
        match table.last().1.master() {
            Some(addr) => front.push(addr),
            None => front,
        }
    }
}

impl BrokerInformationView {
    /// The brokers that a JSON document holds: a table of brokers by name, and a
    /// table of broker names by cluster.
    pub open spec fn of_tree(tree: JsonTree) -> Option<BrokerInformationView> {
        match (tree.member("brokerAddrTable"@), member_name_set_table(tree, "clusterAddrTable"@)) {
            (Some(JsonTree::Object(members)), Some(cluster_addr_table)) => {
                match broker_table(members) {
                    Some(broker_addr_table) => Some(
                        BrokerInformationView { broker_addr_table, cluster_addr_table },
                    ),
                    None => None,
                }
            },
            _ => None,
        }
    }

    /// The brokers that a response body holds.
    pub open spec fn of_body(source: Seq<char>) -> Result<BrokerInformationView, BodyDecodeError> {
        match body_tree(source, true) {
            None => Err(BodyDecodeError::Syntax),
            Some(tree) => match Self::of_tree(tree) {
                Some(information) => Ok(information),
                None => Err(BodyDecodeError::Field),
            },
        }
    }
}

/// The brokers of a cluster: each broker by its name, and the names of the
/// brokers of each cluster.
#[derive(Debug)]
pub struct BrokerInformation {
    broker_addr_table: Vec<(String, BrokerData)>,
    cluster_addr_table: Vec<(String, Vec<String>)>,
}

impl DeepView for BrokerInformation {
    type V = BrokerInformationView;

    closed spec fn deep_view(&self) -> BrokerInformationView {
        BrokerInformationView {
            broker_addr_table: self.broker_addr_table.deep_view(),
            cluster_addr_table: self.cluster_addr_table.deep_view(),
        }
    }
}

impl BrokerInformation {
    #[verifier::type_invariant]
    spec fn each_name_once(self) -> bool {
        keys_unique(self.broker_addr_table.deep_view()) && is_set_table(
            self.cluster_addr_table.deep_view(),
        )
    }

    fn brokers_from_json(json: &JsonValue) -> (r: Option<Vec<(String, BrokerData)>>)
        ensures
            match r {
                Some(table) => json@ is Object && broker_table(json@->Object_0) == Some(
                    table.deep_view(),
                ) && keys_unique(table.deep_view()),
                None => !(json@ is Object) || broker_table(json@->Object_0) is None,
            },
    {
        match json.as_object() {
            None => None,
            Some(members) => {
                let ghost all = member_trees(members@);
                let ghost pairs = broker_pairs(all);
                let mut table: Vec<(String, BrokerData)> = Vec::new();
                let mut i: usize = 0;
                assert(table.deep_view() =~= put_each(pairs.take(0)));
                while i < members.len()
                    invariant
                        i <= members.len(),
                        all == member_trees(members@),
                        pairs == broker_pairs(all),
                        json@ == JsonTree::Object(all),
                        forall|j: int|
                            0 <= j < i ==> BrokerDataView::of_tree((#[trigger] all[j]).1) is Some,
                        table.deep_view() == put_each(pairs.take(i as int)),
                    decreases members.len() - i,
                {
                    assert(all[i as int] == (members@[i as int].0@, members@[i as int].1@));
                    match BrokerData::from_json(&members[i].1) {
                        Some(broker) => {
                            proof {
                                assert(pairs.take(i + 1).drop_last() =~= pairs.take(i as int));
                                assert(pairs.take(i + 1).last() == (
                                    members@[i as int].0@,
                                    broker.deep_view(),
                                ));
                            }
                            put_by_name(&mut table, members[i].0.clone(), broker);
                        },
                        None => {
                            return None;
                        },
                    }
                    i = i + 1;
                }
                proof {
                    assert(pairs.take(i as int) =~= pairs);
                    lemma_put_each_unique(pairs);
                }
                Some(table)
            },
        }
    }

    /// The brokers that a JSON document holds.
    pub fn from_json(json: &JsonValue) -> (r: Option<BrokerInformation>)
        ensures
            match r {
                Some(information) => BrokerInformationView::of_tree(json@) == Some(
                    information.deep_view(),
                ),
                None => BrokerInformationView::of_tree(json@) is None,
            },
    {
        let brokers = match json.get("brokerAddrTable") {
            Some(value) => Self::brokers_from_json(value),
            None => None,
        };
        let clusters = match json.get("clusterAddrTable") {
            Some(value) => name_set_table_from_json(value),
            None => None,
        };
        match (brokers, clusters) {
            (Some(broker_addr_table), Some(cluster_addr_table)) => Some(
                BrokerInformation { broker_addr_table, cluster_addr_table },
            ),
            _ => None,
        }
    }

    /// The brokers that a response body holds. The body is relaxed JSON, and is
    /// repaired first.
    pub fn parse(source: String) -> (r: Result<BrokerInformation, BodyDecodeError>)
        ensures
            match BrokerInformationView::of_body(source@) {
                Ok(information) => r matches Ok(b) && b.deep_view() == information,
                Err(e) => r == Err::<BrokerInformation, BodyDecodeError>(e),
            },
    {
        match parse_body(source.as_str(), true) {
            None => Err(BodyDecodeError::Syntax),
            Some(json) => match Self::from_json(&json) {
                Some(information) => Ok(information),
                None => Err(BodyDecodeError::Field),
            },
        }
    }

    /// The brokers by name, in the order of the response. No name comes twice.
    pub fn brokers(&self) -> (table: &Vec<(String, BrokerData)>)
        ensures
            table.deep_view() == self.deep_view().broker_addr_table,
            keys_unique(table.deep_view()),
    {
        proof {
            use_type_invariant(self);
        }
        &self.broker_addr_table
    }

    /// The names of the brokers of each cluster, in the order of the response. No
    /// cluster comes twice, and no broker twice in a cluster.
    pub fn clusters(&self) -> (table: &Vec<(String, Vec<String>)>)
        ensures
            table.deep_view() == self.deep_view().cluster_addr_table,
            is_set_table(table.deep_view()),
    {
        proof {
            use_type_invariant(self);
        }
        &self.cluster_addr_table
    }

    /// The addresses of the masters of all brokers, in the order of the table. A
    /// broker without a master is passed over.
    pub fn all_broker_addrs(&self) -> (addrs: Vec<&String>)
        ensures
            addrs.deep_view() == master_addresses(self.deep_view().broker_addr_table),
    {
        let ghost table = self.broker_addr_table.deep_view();
        let mut addrs: Vec<&String> = Vec::new();
        let mut i: usize = 0;
        assert(table.take(0) =~= Seq::empty());
        assert(addrs.deep_view() =~= Seq::empty());
        while i < self.broker_addr_table.len()
            invariant
                i <= self.broker_addr_table.len(),
                table == self.broker_addr_table.deep_view(),
                addrs.deep_view() == master_addresses(table.take(i as int)),
            decreases self.broker_addr_table.len() - i,
        {
            let ghost before = addrs.deep_view();
            proof {
                assert(table.take(i + 1).drop_last() =~= table.take(i as int));
                assert(table.take(i + 1).last() == table[i as int]);
                assert(table[i as int].1 == self.broker_addr_table@[i as int].1.deep_view());
            }
            match self.broker_addr_table[i].1.master_broker_addrs() {
                Some(addr) => {
                    addrs.push(addr);
                    assert(addrs.deep_view() =~= before.push(addr@));
                },
                None => {},
            }
            i = i + 1;
        }
        assert(table.take(i as int) =~= table);
        addrs
    }
}

/// The queues of a topic on one broker as a value.
pub struct QueueDataView {
    pub broker_name: Seq<char>,
    pub read_queue_nums: i32,
    pub write_queue_nums: i32,
    pub perm: i32,
    pub topic_sys_flag: i32,
}

impl QueueDataView {
    /// The queues that a JSON document holds.
    pub open spec fn of_tree(tree: JsonTree) -> Option<QueueDataView> {
        match (
            tree.member_text("brokerName"@),
            tree.member_int32("readQueueNums"@),
            tree.member_int32("writeQueueNums"@),
            tree.member_int32("perm"@),
            tree.member_int32("topicSysFlag"@),
        ) {
            (
                Some(broker_name),
                Some(read_queue_nums),
                Some(write_queue_nums),
                Some(perm),
                Some(topic_sys_flag),
            ) => Some(
                QueueDataView {
                    broker_name,
                    read_queue_nums,
                    write_queue_nums,
                    perm,
                    topic_sys_flag,
                },
            ),
            _ => None,
        }
    }
}

/// The queues of a topic on one broker.
#[derive(Debug)]
pub struct QueueData {
    broker_name: String,
    read_queue_nums: i32,
    write_queue_nums: i32,
    perm: i32,
    topic_sys_flag: i32,
}

impl DeepView for QueueData {
    type V = QueueDataView;

    closed spec fn deep_view(&self) -> QueueDataView {
        QueueDataView {
            broker_name: self.broker_name@,
            read_queue_nums: self.read_queue_nums,
            write_queue_nums: self.write_queue_nums,
            perm: self.perm,
            topic_sys_flag: self.topic_sys_flag,
        }
    }
}

impl QueueData {
    /// The queues that a JSON document holds.
    pub fn from_json(json: &JsonValue) -> (r: Option<QueueData>)
        ensures
            match r {
                Some(queues) => QueueDataView::of_tree(json@) == Some(queues.deep_view()),
                None => QueueDataView::of_tree(json@) is None,
            },
    {
        match (
            json.get_text("brokerName"),
            json.get_i32("readQueueNums"),
            json.get_i32("writeQueueNums"),
            json.get_i32("perm"),
            json.get_i32("topicSysFlag"),
        ) {
            (
                Some(broker_name),
                Some(read_queue_nums),
                Some(write_queue_nums),
                Some(perm),
                Some(topic_sys_flag),
            ) => Some(
                QueueData {
                    broker_name: broker_name.clone(),
                    read_queue_nums,
                    write_queue_nums,
                    perm,
                    topic_sys_flag,
                },
            ),
            _ => None,
        }
    }

    pub fn broker_name(&self) -> (name: &String)
        ensures
            name@ == self.deep_view().broker_name,
    {
        &self.broker_name
    }

    pub fn read_queue_nums(&self) -> (n: i32)
        ensures
            n == self.deep_view().read_queue_nums,
    {
        self.read_queue_nums
    }

    pub fn write_queue_nums(&self) -> (n: i32)
        ensures
            n == self.deep_view().write_queue_nums,
    {
        self.write_queue_nums
    }

    pub fn perm(&self) -> (n: i32)
        ensures
            n == self.deep_view().perm,
    {
        self.perm
    }

    pub fn topic_sys_flag(&self) -> (n: i32)
        ensures
            n == self.deep_view().topic_sys_flag,
    {
        self.topic_sys_flag
    }
}

/// The brokers of an array, where each of its items holds a broker.
pub open spec fn broker_items(items: Seq<JsonTree>) -> Option<Seq<BrokerDataView>> {
    if forall|i: int|
        0 <= i < items.len() ==> BrokerDataView::of_tree(#[trigger] items[i]) is Some {
        Some(Seq::new(items.len(), |i: int| BrokerDataView::of_tree(items[i])->0))
    } else {
        None
    }
}

/// The queues of an array, where each of its items holds the queues of a broker.
pub open spec fn queue_items(items: Seq<JsonTree>) -> Option<Seq<QueueDataView>> {
    if forall|i: int| 0 <= i < items.len() ==> QueueDataView::of_tree(#[trigger] items[i]) is Some {
        Some(Seq::new(items.len(), |i: int| QueueDataView::of_tree(items[i])->0))
    } else {
        None
    }
}

/// The route of a topic as a value.
pub struct TopicRouteInformationView {
    pub order_topic_conf: Seq<char>,
    pub broker_datas: Seq<BrokerDataView>,
    pub filter_server_table: Seq<(Seq<char>, Seq<Seq<char>>)>,
    pub queue_datas: Seq<QueueDataView>,
}

impl TopicRouteInformationView {
    /// The order configuration of a document: empty where it has no member of
    /// that name, and otherwise a text.
    pub open spec fn order_topic_conf_of(tree: JsonTree) -> Option<Seq<char>> {
        match tree.member("orderTopicConf"@) {
            None => Some(Seq::empty()),
            Some(value) => value.text(),
        }
    }

    /// The filter servers of a document: none where it has no member of that
    /// name, and otherwise an object of arrays of texts.
    pub open spec fn filter_server_table_of(tree: JsonTree) -> Option<
        Seq<(Seq<char>, Seq<Seq<char>>)>,
    > {
        match tree.member("filterServerTable"@) {
            None => Some(Seq::empty()),
            Some(_) => member_text_table(tree, "filterServerTable"@),
        }
    }

    /// The route that a JSON document holds.
    pub open spec fn of_tree(tree: JsonTree) -> Option<TopicRouteInformationView> {
        match (
            Self::order_topic_conf_of(tree),
            tree.member("brokerDatas"@),
            Self::filter_server_table_of(tree),
            tree.member("queueDatas"@),
        ) {
            (
                Some(order_topic_conf),
                Some(JsonTree::Array(brokers)),
                Some(filter_server_table),
                Some(JsonTree::Array(queues)),
            ) => match (broker_items(brokers), queue_items(queues)) {
                (Some(broker_datas), Some(queue_datas)) => Some(
                    TopicRouteInformationView {
                        order_topic_conf,
                        broker_datas,
                        filter_server_table,
                        queue_datas,
                    },
                ),
                _ => None,
            },
            _ => None,
        }
    }

    /// The route that a response body holds.
    pub open spec fn of_body(source: Seq<char>) -> Result<
        TopicRouteInformationView,
        BodyDecodeError,
    > {
        match body_tree(source, true) {
            None => Err(BodyDecodeError::Syntax),
            Some(tree) => match Self::of_tree(tree) {
                Some(route) => Ok(route),
                None => Err(BodyDecodeError::Field),
            },
        }
    }
}

/// The route of a topic: the brokers that hold it and its queues on each.
#[derive(Debug)]
pub struct TopicRouteInformation {
    order_topic_conf: String,
    broker_datas: Vec<BrokerData>,
    filter_server_table: Vec<(String, Vec<String>)>,
    queue_datas: Vec<QueueData>,
}

impl DeepView for TopicRouteInformation {
    type V = TopicRouteInformationView;

    closed spec fn deep_view(&self) -> TopicRouteInformationView {
        TopicRouteInformationView {
            order_topic_conf: self.order_topic_conf@,
            broker_datas: self.broker_datas.deep_view(),
            filter_server_table: self.filter_server_table.deep_view(),
            queue_datas: self.queue_datas.deep_view(),
        }
    }
}

impl TopicRouteInformation {
    #[verifier::type_invariant]
    spec fn each_name_once(self) -> bool {
        keys_unique(self.filter_server_table.deep_view())
    }

    fn brokers_from_json(json: &JsonValue) -> (r: Option<Vec<BrokerData>>)
        ensures
            match r {
                Some(brokers) => json@ is Array && broker_items(json@->Array_0) == Some(
                    brokers.deep_view(),
                ),
                None => !(json@ is Array) || broker_items(json@->Array_0) is None,
            },
    {
        match json.as_array() {
            None => None,
            Some(items) => {
                let ghost all = trees(items@);
                let mut brokers: Vec<BrokerData> = Vec::new();
                let mut i: usize = 0;
                while i < items.len()
                    invariant
                        i <= items.len(),
                        all == trees(items@),
                        json@ == JsonTree::Array(all),
                        brokers@.len() == i,
                        forall|j: int|
                            0 <= j < i ==> BrokerDataView::of_tree(#[trigger] all[j]) == Some(
                                brokers@[j].deep_view(),
                            ),
                    decreases items.len() - i,
                {
                    assert(all[i as int] == items@[i as int]@);
                    match BrokerData::from_json(&items[i]) {
                        Some(broker) => {
                            brokers.push(broker);
                        },
                        None => {
                            return None;
                        },
                    }
                    i = i + 1;
                }
                assert(broker_items(all)->0 =~= brokers.deep_view());
                Some(brokers)
            },
        }
    }

    fn queues_from_json(json: &JsonValue) -> (r: Option<Vec<QueueData>>)
        ensures
            match r {
                Some(queues) => json@ is Array && queue_items(json@->Array_0) == Some(
                    queues.deep_view(),
                ),
                None => !(json@ is Array) || queue_items(json@->Array_0) is None,
            },
    {
        match json.as_array() {
            None => None,
            Some(items) => {
                let ghost all = trees(items@);
                let mut queues: Vec<QueueData> = Vec::new();
                let mut i: usize = 0;
                while i < items.len()
                    invariant
                        i <= items.len(),
                        all == trees(items@),
                        json@ == JsonTree::Array(all),
                        queues@.len() == i,
                        forall|j: int|
                            0 <= j < i ==> QueueDataView::of_tree(#[trigger] all[j]) == Some(
                                queues@[j].deep_view(),
                            ),
                    decreases items.len() - i,
                {
                    assert(all[i as int] == items@[i as int]@);
                    match QueueData::from_json(&items[i]) {
                        Some(queue) => {
                            queues.push(queue);
                        },
                        None => {
                            return None;
                        },
                    }
                    i = i + 1;
                }
                assert(queue_items(all)->0 =~= queues.deep_view());
                Some(queues)
            },
        }
    }

    /// The route that a JSON document holds.
    pub fn from_json(json: &JsonValue) -> (r: Option<TopicRouteInformation>)
        ensures
            match r {
                Some(route) => TopicRouteInformationView::of_tree(json@) == Some(route.deep_view()),
                None => TopicRouteInformationView::of_tree(json@) is None,
            },
    {
        let order_topic_conf = match json.get("orderTopicConf") {
            None => Some(String::new()),
            Some(value) => match value.as_text() {
                Some(text) => Some(text.clone()),
                None => None,
            },
        };
        let broker_datas = match json.get("brokerDatas") {
            Some(value) => Self::brokers_from_json(value),
            None => None,
        };
        let filter_server_table = match json.get("filterServerTable") {
            None => {
                let table: Vec<(String, Vec<String>)> = Vec::new();
                assert(table.deep_view() =~= Seq::empty());
                Some(table)
            },
            Some(value) => text_table_from_json(value),
        };
        let queue_datas = match json.get("queueDatas") {
            Some(value) => Self::queues_from_json(value),
            None => None,
        };
        match (order_topic_conf, broker_datas, filter_server_table, queue_datas) {
            (
                Some(order_topic_conf),
                Some(broker_datas),
                Some(filter_server_table),
                Some(queue_datas),
            ) => Some(
                TopicRouteInformation {
                    order_topic_conf,
                    broker_datas,
                    filter_server_table,
                    queue_datas,
                },
            ),
            _ => None,
        }
    }

    /// The route that a response body holds. The body is relaxed JSON, and is
    /// repaired first.
    pub fn parse(source: String) -> (r: Result<TopicRouteInformation, BodyDecodeError>)
        ensures
            match TopicRouteInformationView::of_body(source@) {
                Ok(route) => r matches Ok(t) && t.deep_view() == route,
                Err(e) => r == Err::<TopicRouteInformation, BodyDecodeError>(e),
            },
    {
        match parse_body(source.as_str(), true) {
            None => Err(BodyDecodeError::Syntax),
            Some(json) => match Self::from_json(&json) {
                Some(route) => Ok(route),
                None => Err(BodyDecodeError::Field),
            },
        }
    }

    pub fn order_topic_conf(&self) -> (text: &String)
        ensures
            text@ == self.deep_view().order_topic_conf,
    {
        &self.order_topic_conf
    }

    pub fn broker_datas(&self) -> (brokers: &Vec<BrokerData>)
        ensures
            brokers.deep_view() == self.deep_view().broker_datas,
    {
        &self.broker_datas
    }

    /// The filter servers by broker. No broker comes twice.
    pub fn filter_server_table(&self) -> (table: &Vec<(String, Vec<String>)>)
        ensures
            table.deep_view() == self.deep_view().filter_server_table,
            keys_unique(table.deep_view()),
    {
        proof {
            use_type_invariant(self);
        }
        &self.filter_server_table
    }

    pub fn queue_datas(&self) -> (queues: &Vec<QueueData>)
        ensures
            queues.deep_view() == self.deep_view().queue_datas,
    {
        &self.queue_datas
    }
}

/// The texts of the member `key` of a response body that is strict JSON.
pub open spec fn body_text_array(source: Seq<char>, key: Seq<char>) -> Result<
    Seq<Seq<char>>,
    BodyDecodeError,
> {
    match body_tree(source, false) {
        None => Err(BodyDecodeError::Syntax),
        Some(tree) => match member_text_array(tree, key) {
            Some(texts) => Ok(texts),
            None => Err(BodyDecodeError::Field),
        },
    }
}

/// Reads the texts of the member `key` of a response body that is strict JSON.
fn parse_text_array(source: &str, key: &str) -> (r: Result<Vec<String>, BodyDecodeError>)
    ensures
        match body_text_array(source@, key@) {
            Ok(texts) => r matches Ok(t) && t.deep_view() == texts,
            Err(e) => r == Err::<Vec<String>, BodyDecodeError>(e),
        },
{
    match parse_body(source, false) {
        None => Err(BodyDecodeError::Syntax),
        Some(json) => match member_texts_from_json(&json, key) {
            Some(texts) => Ok(texts),
            None => Err(BodyDecodeError::Field),
        },
    }
}

/// The names of all topics.
#[derive(Debug)]
pub struct Topics {
    topic_list: Vec<String>,
}

impl DeepView for Topics {
    type V = Seq<Seq<char>>;

    closed spec fn deep_view(&self) -> Seq<Seq<char>> {
        self.topic_list.deep_view()
    }
}

impl Topics {
    /// The topics that a response body holds: the texts of its member `topicList`.
    pub fn parse(source: String) -> (r: Result<Topics, BodyDecodeError>)
        ensures
            match body_text_array(source@, "topicList"@) {
                Ok(texts) => r matches Ok(t) && t.deep_view() == texts,
                Err(e) => r == Err::<Topics, BodyDecodeError>(e),
            },
    {
        match parse_text_array(source.as_str(), "topicList") {
            Ok(topic_list) => Ok(Topics { topic_list }),
            Err(e) => Err(e),
        }
    }

    pub fn topics(&self) -> (topics: &Vec<String>)
        ensures
            topics.deep_view() == self.deep_view(),
    {
        &self.topic_list
    }
}

/// The names of the consumer groups of a topic.
#[derive(Debug)]
pub struct ConsumerGroups {
    group_list: Vec<String>,
}

impl DeepView for ConsumerGroups {
    type V = Seq<Seq<char>>;

    closed spec fn deep_view(&self) -> Seq<Seq<char>> {
        self.group_list.deep_view()
    }
}

impl ConsumerGroups {
    /// The groups that a response body holds: the texts of its member `groupList`.
    pub fn parse(source: String) -> (r: Result<ConsumerGroups, BodyDecodeError>)
        ensures
            match body_text_array(source@, "groupList"@) {
                Ok(texts) => r matches Ok(g) && g.deep_view() == texts,
                Err(e) => r == Err::<ConsumerGroups, BodyDecodeError>(e),
            },
    {
        match parse_text_array(source.as_str(), "groupList") {
            Ok(group_list) => Ok(ConsumerGroups { group_list }),
            Err(e) => Err(e),
        }
    }

    pub fn groups(&self) -> (groups: &Vec<String>)
        ensures
            groups.deep_view() == self.deep_view(),
    {
        &self.group_list
    }
}

/// The number of commas in a text.
pub open spec fn comma_count(s: Seq<char>) -> nat
    decreases s.len(),
{
    if s.len() == 0 {
        0
    } else if s.last() == ',' {
        comma_count(s.drop_last()) + 1
    } else {
        comma_count(s.drop_last())
    }
}

/// The number of characters before the first comma of a text.
pub open spec fn comma_free_run(s: Seq<char>) -> nat
    decreases s.len(),
{
    if s.len() > 0 && s[0] != ',' {
        1 + comma_free_run(s.skip(1))
    } else {
        0
    }
}

/// The two parts of a text that has one comma: what stands before the comma, and
/// what stands after it.
pub open spec fn two_parts(s: Seq<char>) -> Option<(Seq<char>, Seq<char>)> {
    if comma_count(s) == 1 {
        Some((s.take(comma_free_run(s) as int), s.skip(comma_free_run(s) as int + 1)))
    } else {
        None
    }
}

/// The two integers of a text of two parts, where each part is decimal text.
pub open spec fn two_integers(s: Seq<char>) -> Option<(i64, i64)> {
    match two_parts(s) {
        Some((first, second)) => match (decimal_i64(first), decimal_i64(second)) {
            (Some(a), Some(b)) => Some((a, b)),
            _ => None,
        },
        None => None,
    }
}

pub proof fn lemma_comma_free_run(s: Seq<char>)
    ensures
        comma_free_run(s) <= s.len(),
        forall|i: int| 0 <= i < comma_free_run(s) ==> #[trigger] s[i] != ',',
        comma_free_run(s) < s.len() ==> s[comma_free_run(s) as int] == ',',
    decreases s.len(),
{
    if s.len() > 0 && s[0] != ',' {
        lemma_comma_free_run(s.skip(1));
        assert forall|i: int| 0 <= i < comma_free_run(s) implies #[trigger] s[i] != ',' by {
            if i > 0 {
                assert(s[i] == s.skip(1)[i - 1]);
            }
        }
    }
}

/// A text in which only the character at `at` is a comma has one comma, and the
/// characters before `at` are those before its first comma.
proof fn lemma_single_comma(s: Seq<char>, at: int)
    requires
        0 <= at < s.len(),
        s[at] == ',',
        forall|i: int| 0 <= i < at ==> #[trigger] s[i] != ',',
    ensures
        comma_free_run(s) == at,
{
    lemma_comma_free_run(s);
    let n = comma_free_run(s) as int;
    if n < at {
        assert(s[n] != ',');
    } else if n > at {
        assert(s[at] != ',');
    }
}

/// Splits a text at its commas and reads the parts as integers: both integers
/// where there are two parts and each is decimal text, nothing where there are
/// two parts and one is not, and twice -1 where there are not two parts.
pub fn split_two_checked(source: &str) -> (r: Option<(i64, i64)>)
    ensures
        r == (match two_parts(source@) {
            Some(_) => two_integers(source@),
            None => Some((-1i64, -1i64)),
        }),
{
    let chars = chars_of(source);
    let mut commas: usize = 0;
    let mut first: usize = 0;
    let mut i: usize = 0;
    assert(chars@.take(0) =~= Seq::<char>::empty());
    while i < chars.len()
        invariant
            i <= chars.len(),
            commas <= i,
            commas == comma_count(chars@.take(i as int)),
            commas == 0 ==> first == 0 && forall|j: int| 0 <= j < i ==> #[trigger] chars@[j] != ',',
            commas > 0 ==> first < i && chars@[first as int] == ',' && forall|j: int|
                0 <= j < first ==> #[trigger] chars@[j] != ',',
        decreases chars.len() - i,
    {
        proof {
            assert(chars@.take(i + 1).drop_last() =~= chars@.take(i as int));
            assert(chars@.take(i + 1).last() == chars@[i as int]);
        }
        if chars[i] == ',' {
            if commas == 0 {
                first = i;
            }
            commas = commas + 1;
        }
        i = i + 1;
    }
    assert(chars@.take(i as int) =~= chars@);
    if commas != 1 {
        return Some((-1, -1));
    }
    proof {
        lemma_single_comma(chars@, first as int);
    }
    let left = slice_subrange(chars.as_slice(), 0, first);
    let right = slice_subrange(chars.as_slice(), first + 1, chars.len());
    assert(left@ =~= chars@.take(first as int));
    assert(right@ =~= chars@.skip(first + 1));
    match (parse_i64_chars(left), parse_i64_chars(right)) {
        (Some(a), Some(b)) => Some((a, b)),
        _ => None,
    }
}

/// Splits a text at its commas and reads the parts as integers: both integers
/// where there are two parts, and twice -1 where there are not. Where there are
/// two parts, each is to be decimal text.
pub fn split_two_to_i64(source: String) -> (r: (i64, i64))
    requires
        two_parts(source@) is Some ==> two_integers(source@) is Some,
    ensures
        r == (match two_integers(source@) {
            Some(pair) => pair,
            None => (-1i64, -1i64),
        }),
{
    match split_two_checked(source.as_str()) {
        Some(pair) => pair,
        None => (-1, -1),
    }
}

} // verus!
