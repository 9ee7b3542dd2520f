use crate::error::BodyDecodeError;
use crate::remoting::response::{body_tree, parse_body};
use crate::util::value::{JsonTree, JsonValue};
use vstd::prelude::*;
use vstd::string::StringExecFns;

verus! {

/// The number of statistics that a broker reports of itself.
pub const RUNTIME_FIELD_COUNT: usize = 55;

/// The names of the statistics that a broker reports of itself. Each is a text
/// in the report, and none may be missing.
pub const RUNTIME_FIELDS: [&'static str; 55] = [
    "msgPutTotalTodayNow",
    "scheduleMessageOffset_2",
    "scheduleMessageOffset_3",
    "sendThreadPoolQueueHeadWaitTimeMills",
    "putMessageDistributeTime",
    "scheduleMessageOffset_9",
    "scheduleMessageOffset_4",
    "scheduleMessageOffset_5",
    "queryThreadPoolQueueHeadWaitTimeMills",
    "scheduleMessageOffset_7",
    "scheduleMessageOffset_6",
    "remainHowManyDataToFlush",
    "msgGetTotalTodayNow",
    "queryThreadPoolQueueSize",
    "bootTimestamp",
    "msgPutTotalYesterdayMorning",
    "msgGetTotalYesterdayMorning",
    "pullThreadPoolQueueSize",
    "commitLogMinOffset",
    "pullThreadPoolQueueHeadWaitTimeMills",
    "runtime",
    "dispatchMaxBuffer",
    "brokerVersion",
    "putTps",
    "getMissTps",
    "getTransferedTps",
    "EndTransactionQueueSize",
    "getTotalTps",
    "scheduleMessageOffset_11",
    "scheduleMessageOffset_12",
    "scheduleMessageOffset_13",
    "consumeQueueDiskRatio",
    "getFoundTps",
    "scheduleMessageOffset_16",
    "scheduleMessageOffset_17",
    "scheduleMessageOffset_18",
    "EndTransactionThreadPoolQueueCapacity",
    "commitLogMaxOffset",
    "getMessageEntireTimeMax",
    "msgPutTotalTodayMorning",
    "putMessageTimesTotal",
    "msgGetTotalTodayMorning",
    "brokerVersionDesc",
    "sendThreadPoolQueueSize",
    "startAcceptSendRequestTimeStamp",
    "putMessageEntireTimeMax",
    "earliestMessageTimeStamp",
    "commitLogDirCapacity",
    "remainTransientStoreBufferNumbs",
    "queryThreadPoolQueueCapacity",
    "putMessageAverageSize",
    "dispatchBehindBytes",
    "putMessageSizeTotal",
    "sendThreadPoolQueueCapacity",
    "pullThreadPoolQueueCapacity",
];

/// The texts of the statistics of a document, in the order of their names, where
/// each name has a text.
pub open spec fn runtime_values(tree: JsonTree) -> Option<Seq<Seq<char>>> {
    if forall|i: int|
        0 <= i < RUNTIME_FIELD_COUNT ==> tree.member_text(#[trigger] RUNTIME_FIELDS[i]@) is Some {
        Some(
            Seq::new(
                RUNTIME_FIELD_COUNT as nat,
                |i: int| tree.member_text(RUNTIME_FIELDS[i]@)->0,
            ),
        )
    } else {
        None
    }
}

/// The position of the first name of the table that is `name`, from `from` on.
pub open spec fn runtime_field_position(name: Seq<char>, from: int) -> Option<int>
    decreases RUNTIME_FIELD_COUNT - from,
{
    if from < 0 || from >= RUNTIME_FIELD_COUNT {
        None
    } else if RUNTIME_FIELDS[from]@ == name {
        Some(from)
    } else {
        runtime_field_position(name, from + 1)
    }
}

/// The statistics that a broker reports of itself: one text for each name.
#[derive(Debug)]
pub struct BrokerRuntimeInfoTable {
    values: Vec<String>,
}

impl DeepView for BrokerRuntimeInfoTable {
    type V = Seq<Seq<char>>;

    closed spec fn deep_view(&self) -> Seq<Seq<char>> {
        self.values.deep_view()
    }
}

impl BrokerRuntimeInfoTable {
    #[verifier::type_invariant]
    spec fn complete(self) -> bool {
        self.values@.len() == RUNTIME_FIELD_COUNT
    }

    /// The statistics that a JSON document holds.
    pub fn from_json(json: &JsonValue) -> (r: Option<BrokerRuntimeInfoTable>)
        ensures
            match r {
                Some(table) => runtime_values(json@) == Some(table.deep_view()),
                None => runtime_values(json@) is None,
            },
    {
        let mut values: Vec<String> = Vec::new();
        let mut i: usize = 0;
        while i < RUNTIME_FIELD_COUNT
            invariant
                i <= RUNTIME_FIELD_COUNT,
                values@.len() == i,
                forall|j: int|
                    0 <= j < i ==> json@.member_text(#[trigger] RUNTIME_FIELDS[j]@) == Some(
                        values@[j]@,
                    ),
            decreases RUNTIME_FIELD_COUNT - i,
        {
            match json.get_text(RUNTIME_FIELDS[i]) {
                Some(text) => {
                    values.push(text.clone());
                },
                None => {
                    return None;
                },
            }
            i = i + 1;
        }
        let table = BrokerRuntimeInfoTable { values };
        assert(runtime_values(json@)->0 =~= table.deep_view());
        Some(table)
    }

    /// The text of the statistic named `name`, if the table has that name.
    pub fn get(&self, name: &str) -> (r: Option<&String>)
        ensures
            self.deep_view().len() == RUNTIME_FIELD_COUNT,
            match r {
                Some(text) => runtime_field_position(name@, 0) matches Some(i) && text@
                    == self.deep_view()[i],
                None => runtime_field_position(name@, 0) is None,
            },
    {
        proof {
            use_type_invariant(self);
        }
        let wanted = String::from_str(name);
        let mut i: usize = 0;
        while i < RUNTIME_FIELD_COUNT
            invariant
                i <= RUNTIME_FIELD_COUNT,
                self.values@.len() == RUNTIME_FIELD_COUNT,
                wanted@ == name@,
                runtime_field_position(name@, i as int) == runtime_field_position(name@, 0),
            decreases RUNTIME_FIELD_COUNT - i,
        {
            if String::from_str(RUNTIME_FIELDS[i]) == wanted {
                return Some(&self.values[i]);
            }
            i = i + 1;
        }
        None
    }
}

/// The report of a broker on itself as a value.
pub open spec fn runtime_info_of_body(source: Seq<char>) -> Result<
    Seq<Seq<char>>,
    BodyDecodeError,
> {
    match body_tree(source, false) {
        None => Err(BodyDecodeError::Syntax),
        Some(tree) => match tree.member("table"@) {
            None => Err(BodyDecodeError::Field),
            Some(table) => match runtime_values(table) {
                Some(values) => Ok(values),
                None => Err(BodyDecodeError::Field),
            },
        },
    }
}

/// The report of a broker on itself.
#[derive(Debug)]
pub struct BrokerRuntimeInfo {
    table: BrokerRuntimeInfoTable,
}

impl DeepView for BrokerRuntimeInfo {
    type V = Seq<Seq<char>>;

    closed spec fn deep_view(&self) -> Seq<Seq<char>> {
        self.table.deep_view()
    }
}

impl BrokerRuntimeInfo {
    /// The report that a response body holds: the statistics of its member `table`.
    pub fn from(source: String) -> (r: Result<BrokerRuntimeInfo, BodyDecodeError>)
        ensures
            match runtime_info_of_body(source@) {
                Ok(values) => r matches Ok(info) && info.deep_view() == values,
                Err(e) => r == Err::<BrokerRuntimeInfo, BodyDecodeError>(e),
            },
    {
        match parse_body(source.as_str(), false) {
            None => Err(BodyDecodeError::Syntax),
            Some(json) => match json.get("table") {
                None => Err(BodyDecodeError::Field),
                Some(value) => match BrokerRuntimeInfoTable::from_json(value) {
                    Some(table) => Ok(BrokerRuntimeInfo { table }),
                    None => Err(BodyDecodeError::Field),
                },
            },
        }
    }

    pub fn table(&self) -> (table: &BrokerRuntimeInfoTable)
        ensures
            table.deep_view() == self.deep_view(),
    {
        &self.table
    }
}

} // verus!
