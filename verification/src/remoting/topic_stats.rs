use crate::error::BodyDecodeError;
use crate::util::json::{lexemes, strict_text, tokenize, Lexeme, TokenType, Tokenizer};
use crate::util::strict::{parse_json, strict_json};
use crate::util::table::{keys_unique, lemma_put, position_of, put};
use crate::util::value::{JsonTree, JsonValue};
use vstd::prelude::*;
use vstd::slice::slice_subrange;
use vstd::utf8::encode_utf8;

verus! {

/// The depth of nested objects after a token, where it was `depth` before.
pub open spec fn depth_after(l: Lexeme, depth: nat) -> nat {
    if l is BeginObject {
        depth + 1
    } else if l is EndObject && depth > 0 {
        (depth - 1) as nat
    } else {
        depth
    }
}

/// The number of tokens of `t` up to the brace that closes the outermost of
/// `depth` open objects, that brace counted.
pub open spec fn closing_offset(t: Seq<Lexeme>, depth: nat) -> Option<nat>
    decreases t.len(),
{
    if t.len() == 0 {
        None
    } else if depth_after(t[0], depth) == 0 {
        Some(1)
    } else {
        match closing_offset(t.skip(1), depth_after(t[0], depth)) {
            Some(n) => Some(n + 1),
            None => None,
        }
    }
}

pub proof fn lemma_closing_offset_bound(t: Seq<Lexeme>, depth: nat)
    ensures
        closing_offset(t, depth) matches Some(n) ==> 1 <= n <= t.len(),
    decreases t.len(),
{
    if t.len() > 0 && depth_after(t[0], depth) != 0 {
        lemma_closing_offset_bound(t.skip(1), depth_after(t[0], depth));
    }
}

/// The balanced runs of a token sequence, in order: each begins at an opening
/// brace outside any run and ends at the brace that closes it. Tokens between
/// runs belong to none, and neither does a run that never closes.
pub open spec fn object_runs(t: Seq<Lexeme>) -> Seq<Seq<Lexeme>>
    decreases t.len(),
    via object_runs_terminates
{
    if t.len() == 0 {
        Seq::empty()
    } else if t[0] is BeginObject {
        match closing_offset(t.skip(1), 1) {
            Some(n) => seq![t.take(n + 1 as int)] + object_runs(t.skip(n + 1 as int)),
            None => Seq::empty(),
        }
    } else {
        object_runs(t.skip(1))
    }
}

#[via_fn]
proof fn object_runs_terminates(t: Seq<Lexeme>) {
    if t.len() > 0 {
        lemma_closing_offset_bound(t.skip(1), 1);
    }
}

/// The lexemes of each of some token vectors.
pub open spec fn run_lexemes(runs: Seq<Vec<TokenType>>) -> Seq<Seq<Lexeme>> {
    Seq::new(runs.len(), |i: int| lexemes(runs[i]@))
}

/// The balanced runs of some tokens, in order.
pub fn balanced_runs(tokens: &[TokenType]) -> (runs: Vec<Vec<TokenType>>)
    ensures
        run_lexemes(runs@) == object_runs(lexemes(tokens@)),
{
    let ghost all = lexemes(tokens@);
    let mut runs: Vec<Vec<TokenType>> = Vec::new();
    let mut i: usize = 0;
    assert(all.skip(0) =~= all);
    assert(run_lexemes(runs@) =~= Seq::empty());
    while i < tokens.len()
        invariant
            i <= tokens.len(),
            all == lexemes(tokens@),
            run_lexemes(runs@) + object_runs(all.skip(i as int)) == object_runs(all),
        decreases tokens.len() - i,
    {
        let ghost here = all.skip(i as int);
        let ghost done = run_lexemes(runs@);
        proof {
            assert(here.skip(1) =~= all.skip(i + 1));
            lemma_closing_offset_bound(here.skip(1), 1);
        }
        match &tokens[i] {
            TokenType::BeginObject => {
                let mut run: Vec<TokenType> = Vec::new();
                run.push(TokenType::BeginObject);
                let mut depth: usize = 1;
                let mut j: usize = i + 1;
                assert(lexemes(run@) =~= all.subrange(i as int, j as int));
                while j < tokens.len() && depth > 0
                    invariant
                        i < j <= tokens.len(),
                        all == lexemes(tokens@),
                        here == all.skip(i as int),
                        depth <= j - i,
                        lexemes(run@) == all.subrange(i as int, j as int),
                        depth > 0 ==> closing_offset(here.skip(1), 1) == (match closing_offset(
                            all.skip(j as int),
                            depth as nat,
                        ) {
                            Some(n) => Some((n + j - i - 1) as nat),
                            None => None,
                        }),
                        depth == 0 ==> closing_offset(here.skip(1), 1) == Some((j - i - 1) as nat),
                    decreases tokens.len() - j,
                {
                    proof {
                        assert(all.skip(j as int).skip(1) =~= all.skip(j + 1));
                        assert(all[j as int] == tokens@[j as int]@);
                    }
                    match &tokens[j] {
                        TokenType::BeginObject => {
                            depth = depth + 1;
                        },
                        TokenType::EndObject => {
                            depth = depth - 1;
                        },
                        _ => {},
                    }
                    let ghost before = lexemes(run@);
                    let token = tokens[j].clone();
                    assert(token@ == all[j as int]);
                    run.push(token);
                    assert(lexemes(run@) =~= before.push(all[j as int]));
                    j = j + 1;
                    assert(lexemes(run@) =~= all.subrange(i as int, j as int));
                }
                if depth == 0 {
                    proof {
                        let n = (j - i - 1) as int;
                        assert(here.take(n + 1) =~= all.subrange(i as int, j as int));
                        assert(here.skip(n + 1) =~= all.skip(j as int));
                    }
                    runs.push(run);
                    assert(run_lexemes(runs@) =~= done + seq![all.subrange(i as int, j as int)]);
                    assert(run_lexemes(runs@) + object_runs(all.skip(j as int)) =~= done
                        + object_runs(here));
                } else {
                    proof {
                        assert(all.skip(j as int).len() == 0);
                        assert(object_runs(here) =~= Seq::empty());
                        assert(object_runs(all.skip(j as int)) =~= Seq::empty());
                    }
                }
                i = j;
            },
            _ => {
                assert(all[i as int] == tokens@[i as int]@);
                i = i + 1;
            },
        }
    }
    assert(run_lexemes(runs@) =~= object_runs(all));
    runs
}

/// One queue of a topic as a value.
pub struct MessageQueueView {
    pub broker_name: Seq<char>,
    pub queue_id: i32,
    pub topic: Seq<char>,
}

impl MessageQueueView {
    /// The queue that a JSON document holds.
    pub open spec fn of_tree(tree: JsonTree) -> Option<MessageQueueView> {
        match (
            tree.member_text("brokerName"@),
            tree.member_int32("queueId"@),
            tree.member_text("topic"@),
        ) {
            (Some(broker_name), Some(queue_id), Some(topic)) => Some(
                MessageQueueView { broker_name, queue_id, topic },
            ),
            _ => None,
        }
    }
}

/// One queue of a topic: the broker that holds it, its number there, and the topic.
#[derive(Debug, Hash)]
pub struct MessageQueue {
    broker_name: String,
    queue_id: i32,
    topic: String,
}

impl DeepView for MessageQueue {
    type V = MessageQueueView;

    closed spec fn deep_view(&self) -> MessageQueueView {
        MessageQueueView {
            broker_name: self.broker_name@,
            queue_id: self.queue_id,
            topic: self.topic@,
        }
    }
}

impl MessageQueue {
    /// The queue that a JSON document holds.
    pub fn from_json(json: &JsonValue) -> (r: Option<MessageQueue>)
        ensures
            match r {
                Some(queue) => MessageQueueView::of_tree(json@) == Some(queue.deep_view()),
                None => MessageQueueView::of_tree(json@) is None,
            },
    {
        match (json.get_text("brokerName"), json.get_i32("queueId"), json.get_text("topic")) {
            (Some(broker_name), Some(queue_id), Some(topic)) => Some(
                MessageQueue { broker_name: broker_name.clone(), queue_id, topic: topic.clone() },
            ),
            _ => None,
        }
    }

    pub fn broker_name(&self) -> (name: &String)
        ensures
            name@ == self.deep_view().broker_name,
    {
        &self.broker_name
    }

    pub fn queue_id(&self) -> (id: i32)
        ensures
            id == self.deep_view().queue_id,
    {
        self.queue_id
    }

    pub fn topic(&self) -> (topic: &String)
        ensures
            topic@ == self.deep_view().topic,
    {
        &self.topic
    }

    /// Whether two queues are the same one: the same broker, number and topic.
    pub fn same(&self, other: &MessageQueue) -> (b: bool)
        ensures
            b == (self.deep_view() == other.deep_view()),
    {
        self.broker_name == other.broker_name && self.queue_id == other.queue_id && self.topic
            == other.topic
    }
}

/// The offsets of a queue as a value.
pub struct TopicOffsetView {
    pub min_offset: i64,
    pub max_offset: i64,
    pub last_update_timestamp: i64,
}

impl TopicOffsetView {
    /// The offsets that a JSON document holds.
    pub open spec fn of_tree(tree: JsonTree) -> Option<TopicOffsetView> {
        match (
            tree.member_int64("minOffset"@),
            tree.member_int64("maxOffset"@),
            tree.member_int64("lastUpdateTimestamp"@),
        ) {
            (Some(min_offset), Some(max_offset), Some(last_update_timestamp)) => Some(
                TopicOffsetView { min_offset, max_offset, last_update_timestamp },
            ),
            _ => None,
        }
    }
}

/// The offsets of a queue: its least and its greatest, and when it last changed.
#[derive(Debug)]
pub struct TopicOffset {
    min_offset: i64,
    max_offset: i64,
    last_update_timestamp: i64,
}

impl DeepView for TopicOffset {
    type V = TopicOffsetView;

    closed spec fn deep_view(&self) -> TopicOffsetView {
        TopicOffsetView {
            min_offset: self.min_offset,
            max_offset: self.max_offset,
            last_update_timestamp: self.last_update_timestamp,
        }
    }
}

impl TopicOffset {
    /// The offsets that a JSON document holds.
    pub fn from_json(json: &JsonValue) -> (r: Option<TopicOffset>)
        ensures
            match r {
                Some(offset) => TopicOffsetView::of_tree(json@) == Some(offset.deep_view()),
                None => TopicOffsetView::of_tree(json@) is None,
            },
    {
        match (
            json.get_i64("minOffset"),
            json.get_i64("maxOffset"),
            json.get_i64("lastUpdateTimestamp"),
        ) {
            (Some(min_offset), Some(max_offset), Some(last_update_timestamp)) => Some(
                TopicOffset { min_offset, max_offset, last_update_timestamp },
            ),
            _ => None,
        }
    }

    pub fn min_offset(&self) -> (n: i64)
        ensures
            n == self.deep_view().min_offset,
    {
        self.min_offset
    }

    pub fn max_offset(&self) -> (n: i64)
        ensures
            n == self.deep_view().max_offset,
    {
        self.max_offset
    }

    pub fn last_update_timestamp(&self) -> (n: i64)
        ensures
            n == self.deep_view().last_update_timestamp,
    {
        self.last_update_timestamp
    }
}

/// The document of a run of tokens: that of its strict JSON text.
pub open spec fn run_tree(run: Seq<Lexeme>) -> Option<JsonTree> {
    strict_json(encode_utf8(strict_text(run)))
}

/// The entry that a run for the key and a run for the value give.
pub open spec fn paired_entry(key: Seq<Lexeme>, value: Seq<Lexeme>) -> Result<
    (MessageQueueView, TopicOffsetView),
    BodyDecodeError,
> {
    match run_tree(key) {
        None => Err(BodyDecodeError::Syntax),
        Some(key_tree) => match MessageQueueView::of_tree(key_tree) {
            None => Err(BodyDecodeError::Field),
            Some(queue) => match run_tree(value) {
                None => Err(BodyDecodeError::Syntax),
                Some(value_tree) => match TopicOffsetView::of_tree(value_tree) {
                    None => Err(BodyDecodeError::Field),
                    Some(offset) => Ok((queue, offset)),
                },
            },
        },
    }
}

/// The entries that runs give, taken two by two: the first of each two is the
/// key, the second the value. A queue has one entry: where it comes again, it
/// keeps its place and takes the later offsets. A key without a value is an
/// error, and so is a run that does not hold what its place asks for; of several
/// errors the first counts.
pub open spec fn paired_entries(runs: Seq<Seq<Lexeme>>) -> Result<
    Seq<(MessageQueueView, TopicOffsetView)>,
    BodyDecodeError,
>
    decreases runs.len(),
{
    if runs.len() == 0 {
        Ok(Seq::empty())
    } else if runs.len() == 1 {
        Err(BodyDecodeError::Syntax)
    } else {
        match paired_entries(runs.take(runs.len() - 2)) {
            Err(e) => Err(e),
            Ok(front) => match paired_entry(runs[runs.len() - 2], runs[runs.len() - 1]) {
                Err(e) => Err(e),
                Ok(entry) => Ok(put(front, entry.0, entry.1)),
            },
        }
    }
}

/// The number of tokens that stand before the runs of an offset table: the
/// opening brace of the document, the name of the table, the colon, and the
/// opening brace of the table.
pub const TABLE_OPENING: usize = 4;

/// The number of tokens that stand after the runs: two closing braces and the
/// end of the document.
pub const TABLE_CLOSING: usize = 3;

/// The entries that the tokens of a response body give: those of the runs
/// between the opening and the closing of the table.
pub open spec fn entries_of_tokens(tokens: Seq<Lexeme>) -> Result<
    Seq<(MessageQueueView, TopicOffsetView)>,
    BodyDecodeError,
> {
    if tokens.len() < TABLE_OPENING + TABLE_CLOSING {
        Err(BodyDecodeError::Syntax)
    } else {
        paired_entries(
            object_runs(tokens.subrange(TABLE_OPENING as int, tokens.len() - TABLE_CLOSING)),
        )
    }
}

/// The offsets of the queues of a topic, one entry for each queue, in the order
/// in which the queues first come in the response.
#[derive(Debug)]
pub struct TopicStats {
    offset_table: Vec<(MessageQueue, TopicOffset)>,
}

impl DeepView for TopicStats {
    type V = Seq<(MessageQueueView, TopicOffsetView)>;

    closed spec fn deep_view(&self) -> Seq<(MessageQueueView, TopicOffsetView)> {
        self.offset_table.deep_view()
    }
}

impl TopicStats {
    #[verifier::type_invariant]
    spec fn each_queue_once(self) -> bool {
        keys_unique(self.offset_table.deep_view())
    }

    /// The position of the entry of a queue.
    fn find_queue(entries: &Vec<(MessageQueue, TopicOffset)>, queue: &MessageQueue) -> (r: Option<
        usize,
    >)
        ensures
            match r {
                Some(i) => position_of(entries.deep_view(), queue.deep_view()) == Some(i as int)
                    && i < entries.len(),
                None => position_of(entries.deep_view(), queue.deep_view()) is None,
            },
    {
        let ghost all = entries.deep_view();
        let mut i: usize = 0;
        assert(all.skip(0) =~= all);
        while i < entries.len()
            invariant
                i <= entries.len(),
                all == entries.deep_view(),
                all.len() == entries.len(),
                match position_of(all.skip(i as int), queue.deep_view()) {
                    Some(k) => position_of(all, queue.deep_view()) == Some(k + i),
                    None => position_of(all, queue.deep_view()) is None,
                },
            decreases entries.len() - i,
        {
            assert(all.skip(i as int).skip(1) =~= all.skip(i + 1));
            assert(all[i as int].0 == entries@[i as int].0.deep_view());
            if entries[i].0.same(queue) {
                return Some(i);
            }
            i = i + 1;
        }
        None
    }

    /// Gives a queue its offsets: in its place where the queue has an entry, at
    /// the end where it has none.
    fn put_entry(
        entries: &mut Vec<(MessageQueue, TopicOffset)>,
        queue: MessageQueue,
        offset: TopicOffset,
    )
        ensures
            final(entries).deep_view() == put(
                old(entries).deep_view(),
                queue.deep_view(),
                offset.deep_view(),
            ),
    {
        let ghost before = entries.deep_view();
        let ghost pair = (queue.deep_view(), offset.deep_view());
        match Self::find_queue(entries, &queue) {
            Some(i) => {
                entries.set(i, (queue, offset));
                assert(entries.deep_view() =~= before.update(i as int, pair));
            },
            None => {
                entries.push((queue, offset));
                assert(entries.deep_view() =~= before.push(pair));
            },
        }
    }

    /// Reads the document of a run.
    fn parse_run(run: &Vec<TokenType>) -> (r: Option<JsonValue>)
        ensures
            match r {
                Some(json) => run_tree(lexemes(run@)) == Some(json@),
                None => run_tree(lexemes(run@)) is None,
            },
    {
        let text = Tokenizer::do_regular_json(run);
        parse_json(text.as_str().as_bytes())
    }

    /// Reads the entry of a run for the key and a run for the value.
    fn parse_entry(key: &Vec<TokenType>, value: &Vec<TokenType>) -> (r: Result<
        (MessageQueue, TopicOffset),
        BodyDecodeError,
    >)
        ensures
            match paired_entry(lexemes(key@), lexemes(value@)) {
                Ok(entry) => r matches Ok(e) && e.deep_view() == entry,
                Err(e) => r == Err::<(MessageQueue, TopicOffset), BodyDecodeError>(e),
            },
    {
        let queue = match Self::parse_run(key) {
            None => {
                return Err(BodyDecodeError::Syntax);
            },
            Some(json) => match MessageQueue::from_json(&json) {
                None => {
                    return Err(BodyDecodeError::Field);
                },
                Some(queue) => queue,
            },
        };
        let offset = match Self::parse_run(value) {
            None => {
                return Err(BodyDecodeError::Syntax);
            },
            Some(json) => match TopicOffset::from_json(&json) {
                None => {
                    return Err(BodyDecodeError::Field);
                },
                Some(offset) => offset,
            },
        };
        Ok((queue, offset))
    }

    /// The entries that the tokens of a response body give.
    pub fn from_tokens(tokens: &Vec<TokenType>) -> (r: Result<TopicStats, BodyDecodeError>)
        ensures
            match entries_of_tokens(lexemes(tokens@)) {
                Ok(entries) => r matches Ok(stats) && stats.deep_view() == entries,
                Err(e) => r == Err::<TopicStats, BodyDecodeError>(e),
            },
    {
        if tokens.len() < TABLE_OPENING + TABLE_CLOSING {
            return Err(BodyDecodeError::Syntax);
        }
        let inner = slice_subrange(tokens.as_slice(), TABLE_OPENING, tokens.len() - TABLE_CLOSING);
        assert(lexemes(inner@) =~= lexemes(tokens@).subrange(
            TABLE_OPENING as int,
            tokens.len() - TABLE_CLOSING,
        ));
        let runs = balanced_runs(inner);
        let ghost all = run_lexemes(runs@);
        if runs.len() % 2 == 1 {
            proof {
                lemma_odd_runs(all);
            }
            return Err(BodyDecodeError::Syntax);
        }
        let mut offset_table: Vec<(MessageQueue, TopicOffset)> = Vec::new();
        let mut i: usize = 0;
        assert(all.take(0) =~= Seq::empty());
        assert(offset_table.deep_view() =~= Seq::empty());
        while i < runs.len()
            invariant
                i <= runs.len(),
                i % 2 == 0,
                runs.len() % 2 == 0,
                all == run_lexemes(runs@),
                entries_of_tokens(lexemes(tokens@)) == paired_entries(all),
                paired_entries(all.take(i as int)) == Ok::<
                    Seq<(MessageQueueView, TopicOffsetView)>,
                    BodyDecodeError,
                >(offset_table.deep_view()),
                keys_unique(offset_table.deep_view()),
            decreases runs.len() - i,
        {
            let ghost next = all.take(i + 2);
            let ghost before = offset_table.deep_view();
            proof {
                assert(next.take(next.len() - 2) =~= all.take(i as int));
                assert(next[next.len() - 2] == lexemes(runs@[i as int]@));
                assert(next[next.len() - 1] == lexemes(runs@[i + 1]@));
            }
            match Self::parse_entry(&runs[i], &runs[i + 1]) {
                Ok(entry) => {
                    proof {
                        lemma_put(before, entry.0.deep_view(), entry.1.deep_view());
                    }
                    Self::put_entry(&mut offset_table, entry.0, entry.1);
                },
                Err(e) => {
                    proof {
                        assert(paired_entries(next) == Err::<
                            Seq<(MessageQueueView, TopicOffsetView)>,
                            BodyDecodeError,
                        >(e));
                        lemma_paired_entries_prefix(all, i + 2);
                    }
                    return Err(e);
                },
            }
            i = i + 2;
        }
        assert(all.take(i as int) =~= all);
        Ok(TopicStats { offset_table })
    }

    /// The statistics that a response body holds. The queues are the keys of a
    /// table there, which strict JSON cannot say: the body is read token by token.
    pub fn parse(source: String) -> (r: Result<TopicStats, BodyDecodeError>)
        ensures
            match entries_of_tokens(tokenize(source@)) {
                Ok(entries) => r matches Ok(stats) && stats.deep_view() == entries,
                Err(e) => r == Err::<TopicStats, BodyDecodeError>(e),
            },
    {
        let mut tokenizer = Tokenizer::new(source);
        tokenizer.parse();
        assert(tokenizer.lexemes() =~= tokenize(source@));
        Self::from_tokens(tokenizer.tokens())
    }

    /// The entries, in the order in which the queues first come in the response.
    /// No queue comes twice.
    pub fn entries(&self) -> (entries: &Vec<(MessageQueue, TopicOffset)>)
        ensures
            entries.deep_view() == self.deep_view(),
            keys_unique(entries.deep_view()),
    {
        proof {
            use_type_invariant(self);
        }
        &self.offset_table
    }
}

/// An odd number of runs leaves a key without a value.
pub proof fn lemma_odd_runs(runs: Seq<Seq<Lexeme>>)
    requires
        runs.len() % 2 == 1,
    ensures
        paired_entries(runs) == Err::<Seq<(MessageQueueView, TopicOffsetView)>, BodyDecodeError>(
            BodyDecodeError::Syntax,
        ),
    decreases runs.len(),
{
    if runs.len() > 1 {
        lemma_odd_runs(runs.take(runs.len() - 2));
    }
}

/// An error among the first pairs of runs is the error of all the runs.
pub proof fn lemma_paired_entries_prefix(runs: Seq<Seq<Lexeme>>, n: int)
    requires
        0 <= n <= runs.len(),
        n % 2 == 0,
        runs.len() % 2 == 0,
        paired_entries(runs.take(n)) is Err,
    ensures
        paired_entries(runs) == paired_entries(runs.take(n)),
    decreases runs.len() - n,
{
    if n < runs.len() {
        let next = runs.take(n + 2);
        assert(next.take(next.len() - 2) =~= runs.take(n));
        lemma_paired_entries_prefix(runs, n + 2);
    } else {
        assert(runs.take(n) =~= runs);
    }
}

} // verus!
