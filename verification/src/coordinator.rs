//! The coordinator: which replicas hold a key, and how it reads from and
//! writes to them by quorum.
//!
//! The coordinator neither sends nor waits. For each request it hands out
//! a tally, which says whom to ask next and takes the answers as they
//! come. Whoever runs it delivers the calls and reports back.

use crate::actor::{ActorCall, CallInjection, CallSuperset};
use crate::error::CallError;
use crate::json::{copy_answer, same_answer};
use crate::kv::key::Key;
use crate::le::le_value;
use crate::storage;
use serde_json::Value;
use vstd::prelude::*;
use vstd::std_specs::convert::FromSpecImpl;

verus! {

/// A read of the entry under a key, through the replicas.
#[derive(Debug)]
pub struct Get {
    pub key: Key,
}

/// What a read gives: the document under the key, if there is one.
pub type GetOutput = Option<Value>;

/// A write of a document under a key, through the replicas.
#[derive(Debug)]
pub struct Put {
    pub key: Key,
    pub value: Value,
}

/// What a write gives: whether the key was new.
pub type PutOutput = bool;

/// A read through the replicas, as a call.
pub type GetCall = ActorCall<Get, GetOutput>;

/// A write through the replicas, as a call.
pub type PutCall = ActorCall<Put, PutOutput>;

/// The calls that the coordinator takes.
#[derive(Debug)]
pub enum CoordinatorCall {
    Get(GetCall),
    Put(PutCall),
}

impl CoordinatorCall {
    /// The call that is there was answered with `error` on its own
    /// channel, and `delivered` is what the channel made of that.
    pub open spec fn replies_error(self, error: CallError, delivered: bool) -> bool {
        match self {
            CoordinatorCall::Get(call) => call.replies_error(error, delivered),
            CoordinatorCall::Put(call) => call.replies_error(error, delivered),
        }
    }
}

impl CallSuperset for CoordinatorCall {
    /// Answers whichever call is there with `error`: the reply is that
    /// call's own reply with the error.
    fn reply_error(self, error: CallError) -> (delivered: bool)
        ensures
            self.replies_error(error, delivered),
    {
        match self {
            CoordinatorCall::Get(call) => call.reply_error(error),
            CoordinatorCall::Put(call) => call.reply_error(error),
        }
    }
}

impl CallInjection<GetCall> for CoordinatorCall {
    open spec fn injected(call: GetCall) -> CoordinatorCall {
        CoordinatorCall::Get(call)
    }

    fn inject(call: GetCall) -> (union: CoordinatorCall) {
        CoordinatorCall::Get(call)
    }
}

impl CallInjection<PutCall> for CoordinatorCall {
    open spec fn injected(call: PutCall) -> CoordinatorCall {
        CoordinatorCall::Put(call)
    }

    fn inject(call: PutCall) -> (union: CoordinatorCall) {
        CoordinatorCall::Put(call)
    }
}

impl From<GetCall> for CoordinatorCall {
    fn from(call: GetCall) -> (union: CoordinatorCall) {
        CoordinatorCall::Get(call)
    }
}

impl FromSpecImpl<GetCall> for CoordinatorCall {
    open spec fn obeys_from_spec() -> bool {
        true
    }

    open spec fn from_spec(call: GetCall) -> CoordinatorCall {
        CoordinatorCall::Get(call)
    }
}

impl From<PutCall> for CoordinatorCall {
    fn from(call: PutCall) -> (union: CoordinatorCall) {
        CoordinatorCall::Put(call)
    }
}

impl FromSpecImpl<PutCall> for CoordinatorCall {
    open spec fn obeys_from_spec() -> bool {
        true
    }

    open spec fn from_spec(call: PutCall) -> CoordinatorCall {
        CoordinatorCall::Put(call)
    }
}

/// Why the coordinator failed a request.
#[derive(Debug, Clone, Copy, PartialEq, Eq, Structural)]
pub enum Error {
    /// No answer to a read gathered enough votes.
    NoReadConsensus,
    /// Neither outcome of a write gathered enough votes.
    NoWriteConsensus,
}

impl Error {
    /// The text of the error.
    pub open spec fn text(self) -> Seq<char> {
        "Failed to get consensus"@
    }

    /// The text of the error.
    pub fn message(&self) -> (text: String)
        ensures
            text@ == self.text(),
    {
        "Failed to get consensus".to_string()
    }
}

/// The settings of a coordinator over a table of `nodes` storages.
#[derive(Debug, Clone, Copy)]
pub struct Coordinator {
    pub replication: usize,
    pub min_correct_reads: usize,
    pub min_correct_writes: usize,
    pub concurrency_level: usize,
    pub nodes: usize,
}

/// The index in the table of the `j`-th replica of a window that starts at
/// `first`.
pub open spec fn replica(first: nat, j: nat, nodes: nat) -> nat {
    (first + j) % nodes
}

/// The index in the table of the `j`-th replica of a window that starts at
/// `first`.
pub fn replica_index(first: usize, j: usize, nodes: usize) -> (index: usize)
    requires
        nodes > 0,
    ensures
        index == replica(first as nat, j as nat, nodes as nat),
        index < nodes,
{
    let sum: u128 = first as u128 + j as u128;
    let index: u128 = sum % (nodes as u128);
    index as usize
}

/// An answer of one replica to a read: `None` where the replica failed or
/// did not answer.
pub type ReadAnswer = Option<GetOutput>;

/// The number of replicas among `answers` that answered `data`.
pub open spec fn votes(answers: Seq<ReadAnswer>, data: GetOutput) -> nat
    decreases answers.len(),
{
    if answers.len() == 0 {
        0
    } else {
        votes(answers.drop_last(), data) + if answers.last() == Some(data) {
            1nat
        } else {
            0nat
        }
    }
}

/// The answer that the last of `answers` has just brought to `quorum`
/// votes, if it has.
pub open spec fn decided(answers: Seq<ReadAnswer>, quorum: nat) -> Option<GetOutput> {
    if answers.len() > 0 && answers.last() is Some && votes(answers, answers.last().unwrap())
        >= quorum {
        Some(answers.last().unwrap())
    } else {
        None
    }
}

/// No more replicas answered `data` than answered at all.
pub proof fn lemma_votes_bound(answers: Seq<ReadAnswer>, data: GetOutput)
    ensures
        votes(answers, data) <= answers.len(),
    decreases answers.len(),
{
    if answers.len() > 0 {
        lemma_votes_bound(answers.drop_last(), data);
    }
}

/// One more answer adds one vote to what it answered and none elsewhere.
pub proof fn lemma_votes_push(answers: Seq<ReadAnswer>, answer: ReadAnswer, data: GetOutput)
    ensures
        votes(answers.push(answer), data) == votes(answers, data) + if answer == Some(data) {
            1nat
        } else {
            0nat
        },
{
    assert(answers.push(answer).drop_last() =~= answers);
}

/// One candidate answer of a read and the replicas that gave it.
struct Candidate {
    data: GetOutput,
    count: usize,
}

/// What a read by quorum is about, and the answers it has so far.
pub struct ReadView {
    pub key: Seq<u8>,
    pub first: nat,
    pub nodes: nat,
    pub replication: nat,
    pub quorum: nat,
    pub answers: Seq<ReadAnswer>,
}

/// The tally of one read by quorum.
pub struct ReadQuorum {
    key: Key,
    first: usize,
    nodes: usize,
    replication: usize,
    quorum: usize,
    polled: usize,
    tally: Vec<Candidate>,
    answers: Ghost<Seq<ReadAnswer>>,
}

/// What the coordinator does next for a read.
pub enum ReadAction {
    /// Send `message` to the storage at index `node` and report its answer.
    Ask { node: usize, message: storage::Get },
    /// Answer the caller.
    Reply(Result<GetOutput, Error>),
}

impl View for ReadQuorum {
    type V = ReadView;

    closed spec fn view(&self) -> ReadView {
        ReadView {
            key: self.key@,
            first: self.first as nat,
            nodes: self.nodes as nat,
            replication: self.replication as nat,
            quorum: self.quorum as nat,
            answers: self.answers@,
        }
    }
}

impl ReadView {
    /// The read still waits for replicas: nothing is decided and some of
    /// the window is left.
    pub open spec fn pending(self) -> bool {
        decided(self.answers, self.quorum) is None && self.answers.len() < self.replication
    }
}

impl ReadQuorum {
    /// The tally is consistent with the answers recorded.
    pub closed spec fn wf(&self) -> bool {
        &&& self.nodes > 0
        &&& self.first < self.nodes
        &&& self.polled == self.answers@.len()
        &&& self.polled <= self.replication
        &&& forall|n: int|
            0 <= n < self.answers@.len() ==> decided(
                #[trigger] self.answers@.take(n),
                self.quorum as nat,
            ) is None
        &&& forall|i: int|
            0 <= i < self.tally@.len() ==> (#[trigger] self.tally@[i]).count == votes(
                self.answers@,
                self.tally@[i].data,
            ) && self.tally@[i].count >= 1
        &&& forall|i: int, j: int|
            0 <= i < j < self.tally@.len() ==> (#[trigger] self.tally@[i]).data != (
            #[trigger] self.tally@[j]).data
        &&& forall|data: GetOutput| #[trigger]
            votes(self.answers@, data) >= 1 ==> exists|i: int|
                0 <= i < self.tally@.len() && (#[trigger] self.tally@[i]).data == data
        &&& forall|data: GetOutput| #[trigger]
            votes(self.answers@, data) >= 1 && votes(self.answers@, data) >= self.quorum
                ==> decided(self.answers@, self.quorum as nat) == Some(data)
    }

    /// Polling has stopped at the first answer that reached the quorum:
    /// nothing was decided before the last answer came.
    pub proof fn lemma_undecided_before(&self, n: int)
        requires
            self.wf(),
            0 <= n < self@.answers.len(),
        ensures
            decided(self@.answers.take(n), self@.quorum) is None,
            self@.answers.len() <= self@.replication,
            self@.nodes > 0,
            self@.first < self@.nodes,
    {
    }

    /// What to do next: reply with the answer that reached the quorum,
    /// ask the next replica of the window, or give up once the whole
    /// window was asked.
    pub fn next(&self) -> (action: ReadAction)
        requires
            self.wf(),
        ensures
            match action {
                ReadAction::Ask { node, message } => {
                    &&& self@.pending()
                    &&& node == replica(self@.first, self@.answers.len(), self@.nodes)
                    &&& message.key@ == self@.key
                },
                ReadAction::Reply(Ok(data)) => decided(self@.answers, self@.quorum) == Some(data),
                ReadAction::Reply(Err(error)) => {
                    &&& decided(self@.answers, self@.quorum) is None
                    &&& self@.answers.len() >= self@.replication
                    &&& error == Error::NoReadConsensus
                },
            },
    {
        let mut answer: Option<usize> = None;
        let mut i: usize = 0;
        while i < self.tally.len()
            invariant
                i <= self.tally@.len(),
                answer is None ==> forall|k: int|
                    0 <= k < i ==> (#[trigger] self.tally@[k]).count < self.quorum,
                answer matches Some(best) ==> best < i && self.tally@[best as int].count
                    >= self.quorum,
            decreases self.tally@.len() - i,
        {
            let count = self.tally[i].count;
            let has_more_votes = match answer {
                None => true,
                Some(best) => count > self.tally[best].count,
            };
            if has_more_votes && count >= self.quorum {
                answer = Some(i);
            }
            i += 1;
        }
        match answer {
            Some(best) => {
                let data = copy_answer(&self.tally[best].data);
                assert(votes(self.answers@, data) >= 1);
                ReadAction::Reply(Ok(data))
            },
            None => {
                proof {
                    if decided(self.answers@, self.quorum as nat) is Some {
                        let data = decided(self.answers@, self.quorum as nat).unwrap();
                        lemma_votes_push(self.answers@.drop_last(), self.answers@.last(), data);
                        assert(votes(self.answers@, data) >= 1);
                        let k = choose|k: int|
                            0 <= k < self.tally@.len() && (#[trigger] self.tally@[k]).data == data;
                        assert(self.tally@[k].count < self.quorum);
                    }
                }
                if self.polled < self.replication {
                    let node = replica_index(self.first, self.polled, self.nodes);
                    ReadAction::Ask { node, message: storage::Get { key: self.key.clone() } }
                } else {
                    ReadAction::Reply(Err(Error::NoReadConsensus))
                }
            },
        }
    }

    /// Takes the answer of the replica that was asked last: what it holds
    /// under the key, or `None` where the call failed. A failed call is a
    /// vote for nothing.
    pub fn record(&mut self, answer: ReadAnswer)
        requires
            old(self).wf(),
            old(self)@.pending(),
        ensures
            final(self).wf(),
            final(self)@ == (ReadView { answers: old(self)@.answers.push(answer), ..old(self)@ }),
    {
        let ghost before = self.answers@;
        let ghost after = before.push(answer);
        proof {
            assert forall|data: GetOutput|
                votes(after, data) == votes(before, data) + if answer == Some(data) {
                    1nat
                } else {
                    0nat
                } by {
                lemma_votes_push(before, answer, data);
            }
            assert forall|n: int| 0 <= n < after.len() implies decided(
                #[trigger] after.take(n),
                self.quorum as nat,
            ) is None by {
                if n < before.len() {
                    assert(after.take(n) =~= before.take(n));
                } else {
                    assert(after.take(n) =~= before);
                }
            }
            assert forall|data: GetOutput|
                votes(before, data) >= 1 implies votes(before, data) < self.quorum by {
                if votes(before, data) >= self.quorum {
                    assert(decided(before, self.quorum as nat) == Some(data));
                }
            }
        }
        self.polled = self.polled + 1;
        self.answers = Ghost(after);
        match answer {
            None => {
                assert(self.wf());
            },
            Some(data) => {
                let mut i: usize = 0;
                let mut found = false;
                while i < self.tally.len()
                    invariant_except_break
                        !found,
                        forall|k: int| 0 <= k < i ==> (#[trigger] self.tally@[k]).data != data,
                    invariant
                        i <= self.tally@.len(),
                        self.tally@ == old(self).tally@,
                    ensures
                        i <= self.tally@.len(),
                        self.tally@ == old(self).tally@,
                        found ==> i < self.tally@.len() && self.tally@[i as int].data == data,
                        !found ==> forall|k: int|
                            0 <= k < self.tally@.len() ==> (#[trigger] self.tally@[k]).data
                                != data,
                    decreases self.tally@.len() - i,
                {
                    if same_answer(&self.tally[i].data, &data) {
                        found = true;
                        break ;
                    }
                    i += 1;
                }
                if found {
                    proof {
                        lemma_votes_bound(before, data);
                    }
                    let count = self.tally[i].count;
                    let ghost old_tally = self.tally@;
                    self.tally[i].count = count + 1;
                    proof {
                        assert forall|k: int| 0 <= k < self.tally@.len() implies (
                        #[trigger] self.tally@[k]).data == old_tally[k].data by {}
                        assert forall|other: GetOutput| #[trigger]
                            votes(after, other) >= 1 implies exists|k: int|
                            0 <= k < self.tally@.len() && (#[trigger] self.tally@[k]).data
                                == other by {
                            if other == data {
                                assert(self.tally@[i as int].data == other);
                            } else {
                                assert(votes(before, other) >= 1);
                                let k = choose|k: int|
                                    0 <= k < old_tally.len() && (#[trigger] old_tally[k]).data
                                        == other;
                                assert(self.tally@[k].data == other);
                            }
                        }
                        assert forall|k: int| 0 <= k < self.tally@.len() implies (
                        #[trigger] self.tally@[k]).count == votes(after, self.tally@[k].data)
                            && self.tally@[k].count >= 1 by {
                            assert(old_tally[k].count == votes(before, old_tally[k].data));
                            if k != i {
                                assert(old_tally[k].data != old_tally[i as int].data);
                            }
                        }
                    }
                } else {
                    let ghost old_tally = self.tally@;
                    proof {
                        if votes(before, data) >= 1 {
                            let k = choose|k: int|
                                0 <= k < old_tally.len() && (#[trigger] old_tally[k]).data == data;
                            assert(false);
                        }
                    }
                    self.tally.push(Candidate { data, count: 1 });
                    proof {
                        assert forall|other: GetOutput| #[trigger]
                            votes(after, other) >= 1 implies exists|k: int|
                            0 <= k < self.tally@.len() && (#[trigger] self.tally@[k]).data
                                == other by {
                            if other == data {
                                assert(self.tally@[old_tally.len() as int].data == other);
                            } else {
                                assert(votes(before, other) >= 1);
                                let k = choose|k: int|
                                    0 <= k < old_tally.len() && (#[trigger] old_tally[k]).data
                                        == other;
                                assert(self.tally@[k].data == other);
                            }
                        }
                        assert forall|k: int| 0 <= k < self.tally@.len() implies (
                        #[trigger] self.tally@[k]).count == votes(after, self.tally@[k].data)
                            && self.tally@[k].count >= 1 by {
                            if k < old_tally.len() {
                                assert(self.tally@[k] == old_tally[k]);
                                assert(old_tally[k].count == votes(before, old_tally[k].data));
                            }
                        }
                    }
                }
                assert(self.wf());
            },
        }
    }
}

/// An answer of one replica to a write: whether the key was new to it, or
/// `None` where the replica failed or did not answer.
pub type WriteAnswer = Option<PutOutput>;

/// The number of replicas among `answers` that answered `new`.
pub open spec fn tally_of(answers: Seq<WriteAnswer>, new: bool) -> nat
    decreases answers.len(),
{
    if answers.len() == 0 {
        0
    } else {
        tally_of(answers.drop_last(), new) + if answers.last() == Some(new) {
            1nat
        } else {
            0nat
        }
    }
}

/// The outcome of a write on which `olds` replicas answered "not new" and
/// `news` answered "new". Of the outcomes with at least `quorum` votes the
/// one with more votes holds; on equal votes "not new" holds.
pub open spec fn verdict(olds: nat, news: nat, quorum: nat) -> Option<bool> {
    if olds >= quorum {
        if news > olds {
            Some(true)
        } else {
            Some(false)
        }
    } else if news >= quorum {
        Some(true)
    } else {
        None
    }
}

/// The reply to a write that the replicas answered with `answers`.
pub open spec fn write_reply(answers: Seq<WriteAnswer>, quorum: nat) -> Result<PutOutput, Error> {
    match verdict(tally_of(answers, false), tally_of(answers, true), quorum) {
        Some(new) => Ok(new),
        None => Err(Error::NoWriteConsensus),
    }
}

/// No more replicas answered `new` than answered at all.
pub proof fn lemma_tally_bound(answers: Seq<WriteAnswer>)
    ensures
        tally_of(answers, false) + tally_of(answers, true) <= answers.len(),
    decreases answers.len(),
{
    if answers.len() > 0 {
        lemma_tally_bound(answers.drop_last());
    }
}

/// What a write by quorum is about, and the answers it has so far.
pub struct WriteView {
    pub key: Seq<u8>,
    pub value: Value,
    pub first: nat,
    pub nodes: nat,
    pub replication: nat,
    pub quorum: nat,
    pub concurrency_level: nat,
    pub answers: Seq<WriteAnswer>,
}

/// The tally of one write by quorum.
pub struct WriteQuorum {
    key: Key,
    value: Value,
    first: usize,
    nodes: usize,
    replication: usize,
    quorum: usize,
    concurrency_level: usize,
    received: usize,
    olds: usize,
    news: usize,
    answers: Ghost<Seq<WriteAnswer>>,
}

/// What the coordinator does next for a write.
#[derive(Debug, Clone, Copy, PartialEq, Eq)]
pub enum WriteAction {
    /// Some replica has not answered yet.
    Wait,
    /// Answer the caller.
    Reply(Result<PutOutput, Error>),
}

impl View for WriteQuorum {
    type V = WriteView;

    closed spec fn view(&self) -> WriteView {
        WriteView {
            key: self.key@,
            value: self.value,
            first: self.first as nat,
            nodes: self.nodes as nat,
            replication: self.replication as nat,
            quorum: self.quorum as nat,
            concurrency_level: self.concurrency_level as nat,
            answers: self.answers@,
        }
    }
}

impl WriteQuorum {
    /// The tally is consistent with the answers recorded.
    pub closed spec fn wf(&self) -> bool {
        &&& self.nodes > 0
        &&& self.first < self.nodes
        &&& self.answers@.len() <= self.replication
        &&& self.received == self.answers@.len()
        &&& self.olds == tally_of(self.answers@, false)
        &&& self.news == tally_of(self.answers@, true)
    }

    /// A tally never holds more answers than the window has replicas.
    pub proof fn lemma_answers_bound(&self)
        requires
            self.wf(),
        ensures
            self@.answers.len() <= self@.replication,
            self@.nodes > 0,
            self@.first < self@.nodes,
    {
    }

    /// The number of replicas that the write goes to.
    pub fn replication(&self) -> (replication: usize)
        ensures
            replication == self@.replication,
    {
        self.replication
    }

    /// The number of calls that may be under way at once.
    pub fn concurrency_level(&self) -> (level: usize)
        ensures
            level == self@.concurrency_level,
    {
        self.concurrency_level
    }

    /// The call to the `j`-th replica of the window: the index of its
    /// storage in the table, and the message, which carries a copy of the
    /// document.
    pub fn call(&self, j: usize) -> (call: (usize, storage::Put))
        requires
            self.wf(),
            j < self@.replication,
        ensures
            call.0 == replica(self@.first, j as nat, self@.nodes),
            call.0 < self@.nodes,
            call.1.key@ == self@.key,
            call.1.value == self@.value,
    {
        let node = replica_index(self.first, j, self.nodes);
        (node, storage::Put { key: self.key.clone(), value: self.value.clone() })
    }

    /// Takes the answer of one replica, in whatever order the answers
    /// come: whether the key was new to it, or `None` where the call
    /// failed. A failed call is a vote for nothing.
    pub fn record(&mut self, answer: WriteAnswer)
        requires
            old(self).wf(),
            old(self)@.answers.len() < old(self)@.replication,
        ensures
            final(self).wf(),
            final(self)@ == (WriteView { answers: old(self)@.answers.push(answer), ..old(self)@ }),
    {
        proof {
            lemma_tally_bound(self.answers@);
            assert(self.answers@.push(answer).drop_last() =~= self.answers@);
        }
        match answer {
            Some(true) => {
                self.news = self.news + 1;
            },
            Some(false) => {
                self.olds = self.olds + 1;
            },
            None => {},
        }
        self.received = self.received + 1;
        self.answers = Ghost(self.answers@.push(answer));
    }

    /// What to do next: wait while replicas of the window have not
    /// answered, then reply with the outcome that holds.
    pub fn next(&self) -> (action: WriteAction)
        requires
            self.wf(),
        ensures
            action == if self@.answers.len() < self@.replication {
                WriteAction::Wait
            } else {
                WriteAction::Reply(write_reply(self@.answers, self@.quorum))
            },
    {
        proof {
            lemma_tally_bound(self.answers@);
        }
        if self.received < self.replication {
            return WriteAction::Wait;
        }
        let answers: [usize; 2] = [self.olds, self.news];
        let mut answer: Option<usize> = None;
        let mut i: usize = 0;
        while i < 2
            invariant
                i <= 2,
                answers@.len() == 2,
                answers@[0] == self.olds,
                answers@[1] == self.news,
                i == 0 ==> answer is None,
                i == 1 ==> answer == if self.olds >= self.quorum {
                    Some(0usize)
                } else {
                    None
                },
                i == 2 ==> answer == match verdict(
                    self.olds as nat,
                    self.news as nat,
                    self.quorum as nat,
                ) {
                    Some(new) => Some(if new {
                        1usize
                    } else {
                        0usize
                    }),
                    None => None,
                },
            decreases 2 - i,
        {
            let candidate = answers[i];
            let has_more_votes = match answer {
                None => true,
                Some(best) => candidate > answers[best],
            };
            if has_more_votes && candidate >= self.quorum {
                answer = Some(i);
            }
            i += 1;
        }
        match answer {
            Some(i) => WriteAction::Reply(Ok(i != 0)),
            None => WriteAction::Reply(Err(Error::NoWriteConsensus)),
        }
    }
}

impl Coordinator {
    /// A coordinator over a table of `nodes` storages.
    pub fn new(
        replication: usize,
        min_correct_reads: usize,
        min_correct_writes: usize,
        concurrency_level: usize,
        nodes: usize,
    ) -> (coordinator: Coordinator)
        ensures
            coordinator.replication == replication,
            coordinator.min_correct_reads == min_correct_reads,
            coordinator.min_correct_writes == min_correct_writes,
            coordinator.concurrency_level == concurrency_level,
            coordinator.nodes == nodes,
    {
        Coordinator { replication, min_correct_reads, min_correct_writes, concurrency_level, nodes }
    }

    /// Opens the tally of a read: the window starts at the key's
    /// partition, and no replica has answered yet.
    pub fn get(&self, request: Get) -> (read: ReadQuorum)
        requires
            self.nodes > 0,
        ensures
            read.wf(),
            read@ == (ReadView {
                key: request.key@,
                first: le_value(request.key@) % (self.nodes as nat),
                nodes: self.nodes as nat,
                replication: self.replication as nat,
                quorum: self.min_correct_reads as nat,
                answers: Seq::empty(),
            }),
    {
        let first = request.key.partition(self.nodes);
        ReadQuorum {
            key: request.key,
            first,
            nodes: self.nodes,
            replication: self.replication,
            quorum: self.min_correct_reads,
            polled: 0,
            tally: Vec::new(),
            answers: Ghost(Seq::empty()),
        }
    }

    /// Opens the tally of a write: the window starts at the key's
    /// partition, and no replica has answered yet.
    pub fn put(&self, request: Put) -> (write: WriteQuorum)
        requires
            self.nodes > 0,
        ensures
            write.wf(),
            write@ == (WriteView {
                key: request.key@,
                value: request.value,
                first: le_value(request.key@) % (self.nodes as nat),
                nodes: self.nodes as nat,
                replication: self.replication as nat,
                quorum: self.min_correct_writes as nat,
                concurrency_level: self.concurrency_level as nat,
                answers: Seq::empty(),
            }),
    {
        let first = request.key.partition(self.nodes);
        WriteQuorum {
            key: request.key,
            value: request.value,
            first,
            nodes: self.nodes,
            replication: self.replication,
            quorum: self.min_correct_writes,
            concurrency_level: self.concurrency_level,
            received: 0,
            olds: 0,
            news: 0,
            answers: Ghost(Seq::empty()),
        }
    }
}

/// Votes only grow as answers come in.
pub proof fn lemma_votes_monotone(answers: Seq<ReadAnswer>, data: GetOutput, m: int, n: int)
    requires
        0 <= m <= n <= answers.len(),
    ensures
        votes(answers.take(m), data) <= votes(answers.take(n), data),
    decreases n - m,
{
    if m < n {
        lemma_votes_monotone(answers, data, m, n - 1);
        assert(answers.take(n).drop_last() =~= answers.take(n - 1));
    }
}

/// A read over replicas that agree comes to their answer.
///
/// Let every replica of the window that answers at all answer `data`, and
/// let at least one and at least `quorum` of them answer. Then asking the
/// window in order stops at some replica `n`, with `data` decided and
/// nothing decided before.
pub proof fn lemma_read_of_agreeing_replicas(
    window: Seq<ReadAnswer>,
    data: GetOutput,
    quorum: nat,
) -> (n: int)
    requires
        forall|i: int| 0 <= i < window.len() ==> window[i] is None || window[i] == Some(data),
        votes(window, data) >= quorum,
        votes(window, data) >= 1,
    ensures
        0 < n <= window.len(),
        decided(window.take(n), quorum) == Some(data),
        forall|m: int| 0 <= m < n ==> decided(#[trigger] window.take(m), quorum) is None,
    decreases window.len(),
{
    let before = window.drop_last();
    assert(window.len() > 0);
    lemma_votes_push(before, window.last(), data);
    assert(before.push(window.last()) =~= window);
    if votes(before, data) >= quorum && votes(before, data) >= 1 {
        let n = lemma_read_of_agreeing_replicas(before, data, quorum);
        assert(window.take(n) =~= before.take(n));
        assert forall|m: int| 0 <= m < n implies decided(#[trigger] window.take(m), quorum)
            is None by {
            assert(window.take(m) =~= before.take(m));
        }
        n
    } else {
        let n = window.len() as int;
        assert(window.take(n) =~= window);
        assert forall|m: int| 0 <= m < n implies decided(#[trigger] window.take(m), quorum)
            is None by {
            let part = window.take(m);
            if decided(part, quorum) is Some {
                assert(part.last() == window[m - 1]);
                lemma_votes_push(part.drop_last(), part.last(), data);
                assert(part.drop_last().push(part.last()) =~= part);
                lemma_votes_monotone(window, data, m, n - 1);
                assert(window.take(n - 1) =~= before);
            }
        }
        n
    }
}

/// A read on which no answer has `quorum` votes is never decided.
pub proof fn lemma_read_without_quorum(window: Seq<ReadAnswer>, quorum: nat, n: int)
    requires
        0 <= n <= window.len(),
        forall|data: GetOutput| votes(window, data) < quorum,
    ensures
        decided(window.take(n), quorum) is None,
{
    let part = window.take(n);
    if part.len() > 0 && part.last() is Some {
        let data = part.last().unwrap();
        lemma_votes_monotone(window, data, n, window.len() as int);
        assert(window.take(window.len() as int) =~= window);
    }
}

/// A second write reports "not new".
///
/// Let a write meet replicas of which at least `quorum` hold the key
/// already, and no more of them answer "new" than "not new". Then the
/// reply is "not new".
pub proof fn lemma_write_over_existing(answers: Seq<WriteAnswer>, quorum: nat)
    requires
        tally_of(answers, false) >= quorum,
        tally_of(answers, true) <= tally_of(answers, false),
    ensures
        write_reply(answers, quorum) == Ok::<PutOutput, Error>(false),
{
}

/// A first write reports "new".
///
/// Let a write meet replicas of which at least one and at least `quorum`
/// did not hold the key, and more of them answer "new" than "not new".
/// Then the reply is "new".
pub proof fn lemma_write_of_new_key(answers: Seq<WriteAnswer>, quorum: nat)
    requires
        tally_of(answers, true) >= quorum,
        tally_of(answers, true) > tally_of(answers, false),
    ensures
        write_reply(answers, quorum) == Ok::<PutOutput, Error>(true),
{
}

/// A write fails exactly when neither outcome has `quorum` votes.
pub proof fn lemma_write_without_quorum(answers: Seq<WriteAnswer>, quorum: nat)
    ensures
        write_reply(answers, quorum) is Err <==> tally_of(answers, false) < quorum && tally_of(
            answers,
            true,
        ) < quorum,
{
}

/// The reply to a read once `asked` replicas of `window` were asked and
/// nothing was decided before the last of them: the answer that the
/// last one decided, or what asking on gives, or no consensus when the
/// window is through.
pub open spec fn read_reply_from(window: Seq<ReadAnswer>, quorum: nat, asked: nat) -> Result<
    GetOutput,
    Error,
>
    decreases window.len() - asked,
{
    if asked > window.len() {
        Err(Error::NoReadConsensus)
    } else if decided(window.take(asked as int), quorum) is Some {
        Ok(decided(window.take(asked as int), quorum).unwrap())
    } else if asked == window.len() {
        Err(Error::NoReadConsensus)
    } else {
        read_reply_from(window, quorum, asked + 1)
    }
}

/// The reply to a read over replicas that would answer as `window` says,
/// each in its place: they are asked in order up to the first whose
/// answer reaches `quorum` votes.
pub open spec fn read_reply(window: Seq<ReadAnswer>, quorum: nat) -> Result<GetOutput, Error> {
    read_reply_from(window, quorum, 0)
}

/// A read that nothing has decided among the first `asked` answers goes on
/// to the reply of the whole window.
pub proof fn lemma_read_reply_from(window: Seq<ReadAnswer>, quorum: nat, asked: nat)
    requires
        asked <= window.len(),
        forall|m: int| 0 <= m < asked ==> decided(#[trigger] window.take(m), quorum) is None,
    ensures
        read_reply(window, quorum) == read_reply_from(window, quorum, asked),
    decreases asked,
{
    if asked > 0 {
        lemma_read_reply_from(window, quorum, (asked - 1) as nat);
        assert(decided(window.take(asked - 1), quorum) is None);
    }
}

/// A read on which no answer has `quorum` votes fails.
pub proof fn lemma_read_fails_without_quorum(window: Seq<ReadAnswer>, quorum: nat)
    requires
        forall|data: GetOutput| votes(window, data) < quorum,
    ensures
        read_reply(window, quorum) == Err::<GetOutput, Error>(Error::NoReadConsensus),
{
    assert forall|m: int| 0 <= m <= window.len() implies decided(
        #[trigger] window.take(m),
        quorum,
    ) is None by {
        lemma_read_without_quorum(window, quorum, m);
    }
    lemma_read_reply_from(window, quorum, window.len());
}

impl ReadQuorum {
    /// The tally replies as `read_reply` says.
    ///
    /// Let the replicas of the window answer as `window` says, and let the
    /// tally hold the answers of those asked so far. Then a reply of the
    /// tally, be it an answer or the failure, is the reply of the read
    /// over the window.
    pub proof fn lemma_replies_as_read_reply(&self, window: Seq<ReadAnswer>)
        requires
            self.wf(),
            window.len() == self@.replication,
            self@.answers == window.take(self@.answers.len() as int),
            !self@.pending(),
        ensures
            read_reply(window, self@.quorum) == match decided(self@.answers, self@.quorum) {
                Some(data) => Ok::<GetOutput, Error>(data),
                None => Err::<GetOutput, Error>(Error::NoReadConsensus),
            },
    {
        let asked = self@.answers.len();
        assert forall|m: int| 0 <= m < asked implies decided(
            #[trigger] window.take(m),
            self@.quorum,
        ) is None by {
            self.lemma_undecided_before(m);
            assert(window.take(m) =~= self@.answers.take(m));
        }
        lemma_read_reply_from(window, self@.quorum, asked);
    }
}

} // verus!
