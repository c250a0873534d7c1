//! What reads and writes by quorum come to on replicas that behave as
//! storages do.
//!
//! Nothing here runs. The replicas are taken as the maps that they hold,
//! some of them reachable and some not, and the replies of the
//! coordinator are stated and proved over them.

use crate::coordinator::{
    lemma_read_of_agreeing_replicas, lemma_read_reply_from, read_reply, replica, tally_of, votes,
    write_reply, Error, GetOutput, PutOutput, ReadAnswer, WriteAnswer,
};
use crate::storage::memory::{is_new, read, written};
use serde_json::Value;
use vstd::prelude::*;

verus! {

/// The replicas of a cluster: what each holds, and whether it answers.
pub struct Replicas {
    pub stores: Seq<Map<Seq<u8>, Value>>,
    pub live: Seq<bool>,
}

/// A window of `replication` replicas that starts at `first`.
pub struct Window {
    pub first: nat,
    pub replication: nat,
}

impl Replicas {
    /// There is a replica, and each one is known to answer or not.
    pub open spec fn wf(self) -> bool {
        self.stores.len() > 0 && self.live.len() == self.stores.len()
    }

    /// The window lies in the cluster and holds no replica twice.
    pub open spec fn takes(self, window: Window) -> bool {
        window.first < self.stores.len() && window.replication <= self.stores.len()
    }

    /// The index of the `j`-th replica of `window`.
    pub open spec fn node(self, window: Window, j: int) -> int {
        replica(window.first, j as nat, self.stores.len()) as int
    }

    /// Whether the replica at `node` is one of `window`.
    pub open spec fn in_window(self, window: Window, node: int) -> bool {
        exists|j: int| 0 <= j < window.replication && #[trigger] self.node(window, j) == node
    }

    /// The number of replicas among the first `count` of `window` that
    /// answer.
    pub open spec fn live_count(self, window: Window, count: nat) -> nat
        decreases count,
    {
        if count == 0 {
            0
        } else {
            self.live_count(window, (count - 1) as nat) + if self.live[self.node(
                window,
                count - 1,
            )] {
                1nat
            } else {
                0nat
            }
        }
    }

    /// What the replicas of `window` answer to a read of `key`, each in
    /// its place.
    pub open spec fn read_answers(self, window: Window, key: Seq<u8>) -> Seq<ReadAnswer> {
        Seq::new(
            window.replication,
            |j: int|
                if self.live[self.node(window, j)] {
                    Some(read(self.stores[self.node(window, j)], key))
                } else {
                    None
                },
        )
    }

    /// What the replicas of `window` answer to a write under `key`, each
    /// in its place.
    pub open spec fn write_answers(self, window: Window, key: Seq<u8>) -> Seq<WriteAnswer> {
        Seq::new(
            window.replication,
            |j: int|
                if self.live[self.node(window, j)] {
                    Some(is_new(self.stores[self.node(window, j)], key))
                } else {
                    None
                },
        )
    }

    /// The replicas after a write of `value` under `key` went to
    /// `window`: those of the window that answer hold the value.
    pub open spec fn after_write(self, window: Window, key: Seq<u8>, value: Value) -> Replicas {
        Replicas {
            stores: Seq::new(
                self.stores.len(),
                |i: int|
                    if self.live[i] && self.in_window(window, i) {
                        written(self.stores[i], key, value)
                    } else {
                        self.stores[i]
                    },
            ),
            live: self.live,
        }
    }
}

/// The replicas of a window are replicas of the cluster, and two places
/// of a window that is no larger than the cluster are two replicas.
pub proof fn lemma_window_nodes(replicas: Replicas, window: Window, j: int, k: int)
    requires
        replicas.wf(),
        replicas.takes(window),
        0 <= j < window.replication,
        0 <= k < window.replication,
    ensures
        0 <= replicas.node(window, j) < replicas.stores.len(),
        replicas.in_window(window, replicas.node(window, j)),
        j != k ==> replicas.node(window, j) != replicas.node(window, k),
{
    let n = replicas.stores.len() as int;
    let first = window.first as int;
    assert(0 <= (first + j) % n < n);
    if j != k && replicas.node(window, j) == replicas.node(window, k) {
        assert(((first + j) % n == (first + k) % n && 0 <= j < n && 0 <= k < n && 0 <= first < n)
            ==> j == k) by (nonlinear_arith);
    }
}

/// Every replica that answers a read votes, and no other.
proof fn lemma_votes_of_agreeing(
    replicas: Replicas,
    window: Window,
    key: Seq<u8>,
    data: GetOutput,
    count: nat,
)
    requires
        replicas.wf(),
        replicas.takes(window),
        count <= window.replication,
        forall|j: int|
            0 <= j < window.replication && replicas.live[replicas.node(window, j)] ==> read(
                replicas.stores[#[trigger] replicas.node(window, j)],
                key,
            ) == data,
    ensures
        votes(replicas.read_answers(window, key).take(count as int), data) == replicas.live_count(
            window,
            count,
        ),
    decreases count,
{
    let answers = replicas.read_answers(window, key);
    if count > 0 {
        lemma_votes_of_agreeing(replicas, window, key, data, (count - 1) as nat);
        let part = answers.take(count as int);
        assert(part.drop_last() =~= answers.take(count - 1));
        assert(part.last() == answers[count - 1]);
        let node = replicas.node(window, count - 1);
        if replicas.live[node] {
            assert(read(replicas.stores[node], key) == data);
        }
    }
}

/// Every replica that answers a write tallies, and no other.
proof fn lemma_tally_of_agreeing(
    replicas: Replicas,
    window: Window,
    key: Seq<u8>,
    new: bool,
    count: nat,
)
    requires
        replicas.wf(),
        replicas.takes(window),
        count <= window.replication,
        forall|j: int|
            0 <= j < window.replication && replicas.live[replicas.node(window, j)] ==> is_new(
                replicas.stores[#[trigger] replicas.node(window, j)],
                key,
            ) == new,
    ensures
        tally_of(replicas.write_answers(window, key).take(count as int), new)
            == replicas.live_count(window, count),
        tally_of(replicas.write_answers(window, key).take(count as int), !new) == 0,
    decreases count,
{
    let answers = replicas.write_answers(window, key);
    if count > 0 {
        lemma_tally_of_agreeing(replicas, window, key, new, (count - 1) as nat);
        let part = answers.take(count as int);
        assert(part.drop_last() =~= answers.take(count - 1));
        assert(part.last() == answers[count - 1]);
        let node = replicas.node(window, count - 1);
        if replicas.live[node] {
            assert(is_new(replicas.stores[node], key) == new);
        }
    }
}

/// A write followed by a read of the same key gives the document
/// written.
///
/// Let a write go to a window of which at least one replica and at least
/// `quorum` replicas answer, and let the same replicas answer the read
/// that follows. Then the read replies with the document written.
pub proof fn lemma_read_after_write(
    replicas: Replicas,
    window: Window,
    key: Seq<u8>,
    value: Value,
    quorum: nat,
)
    requires
        replicas.wf(),
        replicas.takes(window),
        replicas.live_count(window, window.replication) >= quorum,
        replicas.live_count(window, window.replication) >= 1,
    ensures
        read_reply(replicas.after_write(window, key, value).read_answers(window, key), quorum)
            == Ok::<GetOutput, Error>(Some(value)),
{
    let after = replicas.after_write(window, key, value);
    let answers = after.read_answers(window, key);
    let data: GetOutput = Some(value);
    assert forall|j: int|
        0 <= j < window.replication && after.live[after.node(window, j)] implies read(
        after.stores[#[trigger] after.node(window, j)],
        key,
    ) == data by {
        lemma_window_nodes(replicas, window, j, j);
        assert(after.node(window, j) == replicas.node(window, j));
    }
    assert(after.wf() && after.takes(window));
    lemma_votes_of_agreeing(after, window, key, data, window.replication);
    assert(answers.take(window.replication as int) =~= answers);
    assert(after.live_count(window, window.replication) == replicas.live_count(
        window,
        window.replication,
    )) by {
        lemma_live_count_same(replicas, after, window, window.replication);
    }
    assert forall|i: int| 0 <= i < answers.len() implies answers[i] is None || answers[i] == Some(
        data,
    ) by {
        if after.live[after.node(window, i)] {
            assert(read(after.stores[after.node(window, i)], key) == data);
        }
    }
    let n = lemma_read_of_agreeing_replicas(answers, data, quorum);
    lemma_read_reply_from(answers, quorum, n as nat);
}

/// The number of replicas that answer depends on who answers and on
/// nothing else.
proof fn lemma_live_count_same(a: Replicas, b: Replicas, window: Window, count: nat)
    requires
        a.live == b.live,
        a.stores.len() == b.stores.len(),
    ensures
        a.live_count(window, count) == b.live_count(window, count),
    decreases count,
{
    if count > 0 {
        lemma_live_count_same(a, b, window, (count - 1) as nat);
    }
}

/// The first write of a key reports it new, and the second does not.
///
/// Let no replica of a window hold the key, and let at least one replica
/// and at least `quorum` replicas of the window answer, the same ones at
/// both writes. Then the first write replies "new", the second "not
/// new".
pub proof fn lemma_write_twice(
    replicas: Replicas,
    window: Window,
    key: Seq<u8>,
    first: Value,
    quorum: nat,
)
    requires
        replicas.wf(),
        replicas.takes(window),
        replicas.live_count(window, window.replication) >= quorum,
        replicas.live_count(window, window.replication) >= 1,
        forall|j: int|
            0 <= j < window.replication ==> is_new(
                replicas.stores[#[trigger] replicas.node(window, j)],
                key,
            ),
    ensures
        write_reply(replicas.write_answers(window, key), quorum) == Ok::<PutOutput, Error>(true),
        write_reply(replicas.after_write(window, key, first).write_answers(window, key), quorum)
            == Ok::<PutOutput, Error>(false),
{
    let answers = replicas.write_answers(window, key);
    lemma_tally_of_agreeing(replicas, window, key, true, window.replication);
    assert(answers.take(window.replication as int) =~= answers);

    let after = replicas.after_write(window, key, first);
    let again = after.write_answers(window, key);
    assert forall|j: int|
        0 <= j < window.replication && after.live[after.node(window, j)] implies is_new(
        after.stores[#[trigger] after.node(window, j)],
        key,
    ) == false by {
        lemma_window_nodes(replicas, window, j, j);
        assert(after.node(window, j) == replicas.node(window, j));
    }
    assert(after.wf() && after.takes(window));
    lemma_tally_of_agreeing(after, window, key, false, window.replication);
    assert(again.take(window.replication as int) =~= again);
    lemma_live_count_same(replicas, after, window, window.replication);
}

/// A read of a key that no replica holds finds nothing.
///
/// Let no replica of a window hold the key, and let at least one replica
/// and at least `quorum` replicas of the window answer. Then the read
/// replies that the key is not there.
pub proof fn lemma_read_of_absent_key(
    replicas: Replicas,
    window: Window,
    key: Seq<u8>,
    quorum: nat,
)
    requires
        replicas.wf(),
        replicas.takes(window),
        replicas.live_count(window, window.replication) >= quorum,
        replicas.live_count(window, window.replication) >= 1,
        forall|j: int|
            0 <= j < window.replication ==> is_new(
                replicas.stores[#[trigger] replicas.node(window, j)],
                key,
            ),
    ensures
        read_reply(replicas.read_answers(window, key), quorum) == Ok::<GetOutput, Error>(None),
{
    let answers = replicas.read_answers(window, key);
    let data: GetOutput = None;
    lemma_votes_of_agreeing(replicas, window, key, data, window.replication);
    assert(answers.take(window.replication as int) =~= answers);
    assert forall|i: int| 0 <= i < answers.len() implies answers[i] is None || answers[i] == Some(
        data,
    ) by {
        if replicas.live[replicas.node(window, i)] {
            assert(is_new(replicas.stores[replicas.node(window, i)], key));
        }
    }
    let n = lemma_read_of_agreeing_replicas(answers, data, quorum);
    lemma_read_reply_from(answers, quorum, n as nat);
}

} // verus!
