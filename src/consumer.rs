use vstd::prelude::*;
use crate::payload::{decoded, Currency};
use crate::price::{evaluate, rule, Action, Decimal};

verus! {

/// A message's place in the topic: its partition and its offset there.
#[derive(Clone, Copy, Debug, PartialEq, Eq)]
pub struct Position {
    pub partition: i32,
    pub offset: i64,
}

/// What one fetch from the subscription gave.
#[derive(Clone, Debug, PartialEq, Eq)]
pub enum Fetched {
    /// The broker or the transport failed: no message was received.
    Failed,
    /// A message; `payload` is its body as text (empty where it had none).
    Received { position: Position, payload: String },
}

/// What the loop does for one fetch.
#[derive(Clone, Copy, Debug, PartialEq, Eq)]
pub enum Step {
    /// Nothing was received: nothing to commit.
    Skip,
    /// The body is not a price record: commit the message, take no action.
    Discard { commit: Position },
    /// The body holds `price`: take `action`, then commit the message.
    Act { action: Action, price: Decimal, commit: Position },
}

/// The step owed for a fetch. It depends on the fetch alone.
pub open spec fn step_for(f: Fetched) -> Step {
    match f {
        Fetched::Failed => Step::Skip,
        Fetched::Received { position, payload } => match decoded(payload@) {
            Err(_) => Step::Discard { commit: position },
            Ok(c) => Step::Act { action: rule(c.btc), price: c.btc, commit: position },
        },
    }
}

/// The commit cursor after a step: the committed message's offset becomes
/// its partition's position.
pub open spec fn cursor_after(cursor: Map<i32, i64>, s: Step) -> Map<i32, i64> {
    match s {
        Step::Skip => cursor,
        Step::Discard { commit } => cursor.insert(commit.partition, commit.offset),
        Step::Act { commit, .. } => cursor.insert(commit.partition, commit.offset),
    }
}

/// The consumer's state: for each partition, the offset of the last message
/// that it committed.
pub struct ConsumerLoop {
    cursor: Vec<Position>,
}

impl View for ConsumerLoop {
    type V = Map<i32, i64>;

    closed spec fn view(&self) -> Map<i32, i64> {
        Map::new(
            |p: i32| exists|i: int| 0 <= i < self.cursor@.len() && self.cursor@[i].partition == p,
            |p: i32|
                self.cursor@[choose|i: int|
                    0 <= i < self.cursor@.len() && self.cursor@[i].partition == p].offset,
        )
    }
}

impl ConsumerLoop {
    /// No two entries of the cursor name the same partition.
    pub closed spec fn well_formed(&self) -> bool {
        forall|i: int, j: int|
            0 <= i < j < self.cursor@.len() ==> #[trigger] self.cursor@[i].partition
                != #[trigger] self.cursor@[j].partition
    }

    proof fn lemma_view_at(&self, i: int)
        requires
            self.well_formed(),
            0 <= i < self.cursor@.len(),
        ensures
            self@.contains_key(self.cursor@[i].partition),
            self@[self.cursor@[i].partition] == self.cursor@[i].offset,
    {
        let p = self.cursor@[i].partition;
        let k = choose|k: int| 0 <= k < self.cursor@.len() && self.cursor@[k].partition == p;
        if k != i {
            if k < i {
                assert(self.cursor@[k].partition != self.cursor@[i].partition);
            } else {
                assert(self.cursor@[i].partition != self.cursor@[k].partition);
            }
        }
    }

    /// A consumer that has committed nothing.
    pub fn new() -> (r: ConsumerLoop)
        ensures
            r.well_formed(),
            r@ == Map::<i32, i64>::empty(),
    {
        let r = ConsumerLoop { cursor: Vec::new() };
        assert(r@ =~= Map::<i32, i64>::empty());
        r
    }

    /// The offset last committed on `partition`, if any.
    pub fn committed(&self, partition: i32) -> (r: Option<i64>)
        requires
            self.well_formed(),
        ensures
            r == (if self@.contains_key(partition) {
                Some(self@[partition])
            } else {
                None::<i64>
            }),
    {
        let mut i: usize = 0;
        while i < self.cursor.len()
            invariant
                self.well_formed(),
                i <= self.cursor@.len(),
                forall|k: int| 0 <= k < i ==> self.cursor@[k].partition != partition,
            decreases self.cursor@.len() - i,
        {
            if self.cursor[i].partition == partition {
                proof {
                    self.lemma_view_at(i as int);
                }
                return Some(self.cursor[i].offset);
            }
            i = i + 1;
        }
        None
    }

    fn record_commit(&mut self, pos: Position)
        requires
            old(self).well_formed(),
        ensures
            final(self).well_formed(),
            final(self)@ == old(self)@.insert(pos.partition, pos.offset),
    {
        let ghost before = self.cursor@;
        let mut i: usize = 0;
        while i < self.cursor.len()
            invariant
                self.cursor@ == before,
                old(self).cursor@ == before,
                old(self).well_formed(),
                self.well_formed(),
                i <= before.len(),
                forall|k: int| 0 <= k < i ==> before[k].partition != pos.partition,
            decreases before.len() - i,
        {
            if self.cursor[i].partition == pos.partition {
                self.cursor.set(i, pos);
                proof {
                    let after = self.cursor@;
                    assert(before[i as int].partition == pos.partition);
                    assert(forall|k: int| 0 <= k < after.len() ==> #[trigger] after[k].partition == before[k].partition);
                    assert forall|a: int, b: int|
                        0 <= a < b < after.len() implies #[trigger] after[a].partition
                        != #[trigger] after[b].partition by {
                        assert(after[a].partition == before[a].partition);
                        assert(after[b].partition == before[b].partition);
                    }
                    assert(self.well_formed());
                    assert forall|p: i32| #[trigger] self@.contains_key(p) == old(self)@.insert(
                        pos.partition,
                        pos.offset,
                    ).contains_key(p) by {
                        if exists|k: int| 0 <= k < before.len() && before[k].partition == p {
                            let k = choose|k: int| 0 <= k < before.len() && before[k].partition == p;
                            assert(after[k].partition == p);
                        }
                        if exists|k: int| 0 <= k < after.len() && after[k].partition == p {
                            let k = choose|k: int| 0 <= k < after.len() && after[k].partition == p;
                            assert(before[k].partition == p);
                        }
                    }
                    assert forall|p: i32| #[trigger] self@.contains_key(p) implies self@[p]
                        == old(self)@.insert(pos.partition, pos.offset)[p] by {
                        let k = choose|k: int| 0 <= k < after.len() && after[k].partition == p;
                        self.lemma_view_at(k);
                        if k != i {
                            old(self).lemma_view_at(k);
                        }
                    }
                    assert(self@ =~= old(self)@.insert(pos.partition, pos.offset));
                }
                return;
            }
            i = i + 1;
        }
        self.cursor.push(pos);
        proof {
            let after = self.cursor@;
            assert forall|a: int, b: int|
                0 <= a < b < after.len() implies #[trigger] after[a].partition
                != #[trigger] after[b].partition by {
                if b < before.len() {
                    assert(after[a].partition == before[a].partition);
                    assert(after[b].partition == before[b].partition);
                }
            }
            assert(self.well_formed());
            assert forall|p: i32| #[trigger] self@.contains_key(p) == old(self)@.insert(
                pos.partition,
                pos.offset,
            ).contains_key(p) by {
                if exists|k: int| 0 <= k < before.len() && before[k].partition == p {
                    let k = choose|k: int| 0 <= k < before.len() && before[k].partition == p;
                    assert(after[k].partition == p);
                }
                if p == pos.partition {
                    assert(after[before.len() as int].partition == p);
                }
            }
            assert forall|p: i32| #[trigger] self@.contains_key(p) implies self@[p]
                == old(self)@.insert(pos.partition, pos.offset)[p] by {
                let k = choose|k: int| 0 <= k < after.len() && after[k].partition == p;
                self.lemma_view_at(k);
                if k < before.len() {
                    old(self).lemma_view_at(k);
                }
            }
            assert(self@ =~= old(self)@.insert(pos.partition, pos.offset));
        }
    }

    /// Decides what to do with one fetch and records the commit it makes: a
    /// failed fetch commits nothing; a received message is committed whether
    /// or not its body decodes, and a decoded price is evaluated by the rule.
    pub fn on_fetched(&mut self, fetched: &Fetched) -> (r: Step)
        requires
            old(self).well_formed(),
        ensures
            final(self).well_formed(),
            r == step_for(*fetched),
            final(self)@ == cursor_after(old(self)@, r),
    {
        match fetched {
            Fetched::Failed => Step::Skip,
            Fetched::Received { position, payload } => {
                let step = match Currency::decode(payload.as_str()) {
                    Err(_) => Step::Discard { commit: *position },
                    Ok(c) => Step::Act { action: evaluate(&c.btc), price: c.btc, commit: *position },
                };
                self.record_commit(*position);
                step
            },
        }
    }
}


/// A message whose body does not decode stops nothing: it is committed with
/// no action taken, and every later fetch gets the step that it alone decides,
/// the price rule included, whatever the consumer's state.
pub proof fn lemma_malformed_message_passed_over(
    cursor: Map<i32, i64>,
    position: Position,
    payload: String,
    next: Fetched,
)
    requires
        decoded(payload@) is Err,
    ensures
        step_for(Fetched::Received { position, payload }) == (Step::Discard { commit: position }),
        cursor_after(cursor, step_for(Fetched::Received { position, payload })) == cursor.insert(
            position.partition,
            position.offset,
        ),
        next matches Fetched::Received { position: p, payload: q } ==> match decoded(q@) {
            Ok(c) => step_for(next) == (Step::Act { action: rule(c.btc), price: c.btc, commit: p }),
            Err(_) => step_for(next) == (Step::Discard { commit: p }),
        },
{
}

} // verus!
