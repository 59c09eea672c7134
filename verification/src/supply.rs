//! The supply of upcoming pieces: a queue that is fed from shuffled bags, each
//! bag holding every kind once.

use std::collections::VecDeque;
use vstd::prelude::*;
use crate::random::random_below;
use crate::tetromino::{TetrominoType, ALL_KINDS};

verus! {

/// Number of kinds, and so of pieces in a bag.
pub const BAG_SIZE: usize = 7;

/// A sequence that holds every kind exactly once.
pub open spec fn is_full_bag(kinds: Seq<TetrominoType>) -> bool {
    &&& kinds.len() == BAG_SIZE
    &&& kinds.no_duplicates()
    &&& forall|kind: TetrominoType| #[trigger] kinds.contains(kind)
}

/// The `w`-th run of seven in a stream of pieces, counted from its start.
pub open spec fn window(stream: Seq<TetrominoType>, w: int) -> Seq<TetrominoType> {
    stream.subrange(BAG_SIZE * w, BAG_SIZE * w + BAG_SIZE)
}

/// The pieces of the stream that came from the bag now in use.
pub open spec fn open_window(stream: Seq<TetrominoType>) -> Seq<TetrominoType> {
    stream.subrange(stream.len() - stream.len() % (BAG_SIZE as nat), stream.len() as int)
}

/// A stream of pieces that was drawn bag by bag, with `bag` holding what is
/// left of the bag in use; the piece drawn next is the last one of `bag`.
pub open spec fn bagged(stream: Seq<TetrominoType>, bag: Seq<TetrominoType>) -> bool {
    &&& forall|w: int|
        0 <= w && BAG_SIZE * w + BAG_SIZE <= stream.len()
            ==> is_full_bag(#[trigger] window(stream, w))
    &&& if stream.len() % (BAG_SIZE as nat) == 0 {
        bag.len() == 0
    } else {
        is_full_bag(open_window(stream) + bag.reverse())
    }
}

/// The sequence with the pieces at two positions exchanged.
pub open spec fn swapped(kinds: Seq<TetrominoType>, i: int, j: int) -> Seq<TetrominoType> {
    kinds.update(i, kinds[j]).update(j, kinds[i])
}

/// The picks of a shuffle of seven: one for each position from the last down
/// to the second, none beyond its position.
pub open spec fn picks_in_range(picks: Seq<usize>) -> bool {
    &&& picks.len() == BAG_SIZE - 1
    &&& forall|n: int| 0 <= n < picks.len() ==> #[trigger] picks[n] <= BAG_SIZE - 1 - n
}

/// The shuffle that walks from the last position down and exchanges each
/// position with the one picked for it.
pub open spec fn shuffled(kinds: Seq<TetrominoType>, picks: Seq<usize>) -> Seq<TetrominoType>
    decreases picks.len(),
{
    if picks.len() == 0 {
        kinds
    } else {
        shuffled(swapped(kinds, picks.len() as int, picks[0] as int), picks.drop_first())
    }
}

proof fn lemma_all_kinds_full()
    ensures
        is_full_bag(ALL_KINDS@),
{
    let all = ALL_KINDS@;
    assert forall|kind: TetrominoType| #[trigger] all.contains(kind) by {
        let i: int = match kind {
            TetrominoType::I => 0,
            TetrominoType::O => 1,
            TetrominoType::T => 2,
            TetrominoType::S => 3,
            TetrominoType::Z => 4,
            TetrominoType::J => 5,
            TetrominoType::L => 6,
        };
        assert(all[i] == kind);
    }
}

proof fn lemma_swapped_full(kinds: Seq<TetrominoType>, i: int, j: int)
    requires
        is_full_bag(kinds),
        0 <= i < kinds.len(),
        0 <= j < kinds.len(),
    ensures
        is_full_bag(swapped(kinds, i, j)),
{
    let after = swapped(kinds, i, j);
    assert forall|kind: TetrominoType| #[trigger] after.contains(kind) by {
        assert(kinds.contains(kind));
        let k = choose|k: int| 0 <= k < kinds.len() && kinds[k] == kind;
        let to = if k == i {
            j
        } else if k == j {
            i
        } else {
            k
        };
        assert(after[to] == kind);
    }
}

proof fn lemma_reverse_full(kinds: Seq<TetrominoType>)
    requires
        is_full_bag(kinds),
    ensures
        is_full_bag(kinds.reverse()),
{
    let back = kinds.reverse();
    assert forall|kind: TetrominoType| #[trigger] back.contains(kind) by {
        assert(kinds.contains(kind));
        let k = choose|k: int| 0 <= k < kinds.len() && kinds[k] == kind;
        assert(back[kinds.len() - 1 - k] == kind);
    }
}

/// The bag that a shuffle with the given picks makes of the seven kinds. The
/// pick at position `n` is the partner of position `6 - n`.
pub fn bag_from_picks(picks: &[usize; 6]) -> (bag: Vec<TetrominoType>)
    requires
        picks_in_range(picks@),
    ensures
        bag@ == shuffled(ALL_KINDS@, picks@),
        is_full_bag(bag@),
{
    let mut bag: Vec<TetrominoType> = Vec::new();
    let mut k: usize = 0;
    while k < BAG_SIZE
        invariant
            k <= BAG_SIZE,
            bag@ == ALL_KINDS@.subrange(0, k as int),
        decreases BAG_SIZE - k,
    {
        bag.push(ALL_KINDS[k]);
        assert(bag@ =~= ALL_KINDS@.subrange(0, k + 1));
        k += 1;
    }
    proof {
        assert(bag@ =~= ALL_KINDS@);
        assert(picks@.subrange(0, 6) =~= picks@);
        lemma_all_kinds_full();
    }
    let mut n: usize = 0;
    while n < BAG_SIZE - 1
        invariant
            n <= BAG_SIZE - 1,
            picks_in_range(picks@),
            is_full_bag(bag@),
            shuffled(bag@, picks@.subrange(n as int, 6)) == shuffled(ALL_KINDS@, picks@),
        decreases BAG_SIZE - 1 - n,
    {
        let i = BAG_SIZE - 1 - n;
        let j = picks[n];
        let ghost before = bag@;
        let first = bag[i];
        let second = bag[j];
        bag.set(i, second);
        bag.set(j, first);
        proof {
            let rest = picks@.subrange(n as int, 6);
            assert(rest.len() == i);
            assert(rest[0] == j);
            assert(rest.drop_first() =~= picks@.subrange(n + 1, 6));
            assert(bag@ =~= swapped(before, i as int, j as int));
            lemma_swapped_full(before, i as int, j as int);
        }
        n += 1;
    }
    proof {
        assert(picks@.subrange(6, 6).len() == 0);
    }
    bag
}

/// A bag in random order.
pub fn fresh_bag() -> (bag: Vec<TetrominoType>)
    ensures
        is_full_bag(bag@),
{
    let mut picks: [usize; 6] = [0; 6];
    let mut n: usize = 0;
    while n < BAG_SIZE - 1
        invariant
            n <= BAG_SIZE - 1,
            forall|m: int| 0 <= m < n ==> #[trigger] picks@[m] <= BAG_SIZE - 1 - m,
        decreases BAG_SIZE - 1 - n,
    {
        picks[n] = random_below(BAG_SIZE - n);
        n += 1;
    }
    bag_from_picks(&picks)
}

/// The queue of upcoming pieces, with the bag it is fed from.
pub struct SupplyQueue {
    queue: VecDeque<TetrominoType>,
    bag: Vec<TetrominoType>,
    popped: Ghost<Seq<TetrominoType>>,
}

impl SupplyQueue {
    /// The pieces that wait in the queue, the next one first.
    pub closed spec fn upcoming(&self) -> Seq<TetrominoType> {
        self.queue@
    }

    /// Every piece that was ever taken from the queue, the first one first.
    pub closed spec fn popped(&self) -> Seq<TetrominoType> {
        self.popped@
    }

    /// What is left of the bag in use; its last piece is drawn next.
    pub closed spec fn in_bag(&self) -> Seq<TetrominoType> {
        self.bag@
    }

    /// All pieces that entered the queue so far, in the order in which they
    /// leave it.
    pub open spec fn stream(&self) -> Seq<TetrominoType> {
        self.popped() + self.upcoming()
    }

    /// The pieces entered the queue bag by bag.
    pub open spec fn wf(&self) -> bool {
        bagged(self.stream(), self.in_bag())
    }

    /// An empty queue with no bag begun.
    pub fn new() -> (supply: SupplyQueue)
        ensures
            supply.wf(),
            supply.upcoming() == Seq::<TetrominoType>::empty(),
            supply.popped() == Seq::<TetrominoType>::empty(),
            supply.in_bag() == Seq::<TetrominoType>::empty(),
    {
        SupplyQueue { queue: VecDeque::new(), bag: Vec::new(), popped: Ghost(Seq::empty()) }
    }

    /// Number of pieces that wait in the queue.
    pub fn len(&self) -> (n: usize)
        ensures
            n == self.upcoming().len(),
    {
        self.queue.len()
    }

    /// The piece at position `i` of the queue, the next one being at 0.
    pub fn peek(&self, i: usize) -> (kind: Option<TetrominoType>)
        ensures
            kind == if i < self.upcoming().len() {
                Some(self.upcoming()[i as int])
            } else {
                None
            },
    {
        if i < self.queue.len() {
            Some(self.queue[i])
        } else {
            None
        }
    }

    /// Takes the next piece from the queue, if there is one.
    pub fn pop(&mut self) -> (kind: Option<TetrominoType>)
        requires
            old(self).wf(),
        ensures
            final(self).wf(),
            final(self).in_bag() == old(self).in_bag(),
            match kind {
                Some(k) => {
                    &&& old(self).upcoming().len() > 0
                    &&& k == old(self).upcoming()[0]
                    &&& final(self).upcoming() == old(self).upcoming().drop_first()
                    &&& final(self).popped() == old(self).popped().push(k)
                },
                None => {
                    &&& old(self).upcoming().len() == 0
                    &&& final(self).upcoming() == old(self).upcoming()
                    &&& final(self).popped() == old(self).popped()
                },
            },
    {
        let kind = self.queue.pop_front();
        proof {
            if let Some(k) = kind {
                self.popped@ = self.popped@.push(k);
                assert(self.upcoming() =~= old(self).upcoming().drop_first());
            }
            assert(self.stream() =~= old(self).stream());
        }
        kind
    }
}

/// Draws pieces from the bag into the queue until it holds `target` pieces,
/// beginning a fresh shuffled bag whenever the bag in use is spent. A queue
/// that already holds that many is left as it is.
pub fn fill_bag(supply: &mut SupplyQueue, target: usize)
    requires
        old(supply).wf(),
    ensures
        final(supply).wf(),
        final(supply).popped() == old(supply).popped(),
        final(supply).upcoming().len() == if old(supply).upcoming().len() < target {
            target as nat
        } else {
            old(supply).upcoming().len()
        },
        final(supply).upcoming().subrange(0, old(supply).upcoming().len() as int)
            == old(supply).upcoming(),
{
    let ghost before = supply.upcoming();
    assert(supply.upcoming().subrange(0, before.len() as int) =~= before);
    while supply.queue.len() < target
        invariant
            supply.wf(),
            supply.popped() == old(supply).popped(),
            before == old(supply).upcoming(),
            before.len() <= supply.upcoming().len(),
            before.len() < target ==> supply.upcoming().len() <= target,
            before.len() >= target ==> supply.upcoming().len() == before.len(),
            supply.upcoming().subrange(0, before.len() as int) == before,
        decreases target - supply.queue.len(),
    {
        let ghost stream = supply.stream();
        if supply.bag.len() == 0 {
            supply.bag = fresh_bag();
            proof {
                lemma_reverse_full(supply.bag@);
                assert(open_window(stream) =~= Seq::<TetrominoType>::empty());
                assert(open_window(stream) + supply.bag@.reverse() =~= supply.bag@.reverse());
            }
        }
        let ghost bag = supply.bag@;
        assert(is_full_bag(open_window(stream) + bag.reverse()));
        let next = supply.bag.pop().unwrap();
        supply.queue.push_back(next);
        proof {
            lemma_draw(stream, bag);
            assert(supply.stream() =~= stream.push(next));
            assert(supply.upcoming().subrange(0, before.len() as int) =~= before);
        }
    }
}

/// Moving the last piece of the bag to the end of the stream keeps the stream
/// drawn bag by bag.
proof fn lemma_draw(stream: Seq<TetrominoType>, bag: Seq<TetrominoType>)
    requires
        forall|w: int|
            0 <= w && BAG_SIZE * w + BAG_SIZE <= stream.len()
                ==> is_full_bag(#[trigger] window(stream, w)),
        bag.len() > 0,
        is_full_bag(open_window(stream) + bag.reverse()),
    ensures
        bagged(stream.push(bag.last()), bag.drop_last()),
{
    let next = bag.last();
    let rest = bag.drop_last();
    let longer = stream.push(next);
    let whole = open_window(stream) + bag.reverse();
    let begun = stream.len() % (BAG_SIZE as nat);
    let start = stream.len() - begun;
    assert(whole.len() == BAG_SIZE);
    assert(bag.len() == BAG_SIZE - begun);
    assert(start % (BAG_SIZE as int) == 0);
    assert(longer.subrange(start, longer.len() as int) + rest.reverse() =~= whole);
    assert forall|w: int| 0 <= w && BAG_SIZE * w + BAG_SIZE <= longer.len()
        implies is_full_bag(#[trigger] window(longer, w)) by {
        if BAG_SIZE * w + BAG_SIZE <= stream.len() {
            assert(window(longer, w) =~= window(stream, w));
        } else {
            assert(BAG_SIZE * w == start);
            assert(rest.len() == 0);
            assert(window(longer, w) =~= whole);
        }
    }
    if longer.len() % (BAG_SIZE as nat) != 0 {
        assert(longer.len() - longer.len() % (BAG_SIZE as nat) == start);
        assert(open_window(longer) + rest.reverse() =~= whole);
    } else {
        assert(begun == BAG_SIZE - 1);
    }
}

/// Any seven pieces that left the queue in a row, counted in sevens from the
/// first piece it ever gave out, are one of each kind.
pub proof fn lemma_popped_window_is_full_bag(supply: SupplyQueue, w: int)
    requires
        supply.wf(),
        0 <= w,
        BAG_SIZE * w + BAG_SIZE <= supply.popped().len(),
    ensures
        is_full_bag(window(supply.popped(), w)),
{
    assert(window(supply.popped(), w) =~= window(supply.stream(), w));
}

/// The same holds of the pieces that still wait: together with those that
/// left, they fall into runs of seven that are one of each kind.
pub proof fn lemma_stream_window_is_full_bag(supply: SupplyQueue, w: int)
    requires
        supply.wf(),
        0 <= w,
        BAG_SIZE * w + BAG_SIZE <= supply.stream().len(),
    ensures
        is_full_bag(window(supply.stream(), w)),
{
}

/// No kind stays away for long: among any thirteen pieces in a row, those
/// that left and those that wait taken together, every kind occurs.
pub proof fn lemma_no_kind_is_starved(supply: SupplyQueue, from: int, kind: TetrominoType)
    requires
        supply.wf(),
        0 <= from,
        from + 13 <= supply.stream().len(),
    ensures
        exists|i: int| from <= i < from + 13 && #[trigger] supply.stream()[i] == kind,
{
    let stream = supply.stream();
    let w = (from + 6) / (BAG_SIZE as int);
    let run = window(stream, w);
    assert(is_full_bag(run));
    assert(run.contains(kind));
    let j = choose|j: int| 0 <= j < run.len() && run[j] == kind;
    assert(stream[BAG_SIZE * w + j] == kind);
}

} // verus!
