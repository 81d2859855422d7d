//! The ordered playback queue of one guild.
//!
//! Index 0 is always the currently-playing track, and no operation leaves
//! index 0 empty while any track exists.  The queue holds no concurrency
//! primitive of its own: it is owned by one session and mutated only under
//! that session's exclusive access.

use rand::rngs::SmallRng;
use vstd::pervasive::VecAdditionalExecFns;
use vstd::prelude::*;
use vstd::seq_lib::group_to_multiset_ensures;
use vstd::seq_lib::lemma_multiset_commutative;
use vstd::seq_lib::to_multiset_build;
use vstd::seq_lib::to_multiset_remove;

use crate::error::SunnyError;
use crate::randomness::rng_between;
use crate::track::{duration_or_zero, spec_duration_or_zero, Track};

verus! {

/// Where `enqueue` places a new track.
pub enum EnqueueAt {
    Front,
    Back,
}

/// Tracks shown per page of the queue view.
pub const PAGE_SIZE: usize = 10;

/// Ordered playback queue; insertion order is play order.
pub struct Queue {
    tracks: Vec<Track>,
}

impl View for Queue {
    type V = Seq<Track>;

    closed spec fn view(&self) -> Seq<Track> {
        self.tracks@
    }
}

/// The queue contents after enqueueing `t`: `Back` appends; `Front` inserts
/// immediately after the currently-playing slot (position 1), never at
/// index 0 itself.
pub open spec fn spec_enqueue(s: Seq<Track>, t: Track, at: EnqueueAt) -> Seq<Track> {
    match at {
        EnqueueAt::Back => s.push(t),
        EnqueueAt::Front => if s.len() == 0 {
            s.push(t)
        } else {
            s.insert(1, t)
        },
    }
}

/// The total playing time of a sequence of tracks, in whole seconds, with a
/// missing duration counting as zero.
pub open spec fn spec_total_secs(s: Seq<Track>) -> int
    decreases s.len(),
{
    if s.len() == 0 {
        0
    } else {
        spec_total_secs(s.drop_last()) + spec_duration_or_zero(s.last())
    }
}

/// `x` clamped from above to the largest `u64`, as a saturating sum is.
pub open spec fn spec_saturate_u64(x: int) -> int {
    if x > u64::MAX {
        u64::MAX as int
    } else {
        x
    }
}

/// The order in which repeated `pop_current` calls hand the tracks out.
pub open spec fn spec_pop_order(s: Seq<Track>) -> Seq<Track>
    decreases s.len(),
{
    if s.len() == 0 {
        Seq::empty()
    } else {
        seq![s[0]] + spec_pop_order(s.drop_first())
    }
}

/// Popping the current track over and over yields exactly the queue's
/// contents, front to back.
pub proof fn lemma_pop_order_is_queue_order(s: Seq<Track>)
    ensures
        spec_pop_order(s) == s,
    decreases s.len(),
{
    if s.len() > 0 {
        lemma_pop_order_is_queue_order(s.drop_first());
        assert(spec_pop_order(s) =~= s);
    } else {
        assert(spec_pop_order(s) =~= s);
    }
}

/// Round trip of the queue: after `enqueue(t, Back)`, repeated
/// `pop_current` yields the old tracks in their original append order and
/// then `t`.
pub proof fn lemma_enqueue_back_round_trip(s: Seq<Track>, t: Track)
    ensures
        spec_pop_order(spec_enqueue(s, t, EnqueueAt::Back)) == s.push(t),
{
    lemma_pop_order_is_queue_order(s.push(t));
}

/// `enqueue(t, Front)` inserts directly after the currently-playing track:
/// position 0 keeps playing and `t` stands at position 1.
pub proof fn lemma_enqueue_front_after_current(s: Seq<Track>, t: Track)
    requires
        s.len() > 0,
    ensures
        spec_enqueue(s, t, EnqueueAt::Front)[0] == s[0],
        spec_enqueue(s, t, EnqueueAt::Front)[1] == t,
{
}

/// One page of the read-only queue view.
pub struct QueuePage {
    /// The tracks of this page, in queue order.
    pub entries: Vec<Track>,
    /// Total number of pages the view offers.
    pub total_pages: usize,
    /// Saturating total playing time of the whole queue, in whole seconds.
    pub total_secs: u64,
}

impl Queue {
    pub fn new() -> (q: Queue)
        ensures
            q@ == Seq::<Track>::empty(),
    {
        Queue { tracks: Vec::new() }
    }

    pub fn len(&self) -> (n: usize)
        ensures
            n == self@.len(),
    {
        self.tracks.len()
    }

    /// Appends (`Back`) or inserts right after the playing slot (`Front`),
    /// and returns the resulting queue length.
    pub fn enqueue(&mut self, t: Track, at: EnqueueAt) -> (n: usize)
        ensures
            final(self)@ == spec_enqueue(old(self)@, t, at),
            n == old(self)@.len() + 1,
            final(self)@[0] == if old(self)@.len() == 0 {
                t
            } else {
                old(self)@[0]
            },
    {
        match at {
            EnqueueAt::Back => self.tracks.push(t),
            EnqueueAt::Front => {
                if self.tracks.len() == 0 {
                    self.tracks.push(t);
                } else {
                    self.tracks.insert(1, t);
                }
            },
        }
        self.tracks.len()
    }

    /// Removes and returns the currently-playing track once its playback
    /// ends; the next track, if any, becomes index 0.
    pub fn pop_current(&mut self) -> (r: Option<Track>)
        ensures
            old(self)@.len() == 0 ==> r is None && final(self)@ == old(self)@,
            old(self)@.len() > 0 ==> r == Some(old(self)@[0]) && final(self)@ == old(
                self,
            )@.drop_first(),
    {
        if self.tracks.len() == 0 {
            None
        } else {
            let t = self.tracks.remove(0);
            proof {
                assert(self.tracks@ =~= old(self)@.drop_first());
            }
            Some(t)
        }
    }

    /// The currently-playing track: `Some` exactly when the queue is
    /// non-empty, and then always the track at index 0.
    pub fn current(&self) -> (r: Option<Track>)
        ensures
            r is Some <==> self@.len() > 0,
            self@.len() > 0 ==> r == Some(self@[0]),
    {
        if self.tracks.len() == 0 {
            None
        } else {
            Some(self.tracks[0].clone())
        }
    }

    /// The track playing next (index 1), if any.
    pub fn peek_next(&self) -> (r: Option<Track>)
        ensures
            r is Some <==> self@.len() > 1,
            self@.len() > 1 ==> r == Some(self@[1]),
    {
        if self.tracks.len() <= 1 {
            None
        } else {
            Some(self.tracks[1].clone())
        }
    }

    /// Removes the track at a non-zero position.  Index 0 — the playing
    /// track — cannot be removed this way, and an index past the end
    /// removes nothing; both fail with a user error.
    pub fn remove_at(&mut self, index: usize) -> (r: Result<Track, SunnyError>)
        ensures
            r is Ok <==> 1 <= index < old(self)@.len(),
            match r {
                Ok(t) => t == old(self)@[index as int] && final(self)@ == old(self)@.remove(
                    index as int,
                ),
                Err(e) => *final(self) == *old(self) && e is User && e.spec_user_msg() == Some(
                    if index == 0 {
                        "A song index of 0 is invalid (The queue starts at 1)"@
                    } else {
                        "Nothing to remove..."@
                    },
                ),
            },
    {
        if index == 0 {
            Err(SunnyError::user("A song index of 0 is invalid (The queue starts at 1)"))
        } else if index >= self.tracks.len() {
            Err(SunnyError::user("Nothing to remove..."))
        } else {
            Ok(self.tracks.remove(index))
        }
    }

    /// Exchanges two non-zero positions and returns the pair now standing
    /// at `a` and at `b`.  Fails with a user error if either index is 0 or
    /// if the larger one is not below the queue length.
    pub fn swap(&mut self, a: usize, b: usize) -> (r: Result<(Track, Track), SunnyError>)
        ensures
            r is Ok <==> (1 <= a < old(self)@.len() && 1 <= b < old(self)@.len()),
            match r {
                Ok(p) => final(self)@ == old(self)@.update(a as int, old(self)@[b as int]).update(
                    b as int,
                    old(self)@[a as int],
                ) && p.0 == old(self)@[b as int] && p.1 == old(self)@[a as int],
                Err(e) => *final(self) == *old(self) && e is User && e.spec_user_msg() == Some(
                    if a == 0 || b == 0 {
                        "A song index of 0 is invalid (The queue starts at 1)"@
                    } else {
                        "Can't swap non-existing index"@
                    },
                ),
            },
    {
        if a == 0 || b == 0 {
            return Err(SunnyError::user("A song index of 0 is invalid (The queue starts at 1)"));
        }
        if a >= self.tracks.len() || b >= self.tracks.len() {
            return Err(SunnyError::user("Can't swap non-existing index"));
        }
        let ta = self.tracks[a].clone();
        let tb = self.tracks[b].clone();
        self.tracks.set(a, tb);
        let tb2 = self.tracks[a].clone();
        self.tracks.set(b, ta);
        let ta2 = self.tracks[b].clone();
        Ok((tb2, ta2))
    }

    /// Randomizes the order of all entries strictly after index 0; the
    /// currently-playing track never moves, and the contents stay the same
    /// as a multiset.
    pub fn shuffle(&mut self, rng: &mut SmallRng)
        ensures
            final(self)@.len() == old(self)@.len(),
            old(self)@.len() > 0 ==> final(self)@[0] == old(self)@[0],
            final(self)@.to_multiset() == old(self)@.to_multiset(),
    {
        broadcast use group_to_multiset_ensures;

        if self.tracks.len() == 0 {
            return ;
        }
        let mut rest = self.tracks.split_off(1);
        let ghost head = self.tracks@;
        let ghost rest0 = rest@;
        let mut out: Vec<Track> = Vec::new();
        proof {
            assert(forall|x: Track| !out@.contains(x));
            assert(out@.to_multiset().add(rest@.to_multiset()) =~= rest0.to_multiset());
        }
        while rest.len() > 0
            invariant
                out@.to_multiset().add(rest@.to_multiset()) == rest0.to_multiset(),
                out@.len() + rest@.len() == rest0.len(),
            decreases rest@.len(),
        {
            let last = rest.len() - 1;
            let j = rng_between(rng, 0, last);
            let ghost pre_rest = rest@;
            let ghost pre_out = out@;
            let t = rest.remove(j);
            out.push(t);
            proof {
                to_multiset_remove(pre_rest, j as int);
                to_multiset_build(pre_out, t);
                pre_rest.to_multiset_ensures();
                assert(pre_rest.contains(pre_rest[j as int]));
                assert(out@.to_multiset() == pre_out.to_multiset().insert(t));
                assert(rest@.to_multiset() == pre_rest.to_multiset().remove(t));
                assert(out@.to_multiset().add(rest@.to_multiset()) =~= rest0.to_multiset());
            }
        }
        let ghost out_pre = out@;
        proof {
            rest@.to_multiset_ensures();
            assert(forall|x: Track| !rest@.contains(x));
            assert(forall|x: Track| rest@.to_multiset().count(x) == 0);
            assert(out_pre.to_multiset() =~= rest0.to_multiset());
        }
        self.tracks.append(&mut out);
        proof {
            let fin = self.tracks@;
            assert(fin == head + out_pre);
            assert(old(self)@ =~= head + rest0);
            lemma_multiset_commutative(head, out_pre);
            lemma_multiset_commutative(head, rest0);
            assert(fin.to_multiset() =~= old(self)@.to_multiset());
        }
    }

    /// Clears the whole queue; playback halts because nothing stands at
    /// index 0 any more.
    pub fn clear(&mut self)
        ensures
            final(self)@ == Seq::<Track>::empty(),
    {
        self.tracks.clear();
    }

    /// The read-only paged view: the tracks of page `page` (10 per page),
    /// the total page count, and the saturating total duration of the whole
    /// queue in whole seconds.  Does not mutate.
    pub fn page(&self, page: usize) -> (r: QueuePage)
        ensures
            r.total_pages == self@.len() as int / PAGE_SIZE as int + 1,
            r.total_secs == spec_saturate_u64(spec_total_secs(self@)),
            ({
                let lo = if PAGE_SIZE * page > self@.len() {
                    self@.len() as int
                } else {
                    PAGE_SIZE * page
                };
                let hi = if PAGE_SIZE * page + PAGE_SIZE > self@.len() {
                    self@.len() as int
                } else {
                    PAGE_SIZE * page + PAGE_SIZE
                };
                r.entries@ == self@.subrange(lo, hi)
            }),
    {
        let len = self.tracks.len();
        let lo: usize = if page > len / PAGE_SIZE {
            len
        } else {
            page * PAGE_SIZE
        };
        let hi: usize = if len - lo > PAGE_SIZE {
            lo + PAGE_SIZE
        } else {
            len
        };
        let mut entries: Vec<Track> = Vec::new();
        let mut i: usize = lo;
        while i < hi
            invariant
                lo <= i <= hi <= self@.len(),
                entries@ == self@.subrange(lo as int, i as int),
            decreases hi - i,
        {
            entries.push(self.tracks[i].clone());
            proof {
                assert(entries@ =~= self@.subrange(lo as int, i + 1));
            }
            i += 1;
        }
        let total_secs = self.total_secs();
        proof {
            let glo = if PAGE_SIZE * page > self@.len() {
                self@.len() as int
            } else {
                PAGE_SIZE * page as int
            };
            assert(lo == glo);
        }
        QueuePage { entries, total_pages: len / PAGE_SIZE + 1, total_secs }
    }

    /// The saturating total playing time of the queue, in whole seconds.
    pub fn total_secs(&self) -> (r: u64)
        ensures
            r == spec_saturate_u64(spec_total_secs(self@)),
    {
        let mut acc: u64 = 0;
        let mut i: usize = 0;
        let n = self.tracks.len();
        while i < n
            invariant
                0 <= i <= n == self@.len(),
                acc == spec_saturate_u64(spec_total_secs(self@.subrange(0, i as int))),
            decreases n - i,
        {
            let d = duration_or_zero(&self.tracks[i]);
            proof {
                assert(self@.subrange(0, i + 1).drop_last() =~= self@.subrange(0, i as int));
                assert(self@.subrange(0, i + 1).last() == self@[i as int]);
            }
            if acc > u64::MAX - d {
                acc = u64::MAX;
            } else {
                acc = acc + d;
            }
            i += 1;
        }
        proof {
            assert(self@.subrange(0, self@.len() as int) =~= self@);
        }
        acc
    }
}

} // verus!
