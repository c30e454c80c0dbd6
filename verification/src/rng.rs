//! Sources of the random choices of a round: the imposter and the topic.

use vstd::prelude::*;

use rand::Rng;

verus! {

/// Source of the two random choices a round needs.
pub trait RngLike: Send {
    /// The imposter position this source picks among `players_len`, where
    /// it is determined by the source's state; `None` for a random source.
    spec fn imposter_pick(&self, players_len: usize) -> Option<usize>;

    /// The topic position this source picks among `topics_len`, where it is
    /// determined by the source's state; `None` for a random source.
    spec fn topic_pick(&self, topics_len: usize) -> Option<usize>;

    /// Whether this source can answer `r` to one request for an imposter
    /// among `players_len` and be `after` once it has.
    spec fn imposter_drawn(&self, players_len: usize, r: usize, after: &Self) -> bool;

    /// Whether this source can answer `r` to one request for a topic among
    /// `topics_len` and be `after` once it has.
    spec fn topic_drawn(&self, topics_len: usize, r: usize, after: &Self) -> bool;

    /// Picks the position of the imposter among `players_len` connected players.
    fn choose_imposter(&mut self, players_len: usize) -> (r: usize)
        requires
            players_len > 0,
        ensures
            r < players_len,
            old(self).imposter_pick(players_len) matches Some(k) ==> r == k,
            old(self).imposter_drawn(players_len, r, &*final(self)),
            forall|m: usize| #[trigger] final(self).topic_pick(m) == old(self).topic_pick(m),
    ;

    /// Picks the position of the topic among `topics_len` topics.
    fn choose_topic(&mut self, topics_len: usize) -> (r: usize)
        requires
            topics_len > 0,
        ensures
            r < topics_len,
            old(self).topic_pick(topics_len) matches Some(k) ==> r == k,
            old(self).topic_drawn(topics_len, r, &*final(self)),
    ;
}

/// Two sources pick alike: each determines the same positions as the other.
pub open spec fn same_picks<R: RngLike + ?Sized>(a: &R, b: &R) -> bool {
    &&& forall|n: usize| #[trigger] a.imposter_pick(n) == b.imposter_pick(n)
    &&& forall|n: usize| #[trigger] a.topic_pick(n) == b.topic_pick(n)
}

/// A value drawn uniformly from `0..n` by the thread-local generator of `rand`.
#[verifier::external_body]
fn random_below(n: usize) -> (r: usize)
    requires
        n > 0,
    ensures
        r < n,
{
    rand::rng().random_range(0..n)
}

/// Production RNG using `rand`.
#[derive(Debug, Default)]
pub struct ProductionRng;

impl RngLike for ProductionRng {
    open spec fn imposter_pick(&self, players_len: usize) -> Option<usize> {
        None
    }

    open spec fn topic_pick(&self, topics_len: usize) -> Option<usize> {
        None
    }

    open spec fn imposter_drawn(&self, players_len: usize, r: usize, after: &Self) -> bool {
        r < players_len
    }

    open spec fn topic_drawn(&self, topics_len: usize, r: usize, after: &Self) -> bool {
        r < topics_len
    }

    fn choose_imposter(&mut self, players_len: usize) -> (r: usize) {
        random_below(players_len)
    }

    fn choose_topic(&mut self, topics_len: usize) -> (r: usize) {
        random_below(topics_len)
    }
}

/// Deterministic RNG for tests.
#[derive(Debug)]
pub struct FixedRng {
    imposter_index: usize,
    topic_index: usize,
}

impl FixedRng {
    pub closed spec fn imposter_index(self) -> usize {
        self.imposter_index
    }

    pub closed spec fn topic_index(self) -> usize {
        self.topic_index
    }

    pub fn new(imposter_index: usize, topic_index: usize) -> (r: Self)
        ensures
            r.imposter_index() == imposter_index,
            r.topic_index() == topic_index,
    {
        FixedRng { imposter_index, topic_index }
    }
}

impl RngLike for FixedRng {
    open spec fn imposter_pick(&self, players_len: usize) -> Option<usize> {
        if players_len > 0 {
            Some((self.imposter_index() % players_len) as usize)
        } else {
            None
        }
    }

    open spec fn topic_pick(&self, topics_len: usize) -> Option<usize> {
        if topics_len > 0 {
            Some((self.topic_index() % topics_len) as usize)
        } else {
            None
        }
    }

    open spec fn imposter_drawn(&self, players_len: usize, r: usize, after: &Self) -> bool {
        players_len > 0 && r == self.imposter_index() % players_len && *after == *self
    }

    open spec fn topic_drawn(&self, topics_len: usize, r: usize, after: &Self) -> bool {
        topics_len > 0 && r == self.topic_index() % topics_len && *after == *self
    }

    fn choose_imposter(&mut self, players_len: usize) -> (r: usize)
        ensures
            r == old(self).imposter_index() % players_len,
            *final(self) == *old(self),
    {
        self.imposter_index % players_len
    }

    fn choose_topic(&mut self, topics_len: usize) -> (r: usize)
        ensures
            r == old(self).topic_index() % topics_len,
            *final(self) == *old(self),
    {
        self.topic_index % topics_len
    }
}

/// A boxed source draws from the source it holds.
impl<R: RngLike> RngLike for Box<R> {
    open spec fn imposter_pick(&self, players_len: usize) -> Option<usize> {
        (**self).imposter_pick(players_len)
    }

    open spec fn topic_pick(&self, topics_len: usize) -> Option<usize> {
        (**self).topic_pick(topics_len)
    }

    open spec fn imposter_drawn(&self, players_len: usize, r: usize, after: &Self) -> bool {
        (**self).imposter_drawn(players_len, r, &**after)
    }

    open spec fn topic_drawn(&self, topics_len: usize, r: usize, after: &Self) -> bool {
        (**self).topic_drawn(topics_len, r, &**after)
    }

    fn choose_imposter(&mut self, players_len: usize) -> (r: usize) {
        (**self).choose_imposter(players_len)
    }

    fn choose_topic(&mut self, topics_len: usize) -> (r: usize) {
        (**self).choose_topic(topics_len)
    }
}

} // verus!
