//! Topics — (channel, symbol) subscription units — and the active topic
//! set, the single source of truth for what must be replayed after a
//! reconnection.

use vstd::prelude::*;

verus! {

/// The mathematical value of a topic: its channel and symbol as
/// character sequences.
pub struct TopicV {
    pub channel: Seq<char>,
    pub symbol: Seq<char>,
}

/// One subscription unit: a channel identifier paired with a symbol.
pub struct Topic {
    pub channel: String,
    pub symbol: String,
}

impl View for Topic {
    type V = TopicV;

    open spec fn view(&self) -> TopicV {
        TopicV { channel: self.channel@, symbol: self.symbol@ }
    }
}

impl Topic {
    pub fn new(channel: String, symbol: String) -> (t: Topic)
        ensures
            t@ == (TopicV { channel: channel@, symbol: symbol@ }),
    {
        Topic { channel, symbol }
    }

    /// Whether two topics denote the same (channel, symbol) pair.
    pub fn same_as(&self, other: &Topic) -> (r: bool)
        ensures
            r == (self@ == other@),
    {
        let ghost sv = self@;
        let ghost ov = other@;
        let r = self.channel.eq(&other.channel) && self.symbol.eq(&other.symbol);
        proof {
            if sv.channel == ov.channel && sv.symbol == ov.symbol {
                assert(sv == ov);
            }
        }
        r
    }

    pub fn clone_topic(&self) -> (t: Topic)
        ensures
            t@ == self@,
    {
        Topic { channel: self.channel.clone(), symbol: self.symbol.clone() }
    }
}

/// The set of active topics, held as a vector without duplicates.
/// Uniqueness is by topic value; no ordering is guaranteed.
pub struct TopicSet {
    pub items: Vec<Topic>,
}

impl View for TopicSet {
    type V = Set<TopicV>;

    open spec fn view(&self) -> Set<TopicV> {
        Set::new(|tv: TopicV| self.seq_view().contains(tv))
    }
}

impl TopicSet {
    /// The topic values in insertion order.
    pub open spec fn seq_view(&self) -> Seq<TopicV> {
        self.items@.map_values(|t: Topic| t@)
    }

    /// No two held topics denote the same pair.
    pub open spec fn well_formed(&self) -> bool {
        forall|i: int, j: int|
            0 <= i < j < self.seq_view().len() ==> self.seq_view()[i] != self.seq_view()[j]
    }

    pub fn new() -> (s: TopicSet)
        ensures
            s.well_formed(),
            s@ =~= Set::<TopicV>::empty(),
            s.items@.len() == 0,
    {
        TopicSet { items: Vec::new() }
    }

    pub fn len(&self) -> (n: usize)
        ensures
            n == self.items@.len(),
    {
        self.items.len()
    }

    pub fn contains(&self, t: &Topic) -> (r: bool)
        ensures
            r == self@.contains(t@),
    {
        let n = self.items.len();
        for i in 0..n
            invariant
                n == self.items@.len(),
                forall|j: int| 0 <= j < i ==> self.seq_view()[j] != t@,
        {
            if self.items[i].same_as(t) {
                assert(self.seq_view()[i as int] == t@);
                return true;
            }
        }
        assert(!self.seq_view().contains(t@));
        false
    }

    /// Adds a topic not yet present; a duplicate is the caller's fault to
    /// rule out with `contains`.
    pub fn insert(&mut self, t: Topic)
        requires
            old(self).well_formed(),
            !old(self)@.contains(t@),
        ensures
            final(self).well_formed(),
            final(self)@ =~= old(self)@.insert(t@),
            final(self).seq_view() == old(self).seq_view().push(t@),
    {
        let ghost tv = t@;
        self.items.push(t);
        proof {
            assert(self.seq_view() =~= old(self).seq_view().push(tv));
            assert forall|x: TopicV| self@.contains(x) implies old(self)@.insert(tv).contains(
                x,
            ) by {
                let i = choose|i: int|
                    0 <= i < self.seq_view().len() && self.seq_view()[i] == x;
                if i < old(self).seq_view().len() {
                    assert(old(self).seq_view().contains(x));
                }
            }
            assert forall|x: TopicV| old(self)@.insert(tv).contains(x) implies self@.contains(
                x,
            ) by {
                if x == tv {
                    assert(self.seq_view()[self.seq_view().len() - 1] == tv);
                } else {
                    let i = choose|i: int|
                        0 <= i < old(self).seq_view().len() && old(self).seq_view()[i] == x;
                    assert(self.seq_view()[i] == x);
                }
            }
        }
    }

    /// The position of the topic in the holding vector, if present.
    pub fn index_of(&self, t: &Topic) -> (r: Option<usize>)
        ensures
            match r {
                Some(i) => i < self.items@.len() && self.seq_view()[i as int] == t@,
                None => !self@.contains(t@),
            },
    {
        let n = self.items.len();
        for i in 0..n
            invariant
                n == self.items@.len(),
                forall|j: int| 0 <= j < i ==> self.seq_view()[j] != t@,
        {
            assert(self.seq_view()[i as int] == self.items@[i as int]@);
            if self.items[i].same_as(t) {
                return Some(i);
            }
        }
        assert(!self.seq_view().contains(t@));
        None
    }

    /// Removes the topic if present; idempotent on absent topics.
    pub fn remove(&mut self, t: &Topic)
        requires
            old(self).well_formed(),
        ensures
            final(self).well_formed(),
            final(self)@ =~= old(self)@.remove(t@),
            final(self).items@.len() <= old(self).items@.len(),
    {
        let ghost tv = t@;
        match self.index_of(t) {
            Some(i) => {
                let ghost before = self.seq_view();
                self.items.remove(i);
                proof {
                    assert(self.seq_view() =~= before.subrange(0, i as int) + before.subrange(
                        i as int + 1,
                        before.len() as int,
                    ));
                    Self::lemma_remove_unique(before, self.seq_view(), i as int, tv);
                }
            },
            None => {
                proof {
                    assert(self@ =~= old(self)@.remove(tv));
                }
            },
        }
    }

    /// Removing the one index holding `tv` from a duplicate-free sequence
    /// removes exactly `tv` from the induced set.
    proof fn lemma_remove_unique(before: Seq<TopicV>, after: Seq<TopicV>, i: int, tv: TopicV)
        requires
            0 <= i < before.len(),
            before[i] == tv,
            forall|p: int, q: int| 0 <= p < q < before.len() ==> before[p] != before[q],
            after =~= before.subrange(0, i) + before.subrange(i + 1, before.len() as int),
        ensures
            forall|p: int, q: int| 0 <= p < q < after.len() ==> after[p] != after[q],
            Set::new(|x: TopicV| after.contains(x)) =~= Set::new(
                |x: TopicV| before.contains(x),
            ).remove(tv),
    {
        assert forall|p: int, q: int| 0 <= p < q < after.len() implies after[p] != after[q] by {
            let bp: int = if p < i { p } else { p + 1 };
            let bq: int = if q < i { q } else { q + 1 };
            assert(after[p] == before[bp]);
            assert(after[q] == before[bq]);
        }
        assert forall|x: TopicV| after.contains(x) implies before.contains(x) && x != tv by {
            let k = choose|k: int| 0 <= k < after.len() && after[k] == x;
            let bk: int = if k < i { k } else { k + 1 };
            assert(before[bk] == x);
            if x == tv {
                assert(before[bk] == before[i]);
            }
        }
        assert forall|x: TopicV| before.contains(x) && x != tv implies after.contains(x) by {
            let k = choose|k: int| 0 <= k < before.len() && before[k] == x;
            if k < i {
                assert(after[k] == x);
            } else {
                assert(k != i);
                assert(after[k - 1] == x);
            }
        }
    }

    /// A copy of the active topics, one per held topic value.
    pub fn snapshot(&self) -> (v: Vec<Topic>)
        ensures
            v@.len() == self.items@.len(),
            forall|j: int| 0 <= j < v@.len() ==> v@[j]@ == self.seq_view()[j],
            v@.map_values(|t: Topic| t@) == self.seq_view(),
    {
        let mut v: Vec<Topic> = Vec::new();
        let n = self.items.len();
        for i in 0..n
            invariant
                n == self.items@.len(),
                v@.len() == i,
                forall|j: int| 0 <= j < i ==> v@[j]@ == self.items@[j]@,
        {
            let c = self.items[i].clone_topic();
            v.push(c);
        }
        proof {
            assert(v@.map_values(|t: Topic| t@) =~= self.seq_view());
        }
        v
    }
}

} // verus!
