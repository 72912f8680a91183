//! The issuing counter, the tag type and the combination of tags.
use vstd::prelude::*;

verus! {

/// Issues ordinals in increasing order, starting at 1; ordinal 0 is kept for
/// [`VersionTag::zero`].
pub struct Counter {
    next: u64,
}

impl View for Counter {
    /// The ordinal that the next issue hands out.
    type V = u64;

    closed spec fn view(&self) -> u64 {
        self.next
    }
}

impl Counter {
    #[verifier::type_invariant]
    spec fn well_formed(self) -> bool {
        self.next >= 1
    }

    /// A counter whose first issued ordinal is 1.
    pub fn new() -> (r: Counter)
        ensures
            r@ == 1,
    {
        Counter { next: 1 }
    }

    /// Whether another ordinal can be issued without leaving the 64-bit range.
    pub fn can_issue(&self) -> (r: bool)
        ensures
            r == (self@ < u64::MAX),
    {
        self.next < u64::MAX
    }

    /// Hands out the next ordinal and moves past it.
    pub fn issue(&mut self) -> (r: u64)
        requires
            old(self)@ < u64::MAX,
        ensures
            r == old(self)@,
            r >= 1,
            final(self)@ == old(self)@ + 1,
    {
        proof {
            use_type_invariant(&*self);
        }
        let r = self.next;
        self.next = self.next + 1;
        r
    }
}

/// A marker of one version; a larger ordinal is a more recent version.
#[derive(Clone, Copy, Debug, PartialEq, Eq, Structural, PartialOrd, Ord, Hash)]
pub struct VersionTag(u64);

impl View for VersionTag {
    /// The ordinal.
    type V = u64;

    closed spec fn view(&self) -> u64 {
        self.0
    }
}

impl VersionTag {
    /// A freshly issued tag, above every tag issued by `counter` before.
    pub fn new(counter: &mut Counter) -> (r: VersionTag)
        requires
            old(counter)@ < u64::MAX,
        ensures
            r@ == old(counter)@,
            r@ >= 1,
            r@ > VersionTag::zero_spec()@,
            final(counter)@ == old(counter)@ + 1,
    {
        VersionTag(counter.issue())
    }

    /// The sentinel of ordinal 0, below every issued tag.
    pub closed spec fn zero_spec() -> VersionTag {
        VersionTag(0)
    }

    /// The tag of ordinal 0, which marks a value never computed.
    pub fn zero() -> (r: VersionTag)
        ensures
            r == VersionTag::zero_spec(),
            r@ == 0,
    {
        VersionTag(0)
    }

    /// Draws a fresh ordinal into this tag to signal a change.
    pub fn notify(&mut self, counter: &mut Counter)
        requires
            old(counter)@ < u64::MAX,
        ensures
            final(self)@ == old(counter)@,
            final(self)@ >= 1,
            final(counter)@ == old(counter)@ + 1,
    {
        self.0 = counter.issue();
    }

    /// The ordinal of this tag.
    pub fn ordinal(&self) -> (r: u64)
        ensures
            r == self@,
    {
        self.0
    }

    /// Notifying raises a tag: a tag drawn earlier from a counter lies below the counter's
    /// state, and [`VersionTag::notify`] on that counter sets the tag to that state.
    pub proof fn lemma_notify_raises(before: VersionTag, after: VersionTag, counter: Counter)
        requires
            before@ < counter@,
            after@ == counter@,
        ensures
            before@ < after@,
            before != after,
    {
    }

    /// Tags are equal exactly when their ordinals are.
    pub proof fn lemma_view_injective(a: VersionTag, b: VersionTag)
        ensures
            (a == b) == (a@ == b@),
    {
    }
}

impl From<VersionTag> for u64 {
    fn from(t: VersionTag) -> (r: u64) {
        t.0
    }
}

impl vstd::std_specs::convert::FromSpecImpl<VersionTag> for u64 {
    open spec fn obeys_from_spec() -> bool {
        true
    }

    open spec fn from_spec(t: VersionTag) -> u64 {
        t@
    }
}

/// The ordinals of a sequence of tags.
pub open spec fn ordinals(tags: Seq<VersionTag>) -> Seq<u64> {
    tags.map_values(|t: VersionTag| t@)
}

/// The largest value of `s`, or 0 for the empty sequence.
pub open spec fn max_ordinal(s: Seq<u64>) -> u64
    decreases s.len(),
{
    if s.len() == 0 {
        0
    } else {
        let m = max_ordinal(s.drop_last());
        if s.last() > m {
            s.last()
        } else {
            m
        }
    }
}

/// The ordinal that [`combine`] gives for `tags`.
pub open spec fn combined(tags: Seq<VersionTag>) -> u64 {
    max_ordinal(ordinals(tags))
}

/// The tag of the largest ordinal among `tags`, or the zero tag when there is none.
pub fn combine(tags: &[VersionTag]) -> (r: VersionTag)
    ensures
        r@ == combined(tags@),
        tags@.len() == 0 ==> r == VersionTag::zero_spec(),
        tags@.len() > 0 ==> tags@.contains(r),
        forall|i: int| 0 <= i < tags@.len() ==> tags@[i]@ <= r@,
{
    let mut m: u64 = 0;
    let mut i: usize = 0;
    while i < tags.len()
        invariant
            i <= tags@.len(),
            m == max_ordinal(ordinals(tags@).take(i as int)),
        decreases tags@.len() - i,
    {
        proof {
            assert(ordinals(tags@).take(i + 1).drop_last() =~= ordinals(tags@).take(i as int));
        }
        if tags[i].0 > m {
            m = tags[i].0;
        }
        i = i + 1;
    }
    proof {
        assert(ordinals(tags@).take(i as int) =~= ordinals(tags@));
        lemma_max_bounds(ordinals(tags@));
        if tags@.len() > 0 {
            let k = choose|k: int| 0 <= k < tags@.len() && ordinals(tags@)[k] == m;
            assert(tags@[k]@ == m);
            assert(tags@[k] == VersionTag(m));
        }
        assert forall|j: int| 0 <= j < tags@.len() implies tags@[j]@ <= m by {
            assert(ordinals(tags@)[j] == tags@[j]@);
        }
    }
    VersionTag(m)
}

/// The maximum bounds every element and, for a nonempty sequence, is one of them.
pub proof fn lemma_max_bounds(s: Seq<u64>)
    ensures
        forall|j: int| 0 <= j < s.len() ==> s[j] <= max_ordinal(s),
        s.len() > 0 ==> exists|k: int| 0 <= k < s.len() && s[k] == max_ordinal(s),
    decreases s.len(),
{
    if s.len() > 0 {
        let t = s.drop_last();
        lemma_max_bounds(t);
        assert forall|j: int| 0 <= j < s.len() implies s[j] <= max_ordinal(s) by {
            if j < s.len() - 1 {
                assert(s[j] == t[j]);
            }
        }
        if s.last() > max_ordinal(t) || t.len() == 0 {
            assert(s[s.len() - 1] == max_ordinal(s));
        } else {
            let k = choose|k: int| 0 <= k < t.len() && t[k] == max_ordinal(t);
            assert(s[k] == max_ordinal(s));
        }
    }
}

/// Successive draws from a counter never repeat an ordinal: when each tag is drawn at the
/// counter's current state and each draw moves the counter one step on, as
/// [`VersionTag::new`] and [`VersionTag::notify`] do, the ordinals strictly increase.
pub proof fn lemma_issues_distinct(states: Seq<Counter>, tags: Seq<VersionTag>)
    requires
        states.len() == tags.len() + 1,
        forall|i: int|
            0 <= i < tags.len() ==> #[trigger] tags[i]@ == states[i]@ && states[i + 1]@
                == states[i]@ + 1,
    ensures
        forall|i: int, j: int| 0 <= i < j < tags.len() ==> tags[i]@ < tags[j]@,
{
    assert forall|i: int, j: int| 0 <= i < j < tags.len() implies tags[i]@ < tags[j]@ by {
        lemma_counter_advances(states, tags, i, j);
    }
}

proof fn lemma_counter_advances(states: Seq<Counter>, tags: Seq<VersionTag>, i: int, j: int)
    requires
        states.len() == tags.len() + 1,
        forall|k: int|
            0 <= k < tags.len() ==> #[trigger] tags[k]@ == states[k]@ && states[k + 1]@
                == states[k]@ + 1,
        0 <= i <= j < states.len(),
    ensures
        states[j]@ == states[i]@ + (j - i),
    decreases j - i,
{
    if i < j {
        lemma_counter_advances(states, tags, i, j - 1);
        assert(tags[j - 1]@ == states[j - 1]@);
    }
}

proof fn lemma_max_one(x: u64)
    ensures
        max_ordinal(seq![x]) == x,
{
    assert(seq![x].drop_last() =~= Seq::<u64>::empty());
    assert(max_ordinal(Seq::<u64>::empty()) == 0);
}

proof fn lemma_max_two(x: u64, y: u64)
    ensures
        max_ordinal(seq![x, y]) == if y > x {
            y
        } else {
            x
        },
{
    lemma_max_one(x);
    assert(seq![x, y].drop_last() =~= seq![x]);
}

proof fn lemma_ordinals_two(a: VersionTag, b: VersionTag)
    ensures
        ordinals(seq![a, b]) == seq![a@, b@],
{
    assert(ordinals(seq![a, b]) =~= seq![a@, b@]);
}

/// Combining one tag gives that tag.
pub proof fn lemma_combine_singleton(t: VersionTag)
    ensures
        combined(seq![t]) == t@,
{
    assert(ordinals(seq![t]) =~= seq![t@]);
    lemma_max_one(t@);
}

/// The order of two tags does not change what they combine to.
pub proof fn lemma_combine_commutative(a: VersionTag, b: VersionTag)
    ensures
        combined(seq![a, b]) == combined(seq![b, a]),
{
    lemma_ordinals_two(a, b);
    lemma_ordinals_two(b, a);
    lemma_max_two(a@, b@);
    lemma_max_two(b@, a@);
}

/// Notifying an input changes the combination: when the first of two tags is replaced by
/// one drawn after both, the combination becomes the new tag and differs from before.
pub proof fn lemma_combine_notified(t1: VersionTag, t2: VersionTag, t1_new: VersionTag)
    requires
        t1_new@ > t1@,
        t1_new@ > t2@,
    ensures
        combined(seq![t1_new, t2]) == t1_new@,
        combined(seq![t1_new, t2]) != combined(seq![t1, t2]),
{
    lemma_ordinals_two(t1_new, t2);
    lemma_ordinals_two(t1, t2);
    lemma_max_two(t1_new@, t2@);
    lemma_max_two(t1@, t2@);
}

} // verus!
