//! The moles on the field: each has an id (the engine's name for it) and a
//! lifetime countdown.

use vstd::prelude::*;
use crate::constants::MOLE_LIFETIME_NANOS;
use crate::timer::{Countdown, CountdownMode, TimerModel};

verus! {

/// A mole that is up. Its lifetime counts down from
/// [`MOLE_LIFETIME_NANOS`]; when it finishes the mole goes away.
pub struct Mole {
    pub lifetime: Countdown,
}

impl Mole {
    /// A mole that has just popped up.
    pub fn new() -> (m: Mole)
        ensures
            m.lifetime@ == TimerModel::fresh(MOLE_LIFETIME_NANOS as nat, CountdownMode::Once),
    {
        Mole { lifetime: Countdown::new(MOLE_LIFETIME_NANOS, CountdownMode::Once) }
    }
}

/// The ids in a sequence of moles, in order.
pub open spec fn mole_ids(s: Seq<(u64, TimerModel)>) -> Seq<u64> {
    s.map_values(|e: (u64, TimerModel)| e.0)
}

/// No id occurs twice.
pub open spec fn distinct_ids(s: Seq<(u64, TimerModel)>) -> bool {
    forall|i: int, j: int| 0 <= i < s.len() && 0 <= j < s.len() && i != j ==> s[i].0 != s[j].0
}

/// The moles of `s` whose lifetime does not finish in a tick of `delta`
/// nanoseconds, ticked, in order.
pub open spec fn survivors(s: Seq<(u64, TimerModel)>, delta: nat) -> Seq<(u64, TimerModel)>
    decreases s.len(),
{
    if s.len() == 0 {
        Seq::empty()
    } else {
        let rest = survivors(s.drop_last(), delta);
        let ticked = s.last().1.ticked(delta);
        if ticked.just_finished() {
            rest
        } else {
            rest.push((s.last().0, ticked))
        }
    }
}

/// The ids of the moles of `s` whose lifetime finishes in a tick of `delta`
/// nanoseconds, in order.
pub open spec fn expired(s: Seq<(u64, TimerModel)>, delta: nat) -> Seq<u64>
    decreases s.len(),
{
    if s.len() == 0 {
        Seq::empty()
    } else {
        let rest = expired(s.drop_last(), delta);
        if s.last().1.ticked(delta).just_finished() {
            rest.push(s.last().0)
        } else {
            rest
        }
    }
}

/// Each survivor is a mole that was there before, ticked, whose lifetime did
/// not finish in the tick.
pub proof fn lemma_survivors_from(s: Seq<(u64, TimerModel)>, delta: nat)
    ensures
        forall|k: int|
            0 <= k < survivors(s, delta).len() ==> exists|j: int|
                0 <= j < s.len() && #[trigger] survivors(s, delta)[k].0 == s[j].0
                    && survivors(s, delta)[k].1 == s[j].1.ticked(delta)
                    && !s[j].1.ticked(delta).just_finished(),
    decreases s.len(),
{
    if s.len() > 0 {
        lemma_survivors_from(s.drop_last(), delta);
        let rest = survivors(s.drop_last(), delta);
        assert forall|k: int| 0 <= k < survivors(s, delta).len() implies exists|j: int|
            0 <= j < s.len() && #[trigger] survivors(s, delta)[k].0 == s[j].0
                && survivors(s, delta)[k].1 == s[j].1.ticked(delta)
                && !s[j].1.ticked(delta).just_finished() by {
            if k < rest.len() {
                let j = choose|j: int|
                    0 <= j < s.drop_last().len() && #[trigger] rest[k].0 == s.drop_last()[j].0
                        && rest[k].1 == s.drop_last()[j].1.ticked(delta)
                        && !s.drop_last()[j].1.ticked(delta).just_finished();
                assert(s.drop_last()[j] == s[j]);
                assert(survivors(s, delta)[k] == rest[k]);
            } else {
                assert(survivors(s, delta)[k] == (s[s.len() - 1].0, s[s.len() - 1].1.ticked(delta)));
            }
        }
    }
}

/// A mole whose lifetime finishes in a tick is not among the moles left
/// after it.
pub proof fn lemma_finished_mole_leaves(s: Seq<(u64, TimerModel)>, delta: nat, k: int)
    requires
        distinct_ids(s),
        0 <= k < s.len(),
        s[k].1.ticked(delta).just_finished(),
    ensures
        !mole_ids(survivors(s, delta)).contains(s[k].0),
{
    lemma_survivors_from(s, delta);
    if mole_ids(survivors(s, delta)).contains(s[k].0) {
        let i = choose|i: int|
            0 <= i < mole_ids(survivors(s, delta)).len() && mole_ids(survivors(s, delta))[i] == s[k].0;
        assert(survivors(s, delta)[i].0 == s[k].0);
        let j = choose|j: int|
            0 <= j < s.len() && #[trigger] survivors(s, delta)[i].0 == s[j].0
                && survivors(s, delta)[i].1 == s[j].1.ticked(delta)
                && !s[j].1.ticked(delta).just_finished();
        assert(j == k);
    }
}

/// Each expired id is the id of a mole that was there before.
pub proof fn lemma_expired_from(s: Seq<(u64, TimerModel)>, delta: nat)
    ensures
        forall|k: int|
            0 <= k < expired(s, delta).len() ==> exists|j: int|
                0 <= j < s.len() && #[trigger] expired(s, delta)[k] == s[j].0,
    decreases s.len(),
{
    if s.len() > 0 {
        lemma_expired_from(s.drop_last(), delta);
        let rest = expired(s.drop_last(), delta);
        assert forall|k: int| 0 <= k < expired(s, delta).len() implies exists|j: int|
            0 <= j < s.len() && #[trigger] expired(s, delta)[k] == s[j].0 by {
            if k < rest.len() {
                let j = choose|j: int| 0 <= j < s.drop_last().len() && rest[k] == s.drop_last()[j].0;
                assert(s.drop_last()[j] == s[j]);
            } else {
                assert(expired(s, delta)[k] == s[s.len() - 1].0);
            }
        }
    }
}

/// A tick of the moles' lifetimes treats each mole on its own: a mole goes
/// away exactly when its lifetime finishes in this tick, and otherwise it
/// stays, with its lifetime ticked.
pub proof fn lemma_each_mole_stays_or_goes(s: Seq<(u64, TimerModel)>, delta: nat, k: int)
    requires
        distinct_ids(s),
        0 <= k < s.len(),
    ensures
        expired(s, delta).contains(s[k].0) <==> s[k].1.ticked(delta).just_finished(),
        !s[k].1.ticked(delta).just_finished() ==> survivors(s, delta).contains(
            (s[k].0, s[k].1.ticked(delta)),
        ),
        s[k].1.ticked(delta).just_finished() ==> !mole_ids(survivors(s, delta)).contains(s[k].0),
    decreases s.len(),
{
    if s[k].1.ticked(delta).just_finished() {
        lemma_finished_mole_leaves(s, delta, k);
    }
    let prev = s.drop_last();
    let n = s.len() - 1;
    let ticked = s[k].1.ticked(delta);
    assert forall|i: int, j: int|
        0 <= i < prev.len() && 0 <= j < prev.len() && i != j implies prev[i].0 != prev[j].0 by {
        assert(prev[i] == s[i] && prev[j] == s[j]);
    }
    if k == n {
        lemma_expired_from(prev, delta);
        if expired(prev, delta).contains(s[k].0) {
            let i = choose|i: int| 0 <= i < expired(prev, delta).len() && expired(prev, delta)[i] == s[k].0;
            let j = choose|j: int| 0 <= j < prev.len() && #[trigger] expired(prev, delta)[i] == prev[j].0;
            assert(prev[j] == s[j]);
        }
        if ticked.just_finished() {
            assert(expired(s, delta)[expired(prev, delta).len() as int] == s[k].0);
        } else {
            assert(expired(s, delta) == expired(prev, delta));
            assert(survivors(s, delta)[survivors(prev, delta).len() as int] == (s[k].0, ticked));
        }
    } else {
        assert(prev[k] == s[k]);
        lemma_each_mole_stays_or_goes(prev, delta, k);
        let last = s[n];
        assert(last.0 != s[k].0);
        if expired(prev, delta).contains(s[k].0) {
            let i = choose|i: int| 0 <= i < expired(prev, delta).len() && expired(prev, delta)[i] == s[k].0;
            if last.1.ticked(delta).just_finished() {
                assert(expired(s, delta)[i] == s[k].0);
            } else {
                assert(expired(s, delta)[i] == s[k].0);
            }
        }
        if expired(s, delta).contains(s[k].0) {
            let i = choose|i: int| 0 <= i < expired(s, delta).len() && expired(s, delta)[i] == s[k].0;
            if last.1.ticked(delta).just_finished() {
                if i < expired(prev, delta).len() {
                    assert(expired(prev, delta)[i] == s[k].0);
                }
            } else {
                assert(expired(prev, delta)[i] == s[k].0);
            }
        }
        if !ticked.just_finished() {
            let i = choose|i: int|
                0 <= i < survivors(prev, delta).len() && survivors(prev, delta)[i] == (s[k].0, ticked);
            assert(survivors(s, delta)[i] == (s[k].0, ticked));
        }
    }
}

/// The ids and lifetimes held in a vector of moles.
pub open spec fn entries_view(v: Seq<(u64, Mole)>) -> Seq<(u64, TimerModel)> {
    v.map_values(|e: (u64, Mole)| (e.0, e.1.lifetime@))
}

/// The moles that are up, each under an id of its own.
pub struct Moles {
    entries: Vec<(u64, Mole)>,
}

impl View for Moles {
    type V = Seq<(u64, TimerModel)>;

    closed spec fn view(&self) -> Seq<(u64, TimerModel)> {
        entries_view(self.entries@)
    }
}

impl Moles {
    #[verifier::type_invariant]
    spec fn inv(self) -> bool {
        distinct_ids(entries_view(self.entries@))
    }

    /// No mole is up.
    pub fn new() -> (m: Moles)
        ensures
            m@ == Seq::<(u64, TimerModel)>::empty(),
    {
        let m = Moles { entries: Vec::new() };
        assert(m@ =~= Seq::<(u64, TimerModel)>::empty());
        m
    }

    pub fn len(&self) -> (n: usize)
        ensures
            n == self@.len(),
    {
        self.entries.len()
    }

    /// The position of the mole with id `id`, if one is up.
    pub fn position(&self, id: u64) -> (r: Option<usize>)
        ensures
            match r {
                Some(k) => k < self@.len() && self@[k as int].0 == id,
                None => !mole_ids(self@).contains(id),
            },
    {
        let n = self.entries.len();
        let mut k: usize = 0;
        while k < n
            invariant
                n == self.entries@.len(),
                k <= n,
                forall|j: int| 0 <= j < k ==> self.entries@[j].0 != id,
            decreases n - k,
        {
            if self.entries[k].0 == id {
                return Some(k);
            }
            k = k + 1;
        }
        proof {
            if mole_ids(self@).contains(id) {
                let j = choose|j: int| 0 <= j < mole_ids(self@).len() && mole_ids(self@)[j] == id;
                assert(self.entries@[j].0 == id);
            }
        }
        None
    }

    /// Is the mole with id `id` up?
    pub fn contains(&self, id: u64) -> (r: bool)
        ensures
            r == mole_ids(self@).contains(id),
    {
        let r = self.position(id);
        proof {
            if let Some(k) = r {
                assert(mole_ids(self@)[k as int] == id);
            }
        }
        r.is_some()
    }

    /// Puts up a new mole under an id that no mole has.
    pub fn insert(&mut self, id: u64, mole: Mole)
        requires
            !mole_ids(old(self)@).contains(id),
        ensures
            final(self)@ == old(self)@.push((id, mole.lifetime@)),
            distinct_ids(final(self)@),
    {
        proof {
            use_type_invariant(&*self);
        }
        let ghost before = self@;
        let ghost lifetime = mole.lifetime@;
        let mut entries: Vec<(u64, Mole)> = Vec::new();
        std::mem::swap(&mut entries, &mut self.entries);
        assert(entries_view(entries@) == before);
        entries.push((id, mole));
        assert(entries_view(entries@) =~= before.push((id, lifetime)));
        proof {
            assert forall|i: int, j: int|
                0 <= i < entries_view(entries@).len() && 0 <= j < entries_view(entries@).len()
                    && i != j implies entries_view(entries@)[i].0 != entries_view(entries@)[j].0 by {
                if i == before.len() as int {
                    assert(mole_ids(before)[j] == before[j].0);
                } else if j == before.len() as int {
                    assert(mole_ids(before)[i] == before[i].0);
                }
            }
        }
        self.entries = entries;
    }

    /// Takes down the mole with id `id`; says whether one was up.
    pub fn remove(&mut self, id: u64) -> (removed: bool)
        ensures
            removed == mole_ids(old(self)@).contains(id),
            removed ==> exists|k: int|
                0 <= k < old(self)@.len() && old(self)@[k].0 == id && final(self)@ == old(self)@.remove(k),
            !removed ==> final(self)@ == old(self)@,
            distinct_ids(final(self)@),
    {
        proof {
            use_type_invariant(&*self);
        }
        match self.position(id) {
            None => false,
            Some(k) => {
                let ghost before = self@;
                let mut entries: Vec<(u64, Mole)> = Vec::new();
                std::mem::swap(&mut entries, &mut self.entries);
                assert(entries_view(entries@) == before);
                let _gone = entries.remove(k);
                assert(entries_view(entries@) =~= before.remove(k as int));
                proof {
                    assert(mole_ids(before)[k as int] == id);
                    assert forall|i: int, j: int|
                        0 <= i < entries_view(entries@).len() && 0 <= j < entries_view(entries@).len()
                            && i != j implies entries_view(entries@)[i].0 != entries_view(entries@)[j].0 by {
                        let ii = if i < k { i } else { i + 1 };
                        let jj = if j < k { j } else { j + 1 };
                        assert(entries_view(entries@)[i] == before[ii]);
                        assert(entries_view(entries@)[j] == before[jj]);
                    }
                }
                self.entries = entries;
                true
            }
        }
    }
}

/// Advances every mole's lifetime by `delta_nanos` and takes down those
/// whose lifetime finished in this tick. Returns their ids, in order.
pub fn tick_mole_lifetimes(moles: &mut Moles, delta_nanos: u64) -> (gone: Vec<u64>)
    ensures
        final(moles)@ == survivors(old(moles)@, delta_nanos as nat),
        gone@ == expired(old(moles)@, delta_nanos as nat),
        distinct_ids(final(moles)@),
        forall|k: int|
            0 <= k < old(moles)@.len() ==> (gone@.contains(#[trigger] old(moles)@[k].0)
                <==> old(moles)@[k].1.ticked(delta_nanos as nat).just_finished()),
        forall|k: int|
            0 <= k < old(moles)@.len() && (#[trigger] old(moles)@[k]).1.ticked(
                delta_nanos as nat,
            ).just_finished() ==> !mole_ids(final(moles)@).contains(old(moles)@[k].0),
        forall|k: int|
            0 <= k < old(moles)@.len() && !(#[trigger] old(moles)@[k]).1.ticked(
                delta_nanos as nat,
            ).just_finished() ==> final(moles)@.contains(
                (old(moles)@[k].0, old(moles)@[k].1.ticked(delta_nanos as nat)),
            ),
{
    proof {
        use_type_invariant(&*moles);
    }
    let ghost before = moles@;
    let mut rest: Vec<(u64, Mole)> = Vec::new();
    std::mem::swap(&mut rest, &mut moles.entries);
    assert(entries_view(rest@) == before);
    let mut kept: Vec<(u64, Mole)> = Vec::new();
    let mut gone: Vec<u64> = Vec::new();
    let n = rest.len();
    let mut i: usize = 0;
    assert(before.take(0) =~= Seq::<(u64, TimerModel)>::empty());
    assert(entries_view(kept@) =~= Seq::<(u64, TimerModel)>::empty());
    while i < n
        invariant
            n == before.len(),
            i <= n,
            distinct_ids(before),
            entries_view(rest@) == before.skip(i as int),
            entries_view(kept@) == survivors(before.take(i as int), delta_nanos as nat),
            gone@ == expired(before.take(i as int), delta_nanos as nat),
            distinct_ids(entries_view(kept@)),
        decreases n - i,
    {
        let ghost rest_before = rest@;
        assert(entries_view(rest_before).len() == rest_before.len());
        assert(entries_view(rest_before)[0] == before[i as int]);
        let (id, mut mole) = rest.remove(0);
        assert(entries_view(rest@) =~= before.skip(i + 1)) by {
            assert forall|j: int| 0 <= j < rest@.len() implies entries_view(rest@)[j] == before.skip(i + 1)[j] by {
                assert(rest@[j] == rest_before[j + 1]);
                assert(entries_view(rest_before)[j + 1] == before.skip(i as int)[j + 1]);
            }
        }
        mole.lifetime.tick(delta_nanos);
        let ghost prefix = before.take(i + 1);
        assert(prefix.drop_last() =~= before.take(i as int));
        assert(prefix.last() == before[i as int]);
        if mole.lifetime.just_finished() {
            gone.push(id);
        } else {
            let ghost old_kept = entries_view(kept@);
            proof {
                lemma_survivors_from(before.take(i as int), delta_nanos as nat);
                assert forall|k: int| 0 <= k < old_kept.len() implies old_kept[k].0 != id by {
                    let j = choose|j: int|
                        0 <= j < before.take(i as int).len() && #[trigger] survivors(
                            before.take(i as int),
                            delta_nanos as nat,
                        )[k].0 == before.take(i as int)[j].0;
                    assert(before.take(i as int)[j] == before[j]);
                }
            }
            kept.push((id, mole));
            assert(entries_view(kept@) =~= old_kept.push((before[i as int].0, before[i as int].1.ticked(delta_nanos as nat))));
        }
        i = i + 1;
    }
    assert(before.take(n as int) =~= before);
    moles.entries = kept;
    proof {
        let d = delta_nanos as nat;
        assert forall|k: int| 0 <= k < before.len() implies (gone@.contains(#[trigger] before[k].0)
            <==> before[k].1.ticked(d).just_finished()) by {
            lemma_each_mole_stays_or_goes(before, d, k);
        }
        assert forall|k: int|
            0 <= k < before.len() && (#[trigger] before[k]).1.ticked(d).just_finished() implies !mole_ids(
                moles@,
            ).contains(before[k].0) by {
            lemma_finished_mole_leaves(before, d, k);
        }
        assert forall|k: int|
            0 <= k < before.len() && !(#[trigger] before[k]).1.ticked(d).just_finished() implies moles@.contains(
                (before[k].0, before[k].1.ticked(d)),
            ) by {
            lemma_each_mole_stays_or_goes(before, d, k);
        }
    }
    gone
}

/// Takes down every mole; returns their ids, in order.
pub fn despawn_all_moles(moles: &mut Moles) -> (gone: Vec<u64>)
    ensures
        gone@ == mole_ids(old(moles)@),
        final(moles)@ == Seq::<(u64, TimerModel)>::empty(),
{
    let ghost before = moles@;
    let mut rest: Vec<(u64, Mole)> = Vec::new();
    std::mem::swap(&mut rest, &mut moles.entries);
    assert(moles@ =~= Seq::<(u64, TimerModel)>::empty());
    let mut gone: Vec<u64> = Vec::new();
    let n = rest.len();
    let mut i: usize = 0;
    while i < n
        invariant
            n == rest@.len(),
            entries_view(rest@) == before,
            i <= n,
            gone@ == mole_ids(before).take(i as int),
        decreases n - i,
    {
        gone.push(rest[i].0);
        assert(gone@ =~= mole_ids(before).take(i + 1));
        i = i + 1;
    }
    assert(mole_ids(before).take(n as int) =~= mole_ids(before));
    gone
}

} // verus!
