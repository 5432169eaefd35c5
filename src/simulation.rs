//! The live particle list and its per-tick bookkeeping: stamping freshly
//! emitted particles with their creation time, and applying what the script's
//! `update` returned for each particle (replace, or remove).
//!
//! Clock values are microseconds since the simulation started. The particle
//! type itself is opaque here: only the script reads and builds particles.
use vstd::prelude::*;
use crate::emission::EmissionQueue;

verus! {

/// A live particle with the clock value at which it was created.
#[derive(Debug, PartialEq)]
pub struct ParticleWithTime<P> {
    pub start_time: u64,
    pub particle: P,
}

/// The particles emitted in one drain, each stamped with the drain's clock.
pub open spec fn stamped<P>(emitted: Seq<P>, clock: u64) -> Seq<ParticleWithTime<P>> {
    emitted.map_values(|p: P| ParticleWithTime { start_time: clock, particle: p })
}

/// The records that survive an update phase, in their order: the record at
/// position `i` survives exactly when `results[i]` holds a particle, and that
/// particle replaces the stored one while the creation time stays.
pub open spec fn survivors<P>(live: Seq<ParticleWithTime<P>>, results: Seq<Option<P>>) -> Seq<ParticleWithTime<P>>
    decreases results.len(),
{
    if results.len() == 0 || live.len() == 0 {
        Seq::empty()
    } else {
        let earlier = survivors(live.drop_last(), results.drop_last());
        match results.last() {
            Some(p) => earlier.push(ParticleWithTime { start_time: live.last().start_time, particle: p }),
            None => earlier,
        }
    }
}

/// The positions `i` at which `results[i]` holds a particle, in increasing
/// order.
pub open spec fn kept_positions<P>(results: Seq<Option<P>>) -> Seq<int>
    decreases results.len(),
{
    if results.len() == 0 {
        Seq::empty()
    } else {
        let earlier = kept_positions(results.drop_last());
        match results.last() {
            Some(_) => earlier.push(results.len() - 1),
            None => earlier,
        }
    }
}

/// The live particle list, together with the clock of the last drain.
#[derive(Debug)]
pub struct Particles<P> {
    clock: u64,
    live: Vec<ParticleWithTime<P>>,
}

impl<P> Particles<P> {
    /// The clock of the last drain.
    pub closed spec fn clock_spec(&self) -> u64 {
        self.clock
    }

    /// The live records, in list order.
    pub closed spec fn records(&self) -> Seq<ParticleWithTime<P>> {
        self.live@
    }

    /// No record was created after the current clock.
    pub open spec fn wf(&self) -> bool {
        forall|i: int| 0 <= i < self.records().len() ==> #[trigger] self.records()[i].start_time <= self.clock_spec()
    }

    /// An empty list at clock zero.
    pub fn new() -> (s: Self)
        ensures
            s.wf(),
            s.clock_spec() == 0,
            s.records() == Seq::<ParticleWithTime<P>>::empty(),
    {
        Particles { clock: 0, live: Vec::new() }
    }

    /// The clock of the last drain.
    pub fn clock(&self) -> (c: u64)
        ensures
            c == self.clock_spec(),
    {
        self.clock
    }

    /// Number of live particles.
    pub fn len(&self) -> (n: usize)
        ensures
            n == self.records().len(),
    {
        self.live.len()
    }

    /// The live records, in list order, for publishing.
    pub fn live(&self) -> (l: &Vec<ParticleWithTime<P>>)
        ensures
            l@ == self.records(),
    {
        &self.live
    }

    /// The particle stored at position `i`.
    pub fn particle(&self, i: usize) -> (p: &P)
        requires
            i < self.records().len(),
        ensures
            *p == self.records()[i as int].particle,
    {
        &self.live[i].particle
    }

    /// The age of the particle at position `i`: the current clock minus its
    /// creation time.
    pub fn elapsed(&self, i: usize) -> (t: u64)
        requires
            self.wf(),
            i < self.records().len(),
        ensures
            t == self.clock_spec() - self.records()[i as int].start_time,
    {
        self.clock - self.live[i].start_time
    }

    /// Update phase: `results[i]` is what the script's `update` returned for
    /// the particle at position `i`. A returned particle replaces the stored
    /// one and the record stays; an absent result removes the record. The
    /// survivors keep their order.
    pub fn apply_updates(&mut self, results: Vec<Option<P>>)
        requires
            old(self).wf(),
            results@.len() == old(self).records().len(),
        ensures
            final(self).wf(),
            final(self).clock_spec() == old(self).clock_spec(),
            final(self).records() == survivors(old(self).records(), results@),
    {
        let mut before: Vec<ParticleWithTime<P>> = Vec::new();
        std::mem::swap(&mut before, &mut self.live);
        let ghost answers = results@;
        let mut i: usize = 0;
        assert forall|k: int| 0 <= k < before@.len() implies #[trigger] before@[k].start_time <= self.clock by {
            assert(old(self).records()[k].start_time <= old(self).clock_spec());
        }
        for result in it: results
            invariant
                i == it.index(),
                it.seq() == answers,
                self.clock == old(self).clock,
                before@ == old(self).live@,
                forall|k: int| 0 <= k < before@.len() ==> #[trigger] before@[k].start_time <= self.clock,
                answers.len() == before@.len(),
                self.live@ == survivors(before@.take(it.index() as int), answers.take(it.index() as int)),
        {
            proof {
                assert(before@.take(i + 1).drop_last() == before@.take(i as int));
                assert(answers.take(i + 1).drop_last() == answers.take(i as int));
            }
            assert(i < before.len());
            let start_time = before[i].start_time;
            match result {
                Some(particle) => self.live.push(ParticleWithTime { start_time, particle }),
                None => {},
            }
            i = i + 1;
        }
        proof {
            assert(before@.take(before@.len() as int) == before@);
            assert(answers.take(answers.len() as int) == answers);
            lemma_lifecycle(before@, answers);
            let kept = kept_positions(answers);
            assert forall|j: int| 0 <= j < self.live@.len() implies #[trigger] self.live@[j].start_time <= self.clock by {
                assert(0 <= kept[j] < answers.len());
                assert(before@[kept[j]].start_time <= self.clock);
            }
        }
    }

    /// Drain phase: moves the clock to `clock` and appends every particle
    /// pending in `queue`, in emission order, each stamped with `clock`. The
    /// queue is left empty.
    pub fn drain_emitted(&mut self, queue: &mut EmissionQueue<P>, clock: u64)
        requires
            old(self).wf(),
            old(self).clock_spec() <= clock,
        ensures
            final(self).wf(),
            final(self).clock_spec() == clock,
            final(self).records() == old(self).records() + stamped(old(queue)@, clock),
            final(queue)@ == Seq::<P>::empty(),
    {
        let emitted = queue.take_all();
        self.clock = clock;
        let ghost before = self.live@;
        let ghost pending = emitted@;
        assert forall|i: int| 0 <= i < before.len() implies #[trigger] before[i].start_time <= clock by {
            assert(old(self).records()[i].start_time <= old(self).clock_spec());
        }
        for particle in it: emitted
            invariant
                self.clock == clock,
                it.seq() == pending,
                forall|i: int| 0 <= i < before.len() ==> #[trigger] before[i].start_time <= clock,
                self.live@ == before + stamped(pending.take(it.index() as int), clock),
        {
            proof {
                assert(pending.take(it.index() + 1) == pending.take(it.index() as int).push(particle));
            }
            self.live.push(ParticleWithTime { start_time: clock, particle });
        }
    }
}


/// Each live record survives an update phase exactly when `update` returned
/// a particle for it: the survivors are, in list order, the records at the
/// positions where a particle came back, each now holding that particle and
/// keeping its creation time; no other record is present.
pub proof fn lemma_lifecycle<P>(live: Seq<ParticleWithTime<P>>, results: Seq<Option<P>>)
    requires
        live.len() == results.len(),
    ensures
        ({
            let after = survivors(live, results);
            let kept = kept_positions(results);
            &&& after.len() == kept.len()
            &&& forall|j: int| 0 <= j < kept.len() ==> {
                &&& 0 <= #[trigger] kept[j] < results.len()
                &&& results[kept[j]] is Some
                &&& after[j] == (ParticleWithTime { start_time: live[kept[j]].start_time, particle: results[kept[j]]->Some_0 })
            }
            &&& forall|j1: int, j2: int| 0 <= j1 < j2 < kept.len() ==> #[trigger] kept[j1] < #[trigger] kept[j2]
            &&& forall|i: int| 0 <= i < results.len() ==> (#[trigger] results[i] is Some <==> kept.contains(i))
        }),
    decreases results.len(),
{
    if results.len() > 0 {
        let n = results.len() - 1;
        let (l0, r0) = (live.drop_last(), results.drop_last());
        lemma_lifecycle(l0, r0);
        let k0 = kept_positions(r0);
        assert forall|i: int| 0 <= i < results.len() implies (#[trigger] results[i] is Some <==> kept_positions(results).contains(i)) by {
            if i < n {
                assert(r0[i] == results[i]);
                if results[n] is Some {
                    if kept_positions(results).contains(i) {
                        let j = choose|j: int| 0 <= j < kept_positions(results).len() && kept_positions(results)[j] == i;
                        assert(j < k0.len());
                        assert(k0[j] == i);
                    }
                    if k0.contains(i) {
                        let j = choose|j: int| 0 <= j < k0.len() && k0[j] == i;
                        assert(kept_positions(results)[j] == i);
                    }
                }
            } else {
                if results[n] is Some {
                    assert(kept_positions(results)[k0.len() as int] == n);
                } else {
                    assert(!k0.contains(n));
                }
            }
        }
    }
}

/// A drain adds every emitted particle exactly once, at the end of the list
/// and in emission order, each with the drain's clock as creation time, and
/// keeps every earlier record where it was.
pub proof fn lemma_drain_complete<P>(live: Seq<ParticleWithTime<P>>, emitted: Seq<P>, clock: u64)
    ensures
        ({
            let after = live + stamped(emitted, clock);
            &&& after.len() == live.len() + emitted.len()
            &&& after.take(live.len() as int) == live
            &&& forall|i: int| 0 <= i < emitted.len() ==> #[trigger] after[live.len() + i] == (ParticleWithTime { start_time: clock, particle: emitted[i] })
        }),
{
    let after = live + stamped(emitted, clock);
    assert(after.take(live.len() as int) =~= live);
}

} // verus!
