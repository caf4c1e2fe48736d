//! The evolution engine: fitness-tiered mutation of single organisms, selection
//! pressure over a population, cycle-wise mutation-rate tuning and running
//! fitness statistics.
use vstd::prelude::*;
use vstd::multiset::Multiset;
use crate::crypto::{new_event_id, now_secs};
use crate::fixed::{clamp, MAX_FITNESS, UNIT};
use crate::dna::{drawn_mutation, mutation_valid, same_mutation, DNAError, DigitalDNA, Mutation};

verus! {

/// Heuristic category of the next mutation.
#[derive(Debug, Clone, Copy, PartialEq, Eq, Structural)]
pub enum MutationType {
    Beneficial,
    Neutral,
    Harmful,
    Adaptive,
}

/// Kinds of selection pressure.
#[derive(Debug, Clone, Copy, PartialEq, Eq, Structural)]
pub enum SelectionPressure {
    Natural,
    Sexual,
    Environmental,
    Competitive,
    Artificial,
}

/// How an evolution step ended.
#[derive(Debug, Clone, Copy, PartialEq, Eq, Structural)]
pub enum EvolutionOutcome {
    Success,
    Failed,
    Extinct,
    Speciation,
}

/// An organism of the population: an identifier and its genome.
#[derive(Debug, Clone)]
pub struct Organism {
    pub id: String,
    pub dna: DigitalDNA,
}

/// The record of one applied mutation.
#[derive(Debug, Clone)]
pub struct EvolutionEvent {
    pub event_id: String,
    pub organism_id: String,
    pub cycle: u64,
    pub mutation: Mutation,
    pub fitness_before: u64,
    pub fitness_after: u64,
    pub selection_pressure: u64,
    pub timestamp: u64,
    pub outcome: EvolutionOutcome,
}

/// Tunable thresholds, fixed-point where fractional.
#[derive(Debug, Clone)]
pub struct EvolutionParameters {
    pub base_mutation_rate: u64,
    pub max_mutations_per_cycle: usize,
    pub survival_threshold: u64,
    pub reproduction_threshold: u64,
    pub adaptation_factor: u64,
    pub sexual_selection_strength: u64,
}

/// Running fitness aggregate. `min_fitness` is `u64::MAX` until a value arrives.
#[derive(Debug, Clone)]
pub struct FitnessStats {
    pub average_fitness: u64,
    pub max_fitness: u64,
    pub min_fitness: u64,
    pub fitness_variance: u64,
    pub organism_count: usize,
}

/// Drives mutation, selection and statistics over organisms.
#[derive(Debug, Clone)]
pub struct EvolutionEngine {
    pub current_cycle: u64,
    /// Organisms with fitness below this are eliminated by selection.
    pub selection_pressure: u64,
    pub mutation_rate: u64,
    pub evolution_history: Vec<EvolutionEvent>,
    pub fitness_stats: FitnessStats,
    pub parameters: EvolutionParameters,
}

/// A read-only snapshot of an engine.
#[derive(Debug, Clone)]
pub struct EvolutionStats {
    pub current_cycle: u64,
    pub total_events: usize,
    pub successful_evolutions: usize,
    pub failed_evolutions: usize,
    pub average_fitness: u64,
    pub max_fitness: u64,
    pub min_fitness: u64,
    pub selection_pressure: u64,
    pub mutation_rate: u64,
}

/// Errors of the evolution engine.
#[derive(Debug, Clone)]
pub enum EvolutionError {
    InsufficientFitness(u64),
    MutationFailed(DNAError),
    SelectionPressureTooHigh(u64),
    PopulationExtinct,
    CycleLimitReached,
    DNA(DNAError),
}

impl From<DNAError> for EvolutionError {
    fn from(e: DNAError) -> (r: EvolutionError) {
        EvolutionError::DNA(e)
    }
}

impl vstd::std_specs::convert::FromSpecImpl<DNAError> for EvolutionError {
    open spec fn obeys_from_spec() -> bool {
        true
    }

    open spec fn from_spec(e: DNAError) -> EvolutionError {
        EvolutionError::DNA(e)
    }
}

/// Above this fitness (0.8) mutations are mostly random, sometimes key rotations;
/// an average above it slows the mutation rate.
pub const HIGH_FITNESS: u64 = 800_000_000;

/// Below this fitness (0.3) the adaptive duplication is chosen; an average
/// below it speeds the mutation rate up.
pub const LOW_FITNESS: u64 = 300_000_000;

/// Lowest engine mutation rate (0.001).
pub const MIN_MUTATION_RATE: u64 = 1_000_000;

/// Highest engine mutation rate (0.1).
pub const MAX_MUTATION_RATE: u64 = 100_000_000;

/// The mutation category for a fitness.
pub open spec fn mutation_type_of(fitness: u64) -> MutationType {
    if fitness > HIGH_FITNESS {
        MutationType::Beneficial
    } else if fitness < LOW_FITNESS {
        MutationType::Adaptive
    } else {
        MutationType::Neutral
    }
}

/// The engine mutation rate after one cycle with the given average fitness.
pub open spec fn tuned_rate(rate: nat, average: u64) -> nat {
    let scaled = if average > HIGH_FITNESS {
        rate * 9 / 10
    } else if average < LOW_FITNESS {
        rate * 11 / 10
    } else {
        rate
    };
    clamp(scaled as int, MIN_MUTATION_RATE as int, MAX_MUTATION_RATE as int) as nat
}

/// The running average after one more report.
pub open spec fn running_average(average: nat, count_before: nat, fitness: nat) -> nat {
    (average * count_before + fitness) / (count_before + 1)
}

impl FitnessStats {
    pub fn new() -> (r: FitnessStats)
        ensures
            r.average_fitness == 0,
            r.max_fitness == 0,
            r.min_fitness == u64::MAX,
            r.fitness_variance == 0,
            r.organism_count == 0,
    {
        FitnessStats {
            average_fitness: 0,
            max_fitness: 0,
            min_fitness: u64::MAX,
            fitness_variance: 0,
            organism_count: 0,
        }
    }

    /// `new` is `old` after one report of `fitness`.
    pub open spec fn reported(old: FitnessStats, new: FitnessStats, fitness: u64) -> bool {
        &&& new.organism_count == old.organism_count + 1
        &&& new.max_fitness == if fitness > old.max_fitness {
            fitness
        } else {
            old.max_fitness
        }
        &&& new.min_fitness == if fitness < old.min_fitness {
            fitness
        } else {
            old.min_fitness
        }
        &&& new.average_fitness == running_average(
            old.average_fitness as nat,
            old.organism_count as nat,
            fitness as nat,
        )
        &&& new.fitness_variance == old.fitness_variance
    }

    /// Folds one fitness value into the lifetime aggregate: count, maximum,
    /// minimum and the running mean of every value ever reported.
    pub fn update_fitness(&mut self, fitness: u64)
        requires
            old(self).organism_count < usize::MAX,
        ensures
            FitnessStats::reported(*old(self), *final(self), fitness),
    {
        let before = self.organism_count;
        self.organism_count = before + 1;
        if fitness > self.max_fitness {
            self.max_fitness = fitness;
        }
        if fitness < self.min_fitness {
            self.min_fitness = fitness;
        }
        let avg = self.average_fitness;
        let hi: u64 = if avg > fitness { avg } else { fitness };
        proof {
            assert((avg as int) * (before as int) <= 0xffff_ffff_ffff_ffff * 0xffff_ffff_ffff_ffff)
                by (nonlinear_arith)
                requires
                    avg <= 0xffff_ffff_ffff_ffffu64,
                    before <= 0xffff_ffff_ffff_ffffu64,
            ;
        }
        let total: u128 = (avg as u128) * (before as u128) + fitness as u128;
        proof {
            assert((avg as int) * (before as int) <= (hi as int) * (before as int)) by (
            nonlinear_arith)
                requires
                    avg <= hi,
                    before >= 0,
            ;
            assert((hi as int) * (before as int + 1) == (hi as int) * (before as int) + hi) by (
            nonlinear_arith);
            assert(total <= (hi as int) * (before as int + 1));
            assert((total as int) / (before as int + 1) <= hi) by (nonlinear_arith)
                requires
                    total <= (hi as int) * (before as int + 1),
                    before >= 0,
            ;
        }
        self.average_fitness = (total / (self.organism_count as u128)) as u64;
    }
}


impl Default for EvolutionParameters {
    fn default() -> (r: EvolutionParameters)
        ensures
            r.base_mutation_rate == 10_000_000,
            r.max_mutations_per_cycle == 3,
            r.survival_threshold == 100_000_000,
            r.reproduction_threshold == 600_000_000,
            r.adaptation_factor == 800_000_000,
            r.sexual_selection_strength == 500_000_000,
    {
        EvolutionParameters {
            base_mutation_rate: 10_000_000,
            max_mutations_per_cycle: 3,
            survival_threshold: 100_000_000,
            reproduction_threshold: 600_000_000,
            adaptation_factor: 800_000_000,
            sexual_selection_strength: 500_000_000,
        }
    }
}

/// `a` and `b` record the same event.
pub open spec fn same_event(a: EvolutionEvent, b: EvolutionEvent) -> bool {
    &&& a.event_id@ == b.event_id@
    &&& a.organism_id@ == b.organism_id@
    &&& a.cycle == b.cycle
    &&& same_mutation(a.mutation, b.mutation)
    &&& a.fitness_before == b.fitness_before
    &&& a.fitness_after == b.fitness_after
    &&& a.selection_pressure == b.selection_pressure
    &&& a.timestamp == b.timestamp
    &&& a.outcome == b.outcome
}

impl EvolutionEvent {
    /// A copy of this event.
    pub fn duplicate(&self) -> (r: EvolutionEvent)
        ensures
            same_event(r, *self),
    {
        EvolutionEvent {
            event_id: self.event_id.clone(),
            organism_id: self.organism_id.clone(),
            cycle: self.cycle,
            mutation: self.mutation.duplicate(),
            fitness_before: self.fitness_before,
            fitness_after: self.fitness_after,
            selection_pressure: self.selection_pressure,
            timestamp: self.timestamp,
            outcome: self.outcome,
        }
    }
}

/// The organisms of `s` whose fitness is at least `p`, in order.
pub open spec fn survivors(s: Seq<Organism>, p: u64) -> Seq<Organism>
    decreases s.len(),
{
    if s.len() == 0 {
        s
    } else if s.last().dna.fitness >= p {
        survivors(s.drop_last(), p).push(s.last())
    } else {
        survivors(s.drop_last(), p)
    }
}

/// The identifiers of the organisms of `s` whose fitness is below `p`, in order.
pub open spec fn eliminated_ids(s: Seq<Organism>, p: u64) -> Seq<Seq<char>>
    decreases s.len(),
{
    if s.len() == 0 {
        Seq::empty()
    } else if s.last().dna.fitness >= p {
        eliminated_ids(s.drop_last(), p)
    } else {
        eliminated_ids(s.drop_last(), p).push(s.last().id@)
    }
}

pub open spec fn fitness_sum(s: Seq<Organism>) -> nat
    decreases s.len(),
{
    if s.len() == 0 {
        0
    } else {
        fitness_sum(s.drop_last()) + s.last().dna.fitness as nat
    }
}

/// The largest fitness of `s`, or 0.
pub open spec fn fitness_max(s: Seq<Organism>) -> nat
    decreases s.len(),
{
    if s.len() == 0 {
        0
    } else {
        let m = fitness_max(s.drop_last());
        if s.last().dna.fitness > m {
            s.last().dna.fitness as nat
        } else {
            m
        }
    }
}

/// The smallest fitness of `s`, or `u64::MAX`.
pub open spec fn fitness_min(s: Seq<Organism>) -> nat
    decreases s.len(),
{
    if s.len() == 0 {
        u64::MAX as nat
    } else {
        let m = fitness_min(s.drop_last());
        if (s.last().dna.fitness as nat) < m {
            s.last().dna.fitness as nat
        } else {
            m
        }
    }
}

pub open spec fn squared_gap(a: nat, b: nat) -> nat {
    if a >= b {
        ((a - b) * (a - b)) as nat
    } else {
        ((b - a) * (b - a)) as nat
    }
}

/// The sum of squared deviations of the fitness values of `s` from `mean`.
pub open spec fn deviation_sum(s: Seq<Organism>, mean: nat) -> nat
    decreases s.len(),
{
    if s.len() == 0 {
        0
    } else {
        deviation_sum(s.drop_last(), mean) + squared_gap(s.last().dna.fitness as nat, mean)
    }
}

/// Every fitness of `s` is within bounds.
pub open spec fn fitness_bounded(s: Seq<Organism>) -> bool {
    forall|i: int| 0 <= i < s.len() ==> #[trigger] s[i].dna.fitness <= MAX_FITNESS
}

/// The aggregate of a non-empty population: count, mean, maximum, minimum and
/// the fixed-point variance `sum of squared deviations / (count * UNIT)`.
pub open spec fn population_stats(s: Seq<Organism>, stats: FitnessStats) -> bool {
    let n = s.len();
    let mean = fitness_sum(s) / n;
    &&& stats.organism_count == n
    &&& stats.average_fitness == mean
    &&& stats.max_fitness == fitness_max(s)
    &&& stats.min_fitness == fitness_min(s)
    &&& stats.fitness_variance == deviation_sum(s, mean) / (n * UNIT as nat)
}

/// How many events of `h` ended with `outcome`.
pub open spec fn outcome_count(h: Seq<EvolutionEvent>, outcome: EvolutionOutcome) -> nat
    decreases h.len(),
{
    if h.len() == 0 {
        0
    } else {
        outcome_count(h.drop_last(), outcome) + if h.last().outcome == outcome {
            1nat
        } else {
            0nat
        }
    }
}

proof fn lemma_outcome_count_bounded(h: Seq<EvolutionEvent>, outcome: EvolutionOutcome)
    ensures
        outcome_count(h, outcome) <= h.len(),
    decreases h.len(),
{
    if h.len() > 0 {
        lemma_outcome_count_bounded(h.drop_last(), outcome);
    }
}

proof fn lemma_sums_bounded(s: Seq<Organism>, mean: nat)
    requires
        fitness_bounded(s),
        mean <= MAX_FITNESS,
    ensures
        fitness_sum(s) <= s.len() * MAX_FITNESS,
        fitness_max(s) <= MAX_FITNESS,
        deviation_sum(s, mean) <= s.len() * (MAX_FITNESS * MAX_FITNESS),
    decreases s.len(),
{
    if s.len() > 0 {
        let t = s.drop_last();
        assert(fitness_bounded(t)) by {
            assert forall|i: int| 0 <= i < t.len() implies #[trigger] t[i].dna.fitness
                <= MAX_FITNESS by {
                assert(t[i] == s[i]);
            }
        }
        lemma_sums_bounded(t, mean);
        let f = s.last().dna.fitness as nat;
        assert(f <= MAX_FITNESS) by {
            assert(s.last() == s[s.len() - 1]);
        }
        assert(squared_gap(f, mean) <= MAX_FITNESS * MAX_FITNESS) by (nonlinear_arith)
            requires
                f <= MAX_FITNESS,
                mean <= MAX_FITNESS,
                squared_gap(f, mean) == if f >= mean {
                    ((f - mean) * (f - mean)) as nat
                } else {
                    ((mean - f) * (mean - f)) as nat
                },
        ;
        assert(s.len() * MAX_FITNESS == t.len() * MAX_FITNESS + MAX_FITNESS) by (nonlinear_arith)
            requires
                s.len() == t.len() + 1,
        ;
        assert(s.len() * (MAX_FITNESS * MAX_FITNESS) == t.len() * (MAX_FITNESS * MAX_FITNESS) + (
        MAX_FITNESS * MAX_FITNESS)) by (nonlinear_arith)
            requires
                s.len() == t.len() + 1,
        ;
    }
}

/// Whether `m` is a mutation that `generate_mutation` may pick for `dna`: below
/// `LOW_FITNESS` a duplication with bounds below the length, otherwise a valid
/// mutation that some random draws select (a key rotation is draw kind 6).
pub open spec fn fits_category(dna: DigitalDNA, m: Mutation) -> bool {
    let len = dna.sequence@.len();
    if dna.fitness < LOW_FITNESS {
        match m {
            Mutation::Duplication { start, end, insert_at, .. } => start < len && end < len
                && insert_at < len,
            _ => false,
        }
    } else {
        &&& mutation_valid(m, len)
        &&& exists|kind: u8, d1: usize, d2: usize, d3: usize, value: u8, fresh: Seq<u8>, timestamp: u64|
            #[trigger] drawn_mutation(dna, kind, d1, d2, d3, value, fresh, timestamp, m)
        &&& m is Deletion ==> m->Deletion_length >= 1
        &&& m is KeyEvolution ==> m->KeyEvolution_old_generation == dna.keypair.key_generation
            && m->KeyEvolution_new_generation == dna.keypair.key_generation + 1
    }
}

impl EvolutionEngine {
    /// An engine at cycle 0 with selection pressure 0.5, mutation rate 0.01,
    /// no history, empty statistics and default parameters.
    pub fn new() -> (r: Result<EvolutionEngine, EvolutionError>)
        ensures
            r.is_ok(),
            r.unwrap().current_cycle == 0,
            r.unwrap().selection_pressure == 500_000_000,
            r.unwrap().mutation_rate == 10_000_000,
            r.unwrap().evolution_history@.len() == 0,
            r.unwrap().fitness_stats.organism_count == 0,
            r.unwrap().fitness_stats.average_fitness == 0,
            r.unwrap().parameters.survival_threshold == 100_000_000,
    {
        Ok(EvolutionEngine {
            current_cycle: 0,
            selection_pressure: 500_000_000,
            mutation_rate: 10_000_000,
            evolution_history: Vec::new(),
            fitness_stats: FitnessStats::new(),
            parameters: EvolutionParameters::default(),
        })
    }

    /// Picks a mutation by fitness tier: above `HIGH_FITNESS` a key rotation
    /// one time in ten and a random mutation otherwise; below `LOW_FITNESS` a
    /// duplication with random bounds; in between a random mutation.
    fn generate_mutation(&self, dna: &DigitalDNA) -> (r: Mutation)
        requires
            dna.wf(),
            dna.sequence@.len() < usize::MAX,
            dna.keypair.key_generation < u64::MAX,
        ensures
            fits_category(*dna, r),
    {
        let len = dna.sequence.len();
        if dna.fitness > HIGH_FITNESS {
            if rand::random::<u32>() % 10 == 0 {
                let timestamp = now_secs();
                let r = Mutation::KeyEvolution {
                    old_generation: dna.keypair.key_generation,
                    new_generation: dna.keypair.key_generation + 1,
                    timestamp,
                };
                proof {
                    assert(drawn_mutation(*dna, 6, 0, 0, 0, 0, Seq::empty(), timestamp, r));
                }
                r
            } else {
                dna.generate_random_mutation()
            }
        } else if dna.fitness < LOW_FITNESS {
            Mutation::Duplication {
                start: rand::random::<usize>() % len,
                end: rand::random::<usize>() % len,
                insert_at: rand::random::<usize>() % len,
                timestamp: now_secs(),
            }
        } else {
            dna.generate_random_mutation()
        }
    }

    /// Applies one fitness-tiered mutation to `organism`, records the event and
    /// reports the new fitness to the running statistics. An organism below the
    /// survival threshold is refused and left as it was.
    pub fn evolve_organism(&mut self, organism: &mut Organism) -> (r: Result<
        EvolutionEvent,
        EvolutionError,
    >)
        requires
            old(organism).dna.wf(),
            old(organism).dna.generation < u64::MAX,
            old(organism).dna.metadata.biological_age < u64::MAX,
            old(organism).dna.keypair.key_generation < u64::MAX,
            old(organism).dna.sequence@.len() < usize::MAX,
            old(self).fitness_stats.organism_count < usize::MAX,
        ensures
            final(organism).dna.wf(),
            old(organism).dna.fitness < old(self).parameters.survival_threshold ==> {
                &&& r == Err::<EvolutionEvent, EvolutionError>(
                    EvolutionError::InsufficientFitness(old(organism).dna.fitness),
                )
                &&& *final(organism) == *old(organism)
                &&& *final(self) == *old(self)
            },
            (old(organism).dna.fitness >= old(self).parameters.survival_threshold
                && old(organism).dna.fitness >= LOW_FITNESS) ==> r.is_ok(),
            r.is_err() ==> *final(organism) == *old(organism) && *final(self) == *old(self),
            r.is_err() && old(organism).dna.fitness >= old(self).parameters.survival_threshold
                ==> r.unwrap_err() is MutationFailed,
            r.is_ok() ==> {
                let event = r.unwrap();
                let before = old(organism).dna.fitness;
                let after = final(organism).dna.fitness;
                &&& before >= old(self).parameters.survival_threshold
                &&& exists|m: Mutation|
                    fits_category(old(organism).dna, m) && DigitalDNA::mutated(
                        old(organism).dna,
                        final(organism).dna,
                        m,
                    ) && same_mutation(event.mutation, m)
                &&& final(organism).id == old(organism).id
                &&& event.organism_id@ == old(organism).id@
                &&& event.cycle == old(self).current_cycle
                &&& event.fitness_before == before
                &&& event.fitness_after == after
                &&& event.selection_pressure == old(self).selection_pressure
                &&& event.outcome == if after > before {
                    EvolutionOutcome::Success
                } else {
                    EvolutionOutcome::Failed
                }
                &&& final(self).evolution_history@.len() == old(self).evolution_history@.len() + 1
                &&& final(self).evolution_history@.drop_last() == old(self).evolution_history@
                &&& same_event(final(self).evolution_history@.last(), event)
                &&& FitnessStats::reported(old(self).fitness_stats, final(self).fitness_stats, after)
                &&& final(self).current_cycle == old(self).current_cycle
                &&& final(self).selection_pressure == old(self).selection_pressure
                &&& final(self).mutation_rate == old(self).mutation_rate
                &&& final(self).parameters == old(self).parameters
            },
    {
        let fitness_before = organism.dna.fitness;
        if fitness_before < self.parameters.survival_threshold {
            return Err(EvolutionError::InsufficientFitness(fitness_before));
        }
        let mutation = self.generate_mutation(&organism.dna);
        let recorded = mutation.duplicate();
        let ghost applied = mutation;
        match organism.dna.mutate(mutation) {
            Ok(()) => {},
            Err(e) => {
                return Err(EvolutionError::MutationFailed(e));
            },
        }
        let fitness_after = organism.dna.fitness;
        let event = EvolutionEvent {
            event_id: new_event_id(),
            organism_id: organism.id.clone(),
            cycle: self.current_cycle,
            mutation: recorded,
            fitness_before,
            fitness_after,
            selection_pressure: self.selection_pressure,
            timestamp: now_secs(),
            outcome: if fitness_after > fitness_before {
                EvolutionOutcome::Success
            } else {
                EvolutionOutcome::Failed
            },
        };
        let record = event.duplicate();
        self.evolution_history.push(record);
        self.fitness_stats.update_fitness(fitness_after);
        proof {
            assert(self.evolution_history@.drop_last() =~= old(self).evolution_history@);
            assert(same_mutation(event.mutation, applied));
            assert(fits_category(old(organism).dna, applied));
            assert(DigitalDNA::mutated(old(organism).dna, organism.dna, applied));
        }
        Ok(event)
    }
}


/// Fitness never increases along `s`.
pub open spec fn descending(s: Seq<Organism>) -> bool {
    forall|a: int, b: int| 0 <= a < b < s.len() ==> #[trigger] s[a].dna.fitness >= #[trigger] s[b].dna.fitness
}

/// Sorts by descending fitness.
fn sort_by_fitness(organisms: &mut Vec<Organism>)
    ensures
        final(organisms)@.to_multiset() == old(organisms)@.to_multiset(),
        descending(final(organisms)@),
{
    broadcast use vstd::seq_lib::group_to_multiset_ensures, vstd::multiset::group_multiset_axioms;

    let ghost all = organisms@;
    let mut sorted: Vec<Organism> = Vec::new();
    while organisms.len() > 0
        invariant
            sorted@.to_multiset().add(organisms@.to_multiset()) == all.to_multiset(),
            descending(sorted@),
        decreases organisms@.len(),
    {
        let ghost rest = organisms@;
        let o = organisms.remove(0);
        proof {
            vstd::seq_lib::to_multiset_remove(rest, 0);
        }
        let mut j: usize = 0;
        while j < sorted.len() && sorted[j].dna.fitness >= o.dna.fitness
            invariant
                j <= sorted@.len(),
                forall|k: int| 0 <= k < j ==> #[trigger] sorted@[k].dna.fitness >= o.dna.fitness,
            decreases sorted@.len() - j,
        {
            j = j + 1;
        }
        let ghost before = sorted@;
        sorted.insert(j, o);
        proof {
            vstd::seq_lib::to_multiset_insert(before, j as int, o);
            assert(rest.to_multiset().count(o) > 0) by {
                assert(rest[0] == o);
                assert(rest.contains(o));
                vstd::seq_lib::to_multiset_contains(rest, o);
            }
            assert(sorted@.to_multiset().add(organisms@.to_multiset()) =~= all.to_multiset());
            assert forall|a: int, b: int| 0 <= a < b < sorted@.len() implies #[trigger] sorted@[a].dna.fitness
                >= #[trigger] sorted@[b].dna.fitness by {
                if b < j {
                    assert(sorted@[a] == before[a] && sorted@[b] == before[b]);
                } else if b == j {
                    assert(sorted@[a] == before[a]);
                } else if a == j {
                    assert(sorted@[b] == before[b - 1]);
                    assert(before[j as int].dna.fitness < o.dna.fitness);
                    if b - 1 > j {
                        assert(before[j as int].dna.fitness >= before[b - 1].dna.fitness);
                    }
                } else if a < j {
                    assert(sorted@[a] == before[a] && sorted@[b] == before[b - 1]);
                } else {
                    assert(sorted@[a] == before[a - 1] && sorted@[b] == before[b - 1]);
                }
            }
        }
    }
    proof {
        assert(organisms@.to_multiset() =~= Multiset::<Organism>::empty());
        assert(sorted@.to_multiset() =~= all.to_multiset());
    }
    *organisms = sorted;
}

proof fn lemma_permutation_keeps_bound(s: Seq<Organism>, t: Seq<Organism>)
    requires
        fitness_bounded(s),
        t.to_multiset() == s.to_multiset(),
    ensures
        fitness_bounded(t),
{
    broadcast use vstd::seq_lib::group_to_multiset_ensures;

    assert forall|i: int| 0 <= i < t.len() implies #[trigger] t[i].dna.fitness <= MAX_FITNESS by {
        assert(t.contains(t[i]));
        vstd::seq_lib::to_multiset_contains(t, t[i]);
        vstd::seq_lib::to_multiset_contains(s, t[i]);
        assert(s.contains(t[i]));
        let k = choose|k: int| 0 <= k < s.len() && s[k] == t[i];
        assert(s[k].dna.fitness <= MAX_FITNESS);
    }
}

impl EvolutionEngine {
    /// Sorts the population by descending fitness, removes the organisms whose
    /// fitness is below the selection pressure, returns their identifiers in
    /// that order and, when some organism remains, recomputes the statistics
    /// over the survivors.
    pub fn apply_selection_pressure(&mut self, organisms: &mut Vec<Organism>) -> (r: Result<
        Vec<String>,
        EvolutionError,
    >)
        requires
            fitness_bounded(old(organisms)@),
        ensures
            r.is_ok(),
            exists|sorted: Seq<Organism>|
                {
                    &&& sorted.to_multiset() == old(organisms)@.to_multiset()
                    &&& descending(sorted)
                    &&& final(organisms)@ == survivors(sorted, old(self).selection_pressure)
                    &&& r.unwrap()@.map_values(|id: String| id@) == eliminated_ids(
                        sorted,
                        old(self).selection_pressure,
                    )
                },
            descending(final(organisms)@),
            final(organisms)@.len() > 0 ==> population_stats(final(organisms)@, final(self).fitness_stats),
            final(organisms)@.len() == 0 ==> final(self).fitness_stats == old(self).fitness_stats,
            final(self).current_cycle == old(self).current_cycle,
            final(self).selection_pressure == old(self).selection_pressure,
            final(self).mutation_rate == old(self).mutation_rate,
            final(self).evolution_history == old(self).evolution_history,
            final(self).parameters == old(self).parameters,
    {
        let threshold = self.selection_pressure;
        sort_by_fitness(organisms);
        proof {
            lemma_permutation_keeps_bound(old(organisms)@, organisms@);
        }
        let ghost all = organisms@;
        let count = organisms.len();
        assert(all.len() == count);
        let mut kept: Vec<Organism> = Vec::new();
        let mut removed: Vec<String> = Vec::new();
        let mut i: usize = 0;
        while organisms.len() > 0
            invariant
                i <= all.len() <= usize::MAX,
                organisms@ == all.subrange(i as int, all.len() as int),
                kept@ == survivors(all.subrange(0, i as int), threshold),
                removed@.map_values(|id: String| id@) == eliminated_ids(
                    all.subrange(0, i as int),
                    threshold,
                ),
            decreases organisms@.len(),
        {
            let o = organisms.remove(0);
            proof {
                let pre = all.subrange(0, i as int);
                let next = all.subrange(0, i + 1);
                assert(next.drop_last() =~= pre);
                assert(next.last() == o);
            }
            if o.dna.fitness >= threshold {
                kept.push(o);
            } else {
                let ghost before = removed@;
                removed.push(o.id);
                proof {
                    assert(removed@.map_values(|id: String| id@) =~= before.map_values(
                        |id: String| id@,
                    ).push(o.id@));
                }
            }
            i = i + 1;
            proof {
                assert(organisms@ =~= all.subrange(i as int, all.len() as int));
            }
        }
        proof {
            assert(all.subrange(0, i as int) =~= all);
            assert(fitness_bounded(kept@)) by {
                lemma_survivors_keep_bound(all, threshold);
            }
            lemma_survivors_keep_order(all, threshold);
        }
        *organisms = kept;
        self.update_population_stats(organisms);
        Ok(removed)
    }

    /// Recomputes the statistics from scratch over a non-empty population; an
    /// empty one leaves them as they are.
    fn update_population_stats(&mut self, organisms: &Vec<Organism>)
        requires
            fitness_bounded(organisms@),
        ensures
            organisms@.len() > 0 ==> population_stats(organisms@, final(self).fitness_stats),
            organisms@.len() == 0 ==> final(self).fitness_stats == old(self).fitness_stats,
            final(self).current_cycle == old(self).current_cycle,
            final(self).selection_pressure == old(self).selection_pressure,
            final(self).mutation_rate == old(self).mutation_rate,
            final(self).evolution_history == old(self).evolution_history,
            final(self).parameters == old(self).parameters,
    {
        let n = organisms.len();
        if n == 0 {
            return;
        }
        let ghost s = organisms@;
        let mut sum: u128 = 0;
        let mut max: u64 = 0;
        let mut min: u64 = u64::MAX;
        let mut i: usize = 0;
        while i < n
            invariant
                i <= n == s.len(),
                s == organisms@,
                fitness_bounded(s),
                sum == fitness_sum(s.subrange(0, i as int)),
                max == fitness_max(s.subrange(0, i as int)),
                min == fitness_min(s.subrange(0, i as int)),
            decreases n - i,
        {
            let f = organisms[i].dna.fitness;
            proof {
                let next = s.subrange(0, i + 1);
                assert(next.drop_last() =~= s.subrange(0, i as int));
                lemma_sums_bounded(s.subrange(0, i as int), 0);
                assert(fitness_bounded(s.subrange(0, i as int))) by {
                    assert forall|j: int| 0 <= j < i implies #[trigger] s.subrange(
                        0,
                        i as int,
                    )[j].dna.fitness <= MAX_FITNESS by {
                        assert(s.subrange(0, i as int)[j] == s[j]);
                    }
                }
                lemma_sums_bounded(s.subrange(0, i as int), 0);
                assert(i * MAX_FITNESS <= 0xffff_ffff_ffff_ffff * MAX_FITNESS) by (nonlinear_arith)
                    requires
                        i <= 0xffff_ffff_ffff_ffff,
                ;
                assert(f <= MAX_FITNESS);
            }
            sum = sum + f as u128;
            if f > max {
                max = f;
            }
            if f < min {
                min = f;
            }
            i = i + 1;
        }
        proof {
            assert(s.subrange(0, n as int) =~= s);
            lemma_sums_bounded(s, 0);
            assert((sum as int) / (n as int) <= MAX_FITNESS) by (nonlinear_arith)
                requires
                    sum <= n * MAX_FITNESS,
                    n > 0,
            ;
        }
        let mean: u64 = (sum / (n as u128)) as u64;
        let mut deviation: u128 = 0;
        let mut j: usize = 0;
        while j < n
            invariant
                j <= n == s.len(),
                s == organisms@,
                fitness_bounded(s),
                mean <= MAX_FITNESS,
                deviation == deviation_sum(s.subrange(0, j as int), mean as nat),
            decreases n - j,
        {
            let f = organisms[j].dna.fitness;
            proof {
                let next = s.subrange(0, j + 1);
                assert(next.drop_last() =~= s.subrange(0, j as int));
                assert(fitness_bounded(s.subrange(0, j as int))) by {
                    assert forall|k: int| 0 <= k < j implies #[trigger] s.subrange(
                        0,
                        j as int,
                    )[k].dna.fitness <= MAX_FITNESS by {
                        assert(s.subrange(0, j as int)[k] == s[k]);
                    }
                }
                lemma_sums_bounded(s.subrange(0, j as int), mean as nat);
                assert(j * (MAX_FITNESS * MAX_FITNESS) <= 0xffff_ffff_ffff_ffff * (MAX_FITNESS
                    * MAX_FITNESS)) by (nonlinear_arith)
                    requires
                        j <= 0xffff_ffff_ffff_ffff,
                ;
                assert(f <= MAX_FITNESS);
            }
            let gap: u128 = if f >= mean {
                (f - mean) as u128
            } else {
                (mean - f) as u128
            };
            proof {
                assert(gap * gap <= MAX_FITNESS * MAX_FITNESS) by (nonlinear_arith)
                    requires
                        gap <= MAX_FITNESS,
                ;
            }
            deviation = deviation + gap * gap;
            j = j + 1;
        }
        proof {
            assert(s.subrange(0, n as int) =~= s);
            lemma_sums_bounded(s, mean as nat);
            let q = (deviation as int) / (n as int * UNIT as int);
            assert(q <= MAX_FITNESS * MAX_FITNESS / (UNIT as int)) by (nonlinear_arith)
                requires
                    deviation <= n * (MAX_FITNESS * MAX_FITNESS),
                    n > 0,
                    q == (deviation as int) / (n as int * UNIT as int),
                    UNIT > 0,
            ;
        }
        self.fitness_stats.organism_count = n;
        self.fitness_stats.average_fitness = mean;
        self.fitness_stats.max_fitness = max;
        self.fitness_stats.min_fitness = min;
        self.fitness_stats.fitness_variance = (deviation / ((n as u128) * (UNIT as u128))) as u64;
    }

    /// A snapshot: cycle, event counts by outcome, current fitness statistics,
    /// selection pressure and mutation rate.
    pub fn get_stats(&self) -> (r: EvolutionStats)
        ensures
            r.current_cycle == self.current_cycle,
            r.total_events == self.evolution_history@.len(),
            r.successful_evolutions == outcome_count(
                self.evolution_history@,
                EvolutionOutcome::Success,
            ),
            r.failed_evolutions == outcome_count(self.evolution_history@, EvolutionOutcome::Failed),
            r.average_fitness == self.fitness_stats.average_fitness,
            r.max_fitness == self.fitness_stats.max_fitness,
            r.min_fitness == self.fitness_stats.min_fitness,
            r.selection_pressure == self.selection_pressure,
            r.mutation_rate == self.mutation_rate,
    {
        let h = &self.evolution_history;
        let mut successes: usize = 0;
        let mut failures: usize = 0;
        let mut i: usize = 0;
        while i < h.len()
            invariant
                i <= h@.len(),
                successes == outcome_count(h@.subrange(0, i as int), EvolutionOutcome::Success),
                failures == outcome_count(h@.subrange(0, i as int), EvolutionOutcome::Failed),
            decreases h@.len() - i,
        {
            proof {
                let next = h@.subrange(0, i + 1);
                assert(next.drop_last() =~= h@.subrange(0, i as int));
                lemma_outcome_count_bounded(h@.subrange(0, i as int), EvolutionOutcome::Success);
                lemma_outcome_count_bounded(h@.subrange(0, i as int), EvolutionOutcome::Failed);
            }
            match h[i].outcome {
                EvolutionOutcome::Success => {
                    successes = successes + 1;
                },
                EvolutionOutcome::Failed => {
                    failures = failures + 1;
                },
                _ => {},
            }
            i = i + 1;
        }
        proof {
            assert(h@.subrange(0, h@.len() as int) =~= h@);
        }
        EvolutionStats {
            current_cycle: self.current_cycle,
            total_events: h.len(),
            successful_evolutions: successes,
            failed_evolutions: failures,
            average_fitness: self.fitness_stats.average_fitness,
            max_fitness: self.fitness_stats.max_fitness,
            min_fitness: self.fitness_stats.min_fitness,
            selection_pressure: self.selection_pressure,
            mutation_rate: self.mutation_rate,
        }
    }

    /// Moves to the next cycle and tunes the mutation rate to the average
    /// fitness: times 0.9 above `HIGH_FITNESS`, times 1.1 below `LOW_FITNESS`,
    /// then clamped to `[MIN_MUTATION_RATE, MAX_MUTATION_RATE]`.
    pub fn advance_cycle(&mut self)
        requires
            old(self).current_cycle < u64::MAX,
        ensures
            final(self).current_cycle == old(self).current_cycle + 1,
            final(self).mutation_rate == tuned_rate(
                old(self).mutation_rate as nat,
                old(self).fitness_stats.average_fitness,
            ),
            final(self).selection_pressure == old(self).selection_pressure,
            final(self).evolution_history == old(self).evolution_history,
            final(self).fitness_stats == old(self).fitness_stats,
            final(self).parameters == old(self).parameters,
    {
        self.current_cycle = self.current_cycle + 1;
        let rate = self.mutation_rate as u128;
        let average = self.fitness_stats.average_fitness;
        let scaled: u128 = if average > HIGH_FITNESS {
            rate * 9 / 10
        } else if average < LOW_FITNESS {
            rate * 11 / 10
        } else {
            rate
        };
        self.mutation_rate = if scaled < MIN_MUTATION_RATE as u128 {
            MIN_MUTATION_RATE
        } else if scaled > MAX_MUTATION_RATE as u128 {
            MAX_MUTATION_RATE
        } else {
            scaled as u64
        };
    }
}

proof fn lemma_survivors_keep_bound(s: Seq<Organism>, p: u64)
    requires
        fitness_bounded(s),
    ensures
        fitness_bounded(survivors(s, p)),
    decreases s.len(),
{
    if s.len() > 0 {
        let t = s.drop_last();
        assert(fitness_bounded(t)) by {
            assert forall|i: int| 0 <= i < t.len() implies #[trigger] t[i].dna.fitness
                <= MAX_FITNESS by {
                assert(t[i] == s[i]);
            }
        }
        lemma_survivors_keep_bound(t, p);
        assert(s.last() == s[s.len() - 1]);
    }
}


/// Selection splits a population in two: every survivor has fitness at least
/// `p`, and each organism either survives or has its identifier eliminated.
pub proof fn selection_partition(s: Seq<Organism>, p: u64)
    ensures
        forall|i: int| 0 <= i < survivors(s, p).len() ==> #[trigger] survivors(s, p)[i].dna.fitness >= p,
        survivors(s, p).len() + eliminated_ids(s, p).len() == s.len(),
    decreases s.len(),
{
    if s.len() > 0 {
        selection_partition(s.drop_last(), p);
    }
}

/// With the rate strictly inside its bounds, a healthy average (above
/// `HIGH_FITNESS`) strictly lowers the mutation rate and a struggling one
/// (below `LOW_FITNESS`) strictly raises it.
pub proof fn rate_tuning_direction(rate: nat, average: u64)
    ensures
        MIN_MUTATION_RATE < rate <= MAX_MUTATION_RATE && average > HIGH_FITNESS ==> tuned_rate(
            rate,
            average,
        ) < rate,
        MIN_MUTATION_RATE <= rate < MAX_MUTATION_RATE && average < LOW_FITNESS ==> tuned_rate(
            rate,
            average,
        ) > rate,
{
}

proof fn lemma_survivors_keep_order(s: Seq<Organism>, p: u64)
    requires
        descending(s),
    ensures
        descending(survivors(s, p)),
        forall|i: int| 0 <= i < survivors(s, p).len() ==> s.contains(#[trigger] survivors(s, p)[i]),
    decreases s.len(),
{
    if s.len() > 0 {
        let t = s.drop_last();
        assert(descending(t)) by {
            assert forall|a: int, b: int| 0 <= a < b < t.len() implies #[trigger] t[a].dna.fitness
                >= #[trigger] t[b].dna.fitness by {
                assert(t[a] == s[a] && t[b] == s[b]);
            }
        }
        lemma_survivors_keep_order(t, p);
        let u = survivors(t, p);
        assert forall|i: int| 0 <= i < u.len() implies s.contains(#[trigger] u[i]) by {
            assert(t.contains(u[i]));
            let k = choose|k: int| 0 <= k < t.len() && t[k] == u[i];
            assert(s[k] == u[i]);
        }
        if s.last().dna.fitness >= p {
            let v = u.push(s.last());
            assert forall|a: int, b: int| 0 <= a < b < v.len() implies #[trigger] v[a].dna.fitness
                >= #[trigger] v[b].dna.fitness by {
                if b == u.len() {
                    assert(s.contains(u[a]));
                    let k = choose|k: int| 0 <= k < s.len() - 1 && t[k] == u[a];
                    assert(s[k] == u[a]);
                    assert(s[k].dna.fitness >= s[s.len() - 1].dna.fitness);
                } else {
                    assert(v[a] == u[a] && v[b] == u[b]);
                }
            }
            assert forall|i: int| 0 <= i < v.len() implies s.contains(#[trigger] v[i]) by {
                if i == u.len() {
                    assert(s[s.len() - 1] == v[i]);
                } else {
                    assert(v[i] == u[i]);
                }
            }
        }
    }
}

} // verus!
