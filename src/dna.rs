//! The genome: a mutable byte sequence bound to an Ed25519 keypair, with
//! metadata, a mutation log and a fixed-point fitness.
use vstd::prelude::*;
use crate::bytes::{hex_of, le_bytes, push_hex, push_le_bytes};
use crate::crypto::{
    ascii_string, public_key_of, seeded_secret_of, sha256, sha256_of, signature_accepted,
    signature_of,
};
use crate::fixed::{clamp, pow_nat, MAX_FITNESS, UNIT};

verus! {

/// A structural edit of a sequence, or a rotation of the keypair.
#[derive(Debug, Clone)]
pub enum Mutation {
    /// Sets the byte at `position` to `new_value`.
    PointMutation { position: usize, old_value: u8, new_value: u8, timestamp: u64 },
    /// Inserts `sequence` before `position`.
    Insertion { position: usize, sequence: Vec<u8>, timestamp: u64 },
    /// Removes `length` bytes starting at `position`.
    Deletion { position: usize, length: usize, timestamp: u64 },
    /// Copies `start..end` and inserts the copy before `insert_at` (or at the end).
    Duplication { start: usize, end: usize, insert_at: usize, timestamp: u64 },
    /// Reverses `start..end`.
    Inversion { start: usize, end: usize, timestamp: u64 },
    /// Moves `from_start..from_end` before `to_position` of what remains (or to its end).
    Translocation { from_start: usize, from_end: usize, to_position: usize, timestamp: u64 },
    /// Derives the next keypair from the current one.
    KeyEvolution { old_generation: u64, new_generation: u64, timestamp: u64 },
}

/// The signing keypair embedded in a genome.
#[derive(Debug, Clone)]
pub struct DNAKeypair {
    pub public_key: [u8; 32],
    /// Never leaves the process.
    pub secret_key: [u8; 32],
    pub key_generation: u64,
    /// The generations at which the keys were derived, oldest first.
    pub derivation_path: Vec<u32>,
}

/// Auxiliary scalars of a genome; the fractional ones are fixed-point (see `UNIT`).
#[derive(Debug, Clone)]
pub struct DNAMetadata {
    pub species: String,
    pub biological_age: u64,
    pub mutation_rate: u64,
    pub crossover_compatibility: u64,
    pub adaptation_score: u64,
    pub reproductive_success: u64,
    pub neural_complexity: u64,
}

/// The genetic state of one organism.
#[derive(Debug, Clone)]
pub struct DigitalDNA {
    pub sequence: Vec<u8>,
    pub generation: u64,
    pub mutations: Vec<Mutation>,
    /// Fixed-point fitness in `[0, MAX_FITNESS]`.
    pub fitness: u64,
    pub parent_hash: Option<String>,
    pub created_at: u64,
    pub keypair: DNAKeypair,
    pub metadata: DNAMetadata,
}

/// Errors of genome operations.
#[derive(Debug, Clone)]
pub enum DNAError {
    InvalidSecretKey,
    InvalidPublicKey,
    InvalidMutationPosition(usize),
    InvalidMutationRange(usize, usize),
    CrossoverIncompatible,
    SequenceTooShort,
    KeyEvolutionFailed,
    CryptographicError(String),
}

/// Sequence length of a freshly generated genome.
pub const INITIAL_SEQUENCE_LEN: usize = 64;

/// Fitness keeps this many hundredths on each applied mutation.
pub const MUTATION_FITNESS_KEEP: u64 = 98;

/// The mutation rate that each mutation pulls the current one towards (0.01).
pub const BASE_MUTATION_RATE: u64 = 10_000_000;

/// Lowest crossover compatibility that permits crossover (0.5).
pub const MIN_CROSSOVER_COMPATIBILITY: u64 = 500_000_000;

/// Shortest sequence that permits crossover.
pub const MIN_CROSSOVER_LEN: usize = 4;

pub open spec fn min_nat(a: nat, b: nat) -> nat {
    if a < b {
        a
    } else {
        b
    }
}

pub open spec fn max_nat(a: nat, b: nat) -> nat {
    if a > b {
        a
    } else {
        b
    }
}

/// `s` with its elements in reverse order.
pub open spec fn reversed(s: Seq<u8>) -> Seq<u8> {
    Seq::new(s.len(), |i: int| s[s.len() - 1 - i])
}

/// Whether `m` may be applied to a sequence of length `len`. A deletion never
/// removes the whole sequence.
pub open spec fn mutation_valid(m: Mutation, len: nat) -> bool {
    match m {
        Mutation::PointMutation { position, .. } => position < len,
        Mutation::Insertion { position, .. } => position <= len,
        Mutation::Deletion { position, length, .. } => position < len && position + length
            <= len && length < len,
        Mutation::Duplication { start, end, .. } => start < len && end <= len && start < end,
        Mutation::Inversion { start, end, .. } => start < len && end <= len && start < end,
        Mutation::Translocation { from_start, from_end, .. } => from_start < len && from_end
            <= len && from_start < from_end,
        Mutation::KeyEvolution { .. } => true,
    }
}

/// The error that rejects an invalid `m`.
pub open spec fn mutation_error(m: Mutation) -> DNAError {
    match m {
        Mutation::PointMutation { position, .. } => DNAError::InvalidMutationPosition(position),
        Mutation::Insertion { position, .. } => DNAError::InvalidMutationPosition(position),
        Mutation::Deletion { position, .. } => DNAError::InvalidMutationPosition(position),
        Mutation::Duplication { start, end, .. } => DNAError::InvalidMutationRange(start, end),
        Mutation::Inversion { start, end, .. } => DNAError::InvalidMutationRange(start, end),
        Mutation::Translocation { from_start, from_end, .. } => DNAError::InvalidMutationRange(
            from_start,
            from_end,
        ),
        Mutation::KeyEvolution { .. } => DNAError::KeyEvolutionFailed,
    }
}

/// The sequence that results from applying a valid `m` to `s`.
pub open spec fn applied_sequence(s: Seq<u8>, m: Mutation) -> Seq<u8> {
    match m {
        Mutation::PointMutation { position, new_value, .. } => s.update(position as int, new_value),
        Mutation::Insertion { position, sequence, .. } => s.subrange(0, position as int)
            + sequence@ + s.subrange(position as int, s.len() as int),
        Mutation::Deletion { position, length, .. } => s.subrange(0, position as int)
            + s.subrange(position + length, s.len() as int),
        Mutation::Duplication { start, end, insert_at, .. } => {
            let at = min_nat(insert_at as nat, s.len()) as int;
            s.subrange(0, at) + s.subrange(start as int, end as int) + s.subrange(at, s.len() as int)
        },
        Mutation::Inversion { start, end, .. } => s.subrange(0, start as int) + reversed(
            s.subrange(start as int, end as int),
        ) + s.subrange(end as int, s.len() as int),
        Mutation::Translocation { from_start, from_end, to_position, .. } => {
            let rest = s.subrange(0, from_start as int) + s.subrange(from_end as int, s.len() as int);
            let at = min_nat(to_position as nat, rest.len()) as int;
            rest.subrange(0, at) + s.subrange(from_start as int, from_end as int) + rest.subrange(
                at,
                rest.len() as int,
            )
        },
        Mutation::KeyEvolution { .. } => s,
    }
}

/// Fitness after the cost of one mutation.
pub open spec fn decayed(fitness: nat) -> nat {
    fitness * MUTATION_FITNESS_KEEP as nat / 100
}

/// Fitness after `n` mutations starting from `fitness`.
pub open spec fn decayed_n(fitness: nat, n: nat) -> nat
    decreases n,
{
    if n == 0 {
        fitness
    } else {
        decayed(decayed_n(fitness, (n - 1) as nat))
    }
}

/// The mutation rate after one mutation: `0.9 * rate + 0.1 * 0.01`.
pub open spec fn relaxed_rate(rate: nat) -> nat {
    (9 * rate + BASE_MUTATION_RATE as nat) / 10
}

/// The bytes from which the seed of the next keypair is hashed.
pub open spec fn key_seed_input(secret: Seq<u8>, generation: u64, sequence: Seq<u8>) -> Seq<u8> {
    secret + le_bytes(generation as nat, 8) + sequence
}

/// `new` is `old` rotated to `generation` over `sequence`.
pub open spec fn key_evolved(old: DNAKeypair, new: DNAKeypair, generation: u64, sequence: Seq<u8>) -> bool {
    &&& new.secret_key@ == seeded_secret_of(sha256_of(key_seed_input(old.secret_key@, generation, sequence)))
    &&& new.public_key@ == public_key_of(new.secret_key@)
    &&& new.key_generation == generation
    &&& new.derivation_path@ == old.derivation_path@.push(generation as u32)
}

/// The bytes that identify a genome: sequence, generation, public key.
pub open spec fn hash_input(sequence: Seq<u8>, generation: u64, public_key: Seq<u8>) -> Seq<u8> {
    sequence + le_bytes(generation as nat, 8) + public_key
}

/// The lowercase hex text of the SHA-256 digest of `hash_input`.
pub open spec fn hash_text(sequence: Seq<u8>, generation: u64, public_key: Seq<u8>) -> Seq<char> {
    hex_of(sha256_of(hash_input(sequence, generation, public_key))).map_values(|b: u8| b as char)
}

impl DigitalDNA {
    /// The bounds that every operation keeps.
    pub open spec fn wf(&self) -> bool {
        &&& self.sequence@.len() > 0
        &&& self.fitness <= MAX_FITNESS
        &&& self.metadata.mutation_rate <= UNIT
        &&& self.metadata.crossover_compatibility <= UNIT
        &&& self.metadata.adaptation_score <= UNIT
        &&& self.metadata.reproductive_success <= UNIT
        &&& self.metadata.neural_complexity <= UNIT
    }

    /// The content hash as text.
    pub open spec fn hash_view(&self) -> Seq<char> {
        hash_text(self.sequence@, self.generation, self.keypair.public_key@)
    }

    /// `new` is `old` after a successful application of `m`.
    pub open spec fn mutated(old: DigitalDNA, new: DigitalDNA, m: Mutation) -> bool {
        &&& new.sequence@ == applied_sequence(old.sequence@, m)
        &&& new.mutations@ == old.mutations@.push(m)
        &&& new.generation == old.generation + 1
        &&& new.metadata.biological_age == old.metadata.biological_age + 1
        &&& new.fitness == decayed(old.fitness as nat)
        &&& new.metadata.mutation_rate == relaxed_rate(old.metadata.mutation_rate as nat)
        &&& new.metadata.adaptation_score == old.metadata.adaptation_score * 95 / 100
        &&& new.metadata.species == old.metadata.species
        &&& new.metadata.crossover_compatibility == old.metadata.crossover_compatibility
        &&& new.metadata.reproductive_success == old.metadata.reproductive_success
        &&& new.metadata.neural_complexity == old.metadata.neural_complexity
        &&& new.parent_hash == old.parent_hash
        &&& new.created_at == old.created_at
        &&& match m {
            Mutation::KeyEvolution { new_generation, .. } => key_evolved(
                old.keypair,
                new.keypair,
                new_generation,
                old.sequence@,
            ),
            _ => new.keypair == old.keypair,
        }
    }
}

/// Appends `src[from..to]` to `out`.
fn extend_range(out: &mut Vec<u8>, src: &Vec<u8>, from: usize, to: usize)
    requires
        from <= to <= src@.len(),
    ensures
        final(out)@ == old(out)@ + src@.subrange(from as int, to as int),
{
    let mut i = from;
    while i < to
        invariant
            from <= i <= to <= src@.len(),
            out@ =~= old(out)@ + src@.subrange(from as int, i as int),
        decreases to - i,
    {
        out.push(src[i]);
        i = i + 1;
    }
}

/// Appends `src[from..to]` in reverse order to `out`.
fn extend_reversed(out: &mut Vec<u8>, src: &Vec<u8>, from: usize, to: usize)
    requires
        from <= to <= src@.len(),
    ensures
        final(out)@ == old(out)@ + reversed(src@.subrange(from as int, to as int)),
{
    let mut i = to;
    while i > from
        invariant
            from <= i <= to <= src@.len(),
            out@ =~= old(out)@ + reversed(src@.subrange(i as int, to as int)),
        decreases i - from,
    {
        i = i - 1;
        out.push(src[i]);
    }
}

/// The sequence that results from a structural mutation already checked valid.
fn edited_sequence(s: &Vec<u8>, m: &Mutation) -> (r: Vec<u8>)
    requires
        mutation_valid(*m, s@.len()),
    ensures
        r@ == applied_sequence(s@, *m),
{
    let len = s.len();
    let mut out: Vec<u8> = Vec::new();
    match m {
        Mutation::PointMutation { position, new_value, .. } => {
            extend_range(&mut out, s, 0, *position);
            out.push(*new_value);
            extend_range(&mut out, s, *position + 1, len);
            assert(out@ =~= applied_sequence(s@, *m));
        },
        Mutation::Insertion { position, sequence, .. } => {
            extend_range(&mut out, s, 0, *position);
            extend_range(&mut out, sequence, 0, sequence.len());
            extend_range(&mut out, s, *position, len);
            assert(sequence@.subrange(0, sequence@.len() as int) =~= sequence@);
        },
        Mutation::Deletion { position, length, .. } => {
            extend_range(&mut out, s, 0, *position);
            extend_range(&mut out, s, *position + *length, len);
        },
        Mutation::Duplication { start, end, insert_at, .. } => {
            let at = if *insert_at < len { *insert_at } else { len };
            extend_range(&mut out, s, 0, at);
            extend_range(&mut out, s, *start, *end);
            extend_range(&mut out, s, at, len);
        },
        Mutation::Inversion { start, end, .. } => {
            extend_range(&mut out, s, 0, *start);
            extend_reversed(&mut out, s, *start, *end);
            extend_range(&mut out, s, *end, len);
        },
        Mutation::Translocation { from_start, from_end, to_position, .. } => {
            let mut rest: Vec<u8> = Vec::new();
            extend_range(&mut rest, s, 0, *from_start);
            extend_range(&mut rest, s, *from_end, len);
            let rlen = rest.len();
            let at = if *to_position < rlen { *to_position } else { rlen };
            extend_range(&mut out, &rest, 0, at);
            extend_range(&mut out, s, *from_start, *from_end);
            extend_range(&mut out, &rest, at, rlen);
        },
        Mutation::KeyEvolution { .. } => {
            extend_range(&mut out, s, 0, len);
            assert(s@.subrange(0, len as int) =~= s@);
        },
    }
    out
}

/// Whether `m` may be applied to a sequence of length `len`.
fn check_mutation(m: &Mutation, len: usize) -> (r: Result<(), DNAError>)
    ensures
        r.is_ok() == mutation_valid(*m, len as nat),
        r.is_err() ==> r == Err::<(), DNAError>(mutation_error(*m)),
{
    match m {
        Mutation::PointMutation { position, .. } => {
            if *position < len {
                Ok(())
            } else {
                Err(DNAError::InvalidMutationPosition(*position))
            }
        },
        Mutation::Insertion { position, .. } => {
            if *position <= len {
                Ok(())
            } else {
                Err(DNAError::InvalidMutationPosition(*position))
            }
        },
        Mutation::Deletion { position, length, .. } => {
            if *position < len && *length <= len - *position && *length < len {
                Ok(())
            } else {
                Err(DNAError::InvalidMutationPosition(*position))
            }
        },
        Mutation::Duplication { start, end, .. } => {
            if *start < len && *end <= len && *start < *end {
                Ok(())
            } else {
                Err(DNAError::InvalidMutationRange(*start, *end))
            }
        },
        Mutation::Inversion { start, end, .. } => {
            if *start < len && *end <= len && *start < *end {
                Ok(())
            } else {
                Err(DNAError::InvalidMutationRange(*start, *end))
            }
        },
        Mutation::Translocation { from_start, from_end, .. } => {
            if *from_start < len && *from_end <= len && *from_start < *from_end {
                Ok(())
            } else {
                Err(DNAError::InvalidMutationRange(*from_start, *from_end))
            }
        },
        Mutation::KeyEvolution { .. } => Ok(()),
    }
}

impl DigitalDNA {
    /// Whether the genome is within the bounds that every operation keeps.
    pub fn is_well_formed(&self) -> (r: bool)
        ensures
            r == self.wf(),
    {
        self.sequence.len() > 0 && self.fitness <= MAX_FITNESS && self.metadata.mutation_rate <= UNIT
            && self.metadata.crossover_compatibility <= UNIT && self.metadata.adaptation_score
            <= UNIT && self.metadata.reproductive_success <= UNIT
            && self.metadata.neural_complexity <= UNIT
    }

    /// Applies `mutation` atomically: on success the sequence, keypair,
    /// generation, log, fitness and metadata change together; on error nothing
    /// changes.
    pub fn mutate(&mut self, mutation: Mutation) -> (r: Result<(), DNAError>)
        requires
            old(self).wf(),
            old(self).generation < u64::MAX,
            old(self).metadata.biological_age < u64::MAX,
        ensures
            final(self).wf(),
            r.is_ok() == mutation_valid(mutation, old(self).sequence@.len()),
            r.is_ok() ==> DigitalDNA::mutated(*old(self), *final(self), mutation),
            r.is_err() ==> *final(self) == *old(self) && r == Err::<(), DNAError>(
                mutation_error(mutation),
            ),
    {
        match check_mutation(&mutation, self.sequence.len()) {
            Err(e) => {
                return Err(e);
            },
            Ok(()) => {},
        }
        match &mutation {
            Mutation::KeyEvolution { new_generation, .. } => {
                self.evolve_keys(*new_generation);
            },
            _ => {
                self.sequence = edited_sequence(&self.sequence, &mutation);
            },
        }
        proof {
            assert(self.sequence@.len() > 0) by {
                let s = old(self).sequence@;
                assert(applied_sequence(s, mutation).len() >= 1);
            }
        }
        self.mutations.push(mutation);
        self.generation = self.generation + 1;
        self.metadata.biological_age = self.metadata.biological_age + 1;
        self.fitness = self.fitness * MUTATION_FITNESS_KEEP / 100;
        self.metadata.mutation_rate = (9 * self.metadata.mutation_rate + BASE_MUTATION_RATE) / 10;
        self.metadata.adaptation_score = self.metadata.adaptation_score * 95 / 100;
        Ok(())
    }

    /// Derives the next keypair from `SHA-256(secret ‖ new_generation ‖ sequence)`
    /// and records `new_generation` in the derivation path. Always succeeds.
    pub fn evolve_keys(&mut self, new_generation: u64) -> (r: Result<(), DNAError>)
        ensures
            r.is_ok(),
            key_evolved(old(self).keypair, final(self).keypair, new_generation, old(self).sequence@),
            final(self).sequence == old(self).sequence,
            final(self).generation == old(self).generation,
            final(self).mutations == old(self).mutations,
            final(self).fitness == old(self).fitness,
            final(self).parent_hash == old(self).parent_hash,
            final(self).created_at == old(self).created_at,
            final(self).metadata == old(self).metadata,
    {
        let mut input: Vec<u8> = Vec::new();
        let secret = self.keypair.secret_key;
        let mut i: usize = 0;
        while i < 32
            invariant
                i <= 32,
                secret@.len() == 32,
                input@ =~= secret@.subrange(0, i as int),
            decreases 32 - i,
        {
            input.push(secret[i]);
            i = i + 1;
        }
        push_le_bytes(&mut input, new_generation as u128, 8);
        extend_range(&mut input, &self.sequence, 0, self.sequence.len());
        proof {
            assert(self.sequence@.subrange(0, self.sequence@.len() as int) =~= self.sequence@);
            assert(secret@.subrange(0, 32) =~= secret@);
            assert(input@ =~= key_seed_input(secret@, new_generation, self.sequence@));
        }
        let seed = sha256(input.as_slice());
        let new_secret = crate::crypto::seeded_secret(seed.as_slice());
        let new_public = crate::crypto::public_key_for(&new_secret);
        let mut path = self.keypair.derivation_path.clone();
        proof {
            assert(path@ =~= self.keypair.derivation_path@);
        }
        let step: u32 = #[verifier::truncate] (new_generation as u32);
        path.push(step);
        self.keypair = DNAKeypair {
            public_key: new_public,
            secret_key: new_secret,
            key_generation: new_generation,
            derivation_path: path,
        };
        Ok(())
    }
}


/// Number of positions below `n` where `a` and `b` differ.
pub open spec fn mismatches(a: Seq<u8>, b: Seq<u8>, n: nat) -> nat
    decreases n,
{
    if n == 0 {
        0
    } else {
        mismatches(a, b, (n - 1) as nat) + if a[n - 1] != b[n - 1] {
            1nat
        } else {
            0nat
        }
    }
}

/// Mismatches over the shared prefix plus the difference in length.
pub open spec fn differences(a: Seq<u8>, b: Seq<u8>) -> nat {
    let lo = min_nat(a.len(), b.len());
    let hi = max_nat(a.len(), b.len());
    mismatches(a, b, lo) + (hi - lo) as nat
}

/// Fixed-point `differences / longer length`, rounded down; 0 for two empty sequences.
pub open spec fn distance(a: Seq<u8>, b: Seq<u8>) -> nat {
    let hi = max_nat(a.len(), b.len());
    if hi == 0 {
        0
    } else {
        differences(a, b) * UNIT as nat / hi
    }
}

/// An exponential moving average step `(keep * old + (10 - keep) * score) / 10`,
/// clamped to `[0, hi]`.
pub open spec fn average_step(old: int, score: int, keep: int, hi: int) -> int {
    let total = keep * old + (10 - keep) * score;
    if total < 0 {
        0
    } else {
        clamp(total / 10, 0, hi)
    }
}

proof fn lemma_mismatches_bounded(a: Seq<u8>, b: Seq<u8>, n: nat)
    ensures
        mismatches(a, b, n) <= n,
    decreases n,
{
    if n > 0 {
        lemma_mismatches_bounded(a, b, (n - 1) as nat);
    }
}

proof fn lemma_mismatches_self(a: Seq<u8>, n: nat)
    ensures
        mismatches(a, a, n) == 0,
    decreases n,
{
    if n > 0 {
        lemma_mismatches_self(a, (n - 1) as nat);
    }
}

/// Appends the bytes of a 32-byte array.
fn extend_array(out: &mut Vec<u8>, src: &[u8; 32])
    ensures
        final(out)@ == old(out)@ + src@,
{
    let mut i: usize = 0;
    while i < 32
        invariant
            i <= 32,
            src@.len() == 32,
            out@ =~= old(out)@ + src@.subrange(0, i as int),
        decreases 32 - i,
    {
        out.push(src[i]);
        i = i + 1;
    }
    assert(src@.subrange(0, 32) =~= src@);
}

/// Ties a child to its parents' fields as crossover describes.
pub open spec fn crossover_child(
    a: DigitalDNA,
    b: DigitalDNA,
    draw1: usize,
    draw2: usize,
    keep_own_species: bool,
    base: DigitalDNA,
    child: DigitalDNA,
) -> bool {
    let m = min_nat(a.sequence@.len(), b.sequence@.len());
    let half = m / 2;
    let p1 = (draw1 as nat % half) as int;
    let p2 = (half + draw2 as nat % half) as int;
    &&& child.sequence@ == a.sequence@.subrange(0, p1) + b.sequence@.subrange(p1, p2)
        + a.sequence@.subrange(p2, a.sequence@.len() as int)
    &&& child.generation == max_nat(a.generation as nat, b.generation as nat) + 1
    &&& child.parent_hash.is_some()
    &&& child.parent_hash.unwrap()@ == a.hash_view()
    &&& child.fitness == max_nat(a.fitness as nat, b.fitness as nat) * 95 / 100
    &&& child.metadata.species == if keep_own_species {
        a.metadata.species
    } else {
        b.metadata.species
    }
    &&& child.metadata.biological_age == (a.metadata.biological_age + b.metadata.biological_age) / 2
    &&& child.metadata.mutation_rate == (a.metadata.mutation_rate + b.metadata.mutation_rate) / 2
    &&& child.metadata.crossover_compatibility == (a.metadata.crossover_compatibility
        + b.metadata.crossover_compatibility) / 2
    &&& child.metadata.adaptation_score == (a.metadata.adaptation_score
        + b.metadata.adaptation_score) / 2
    &&& child.metadata.reproductive_success == (a.metadata.reproductive_success
        + b.metadata.reproductive_success) / 2
    &&& child.metadata.neural_complexity == (a.metadata.neural_complexity
        + b.metadata.neural_complexity) / 2
    &&& child.mutations == base.mutations
    &&& child.keypair == base.keypair
    &&& child.created_at == base.created_at
}

/// A summary of a genome.
#[derive(Debug, Clone)]
pub struct DNAInfo {
    pub hash: String,
    pub generation: u64,
    pub sequence_length: usize,
    pub fitness: u64,
    pub mutation_count: usize,
    pub biological_age: u64,
    pub species: String,
    pub mutation_rate: u64,
    pub adaptation_score: u64,
    pub neural_complexity: u64,
    pub created_at: u64,
    pub key_generation: u64,
}

impl DigitalDNA {
    /// The content hash: lowercase hex of SHA-256 over the sequence, the
    /// generation (8 bytes, little-endian) and the public key.
    pub fn get_hash(&self) -> (r: String)
        ensures
            r@ == self.hash_view(),
            r@.len() == 64,
    {
        let mut input: Vec<u8> = Vec::new();
        extend_range(&mut input, &self.sequence, 0, self.sequence.len());
        push_le_bytes(&mut input, self.generation as u128, 8);
        extend_array(&mut input, &self.keypair.public_key);
        proof {
            assert(self.sequence@.subrange(0, self.sequence@.len() as int) =~= self.sequence@);
            assert(input@ =~= hash_input(self.sequence@, self.generation, self.keypair.public_key@));
        }
        let digest = sha256(input.as_slice());
        let mut text: Vec<u8> = Vec::new();
        push_hex(&mut text, digest.as_slice());
        proof {
            assert(text@ =~= hex_of(digest@));
        }
        ascii_string(text)
    }

    /// Signs `data` with the genome's secret key.
    pub fn sign_data(&self, data: &[u8]) -> (r: Result<Vec<u8>, DNAError>)
        ensures
            r.is_ok(),
            r.unwrap()@ == signature_of(self.keypair.secret_key@, data@),
            signature_accepted(public_key_of(self.keypair.secret_key@), data@, r.unwrap()@),
    {
        Ok(crate::crypto::sign_message(&self.keypair.secret_key, data))
    }

    /// Whether `signature` is a valid signature of `data` under the genome's
    /// public key; `false` for a signature that is not 64 bytes long.
    pub fn verify_signature(&self, data: &[u8], signature: &[u8]) -> (r: bool)
        ensures
            r == (signature@.len() == 64 && signature_accepted(
                self.keypair.public_key@,
                data@,
                signature@,
            )),
    {
        if signature.len() == 64 {
            crate::crypto::signature_checks(&self.keypair.public_key, data, signature)
        } else {
            false
        }
    }

    /// Fixed-point distance in `[0, UNIT]`: mismatching positions over the
    /// shared prefix plus the length difference, over the longer length.
    pub fn genetic_distance(&self, other: &DigitalDNA) -> (r: u64)
        ensures
            r == distance(self.sequence@, other.sequence@),
            r <= UNIT,
    {
        let a = &self.sequence;
        let b = &other.sequence;
        let lo = if a.len() < b.len() { a.len() } else { b.len() };
        let hi = if a.len() < b.len() { b.len() } else { a.len() };
        if hi == 0 {
            return 0;
        }
        let mut diff: usize = 0;
        let mut i: usize = 0;
        while i < lo
            invariant
                i <= lo,
                lo == min_nat(a@.len(), b@.len()),
                diff == mismatches(a@, b@, i as nat),
                diff <= i,
            decreases lo - i,
        {
            if a[i] != b[i] {
                diff = diff + 1;
            }
            i = i + 1;
        }
        let total: u128 = diff as u128 + (hi - lo) as u128;
        proof {
            assert(total <= hi);
            assert(total * (UNIT as int) <= hi * (UNIT as int)) by (nonlinear_arith)
                requires
                    total <= hi,
            ;
            assert(total * (UNIT as int) / (hi as int) <= UNIT as int) by (nonlinear_arith)
                requires
                    total * (UNIT as int) <= hi * (UNIT as int),
                    hi > 0,
            ;
        }
        (total * (UNIT as u128) / (hi as u128)) as u64
    }

    /// Moves fitness towards `performance_score` with weight 0.1 and the
    /// adaptation score towards it with weight 0.2; fitness is clamped to
    /// `[0, MAX_FITNESS]`, the adaptation score to `[0, UNIT]`. The score is a
    /// signed fixed-point value.
    pub fn update_fitness(&mut self, performance_score: i64)
        requires
            old(self).wf(),
        ensures
            final(self).wf(),
            final(self).fitness == average_step(
                old(self).fitness as int,
                performance_score as int,
                9,
                MAX_FITNESS as int,
            ),
            final(self).metadata.adaptation_score == average_step(
                old(self).metadata.adaptation_score as int,
                performance_score as int,
                8,
                UNIT as int,
            ),
            final(self).sequence == old(self).sequence,
            final(self).generation == old(self).generation,
            final(self).mutations == old(self).mutations,
            final(self).keypair == old(self).keypair,
            final(self).parent_hash == old(self).parent_hash,
            final(self).created_at == old(self).created_at,
            final(self).metadata.mutation_rate == old(self).metadata.mutation_rate,
            final(self).metadata.crossover_compatibility == old(
                self,
            ).metadata.crossover_compatibility,
            final(self).metadata.species == old(self).metadata.species,
    {
        self.fitness = average_toward(self.fitness, performance_score, 9, MAX_FITNESS);
        self.metadata.adaptation_score = average_toward(
            self.metadata.adaptation_score,
            performance_score,
            8,
            UNIT,
        );
    }

    /// A summary of this genome.
    pub fn get_info(&self) -> (r: DNAInfo)
        ensures
            r.hash@ == self.hash_view(),
            r.generation == self.generation,
            r.sequence_length == self.sequence@.len(),
            r.fitness == self.fitness,
            r.mutation_count == self.mutations@.len(),
            r.biological_age == self.metadata.biological_age,
            r.species@ == self.metadata.species@,
            r.mutation_rate == self.metadata.mutation_rate,
            r.adaptation_score == self.metadata.adaptation_score,
            r.neural_complexity == self.metadata.neural_complexity,
            r.created_at == self.created_at,
            r.key_generation == self.keypair.key_generation,
    {
        DNAInfo {
            hash: self.get_hash(),
            generation: self.generation,
            sequence_length: self.sequence.len(),
            fitness: self.fitness,
            mutation_count: self.mutations.len(),
            biological_age: self.metadata.biological_age,
            species: self.metadata.species.clone(),
            mutation_rate: self.metadata.mutation_rate,
            adaptation_score: self.metadata.adaptation_score,
            neural_complexity: self.metadata.neural_complexity,
            created_at: self.created_at,
            key_generation: self.keypair.key_generation,
        }
    }
}

/// One moving-average step, as `average_step` states.
fn average_toward(old: u64, score: i64, keep: u64, hi: u64) -> (r: u64)
    requires
        keep <= 10,
        old <= hi <= MAX_FITNESS,
    ensures
        r == average_step(old as int, score as int, keep as int, hi as int),
        r <= hi,
{
    proof {
        assert((keep as int) * (old as int) <= 10 * MAX_FITNESS) by (nonlinear_arith)
            requires
                keep <= 10,
                old <= MAX_FITNESS,
        ;
        assert(0 <= (keep as int) * (old as int)) by (nonlinear_arith)
            requires
                keep <= 10,
        ;
        assert(((10 - keep) as int) * (score as int) <= 10 * 0x8000_0000_0000_0000) by (
        nonlinear_arith)
            requires
                keep <= 10,
                score < 0x8000_0000_0000_0000,
        ;
        assert(((10 - keep) as int) * (score as int) >= -10 * 0x8000_0000_0000_0000) by (
        nonlinear_arith)
            requires
                keep <= 10,
                score >= -0x8000_0000_0000_0000,
        ;
    }
    let kept: i128 = (keep as i128) * (old as i128);
    let moved: i128 = ((10 - keep) as i128) * (score as i128);
    let total: i128 = kept + moved;
    if total < 0 {
        0
    } else {
        let t = (total as u128) / 10;
        if t > hi as u128 {
            hi
        } else {
            t as u64
        }
    }
}


/// `a` and `b` are the same mutation: equal fields, inserted bytes compared by value.
pub open spec fn same_mutation(a: Mutation, b: Mutation) -> bool {
    match a {
        Mutation::Insertion { position, sequence, timestamp } => match b {
            Mutation::Insertion { position: p, sequence: s, timestamp: t } => position == p
                && sequence@ == s@ && timestamp == t,
            _ => false,
        },
        _ => a == b,
    }
}

impl Mutation {
    /// A copy of this mutation.
    pub fn duplicate(&self) -> (r: Mutation)
        ensures
            same_mutation(r, *self),
    {
        match self {
            Mutation::PointMutation { position, old_value, new_value, timestamp } => {
                Mutation::PointMutation {
                    position: *position,
                    old_value: *old_value,
                    new_value: *new_value,
                    timestamp: *timestamp,
                }
            },
            Mutation::Insertion { position, sequence, timestamp } => {
                let copy = sequence.clone();
                proof {
                    assert(copy@ =~= sequence@);
                }
                Mutation::Insertion { position: *position, sequence: copy, timestamp: *timestamp }
            },
            Mutation::Deletion { position, length, timestamp } => Mutation::Deletion {
                position: *position,
                length: *length,
                timestamp: *timestamp,
            },
            Mutation::Duplication { start, end, insert_at, timestamp } => Mutation::Duplication {
                start: *start,
                end: *end,
                insert_at: *insert_at,
                timestamp: *timestamp,
            },
            Mutation::Inversion { start, end, timestamp } => Mutation::Inversion {
                start: *start,
                end: *end,
                timestamp: *timestamp,
            },
            Mutation::Translocation { from_start, from_end, to_position, timestamp } => {
                Mutation::Translocation {
                    from_start: *from_start,
                    from_end: *from_end,
                    to_position: *to_position,
                    timestamp: *timestamp,
                }
            },
            Mutation::KeyEvolution { old_generation, new_generation, timestamp } => {
                Mutation::KeyEvolution {
                    old_generation: *old_generation,
                    new_generation: *new_generation,
                    timestamp: *timestamp,
                }
            },
        }
    }
}

/// `start` extended by one round per draw: each round appends the first four
/// bytes of the SHA-256 digest of the sequence so far followed by the draw.
pub open spec fn grown_sequence(start: Seq<u8>, draws: Seq<u64>) -> Seq<u8>
    decreases draws.len(),
{
    if draws.len() == 0 {
        start
    } else {
        let prev = grown_sequence(start, draws.drop_last());
        prev + sha256_of(prev + le_bytes(draws.last() as nat, 8)).subrange(0, 4)
    }
}

/// A fresh sequence for `public_key`: the digest of the key, a time in
/// nanoseconds and a random draw, grown by eight further random rounds.
pub open spec fn fresh_sequence(sequence: Seq<u8>, public_key: Seq<u8>) -> bool {
    exists|time: u128, entropy: u64, draws: Seq<u64>|
        draws.len() == 8 && sequence == grown_sequence(
            sha256_of(public_key + le_bytes(time as nat, 16) + le_bytes(entropy as nat, 8)),
            draws,
        )
}

/// `m` is the default metadata of a fresh genome.
pub open spec fn fresh_metadata(m: DNAMetadata) -> bool {
    &&& m.species@ == "TRON"@
    &&& m.biological_age == 0
    &&& m.mutation_rate == 10_000_000
    &&& m.crossover_compatibility == 800_000_000
    &&& m.adaptation_score == 500_000_000
    &&& m.reproductive_success == 0
    &&& m.neural_complexity == 100_000_000
}

impl DigitalDNA {
    /// A fresh genome: a new keypair, a 64-byte sequence hashed from the public
    /// key, the time and random entropy, generation 0, fitness 1.0, an empty
    /// log and default metadata.
    pub fn generate_new() -> (r: Result<DigitalDNA, DNAError>)
        ensures
            r.is_ok(),
            r.unwrap().wf(),
            r.unwrap().sequence@.len() == INITIAL_SEQUENCE_LEN,
            r.unwrap().generation == 0,
            r.unwrap().fitness == UNIT,
            r.unwrap().mutations@.len() == 0,
            r.unwrap().parent_hash.is_none(),
            r.unwrap().keypair.public_key@ == public_key_of(r.unwrap().keypair.secret_key@),
            r.unwrap().keypair.key_generation == 0,
            r.unwrap().keypair.derivation_path@ == seq![0u32],
            fresh_metadata(r.unwrap().metadata),
            fresh_sequence(r.unwrap().sequence@, r.unwrap().keypair.public_key@),
    {
        let secret = crate::crypto::fresh_secret();
        let public = crate::crypto::public_key_for(&secret);
        let mut input: Vec<u8> = Vec::new();
        extend_array(&mut input, &public);
        let time = crate::crypto::now_nanos();
        let entropy = rand::random::<u64>();
        push_le_bytes(&mut input, time, 16);
        push_le_bytes(&mut input, entropy as u128, 8);
        let mut sequence = sha256(input.as_slice());
        let ghost start = sequence@;
        let ghost mut draws: Seq<u64> = Seq::empty();
        let mut round: usize = 0;
        while round < 8
            invariant
                round <= 8,
                draws.len() == round,
                sequence@.len() == 32 + 4 * round,
                sequence@ == grown_sequence(start, draws),
            decreases 8 - round,
        {
            let mut buf: Vec<u8> = Vec::new();
            extend_range(&mut buf, &sequence, 0, sequence.len());
            let draw = rand::random::<u64>();
            push_le_bytes(&mut buf, draw as u128, 8);
            let digest = sha256(buf.as_slice());
            let ghost prev = sequence@;
            extend_range(&mut sequence, &digest, 0, 4);
            proof {
                assert(prev.subrange(0, prev.len() as int) =~= prev);
                assert(draws.push(draw).drop_last() =~= draws);
                draws = draws.push(draw);
            }
            round = round + 1;
        }
        proof {
            assert(input@ =~= public@ + le_bytes(time as nat, 16) + le_bytes(entropy as nat, 8));
            assert(fresh_sequence(sequence@, public@));
        }
        let mut path: Vec<u32> = Vec::new();
        path.push(0);
        Ok(DigitalDNA {
            sequence,
            generation: 0,
            mutations: Vec::new(),
            fitness: UNIT,
            parent_hash: None,
            created_at: crate::crypto::now_secs(),
            keypair: DNAKeypair {
                public_key: public,
                secret_key: secret,
                key_generation: 0,
                derivation_path: path,
            },
            metadata: DNAMetadata {
                species: "TRON".to_owned(),
                biological_age: 0,
                mutation_rate: BASE_MUTATION_RATE,
                crossover_compatibility: 800_000_000,
                adaptation_score: 500_000_000,
                reproductive_success: 0,
                neural_complexity: 100_000_000,
            },
        })
    }

    /// A fresh genome whose keypair is the one of the 32-byte `secret`.
    pub fn from_secret_key(secret: [u8; 32]) -> (r: Result<DigitalDNA, DNAError>)
        ensures
            r.is_ok(),
            r.unwrap().wf(),
            r.unwrap().sequence@.len() == INITIAL_SEQUENCE_LEN,
            r.unwrap().generation == 0,
            r.unwrap().fitness == UNIT,
            r.unwrap().mutations@.len() == 0,
            r.unwrap().parent_hash.is_none(),
            r.unwrap().keypair.secret_key == secret,
            r.unwrap().keypair.public_key@ == public_key_of(secret@),
            r.unwrap().keypair.key_generation == 0,
            r.unwrap().keypair.derivation_path@ == seq![0u32],
            fresh_metadata(r.unwrap().metadata),
            exists|key: Seq<u8>| fresh_sequence(r.unwrap().sequence@, key),
    {
        let public = crate::crypto::public_key_for(&secret);
        let mut dna = match DigitalDNA::generate_new() {
            Ok(d) => d,
            Err(e) => {
                return Err(e);
            },
        };
        let mut path: Vec<u32> = Vec::new();
        path.push(0);
        dna.keypair = DNAKeypair {
            public_key: public,
            secret_key: secret,
            key_generation: 0,
            derivation_path: path,
        };
        Ok(dna)
    }

    /// A fresh genome whose keypair is `signing_key`, as `from_secret_key` of its
    /// secret bytes.
    pub fn from_signing_key(signing_key: ed25519_dalek::SigningKey) -> (r: Result<
        DigitalDNA,
        DNAError,
    >)
        ensures
            r.is_ok(),
            r.unwrap().wf(),
            r.unwrap().sequence@.len() == INITIAL_SEQUENCE_LEN,
            r.unwrap().generation == 0,
            r.unwrap().fitness == UNIT,
            r.unwrap().mutations@.len() == 0,
            r.unwrap().parent_hash.is_none(),
            r.unwrap().keypair.public_key@ == public_key_of(r.unwrap().keypair.secret_key@),
            r.unwrap().keypair.key_generation == 0,
            r.unwrap().keypair.derivation_path@ == seq![0u32],
            fresh_metadata(r.unwrap().metadata),
            exists|key: Seq<u8>| fresh_sequence(r.unwrap().sequence@, key),
    {
        DigitalDNA::from_secret_key(crate::crypto::signing_key_secret(&signing_key))
    }
}


/// `m` is the mutation that the draws select for `g`: kind `kind % 7`, positions
/// reduced modulo the sequence length, ranges cut at its end. A deletion never
/// removes the whole sequence, so on a one-byte sequence the deletion draw
/// duplicates that byte instead.
pub open spec fn drawn_mutation(
    g: DigitalDNA,
    kind: u8,
    d1: usize,
    d2: usize,
    d3: usize,
    value: u8,
    fresh: Seq<u8>,
    timestamp: u64,
    m: Mutation,
) -> bool {
    let len = g.sequence@.len();
    let pos = d1 as nat % len;
    match m {
        Mutation::PointMutation { position, old_value, new_value, timestamp: t } => kind % 7 == 0
            && position == pos && old_value == g.sequence@[pos as int] && new_value == value && t
            == timestamp,
        Mutation::Insertion { position, sequence, timestamp: t } => kind % 7 == 1 && position
            == d1 as nat % (len + 1) && sequence@ == fresh && t == timestamp,
        Mutation::Deletion { position, length, timestamp: t } => {
            let want = min_nat(d2 as nat % 4 + 1, (len - pos) as nat);
            kind % 7 == 2 && len > 1 && position == pos && t == timestamp && length == if want == len {
                (len - 1) as nat
            } else {
                want
            }
        },
        Mutation::Duplication { start, end, insert_at, timestamp: t } => (kind % 7 == 3 && start
            == pos && end == min_nat(pos + d2 as nat % 8 + 1, len) && insert_at == d3 as nat % (
        len + 1) && t == timestamp) || (kind % 7 == 2 && len == 1 && start == 0 && end == 1
            && insert_at == d3 as nat % 2 && t == timestamp),
        Mutation::Inversion { start, end, timestamp: t } => kind % 7 == 4 && start == pos && end
            == min_nat(pos + d2 as nat % 8 + 1, len) && t == timestamp,
        Mutation::Translocation { from_start, from_end, to_position, timestamp: t } => kind % 7
            == 5 && from_start == pos && from_end == min_nat(pos + d2 as nat % 4 + 1, len)
            && to_position == d3 as nat % (len + 1) && t == timestamp,
        Mutation::KeyEvolution { old_generation, new_generation, timestamp: t } => kind % 7 == 6
            && old_generation == g.keypair.key_generation && new_generation
            == g.keypair.key_generation + 1 && t == timestamp,
    }
}

/// `min(start + step, len)` without overflow.
fn capped_end(start: usize, step: usize, len: usize) -> (r: usize)
    requires
        start < len,
    ensures
        r == min_nat((start + step) as nat, len as nat),
{
    if step < len - start {
        start + step
    } else {
        len
    }
}

impl DigitalDNA {
    /// The mutation that the given random draws select; it is always valid for
    /// the current sequence.
    pub fn mutation_from_draws(
        &self,
        kind: u8,
        d1: usize,
        d2: usize,
        d3: usize,
        value: u8,
        fresh: Vec<u8>,
        timestamp: u64,
    ) -> (r: Mutation)
        requires
            self.wf(),
            self.sequence@.len() < usize::MAX,
            self.keypair.key_generation < u64::MAX,
        ensures
            drawn_mutation(*self, kind, d1, d2, d3, value, fresh@, timestamp, r),
            mutation_valid(r, self.sequence@.len()),
            r is Deletion ==> r->Deletion_length >= 1,
            r is KeyEvolution ==> r->KeyEvolution_old_generation == self.keypair.key_generation
                && r->KeyEvolution_new_generation == self.keypair.key_generation + 1,
    {
        let len = self.sequence.len();
        let pos = d1 % len;
        let k = kind % 7;
        if k == 0 {
            Mutation::PointMutation {
                position: pos,
                old_value: self.sequence[pos],
                new_value: value,
                timestamp,
            }
        } else if k == 1 {
            Mutation::Insertion { position: d1 % (len + 1), sequence: fresh, timestamp }
        } else if k == 2 && len == 1 {
            Mutation::Duplication { start: 0, end: 1, insert_at: d3 % 2, timestamp }
        } else if k == 2 {
            let want = capped_end(0, d2 % 4 + 1, len - pos);
            let length = if want == len { len - 1 } else { want };
            Mutation::Deletion { position: pos, length, timestamp }
        } else if k == 3 {
            Mutation::Duplication {
                start: pos,
                end: capped_end(pos, d2 % 8 + 1, len),
                insert_at: d3 % (len + 1),
                timestamp,
            }
        } else if k == 4 {
            Mutation::Inversion { start: pos, end: capped_end(pos, d2 % 8 + 1, len), timestamp }
        } else if k == 5 {
            Mutation::Translocation {
                from_start: pos,
                from_end: capped_end(pos, d2 % 4 + 1, len),
                to_position: d3 % (len + 1),
                timestamp,
            }
        } else {
            Mutation::KeyEvolution {
                old_generation: self.keypair.key_generation,
                new_generation: self.keypair.key_generation + 1,
                timestamp,
            }
        }
    }

    /// A random mutation that is valid for the current sequence: the one that
    /// `mutation_from_draws` selects for some random draws.
    pub fn generate_random_mutation(&self) -> (r: Mutation)
        requires
            self.wf(),
            self.sequence@.len() < usize::MAX,
            self.keypair.key_generation < u64::MAX,
        ensures
            exists|kind: u8, d1: usize, d2: usize, d3: usize, value: u8, fresh: Seq<u8>, timestamp: u64|
                #[trigger] drawn_mutation(*self, kind, d1, d2, d3, value, fresh, timestamp, r),
            mutation_valid(r, self.sequence@.len()),
            r is Deletion ==> r->Deletion_length >= 1,
            r is KeyEvolution ==> r->KeyEvolution_old_generation == self.keypair.key_generation
                && r->KeyEvolution_new_generation == self.keypair.key_generation + 1,
    {
        let kind = rand::random::<u8>();
        let d1 = rand::random::<usize>();
        let d2 = rand::random::<usize>();
        let d3 = rand::random::<usize>();
        let value = rand::random::<u8>();
        let count = rand::random::<usize>() % 8 + 1;
        let mut fresh: Vec<u8> = Vec::new();
        let mut i: usize = 0;
        while i < count
            invariant
                i <= count,
            decreases count - i,
        {
            fresh.push(rand::random::<u8>());
            i = i + 1;
        }
        let timestamp = crate::crypto::now_secs();
        let ghost drawn = fresh@;
        let r = self.mutation_from_draws(kind, d1, d2, d3, value, fresh, timestamp);
        proof {
            assert(drawn_mutation(*self, kind, d1, d2, d3, value, drawn, timestamp, r));
        }
        r
    }

    /// Two-point crossover with cut points taken from the draws:
    /// `p1 = draw1 % (m / 2)` and `p2 = m / 2 + draw2 % (m / 2)` for the shorter
    /// length `m`. The child keeps the keypair, log and creation time of `base`.
    pub fn crossover_with_draws(
        &self,
        other: &DigitalDNA,
        draw1: usize,
        draw2: usize,
        keep_own_species: bool,
        base: DigitalDNA,
    ) -> (r: Result<DigitalDNA, DNAError>)
        requires
            self.wf(),
            other.wf(),
            self.generation < u64::MAX,
            other.generation < u64::MAX,
        ensures
            (self.metadata.crossover_compatibility < MIN_CROSSOVER_COMPATIBILITY
                || other.metadata.crossover_compatibility < MIN_CROSSOVER_COMPATIBILITY) ==> r
                == Err::<DigitalDNA, DNAError>(DNAError::CrossoverIncompatible),
            (self.metadata.crossover_compatibility >= MIN_CROSSOVER_COMPATIBILITY
                && other.metadata.crossover_compatibility >= MIN_CROSSOVER_COMPATIBILITY
                && min_nat(self.sequence@.len(), other.sequence@.len()) < MIN_CROSSOVER_LEN) ==> r
                == Err::<DigitalDNA, DNAError>(DNAError::SequenceTooShort),
            (self.metadata.crossover_compatibility >= MIN_CROSSOVER_COMPATIBILITY
                && other.metadata.crossover_compatibility >= MIN_CROSSOVER_COMPATIBILITY
                && min_nat(self.sequence@.len(), other.sequence@.len()) >= MIN_CROSSOVER_LEN) ==> {
                &&& r.is_ok()
                &&& crossover_child(*self, *other, draw1, draw2, keep_own_species, base, r.unwrap())
                &&& r.unwrap().wf()
                &&& r.unwrap().sequence@.len() == self.sequence@.len()
            },
    {
        if self.metadata.crossover_compatibility < MIN_CROSSOVER_COMPATIBILITY
            || other.metadata.crossover_compatibility < MIN_CROSSOVER_COMPATIBILITY {
            return Err(DNAError::CrossoverIncompatible);
        }
        let la = self.sequence.len();
        let lb = other.sequence.len();
        let m = if la < lb { la } else { lb };
        if m < MIN_CROSSOVER_LEN {
            return Err(DNAError::SequenceTooShort);
        }
        let half = m / 2;
        let p1 = draw1 % half;
        let p2 = half + draw2 % half;
        let mut sequence: Vec<u8> = Vec::new();
        extend_range(&mut sequence, &self.sequence, 0, p1);
        extend_range(&mut sequence, &other.sequence, p1, p2);
        extend_range(&mut sequence, &self.sequence, p2, la);
        let parent = self.get_hash();
        let mut child = base;
        child.sequence = sequence;
        child.generation = if self.generation > other.generation {
            self.generation
        } else {
            other.generation
        } + 1;
        child.parent_hash = Some(parent);
        child.metadata.species = if keep_own_species {
            self.metadata.species.clone()
        } else {
            other.metadata.species.clone()
        };
        let a = &self.metadata;
        let b = &other.metadata;
        child.metadata.biological_age = a.biological_age / 2 + b.biological_age / 2 + (
        a.biological_age % 2 + b.biological_age % 2) / 2;
        child.metadata.mutation_rate = (a.mutation_rate + b.mutation_rate) / 2;
        child.metadata.crossover_compatibility = (a.crossover_compatibility
            + b.crossover_compatibility) / 2;
        child.metadata.adaptation_score = (a.adaptation_score + b.adaptation_score) / 2;
        child.metadata.reproductive_success = (a.reproductive_success + b.reproductive_success)
            / 2;
        child.metadata.neural_complexity = (a.neural_complexity + b.neural_complexity) / 2;
        let fitter = if self.fitness > other.fitness {
            self.fitness
        } else {
            other.fitness
        };
        child.fitness = fitter * 95 / 100;
        Ok(child)
    }
}


impl DigitalDNA {
    /// Two-point crossover with random cut points, a fresh keypair for the
    /// child and the species of a random parent.
    pub fn crossover(&self, other: &DigitalDNA) -> (r: Result<DigitalDNA, DNAError>)
        requires
            self.wf(),
            other.wf(),
            self.generation < u64::MAX,
            other.generation < u64::MAX,
        ensures
            (self.metadata.crossover_compatibility < MIN_CROSSOVER_COMPATIBILITY
                || other.metadata.crossover_compatibility < MIN_CROSSOVER_COMPATIBILITY) ==> r
                == Err::<DigitalDNA, DNAError>(DNAError::CrossoverIncompatible),
            (self.metadata.crossover_compatibility >= MIN_CROSSOVER_COMPATIBILITY
                && other.metadata.crossover_compatibility >= MIN_CROSSOVER_COMPATIBILITY
                && min_nat(self.sequence@.len(), other.sequence@.len()) < MIN_CROSSOVER_LEN) ==> r
                == Err::<DigitalDNA, DNAError>(DNAError::SequenceTooShort),
            (self.metadata.crossover_compatibility >= MIN_CROSSOVER_COMPATIBILITY
                && other.metadata.crossover_compatibility >= MIN_CROSSOVER_COMPATIBILITY
                && min_nat(self.sequence@.len(), other.sequence@.len()) >= MIN_CROSSOVER_LEN) ==> {
                &&& r.is_ok()
                &&& r.unwrap().wf()
                &&& r.unwrap().generation == max_nat(self.generation as nat, other.generation as nat) + 1
                &&& r.unwrap().parent_hash.is_some()
                &&& r.unwrap().parent_hash.unwrap()@ == self.hash_view()
                &&& r.unwrap().fitness <= max_nat(self.fitness as nat, other.fitness as nat)
                &&& r.unwrap().mutations@.len() == 0
                &&& r.unwrap().sequence@.len() == self.sequence@.len()
                &&& r.unwrap().keypair.key_generation == 0
                &&& r.unwrap().keypair.derivation_path@ == seq![0u32]
                &&& r.unwrap().keypair.public_key@ == public_key_of(r.unwrap().keypair.secret_key@)
                &&& exists|d1: usize, d2: usize, keep: bool, base: DigitalDNA|
                    crossover_child(*self, *other, d1, d2, keep, base, r.unwrap())
            },
    {
        let draw1 = rand::random::<usize>();
        let draw2 = rand::random::<usize>();
        let keep_own_species = rand::random::<bool>();
        let base = match DigitalDNA::generate_new() {
            Ok(d) => d,
            Err(e) => {
                return Err(e);
            },
        };
        let r = self.crossover_with_draws(other, draw1, draw2, keep_own_species, base);
        proof {
            if r.is_ok() {
                let child = r.unwrap();
                assert(crossover_child(*self, *other, draw1, draw2, keep_own_species, base, child));
                assert(child.fitness <= max_nat(self.fitness as nat, other.fitness as nat));
            }
        }
        r
    }
}


/// The content hash is a function of the sequence, the generation and the
/// public key: two genomes that agree on them have the same hash. A successful
/// mutation raises the generation, so the bytes that are hashed always change.
pub proof fn hash_determinism(a: DigitalDNA, b: DigitalDNA, m: Mutation)
    ensures
        a.sequence@ == b.sequence@ && a.generation == b.generation && a.keypair.public_key@
            == b.keypair.public_key@ ==> a.hash_view() == b.hash_view(),
        DigitalDNA::mutated(a, b, m) ==> hash_input(a.sequence@, a.generation, a.keypair.public_key@)
            != hash_input(b.sequence@, b.generation, b.keypair.public_key@),
{
    if DigitalDNA::mutated(a, b, m) {
        let x = hash_input(a.sequence@, a.generation, a.keypair.public_key@);
        let y = hash_input(b.sequence@, b.generation, b.keypair.public_key@);
        let la = a.sequence@.len();
        assert(le_bytes(a.generation as nat, 8)[0] == (a.generation as nat % 256) as u8);
        assert(le_bytes(b.generation as nat, 8)[0] == (b.generation as nat % 256) as u8);
        if la == b.sequence@.len() {
            assert(x[la as int] == le_bytes(a.generation as nat, 8)[0]);
            assert(y[la as int] == le_bytes(b.generation as nat, 8)[0]);
            assert(x[la as int] != y[la as int]);
        } else {
            crate::bytes::lemma_le_bytes_len(a.generation as nat, 8);
            crate::bytes::lemma_le_bytes_len(b.generation as nat, 8);
            assert(a.keypair.public_key@.len() == 32 && b.keypair.public_key@.len() == 32);
            assert(x.len() != y.len());
        }
    }
}

/// The distance of a sequence to itself is 0, and every distance lies in `[0, UNIT]`.
pub proof fn distance_identity(a: Seq<u8>, b: Seq<u8>)
    ensures
        distance(a, a) == 0,
        distance(a, b) <= UNIT,
{
    lemma_mismatches_self(a, a.len());
    let lo = min_nat(a.len(), b.len());
    let hi = max_nat(a.len(), b.len());
    lemma_mismatches_bounded(a, b, lo);
    if hi > 0 {
        let d = differences(a, b);
        assert(d <= hi);
        assert(d * (UNIT as nat) / hi <= UNIT as nat) by (nonlinear_arith)
            requires
                d <= hi,
                hi > 0,
        ;
    }
}

/// A point mutation at or past the end of the sequence is invalid and is
/// rejected with `InvalidMutationPosition` of its position; `mutate` then
/// leaves the genome as it was.
pub proof fn out_of_range_point_mutation(s: Seq<u8>, m: Mutation)
    requires
        m is PointMutation,
        m->PointMutation_position >= s.len(),
    ensures
        !mutation_valid(m, s.len()),
        mutation_error(m) == DNAError::InvalidMutationPosition(m->PointMutation_position),
{
}

/// Inserting `k` bytes lengthens the sequence by exactly `k`; a valid deletion
/// of `k` bytes shortens it by exactly `k`.
pub proof fn insertion_deletion_size(s: Seq<u8>, m: Mutation)
    requires
        mutation_valid(m, s.len()),
    ensures
        m is Insertion ==> applied_sequence(s, m).len() == s.len() + m->Insertion_sequence@.len(),
        m is Deletion ==> applied_sequence(s, m).len() == s.len() - m->Deletion_length,
{
}

proof fn lemma_decay_bounds(f: nat, n: nat)
    ensures
        decayed_n(f, n) * pow_nat(100, n) <= f * pow_nat(98, n),
        f * pow_nat(98, n) <= (decayed_n(f, n) + n) * pow_nat(100, n),
    decreases n,
{
    if n > 0 {
        let k = (n - 1) as nat;
        lemma_decay_bounds(f, k);
        let d = decayed_n(f, k);
        let e = decayed(d);
        let p = pow_nat(100, k);
        let q = pow_nat(98, k);
        assert(e * 100 <= d * 98 && d * 98 < (e + 1) * 100);
        assert(e * (100 * p) <= f * (98 * q)) by (nonlinear_arith)
            requires
                e * 100 <= d * 98,
                d * p <= f * q,
                p >= 0,
        ;
        assert(f * (98 * q) <= (e + n) * (100 * p)) by (nonlinear_arith)
            requires
                d * 98 < (e + 1) * 100,
                f * q <= (d + k) * p,
                n == k + 1,
                p >= 0,
                q >= 0,
        ;
    }
}

/// Starting from fitness `UNIT` (1.0), after `n` consecutive successful
/// mutations the fitness is `decayed_n(UNIT, n)`, which lies within `n`
/// billionths below `UNIT * 0.98^n`.
pub proof fn fitness_decay_law(chain: Seq<DigitalDNA>, applied: Seq<Mutation>)
    requires
        chain.len() == applied.len() + 1,
        chain[0].fitness == UNIT,
        forall|i: int|
            0 <= i < applied.len() ==> DigitalDNA::mutated(
                #[trigger] chain[i],
                chain[i + 1],
                applied[i],
            ),
    ensures
        chain.last().fitness == decayed_n(UNIT as nat, applied.len()),
        decayed_n(UNIT as nat, applied.len()) * pow_nat(100, applied.len()) <= UNIT * pow_nat(
            98,
            applied.len(),
        ),
        UNIT * pow_nat(98, applied.len()) <= (decayed_n(UNIT as nat, applied.len())
            + applied.len()) * pow_nat(100, applied.len()),
{
    lemma_chain_fitness(chain, applied, applied.len());
    lemma_decay_bounds(UNIT as nat, applied.len());
}

proof fn lemma_chain_fitness(chain: Seq<DigitalDNA>, applied: Seq<Mutation>, k: nat)
    requires
        chain.len() == applied.len() + 1,
        k <= applied.len(),
        forall|i: int|
            0 <= i < applied.len() ==> DigitalDNA::mutated(
                #[trigger] chain[i],
                chain[i + 1],
                applied[i],
            ),
    ensures
        chain[k as int].fitness == decayed_n(chain[0].fitness as nat, k),
    decreases k,
{
    if k > 0 {
        lemma_chain_fitness(chain, applied, (k - 1) as nat);
        assert(DigitalDNA::mutated(chain[k - 1], chain[k as int], applied[k - 1]));
    }
}

} // verus!
