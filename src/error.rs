//! The protocol-wide error type, error context, error metrics and the default
//! retry policy.
use vstd::prelude::*;
use crate::crypto::{millis, now_secs};
use crate::evolution::EvolutionError;
use crate::fixed::{pow_nat, UNIT};
use crate::dna::{min_nat, DNAError};

verus! {

#[verifier::external_type_specification]
#[verifier::external_body]
pub struct ExIoError(std::io::Error);

#[verifier::external_type_specification]
#[verifier::external_body]
pub struct ExJsonError(serde_json::Error);

/// Errors of an organism.
#[derive(Debug)]
pub enum TRONError {
    DNAGenerationFailed(String),
    NeuralConnectionFailed(String),
    NeuralTransmissionFailed(String),
    SynapseNotFound(String),
    EvolutionFailed(String),
    ReproductionNotReady(String),
    ReproductionFailed(String),
    GeneticIncompatibility,
    TooManySynapses,
    SigningFailed(String),
    BehaviorExecutionFailed(String),
    MemoryOperationFailed(String),
    SocialInteractionFailed(String),
}

/// Errors of neural message passing.
#[derive(Debug)]
pub enum SynapseError {
    SynapseNotFound(String),
    InvalidMessage,
    TransmissionFailed(String),
    ConnectionRefused,
    SynapseInactive,
    TooManySynapses,
    NetworkError(String),
    MessageExpired,
    MessageTooLarge,
    NeurotransmitterMismatch,
    InsufficientStrength,
}

/// Errors of collective decisions.
#[derive(Debug)]
pub enum CollectiveError {
    GroupNotFound(String),
    DecisionNotFound(String),
    OptionNotFound(String),
    DecisionNotVoting,
    NoVotesCast,
    AlgorithmNotImplemented,
    InsufficientParticipants,
    GroupCapacityExceeded,
}

/// Errors of network discovery.
#[derive(Debug)]
pub enum NetworkError {
    OrganismNotFound(String),
    OrganismOffline(String),
    ConnectionFailed(String),
    DiscoveryFailed(String),
    NetworkTimeout,
    InvalidAddress(String),
    ProtocolNotSupported(String),
    NetworkOverloaded,
}

/// Every error of the protocol.
#[derive(Debug)]
pub enum GenesisError {
    DNA(DNAError),
    TRON(TRONError),
    Neural(SynapseError),
    Evolution(EvolutionError),
    Collective(CollectiveError),
    Network(NetworkError),
    OrganismNotFound(String),
    NetworkCapacityExceeded { current: usize, max: usize },
    ProtocolVersionMismatch { expected: String, actual: String },
    InvalidConfiguration(String),
    InsufficientResources { resource: String },
    OperationTimeout { operation: String, timeout_ms: u64 },
    SecurityViolation(String),
    IO(std::io::Error),
    Serialization(serde_json::Error),
    Internal(String),
}

impl From<DNAError> for GenesisError {
    fn from(e: DNAError) -> (r: GenesisError) {
        GenesisError::DNA(e)
    }
}

impl vstd::std_specs::convert::FromSpecImpl<DNAError> for GenesisError {
    open spec fn obeys_from_spec() -> bool {
        true
    }

    open spec fn from_spec(e: DNAError) -> GenesisError {
        GenesisError::DNA(e)
    }
}

impl From<TRONError> for GenesisError {
    fn from(e: TRONError) -> (r: GenesisError) {
        GenesisError::TRON(e)
    }
}

impl vstd::std_specs::convert::FromSpecImpl<TRONError> for GenesisError {
    open spec fn obeys_from_spec() -> bool {
        true
    }

    open spec fn from_spec(e: TRONError) -> GenesisError {
        GenesisError::TRON(e)
    }
}

impl From<SynapseError> for GenesisError {
    fn from(e: SynapseError) -> (r: GenesisError) {
        GenesisError::Neural(e)
    }
}

impl vstd::std_specs::convert::FromSpecImpl<SynapseError> for GenesisError {
    open spec fn obeys_from_spec() -> bool {
        true
    }

    open spec fn from_spec(e: SynapseError) -> GenesisError {
        GenesisError::Neural(e)
    }
}

impl From<EvolutionError> for GenesisError {
    fn from(e: EvolutionError) -> (r: GenesisError) {
        GenesisError::Evolution(e)
    }
}

impl vstd::std_specs::convert::FromSpecImpl<EvolutionError> for GenesisError {
    open spec fn obeys_from_spec() -> bool {
        true
    }

    open spec fn from_spec(e: EvolutionError) -> GenesisError {
        GenesisError::Evolution(e)
    }
}

impl From<CollectiveError> for GenesisError {
    fn from(e: CollectiveError) -> (r: GenesisError) {
        GenesisError::Collective(e)
    }
}

impl vstd::std_specs::convert::FromSpecImpl<CollectiveError> for GenesisError {
    open spec fn obeys_from_spec() -> bool {
        true
    }

    open spec fn from_spec(e: CollectiveError) -> GenesisError {
        GenesisError::Collective(e)
    }
}

impl From<NetworkError> for GenesisError {
    fn from(e: NetworkError) -> (r: GenesisError) {
        GenesisError::Network(e)
    }
}

impl vstd::std_specs::convert::FromSpecImpl<NetworkError> for GenesisError {
    open spec fn obeys_from_spec() -> bool {
        true
    }

    open spec fn from_spec(e: NetworkError) -> GenesisError {
        GenesisError::Network(e)
    }
}

impl From<std::io::Error> for GenesisError {
    fn from(e: std::io::Error) -> (r: GenesisError) {
        GenesisError::IO(e)
    }
}

impl vstd::std_specs::convert::FromSpecImpl<std::io::Error> for GenesisError {
    open spec fn obeys_from_spec() -> bool {
        true
    }

    open spec fn from_spec(e: std::io::Error) -> GenesisError {
        GenesisError::IO(e)
    }
}

impl From<serde_json::Error> for GenesisError {
    fn from(e: serde_json::Error) -> (r: GenesisError) {
        GenesisError::Serialization(e)
    }
}

impl vstd::std_specs::convert::FromSpecImpl<serde_json::Error> for GenesisError {
    open spec fn obeys_from_spec() -> bool {
        true
    }

    open spec fn from_spec(e: serde_json::Error) -> GenesisError {
        GenesisError::Serialization(e)
    }
}

/// What to do about an error.
#[derive(Debug, Clone, Copy, PartialEq, Eq, Structural)]
pub enum ErrorRecovery {
    Retry,
    Fallback,
    Degrade,
    Fail,
}

/// Where and when an error arose. `metadata` holds key/value pairs with
/// distinct keys.
#[derive(Debug, Clone)]
pub struct ErrorContext {
    pub operation: String,
    pub organism_id: Option<String>,
    pub timestamp: u64,
    pub recovery_strategy: ErrorRecovery,
    pub metadata: Vec<(String, String)>,
}

/// The value stored under `key`, if any.
pub open spec fn lookup(entries: Seq<(String, String)>, key: Seq<char>) -> Option<Seq<char>>
    decreases entries.len(),
{
    if entries.len() == 0 {
        None
    } else if entries[0].0@ == key {
        Some(entries[0].1@)
    } else {
        lookup(entries.drop_first(), key)
    }
}

/// No key occurs twice.
pub open spec fn keys_distinct(entries: Seq<(String, String)>) -> bool {
    forall|i: int, j: int|
        0 <= i < j < entries.len() ==> #[trigger] entries[i].0@ != #[trigger] entries[j].0@
}

proof fn lemma_lookup_absent(entries: Seq<(String, String)>, key: Seq<char>)
    requires
        forall|i: int| 0 <= i < entries.len() ==> #[trigger] entries[i].0@ != key,
    ensures
        lookup(entries, key) is None,
    decreases entries.len(),
{
    if entries.len() > 0 {
        assert(entries[0].0@ != key);
        let rest = entries.drop_first();
        assert forall|i: int| 0 <= i < rest.len() implies #[trigger] rest[i].0@ != key by {
            assert(rest[i] == entries[i + 1]);
        }
        lemma_lookup_absent(rest, key);
    }
}

proof fn lemma_lookup_push(entries: Seq<(String, String)>, entry: (String, String), key: Seq<char>)
    requires
        lookup(entries, entry.0@) is None,
    ensures
        lookup(entries.push(entry), key) == if key == entry.0@ {
            Some(entry.1@)
        } else {
            lookup(entries, key)
        },
    decreases entries.len(),
{
    let pushed = entries.push(entry);
    if entries.len() == 0 {
        assert(pushed[0] == entry);
        assert(pushed.drop_first() =~= Seq::<(String, String)>::empty());
        assert(lookup(pushed.drop_first(), key) is None);
        assert(lookup(entries, key) is None);
    } else {
        assert(pushed.drop_first() =~= entries.drop_first().push(entry));
        assert(pushed[0] == entries[0]);
        assert(entries[0].0@ != entry.0@);
        assert(lookup(entries.drop_first(), entry.0@) is None);
        lemma_lookup_push(entries.drop_first(), entry, key);
    }
}

proof fn lemma_lookup_update(
    entries: Seq<(String, String)>,
    idx: int,
    entry: (String, String),
    key: Seq<char>,
)
    requires
        0 <= idx < entries.len(),
        entries[idx].0@ == entry.0@,
        keys_distinct(entries),
    ensures
        lookup(entries.update(idx, entry), key) == if key == entry.0@ {
            Some(entry.1@)
        } else {
            lookup(entries, key)
        },
    decreases entries.len(),
{
    let up = entries.update(idx, entry);
    let rest = entries.drop_first();
    assert(keys_distinct(rest)) by {
        assert forall|i: int, j: int| 0 <= i < j < rest.len() implies #[trigger] rest[i].0@
            != #[trigger] rest[j].0@ by {
            assert(rest[i] == entries[i + 1] && rest[j] == entries[j + 1]);
        }
    }
    if idx == 0 {
        assert(up.drop_first() =~= rest);
        if key != entry.0@ {
            assert(up[0] == entry);
        } else {
            assert(up[0] == entry);
        }
    } else {
        assert(up.drop_first() =~= rest.update(idx - 1, entry));
        assert(up[0] == entries[0]);
        assert(entries[0].0@ != entry.0@) by {
            assert(entries[0].0@ != entries[idx].0@);
        }
        lemma_lookup_update(rest, idx - 1, entry, key);
    }
}

impl ErrorContext {
    /// A context for `operation` at the current time, with no organism, the
    /// `Fail` strategy and no metadata.
    pub fn new(operation: &str) -> (r: ErrorContext)
        ensures
            r.operation@ == operation@,
            r.organism_id.is_none(),
            r.recovery_strategy == ErrorRecovery::Fail,
            r.metadata@.len() == 0,
    {
        ErrorContext {
            operation: operation.to_owned(),
            organism_id: None,
            timestamp: now_secs(),
            recovery_strategy: ErrorRecovery::Fail,
            metadata: Vec::new(),
        }
    }

    pub fn with_organism(self, organism_id: &str) -> (r: ErrorContext)
        ensures
            r.organism_id.is_some(),
            r.organism_id.unwrap()@ == organism_id@,
            r.operation == self.operation,
            r.timestamp == self.timestamp,
            r.recovery_strategy == self.recovery_strategy,
            r.metadata == self.metadata,
    {
        let mut c = self;
        c.organism_id = Some(organism_id.to_owned());
        c
    }

    pub fn with_recovery(self, strategy: ErrorRecovery) -> (r: ErrorContext)
        ensures
            r.recovery_strategy == strategy,
            r.operation == self.operation,
            r.organism_id == self.organism_id,
            r.timestamp == self.timestamp,
            r.metadata == self.metadata,
    {
        let mut c = self;
        c.recovery_strategy = strategy;
        c
    }

    /// Stores `value` under `key`, replacing an earlier value of that key.
    pub fn with_metadata(self, key: &str, value: &str) -> (r: ErrorContext)
        requires
            keys_distinct(self.metadata@),
        ensures
            keys_distinct(r.metadata@),
            forall|k: Seq<char>|
                #![auto]
                lookup(r.metadata@, k) == if k == key@ {
                    Some(value@)
                } else {
                    lookup(self.metadata@, k)
                },
            r.operation == self.operation,
            r.organism_id == self.organism_id,
            r.timestamp == self.timestamp,
            r.recovery_strategy == self.recovery_strategy,
    {
        let k = key.to_owned();
        let v = value.to_owned();
        let ghost before = self.metadata@;
        let mut i: usize = 0;
        while i < self.metadata.len() && !(self.metadata[i].0 == k)
            invariant
                i <= before.len(),
                self.metadata@ == before,
                k@ == key@,
                forall|j: int| 0 <= j < i ==> #[trigger] before[j].0@ != key@,
            decreases before.len() - i,
        {
            i = i + 1;
        }
        let mut c = self;
        let entry = (k, v);
        if i < c.metadata.len() {
            c.metadata.set(i, entry);
            proof {
                assert forall|q: Seq<char>|
                    #![auto]
                    lookup(c.metadata@, q) == if q == key@ {
                        Some(value@)
                    } else {
                        lookup(before, q)
                    } by {
                    lemma_lookup_update(before, i as int, entry, q);
                }
                assert(keys_distinct(c.metadata@)) by {
                    assert forall|a: int, b: int|
                        0 <= a < b < c.metadata@.len() implies #[trigger] c.metadata@[a].0@
                        != #[trigger] c.metadata@[b].0@ by {
                        if a != i && b != i {
                            assert(before[a].0@ != before[b].0@);
                        } else if a == i {
                            assert(before[i as int].0@ != before[b].0@);
                        } else {
                            assert(before[a].0@ != before[i as int].0@);
                        }
                    }
                }
            }
        } else {
            c.metadata.push(entry);
            proof {
                lemma_lookup_absent(before, key@);
                assert forall|q: Seq<char>|
                    #![auto]
                    lookup(c.metadata@, q) == if q == key@ {
                        Some(value@)
                    } else {
                        lookup(before, q)
                    } by {
                    lemma_lookup_push(before, entry, q);
                }
                assert(keys_distinct(c.metadata@)) by {
                    assert forall|a: int, b: int|
                        0 <= a < b < c.metadata@.len() implies #[trigger] c.metadata@[a].0@
                        != #[trigger] c.metadata@[b].0@ by {
                        if b == before.len() {
                            assert(before[a].0@ != key@);
                        } else {
                            assert(before[a].0@ != before[b].0@);
                        }
                    }
                }
            }
        }
        c
    }

    /// The value stored under `key`, if any.
    pub fn metadata_value(&self, key: &str) -> (r: Option<&String>)
        ensures
            match lookup(self.metadata@, key@) {
                Some(v) => r.is_some() && r.unwrap()@ == v,
                None => r.is_none(),
            },
    {
        let k = key.to_owned();
        let mut i: usize = 0;
        proof {
            assert(self.metadata@.subrange(0, self.metadata@.len() as int) =~= self.metadata@);
        }
        while i < self.metadata.len()
            invariant
                i <= self.metadata@.len(),
                k@ == key@,
                lookup(self.metadata@, key@) == lookup(self.metadata@.subrange(i as int, self.metadata@.len() as int), key@),
            decreases self.metadata@.len() - i,
        {
            proof {
                let tail = self.metadata@.subrange(i as int, self.metadata@.len() as int);
                assert(tail.drop_first() =~= self.metadata@.subrange(i + 1, self.metadata@.len() as int));
                assert(tail[0] == self.metadata@[i as int]);
            }
            if self.metadata[i].0 == k {
                return Some(&self.metadata[i].1);
            }
            i = i + 1;
        }
        None
    }
}


/// Counts of recorded errors and recovery attempts. The two tables hold
/// `(key, count)` pairs; a key's count is that of its first entry.
#[derive(Debug, Clone)]
pub struct ErrorMetrics {
    pub total_errors: u64,
    pub errors_by_type: Vec<(String, u64)>,
    pub errors_by_organism: Vec<(String, u64)>,
    pub recovery_attempts: u64,
    pub successful_recoveries: u64,
    pub last_error_time: u64,
}

/// The count stored under `key`, or 0.
pub open spec fn count_of(entries: Seq<(String, u64)>, key: Seq<char>) -> nat
    decreases entries.len(),
{
    if entries.len() == 0 {
        0
    } else if entries[0].0@ == key {
        entries[0].1 as nat
    } else {
        count_of(entries.drop_first(), key)
    }
}

/// One more, saturating at `u64::MAX`.
pub open spec fn bumped(c: nat) -> nat {
    if c < u64::MAX {
        c + 1
    } else {
        c
    }
}

proof fn lemma_count_first(entries: Seq<(String, u64)>, idx: int, entry: (String, u64), q: Seq<char>)
    requires
        0 <= idx < entries.len(),
        entry.0@ == entries[idx].0@,
        forall|j: int| 0 <= j < idx ==> #[trigger] entries[j].0@ != entries[idx].0@,
    ensures
        count_of(entries, entries[idx].0@) == entries[idx].1,
        count_of(entries.update(idx, entry), q) == if q == entries[idx].0@ {
            entry.1 as nat
        } else {
            count_of(entries, q)
        },
    decreases entries.len(),
{
    let up = entries.update(idx, entry);
    let rest = entries.drop_first();
    if idx == 0 {
        assert(up.drop_first() =~= rest);
        assert(up[0] == entry);
    } else {
        assert(up.drop_first() =~= rest.update(idx - 1, entry));
        assert(up[0] == entries[0]);
        assert(entries[0].0@ != entries[idx].0@);
        assert forall|j: int| 0 <= j < idx - 1 implies #[trigger] rest[j].0@ != rest[idx - 1].0@ by {
            assert(rest[j] == entries[j + 1]);
        }
        lemma_count_first(rest, idx - 1, entry, q);
    }
}

proof fn lemma_count_push(entries: Seq<(String, u64)>, entry: (String, u64), q: Seq<char>)
    requires
        forall|j: int| 0 <= j < entries.len() ==> #[trigger] entries[j].0@ != entry.0@,
    ensures
        count_of(entries.push(entry), q) == if q == entry.0@ {
            entry.1 as nat
        } else {
            count_of(entries, q)
        },
        count_of(entries, entry.0@) == 0,
    decreases entries.len(),
{
    let pushed = entries.push(entry);
    if entries.len() == 0 {
        assert(pushed[0] == entry);
        assert(pushed.drop_first() =~= Seq::<(String, u64)>::empty());
        assert(count_of(pushed.drop_first(), q) == 0);
    } else {
        assert(pushed.drop_first() =~= entries.drop_first().push(entry));
        assert(pushed[0] == entries[0]);
        assert forall|j: int| 0 <= j < entries.len() - 1 implies #[trigger] entries.drop_first()[j].0@
            != entry.0@ by {
            assert(entries.drop_first()[j] == entries[j + 1]);
        }
        lemma_count_push(entries.drop_first(), entry, q);
    }
}

/// Adds one (saturating) to the count stored under `key`.
fn bump(entries: &mut Vec<(String, u64)>, key: &str)
    ensures
        forall|q: Seq<char>|
            #![auto]
            count_of(final(entries)@, q) == if q == key@ {
                bumped(count_of(old(entries)@, q))
            } else {
                count_of(old(entries)@, q)
            },
{
    let k = key.to_owned();
    let ghost before = entries@;
    let mut i: usize = 0;
    while i < entries.len() && !(entries[i].0 == k)
        invariant
            i <= before.len(),
            entries@ == before,
            k@ == key@,
            forall|j: int| 0 <= j < i ==> #[trigger] before[j].0@ != key@,
        decreases before.len() - i,
    {
        i = i + 1;
    }
    if i < entries.len() {
        let c = entries[i].1;
        let next = if c < u64::MAX { c + 1 } else { c };
        let entry = (k, next);
        entries.set(i, entry);
        proof {
            assert forall|q: Seq<char>|
                #![auto]
                count_of(entries@, q) == if q == key@ {
                    bumped(count_of(before, q))
                } else {
                    count_of(before, q)
                } by {
                lemma_count_first(before, i as int, entry, q);
            }
        }
    } else {
        let entry = (k, 1u64);
        entries.push(entry);
        proof {
            assert forall|q: Seq<char>|
                #![auto]
                count_of(entries@, q) == if q == key@ {
                    bumped(count_of(before, q))
                } else {
                    count_of(before, q)
                } by {
                lemma_count_push(before, entry, q);
            }
        }
    }
}

/// The name of an error's kind.
pub open spec fn error_kind(e: &GenesisError) -> Seq<char> {
    match e {
        GenesisError::DNA(_) => "DNA"@,
        GenesisError::TRON(_) => "TRON"@,
        GenesisError::Neural(_) => "Neural"@,
        GenesisError::Evolution(_) => "Evolution"@,
        GenesisError::Collective(_) => "Collective"@,
        GenesisError::Network(_) => "Network"@,
        GenesisError::OrganismNotFound(_) => "OrganismNotFound"@,
        GenesisError::NetworkCapacityExceeded { .. } => "NetworkCapacityExceeded"@,
        GenesisError::ProtocolVersionMismatch { .. } => "ProtocolVersionMismatch"@,
        GenesisError::InvalidConfiguration(_) => "InvalidConfiguration"@,
        GenesisError::InsufficientResources { .. } => "InsufficientResources"@,
        GenesisError::OperationTimeout { .. } => "OperationTimeout"@,
        GenesisError::SecurityViolation(_) => "SecurityViolation"@,
        GenesisError::IO(_) => "IO"@,
        GenesisError::Serialization(_) => "Serialization"@,
        GenesisError::Internal(_) => "Internal"@,
    }
}

fn kind_name(e: &GenesisError) -> (r: &'static str)
    ensures
        r@ == error_kind(e),
{
    match e {
        GenesisError::DNA(_) => "DNA",
        GenesisError::TRON(_) => "TRON",
        GenesisError::Neural(_) => "Neural",
        GenesisError::Evolution(_) => "Evolution",
        GenesisError::Collective(_) => "Collective",
        GenesisError::Network(_) => "Network",
        GenesisError::OrganismNotFound(_) => "OrganismNotFound",
        GenesisError::NetworkCapacityExceeded { .. } => "NetworkCapacityExceeded",
        GenesisError::ProtocolVersionMismatch { .. } => "ProtocolVersionMismatch",
        GenesisError::InvalidConfiguration(_) => "InvalidConfiguration",
        GenesisError::InsufficientResources { .. } => "InsufficientResources",
        GenesisError::OperationTimeout { .. } => "OperationTimeout",
        GenesisError::SecurityViolation(_) => "SecurityViolation",
        GenesisError::IO(_) => "IO",
        GenesisError::Serialization(_) => "Serialization",
        GenesisError::Internal(_) => "Internal",
    }
}

impl ErrorMetrics {
    pub fn new() -> (r: ErrorMetrics)
        ensures
            r.total_errors == 0,
            r.errors_by_type@.len() == 0,
            r.errors_by_organism@.len() == 0,
            r.recovery_attempts == 0,
            r.successful_recoveries == 0,
            r.last_error_time == 0,
    {
        ErrorMetrics {
            total_errors: 0,
            errors_by_type: Vec::new(),
            errors_by_organism: Vec::new(),
            recovery_attempts: 0,
            successful_recoveries: 0,
            last_error_time: 0,
        }
    }

    /// Counts one error under its kind and, when given, its organism, and
    /// stamps the time.
    pub fn record_error(&mut self, error: &GenesisError, organism_id: Option<&str>)
        requires
            old(self).total_errors < u64::MAX,
        ensures
            final(self).total_errors == old(self).total_errors + 1,
            forall|q: Seq<char>|
                #![auto]
                count_of(final(self).errors_by_type@, q) == if q == error_kind(error) {
                    bumped(count_of(old(self).errors_by_type@, q))
                } else {
                    count_of(old(self).errors_by_type@, q)
                },
            forall|q: Seq<char>|
                #![auto]
                count_of(final(self).errors_by_organism@, q) == if organism_id.is_some() && q
                    == organism_id.unwrap()@ {
                    bumped(count_of(old(self).errors_by_organism@, q))
                } else {
                    count_of(old(self).errors_by_organism@, q)
                },
            final(self).recovery_attempts == old(self).recovery_attempts,
            final(self).successful_recoveries == old(self).successful_recoveries,
    {
        self.total_errors = self.total_errors + 1;
        self.last_error_time = now_secs();
        bump(&mut self.errors_by_type, kind_name(error));
        match organism_id {
            Some(id) => {
                bump(&mut self.errors_by_organism, id);
            },
            None => {},
        }
    }

    /// Counts one recovery attempt, and one success when `successful`.
    pub fn record_recovery_attempt(&mut self, successful: bool)
        requires
            old(self).recovery_attempts < u64::MAX,
            old(self).successful_recoveries < u64::MAX,
        ensures
            final(self).recovery_attempts == old(self).recovery_attempts + 1,
            final(self).successful_recoveries == old(self).successful_recoveries + if successful {
                1int
            } else {
                0int
            },
            final(self).total_errors == old(self).total_errors,
            final(self).errors_by_type == old(self).errors_by_type,
            final(self).errors_by_organism == old(self).errors_by_organism,
            final(self).last_error_time == old(self).last_error_time,
    {
        self.recovery_attempts = self.recovery_attempts + 1;
        if successful {
            self.successful_recoveries = self.successful_recoveries + 1;
        }
    }

    /// Fixed-point share of successful recoveries, saturating at `u64::MAX`;
    /// 0 before any attempt.
    pub fn get_recovery_rate(&self) -> (r: u64)
        ensures
            self.recovery_attempts == 0 ==> r == 0,
            self.recovery_attempts > 0 ==> r == min_nat(
                self.successful_recoveries as nat * UNIT as nat / self.recovery_attempts as nat,
                u64::MAX as nat,
            ),
            self.successful_recoveries <= self.recovery_attempts ==> r <= UNIT,
    {
        if self.recovery_attempts == 0 {
            0
        } else {
            let s = self.successful_recoveries as u128;
            let a = self.recovery_attempts as u128;
            proof {
                assert(s * (UNIT as int) <= 0xffff_ffff_ffff_ffff * 1_000_000_000) by (
                nonlinear_arith)
                    requires
                        s <= 0xffff_ffff_ffff_ffff,
                ;
                if s <= a {
                    assert(s * (UNIT as int) <= a * (UNIT as int)) by (nonlinear_arith)
                        requires
                            s <= a,
                    ;
                    assert(s * (UNIT as int) / (a as int) <= UNIT as int) by (nonlinear_arith)
                        requires
                            s * (UNIT as int) <= a * (UNIT as int),
                            a > 0,
                    ;
                }
            }
            let q = s * (UNIT as u128) / a;
            if q > u64::MAX as u128 {
                u64::MAX
            } else {
                q as u64
            }
        }
    }
}

/// Chooses a recovery for errors and paces retries.
pub trait ErrorHandler {
    fn handle_error(&self, error: &GenesisError, context: &ErrorContext) -> ErrorRecovery;

    fn should_retry(&self, error: &GenesisError, attempt: u32) -> bool;

    fn get_retry_delay(&self, error: &GenesisError, attempt: u32) -> std::time::Duration;
}

/// Retries transient failures up to `max_retries` times with exponential backoff.
pub struct DefaultErrorHandler {
    pub max_retries: u32,
    pub base_delay_ms: u64,
}

/// The recovery that the default handler picks for an error.
pub open spec fn default_recovery(e: &GenesisError) -> ErrorRecovery {
    match e {
        GenesisError::Neural(_) => ErrorRecovery::Retry,
        GenesisError::Network(_) => ErrorRecovery::Retry,
        GenesisError::OperationTimeout { .. } => ErrorRecovery::Retry,
        GenesisError::InsufficientResources { .. } => ErrorRecovery::Degrade,
        GenesisError::NetworkCapacityExceeded { .. } => ErrorRecovery::Degrade,
        GenesisError::TRON(_) => ErrorRecovery::Fallback,
        GenesisError::Evolution(_) => ErrorRecovery::Fallback,
        _ => ErrorRecovery::Fail,
    }
}

/// Whether an error is transient, so that a retry may help.
pub open spec fn transient(e: &GenesisError) -> bool {
    match e {
        GenesisError::Neural(_) => true,
        GenesisError::Network(_) => true,
        GenesisError::OperationTimeout { .. } => true,
        GenesisError::IO(_) => true,
        _ => false,
    }
}

/// `base * 2^attempt`, saturating at `u64::MAX`.
pub open spec fn backoff_ms(base: u64, attempt: u32) -> nat {
    let d = base as nat * pow_nat(2, attempt as nat);
    if d > u64::MAX {
        u64::MAX as nat
    } else {
        d
    }
}

impl DefaultErrorHandler {
    /// Three retries, 100 ms base delay.
    pub fn new() -> (r: DefaultErrorHandler)
        ensures
            r.max_retries == 3,
            r.base_delay_ms == 100,
    {
        DefaultErrorHandler { max_retries: 3, base_delay_ms: 100 }
    }

    pub fn with_max_retries(self, max_retries: u32) -> (r: DefaultErrorHandler)
        ensures
            r.max_retries == max_retries,
            r.base_delay_ms == self.base_delay_ms,
    {
        DefaultErrorHandler { max_retries, base_delay_ms: self.base_delay_ms }
    }

    pub fn with_base_delay(self, delay_ms: u64) -> (r: DefaultErrorHandler)
        ensures
            r.max_retries == self.max_retries,
            r.base_delay_ms == delay_ms,
    {
        DefaultErrorHandler { max_retries: self.max_retries, base_delay_ms: delay_ms }
    }

    /// The recovery for `error`: retry transient communication failures,
    /// degrade on resource limits, fall back on organism and evolution errors,
    /// fail otherwise.
    pub fn recovery_for(&self, error: &GenesisError) -> (r: ErrorRecovery)
        ensures
            r == default_recovery(error),
    {
        match error {
            GenesisError::Neural(_) => ErrorRecovery::Retry,
            GenesisError::Network(_) => ErrorRecovery::Retry,
            GenesisError::OperationTimeout { .. } => ErrorRecovery::Retry,
            GenesisError::InsufficientResources { .. } => ErrorRecovery::Degrade,
            GenesisError::NetworkCapacityExceeded { .. } => ErrorRecovery::Degrade,
            GenesisError::TRON(_) => ErrorRecovery::Fallback,
            GenesisError::Evolution(_) => ErrorRecovery::Fallback,
            _ => ErrorRecovery::Fail,
        }
    }

    /// Whether attempt number `attempt` may retry: only below `max_retries`
    /// and only for transient errors.
    pub fn retry_allowed(&self, error: &GenesisError, attempt: u32) -> (r: bool)
        ensures
            r == (attempt < self.max_retries && transient(error)),
    {
        if attempt >= self.max_retries {
            return false;
        }
        match error {
            GenesisError::Neural(_) => true,
            GenesisError::Network(_) => true,
            GenesisError::OperationTimeout { .. } => true,
            GenesisError::IO(_) => true,
            _ => false,
        }
    }

    /// The delay before attempt number `attempt`, in milliseconds:
    /// `base_delay_ms * 2^attempt`, saturating.
    pub fn retry_delay_ms(&self, attempt: u32) -> (r: u64)
        ensures
            r == backoff_ms(self.base_delay_ms, attempt),
    {
        let mut d: u64 = self.base_delay_ms;
        let mut saturated = false;
        let mut i: u32 = 0;
        proof {
            assert(pow_nat(2, 0) == 1);
            assert(self.base_delay_ms * pow_nat(2, 0) == self.base_delay_ms);
        }
        while i < attempt
            invariant
                i <= attempt,
                saturated ==> d == u64::MAX && self.base_delay_ms * pow_nat(2, i as nat) > u64::MAX,
                !saturated ==> d == self.base_delay_ms * pow_nat(2, i as nat),
            decreases attempt - i,
        {
            proof {
                assert(self.base_delay_ms * pow_nat(2, (i + 1) as nat) == 2 * (self.base_delay_ms
                    * pow_nat(2, i as nat))) by (nonlinear_arith)
                    requires
                        pow_nat(2, (i + 1) as nat) == 2 * pow_nat(2, i as nat),
                ;
            }
            if !saturated {
                if d > u64::MAX / 2 {
                    d = u64::MAX;
                    saturated = true;
                } else {
                    d = d * 2;
                }
            }
            i = i + 1;
        }
        d
    }
}

impl ErrorHandler for DefaultErrorHandler {
    fn handle_error(&self, error: &GenesisError, _context: &ErrorContext) -> ErrorRecovery {
        self.recovery_for(error)
    }

    fn should_retry(&self, error: &GenesisError, attempt: u32) -> bool {
        self.retry_allowed(error, attempt)
    }

    fn get_retry_delay(&self, _error: &GenesisError, attempt: u32) -> std::time::Duration {
        millis(self.retry_delay_ms(attempt))
    }
}

impl Default for ErrorMetrics {
    fn default() -> (r: ErrorMetrics)
        ensures
            r.total_errors == 0,
            r.recovery_attempts == 0,
            r.successful_recoveries == 0,
    {
        ErrorMetrics::new()
    }
}

impl Default for DefaultErrorHandler {
    fn default() -> (r: DefaultErrorHandler)
        ensures
            r.max_retries == 3,
            r.base_delay_ms == 100,
    {
        DefaultErrorHandler::new()
    }
}

} // verus!
