use genesis_protocol::fixed::UNIT;
use genesis_protocol::dna::{DNAError, DigitalDNA, Mutation};
use rand::{RngCore, SeedableRng};
use sha2::Digest;

fn fresh() -> DigitalDNA {
    DigitalDNA::generate_new().unwrap()
}

fn with_sequence(bytes: &[u8]) -> DigitalDNA {
    let mut dna = fresh();
    dna.sequence = bytes.to_vec();
    dna
}

#[test]
fn test_dna_generation() {
    let dna = DigitalDNA::generate_new().unwrap();
    assert!(!dna.sequence.is_empty());
    assert_eq!(dna.generation, 0);
    assert_eq!(dna.fitness, UNIT);
    assert!(dna.mutations.is_empty());
}

#[test]
fn test_dna_hash() {
    let dna = DigitalDNA::generate_new().unwrap();
    let hash1 = dna.get_hash();
    let hash2 = dna.get_hash();
    assert_eq!(hash1, hash2);
    assert_eq!(hash1.len(), 64);
}

#[test]
fn test_dna_signing() {
    let dna = DigitalDNA::generate_new().unwrap();
    let message = b"Hello, digital world!";

    let signature = dna.sign_data(message).unwrap();
    assert!(dna.verify_signature(message, &signature));

    let wrong_message = b"Hello, analog world!";
    assert!(!dna.verify_signature(wrong_message, &signature));
}

#[test]
fn test_point_mutation() {
    let mut dna = DigitalDNA::generate_new().unwrap();
    let original_sequence = dna.sequence.clone();

    let mutation = Mutation::PointMutation {
        position: 0,
        old_value: original_sequence[0],
        new_value: 255,
        timestamp: 0,
    };

    dna.mutate(mutation).unwrap();

    assert_eq!(dna.sequence[0], 255);
    assert_eq!(dna.generation, 1);
    assert_eq!(dna.mutations.len(), 1);
    assert!(dna.fitness < UNIT);
}

#[test]
fn test_insertion_mutation() {
    let mut dna = DigitalDNA::generate_new().unwrap();
    let original_len = dna.sequence.len();

    let mutation = Mutation::Insertion { position: 0, sequence: vec![1, 2, 3], timestamp: 0 };

    dna.mutate(mutation).unwrap();

    assert_eq!(dna.sequence.len(), original_len + 3);
    assert_eq!(dna.sequence[0], 1);
    assert_eq!(dna.sequence[1], 2);
    assert_eq!(dna.sequence[2], 3);
}

#[test]
fn test_deletion_mutation() {
    let mut dna = DigitalDNA::generate_new().unwrap();
    let original_len = dna.sequence.len();

    let mutation = Mutation::Deletion { position: 0, length: 2, timestamp: 0 };

    dna.mutate(mutation).unwrap();

    assert_eq!(dna.sequence.len(), original_len - 2);
}

#[test]
fn test_dna_crossover() {
    let dna1 = DigitalDNA::generate_new().unwrap();
    let dna2 = DigitalDNA::generate_new().unwrap();

    let child = dna1.crossover(&dna2).unwrap();

    assert_eq!(child.generation, dna1.generation.max(dna2.generation) + 1);
    assert!(child.parent_hash.is_some());
    assert!(!child.sequence.is_empty());
    assert!(child.fitness <= dna1.fitness.max(dna2.fitness));
}

#[test]
fn test_genetic_distance() {
    let dna1 = DigitalDNA::generate_new().unwrap();
    let dna2 = DigitalDNA::generate_new().unwrap();

    let distance = dna1.genetic_distance(&dna2);
    assert!(distance <= UNIT);

    let self_distance = dna1.genetic_distance(&dna1);
    assert_eq!(self_distance, 0);
}

#[test]
fn test_fitness_update() {
    let mut dna = DigitalDNA::generate_new().unwrap();
    let initial_fitness = dna.fitness;

    dna.update_fitness(800_000_000);
    assert_ne!(dna.fitness, initial_fitness);

    dna.update_fitness(1_200_000_000);
    assert!(dna.fitness <= 2 * UNIT);
}

#[test]
fn test_key_evolution() {
    let mut dna = DigitalDNA::generate_new().unwrap();
    let _original_generation = dna.keypair.key_generation;
    let original_public_key = dna.keypair.public_key;

    dna.evolve_keys(1).unwrap();

    assert_eq!(dna.keypair.key_generation, 1);
    assert_ne!(dna.keypair.public_key, original_public_key);
    assert_eq!(dna.keypair.derivation_path.len(), 2);
}

#[test]
fn test_random_mutation_generation() {
    let dna = DigitalDNA::generate_new().unwrap();

    for _ in 0..10 {
        let mutation = dna.generate_random_mutation();
        match mutation {
            Mutation::PointMutation { position, .. } => {
                assert!(position < dna.sequence.len());
            }
            Mutation::Insertion { position, .. } => {
                assert!(position <= dna.sequence.len());
            }
            Mutation::Deletion { position, length, .. } => {
                assert!(position < dna.sequence.len());
                assert!(length > 0);
            }
            _ => {}
        }
    }
}

#[test]
fn test_dna_info() {
    let dna = DigitalDNA::generate_new().unwrap();
    let info = dna.get_info();

    assert_eq!(info.hash, dna.get_hash());
    assert_eq!(info.generation, dna.generation);
    assert_eq!(info.sequence_length, dna.sequence.len());
    assert_eq!(info.fitness, dna.fitness);
    assert_eq!(info.species, "TRON");
}

#[test]
fn hash_is_sha256_hex_of_sequence_generation_and_key() {
    let mut dna = with_sequence(&[1, 2, 3, 4]);
    dna.generation = 0x0102;
    let mut hasher = sha2::Sha256::new();
    hasher.update(&dna.sequence);
    hasher.update(&dna.generation.to_le_bytes());
    hasher.update(&dna.keypair.public_key);
    let expected = format!("{:x}", hasher.finalize());
    assert_eq!(dna.get_hash(), expected);
}

#[test]
fn hash_changes_after_mutation() {
    let mut dna = fresh();
    let before = dna.get_hash();
    assert_eq!(before, dna.get_hash());
    dna.mutate(Mutation::Inversion { start: 0, end: 2, timestamp: 0 }).unwrap();
    assert_ne!(before, dna.get_hash());
}

#[test]
fn fresh_genome_has_sixty_four_bytes_and_defaults() {
    let dna = fresh();
    assert_eq!(dna.sequence.len(), 64);
    assert_eq!(dna.metadata.mutation_rate, 10_000_000);
    assert_eq!(dna.metadata.crossover_compatibility, 800_000_000);
    assert_eq!(dna.metadata.adaptation_score, 500_000_000);
    assert_eq!(dna.metadata.neural_complexity, 100_000_000);
    assert_eq!(dna.keypair.derivation_path, vec![0]);
    assert!(dna.parent_hash.is_none());
}

#[test]
fn public_key_matches_secret_key() {
    let dna = fresh();
    let key = ed25519_dalek::SigningKey::from_bytes(&dna.keypair.secret_key);
    assert_eq!(key.verifying_key().to_bytes(), dna.keypair.public_key);
}

#[test]
fn from_signing_key_installs_the_key() {
    let key = ed25519_dalek::SigningKey::from_bytes(&[7u8; 32]);
    let dna = DigitalDNA::from_signing_key(key.clone()).unwrap();
    assert_eq!(dna.keypair.secret_key, [7u8; 32]);
    assert_eq!(dna.keypair.public_key, key.verifying_key().to_bytes());
    assert_eq!(dna.keypair.key_generation, 0);
    assert_eq!(dna.sequence.len(), 64);
}

#[test]
fn signature_of_wrong_length_is_rejected() {
    let dna = fresh();
    let mut signature = dna.sign_data(b"abc").unwrap();
    assert_eq!(signature.len(), 64);
    signature.pop();
    assert!(!dna.verify_signature(b"abc", &signature));
}

#[test]
fn signature_from_other_genome_is_rejected() {
    let a = fresh();
    let b = fresh();
    let signature = a.sign_data(b"abc").unwrap();
    assert!(!b.verify_signature(b"abc", &signature));
}

#[test]
fn out_of_range_point_mutation_changes_nothing() {
    let mut dna = fresh();
    let before = dna.clone();
    let r = dna.mutate(Mutation::PointMutation {
        position: 64,
        old_value: 0,
        new_value: 1,
        timestamp: 0,
    });
    assert!(matches!(r, Err(DNAError::InvalidMutationPosition(64))));
    assert_eq!(dna.sequence, before.sequence);
    assert_eq!(dna.generation, before.generation);
    assert_eq!(dna.mutations.len(), before.mutations.len());
    assert_eq!(dna.fitness, before.fitness);
}

#[test]
fn invalid_ranges_are_rejected() {
    let mut dna = with_sequence(&[1, 2, 3, 4, 5]);
    assert!(matches!(
        dna.mutate(Mutation::Inversion { start: 3, end: 3, timestamp: 0 }),
        Err(DNAError::InvalidMutationRange(3, 3))
    ));
    assert!(matches!(
        dna.mutate(Mutation::Duplication { start: 2, end: 6, insert_at: 0, timestamp: 0 }),
        Err(DNAError::InvalidMutationRange(2, 6))
    ));
    assert!(matches!(
        dna.mutate(Mutation::Translocation {
            from_start: 5,
            from_end: 5,
            to_position: 0,
            timestamp: 0
        }),
        Err(DNAError::InvalidMutationRange(5, 5))
    ));
    assert!(matches!(
        dna.mutate(Mutation::Insertion { position: 6, sequence: vec![9], timestamp: 0 }),
        Err(DNAError::InvalidMutationPosition(6))
    ));
    assert!(matches!(
        dna.mutate(Mutation::Deletion { position: 3, length: 3, timestamp: 0 }),
        Err(DNAError::InvalidMutationPosition(3))
    ));
    assert!(matches!(
        dna.mutate(Mutation::Deletion { position: 0, length: 5, timestamp: 0 }),
        Err(DNAError::InvalidMutationPosition(0))
    ));
    assert_eq!(dna.sequence, vec![1, 2, 3, 4, 5]);
    assert_eq!(dna.generation, 0);
}

#[test]
fn structural_operators_edit_as_described() {
    let mut dna = with_sequence(&[1, 2, 3, 4, 5, 6]);
    dna.mutate(Mutation::Inversion { start: 1, end: 4, timestamp: 0 }).unwrap();
    assert_eq!(dna.sequence, vec![1, 4, 3, 2, 5, 6]);
    dna.mutate(Mutation::Duplication { start: 0, end: 2, insert_at: 100, timestamp: 0 }).unwrap();
    assert_eq!(dna.sequence, vec![1, 4, 3, 2, 5, 6, 1, 4]);
    dna.mutate(Mutation::Translocation { from_start: 0, from_end: 2, to_position: 3, timestamp: 0 })
        .unwrap();
    assert_eq!(dna.sequence, vec![3, 2, 5, 1, 4, 6, 1, 4]);
    dna.mutate(Mutation::Deletion { position: 6, length: 2, timestamp: 0 }).unwrap();
    assert_eq!(dna.sequence, vec![3, 2, 5, 1, 4, 6]);
    dna.mutate(Mutation::Insertion { position: 6, sequence: vec![9, 9], timestamp: 0 }).unwrap();
    assert_eq!(dna.sequence, vec![3, 2, 5, 1, 4, 6, 9, 9]);
    assert_eq!(dna.generation, 5);
    assert_eq!(dna.metadata.biological_age, 5);
    assert_eq!(dna.mutations.len(), 5);
}

#[test]
fn mutation_updates_fitness_and_metadata() {
    let mut dna = fresh();
    dna.mutate(Mutation::PointMutation { position: 3, old_value: 0, new_value: 9, timestamp: 0 })
        .unwrap();
    assert_eq!(dna.fitness, 980_000_000);
    assert_eq!(dna.metadata.mutation_rate, 10_000_000);
    assert_eq!(dna.metadata.adaptation_score, 475_000_000);
    dna.metadata.mutation_rate = 20_000_000;
    dna.mutate(Mutation::PointMutation { position: 3, old_value: 9, new_value: 8, timestamp: 0 })
        .unwrap();
    assert_eq!(dna.metadata.mutation_rate, 19_000_000);
}

#[test]
fn fitness_decays_geometrically() {
    let mut dna = fresh();
    for n in 1..=20u32 {
        dna.mutate(Mutation::PointMutation { position: 0, old_value: 0, new_value: 1, timestamp: 0 })
            .unwrap();
        let expected = 0.98f64.powi(n as i32);
        let got = dna.fitness as f64 / UNIT as f64;
        assert!((got - expected).abs() < 1e-7);
    }
}

#[test]
fn insertion_and_deletion_change_length_exactly() {
    let mut dna = fresh();
    dna.mutate(Mutation::Insertion { position: 10, sequence: vec![0; 7], timestamp: 0 }).unwrap();
    assert_eq!(dna.sequence.len(), 71);
    dna.mutate(Mutation::Deletion { position: 5, length: 4, timestamp: 0 }).unwrap();
    assert_eq!(dna.sequence.len(), 67);
}

#[test]
fn key_evolution_mutation_rotates_keys_deterministically() {
    let mut a = fresh();
    let mut b = a.clone();
    a.mutate(Mutation::KeyEvolution { old_generation: 0, new_generation: 1, timestamp: 0 })
        .unwrap();
    b.evolve_keys(1).unwrap();
    assert_eq!(a.keypair.secret_key, b.keypair.secret_key);
    assert_eq!(a.keypair.public_key, b.keypair.public_key);
    assert_eq!(a.keypair.derivation_path, vec![0, 1]);
    assert_eq!(a.generation, 1);
    let key = ed25519_dalek::SigningKey::from_bytes(&a.keypair.secret_key);
    assert_eq!(key.verifying_key().to_bytes(), a.keypair.public_key);
}

#[test]
fn mutation_from_draws_selects_each_kind() {
    let dna = with_sequence(&[10, 20, 30, 40, 50]);
    match dna.mutation_from_draws(0, 7, 0, 0, 99, vec![], 5) {
        Mutation::PointMutation { position, old_value, new_value, timestamp } => {
            assert_eq!((position, old_value, new_value, timestamp), (2, 30, 99, 5));
        }
        _ => panic!("expected a point mutation"),
    }
    match dna.mutation_from_draws(8, 11, 0, 0, 0, vec![1, 2], 0) {
        Mutation::Insertion { position, sequence, .. } => {
            assert_eq!(position, 5);
            assert_eq!(sequence, vec![1, 2]);
        }
        _ => panic!("expected an insertion"),
    }
    match dna.mutation_from_draws(2, 4, 3, 0, 0, vec![], 0) {
        Mutation::Deletion { position, length, .. } => assert_eq!((position, length), (4, 1)),
        _ => panic!("expected a deletion"),
    }
    match dna.mutation_from_draws(3, 1, 2, 9, 0, vec![], 0) {
        Mutation::Duplication { start, end, insert_at, .. } => {
            assert_eq!((start, end, insert_at), (1, 4, 3))
        }
        _ => panic!("expected a duplication"),
    }
    match dna.mutation_from_draws(4, 3, 7, 0, 0, vec![], 0) {
        Mutation::Inversion { start, end, .. } => assert_eq!((start, end), (3, 5)),
        _ => panic!("expected an inversion"),
    }
    match dna.mutation_from_draws(5, 0, 1, 4, 0, vec![], 0) {
        Mutation::Translocation { from_start, from_end, to_position, .. } => {
            assert_eq!((from_start, from_end, to_position), (0, 2, 4))
        }
        _ => panic!("expected a translocation"),
    }
    match dna.mutation_from_draws(6, 0, 0, 0, 0, vec![], 0) {
        Mutation::KeyEvolution { old_generation, new_generation, .. } => {
            assert_eq!((old_generation, new_generation), (0, 1))
        }
        _ => panic!("expected a key evolution"),
    }
}

#[test]
fn drawn_deletion_never_empties_short_sequence() {
    let dna = with_sequence(&[1, 2, 3]);
    match dna.mutation_from_draws(2, 0, 3, 0, 0, vec![], 0) {
        Mutation::Deletion { position, length, .. } => assert_eq!((position, length), (0, 2)),
        _ => panic!("expected a deletion"),
    }
}

#[test]
fn random_mutations_always_apply() {
    let mut dna = fresh();
    for _ in 0..50 {
        let m = dna.generate_random_mutation();
        dna.mutate(m).unwrap();
        assert!(!dna.sequence.is_empty());
    }
    assert_eq!(dna.generation, 50);
}

#[test]
fn crossover_with_draws_builds_child_exactly() {
    let mut a = with_sequence(&[1, 1, 1, 1, 1, 1, 1, 1]);
    let mut b = with_sequence(&[2, 2, 2, 2, 2, 2]);
    a.generation = 4;
    b.generation = 9;
    a.fitness = 1_000_000_000;
    b.fitness = 1_200_000_000;
    a.metadata.mutation_rate = 10_000_000;
    b.metadata.mutation_rate = 30_000_000;
    b.metadata.species = "OTHER".to_string();
    let base = fresh();
    let base_key = base.keypair.public_key;
    let child = a.crossover_with_draws(&b, 4, 5, false, base).unwrap();
    assert_eq!(child.sequence, vec![1, 2, 2, 2, 2, 1, 1, 1]);
    assert_eq!(child.generation, 10);
    assert_eq!(child.parent_hash, Some(a.get_hash()));
    assert_eq!(child.fitness, 1_140_000_000);
    assert_eq!(child.metadata.mutation_rate, 20_000_000);
    assert_eq!(child.metadata.species, "OTHER");
    assert_eq!(child.keypair.public_key, base_key);
}

#[test]
fn crossover_rejects_short_and_incompatible_genomes() {
    let a = with_sequence(&[1, 2, 3]);
    let b = fresh();
    assert!(matches!(a.crossover(&b), Err(DNAError::SequenceTooShort)));
    assert!(matches!(b.crossover(&a), Err(DNAError::SequenceTooShort)));
    let mut c = fresh();
    c.metadata.crossover_compatibility = 400_000_000;
    assert!(matches!(b.crossover(&c), Err(DNAError::CrossoverIncompatible)));
    assert!(matches!(c.crossover(&a), Err(DNAError::CrossoverIncompatible)));
}

#[test]
fn crossover_child_inherits_lineage() {
    let mut a = fresh();
    let b = fresh();
    a.mutate(Mutation::PointMutation { position: 0, old_value: 0, new_value: 3, timestamp: 0 })
        .unwrap();
    let child = a.crossover(&b).unwrap();
    assert_eq!(child.generation, 2);
    assert_eq!(child.parent_hash, Some(a.get_hash()));
    assert_eq!(child.fitness, 950_000_000);
    assert_eq!(child.sequence.len(), 64);
    assert!(child.mutations.is_empty());
}

#[test]
fn genetic_distance_counts_mismatches_and_length_gap() {
    let a = with_sequence(&[1, 2, 3, 4]);
    let b = with_sequence(&[1, 9, 3, 4, 5, 6, 7, 8]);
    assert_eq!(a.genetic_distance(&b), 625_000_000);
    assert_eq!(b.genetic_distance(&a), 625_000_000);
    let c = with_sequence(&[9, 9, 9, 9]);
    assert_eq!(a.genetic_distance(&c), UNIT);
}

#[test]
fn update_fitness_follows_moving_average() {
    let mut dna = fresh();
    dna.update_fitness(0);
    assert_eq!(dna.fitness, 900_000_000);
    assert_eq!(dna.metadata.adaptation_score, 400_000_000);
    dna.fitness = 2_000_000_000;
    dna.update_fitness(5_000_000_000);
    assert_eq!(dna.fitness, 2_000_000_000);
    assert_eq!(dna.metadata.adaptation_score, UNIT);
    dna.update_fitness(-30_000_000_000);
    assert_eq!(dna.fitness, 0);
    assert_eq!(dna.metadata.adaptation_score, 0);
}

#[test]
fn evolved_secret_comes_from_seeded_generator() {
    let mut dna = with_sequence(&[5, 6, 7]);
    let old_secret = dna.keypair.secret_key;
    dna.evolve_keys(3).unwrap();
    let mut hasher = sha2::Sha256::new();
    hasher.update(&old_secret);
    hasher.update(&3u64.to_le_bytes());
    hasher.update(&[5u8, 6, 7]);
    let mut seed = [0u8; 32];
    seed.copy_from_slice(&hasher.finalize());
    let mut rng = rand::rngs::StdRng::from_seed(seed);
    let mut expected = [0u8; 32];
    rng.fill_bytes(&mut expected);
    assert_eq!(dna.keypair.secret_key, expected);
    assert_eq!(dna.keypair.derivation_path, vec![0, 3]);
    assert_ne!(dna.keypair.secret_key, seed);
}

#[test]
fn crossover_averages_metadata() {
    let mut a = with_sequence(&[1, 2, 3, 4]);
    let mut b = with_sequence(&[5, 6, 7, 8]);
    a.metadata.biological_age = 3;
    b.metadata.biological_age = 6;
    a.metadata.crossover_compatibility = 600_000_000;
    b.metadata.crossover_compatibility = 900_000_000;
    a.metadata.adaptation_score = 100_000_000;
    b.metadata.adaptation_score = 300_000_000;
    a.metadata.reproductive_success = 0;
    b.metadata.reproductive_success = 500_000_000;
    a.metadata.neural_complexity = 100_000_000;
    b.metadata.neural_complexity = 200_000_000;
    let child = a.crossover_with_draws(&b, 1, 0, true, fresh()).unwrap();
    assert_eq!(child.sequence, vec![1, 6, 3, 4]);
    assert_eq!(child.metadata.biological_age, 4);
    assert_eq!(child.metadata.crossover_compatibility, 750_000_000);
    assert_eq!(child.metadata.adaptation_score, 200_000_000);
    assert_eq!(child.metadata.reproductive_success, 250_000_000);
    assert_eq!(child.metadata.neural_complexity, 150_000_000);
    assert_eq!(child.metadata.species, "TRON");
    assert_eq!(child.generation, 1);
}

#[test]
fn well_formedness_reflects_bounds() {
    let mut dna = fresh();
    assert!(dna.is_well_formed());
    dna.fitness = 2 * UNIT + 1;
    assert!(!dna.is_well_formed());
    dna.fitness = UNIT;
    dna.sequence.clear();
    assert!(!dna.is_well_formed());
}

#[test]
fn deletion_draw_on_single_byte_duplicates_it() {
    let dna = with_sequence(&[42]);
    match dna.mutation_from_draws(2, 0, 3, 5, 0, vec![], 0) {
        Mutation::Duplication { start, end, insert_at, .. } => {
            assert_eq!((start, end, insert_at), (0, 1, 1))
        }
        _ => panic!("expected a duplication"),
    }
    let mut dna = dna;
    for _ in 0..20 {
        let m = dna.generate_random_mutation();
        if let Mutation::Deletion { length, .. } = m {
            assert!(length >= 1);
        }
        if let Mutation::KeyEvolution { old_generation, new_generation, .. } = m {
            assert_eq!(old_generation, dna.keypair.key_generation);
            assert_eq!(new_generation, dna.keypair.key_generation + 1);
        }
        dna.mutate(m).unwrap();
    }
}

#[test]
fn from_secret_key_installs_the_key() {
    let dna = DigitalDNA::from_secret_key([9u8; 32]).unwrap();
    let key = ed25519_dalek::SigningKey::from_bytes(&[9u8; 32]);
    assert_eq!(dna.keypair.secret_key, [9u8; 32]);
    assert_eq!(dna.keypair.public_key, key.verifying_key().to_bytes());
    assert_eq!(dna.keypair.derivation_path, vec![0]);
    assert_eq!(dna.fitness, UNIT);
}

#[test]
fn crossover_child_has_fresh_keypair() {
    let mut a = fresh();
    let b = fresh();
    a.evolve_keys(4).unwrap();
    let child = a.crossover(&b).unwrap();
    assert_eq!(child.keypair.key_generation, 0);
    assert_eq!(child.keypair.derivation_path, vec![0]);
    let key = ed25519_dalek::SigningKey::from_bytes(&child.keypair.secret_key);
    assert_eq!(key.verifying_key().to_bytes(), child.keypair.public_key);
    assert_ne!(child.keypair.public_key, a.keypair.public_key);
    assert_ne!(child.keypair.public_key, b.keypair.public_key);
}
