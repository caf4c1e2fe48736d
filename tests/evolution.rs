use genesis_protocol::evolution::{
    EvolutionEngine, EvolutionError, EvolutionOutcome, FitnessStats, Organism,
};
use genesis_protocol::fixed::UNIT;
use genesis_protocol::dna::{DigitalDNA, Mutation};

fn organism(id: &str) -> Organism {
    Organism { id: id.to_string(), dna: DigitalDNA::generate_new().unwrap() }
}

#[test]
fn test_evolution_engine_creation() {
    let engine = EvolutionEngine::new().unwrap();
    assert_eq!(engine.current_cycle, 0);
    assert_eq!(engine.selection_pressure, 500_000_000);
    assert_eq!(engine.mutation_rate, 10_000_000);
}

#[test]
fn test_organism_evolution() {
    let mut engine = EvolutionEngine::new().unwrap();
    let mut organism = organism("tron_1");

    let initial_fitness = organism.dna.fitness;
    let initial_generation = organism.dna.generation;

    let event = engine.evolve_organism(&mut organism).unwrap();

    assert_eq!(event.organism_id, organism.id);
    assert_eq!(event.fitness_before, initial_fitness);
    assert_eq!(organism.dna.generation, initial_generation + 1);
    assert_eq!(engine.evolution_history.len(), 1);
}

#[test]
fn test_selection_pressure() {
    let mut engine = EvolutionEngine::new().unwrap();
    let mut organisms = Vec::new();

    for i in 0..10u64 {
        let mut o = organism(&format!("tron_{}", i));
        o.dna.fitness = i * UNIT / 10;
        organisms.push(o);
    }

    engine.selection_pressure = 500_000_000;
    let eliminated = engine.apply_selection_pressure(&mut organisms).unwrap();

    assert!(eliminated.len() > 0);
    assert!(organisms.len() < 10);

    for organism in &organisms {
        assert!(organism.dna.fitness >= 500_000_000);
    }
}

#[test]
fn test_fitness_stats() {
    let mut stats = FitnessStats::new();

    stats.update_fitness(800_000_000);
    stats.update_fitness(600_000_000);
    stats.update_fitness(900_000_000);

    assert_eq!(stats.organism_count, 3);
    assert_eq!(stats.max_fitness, 900_000_000);
    assert_eq!(stats.min_fitness, 600_000_000);
    let average = stats.average_fitness as f64 / UNIT as f64;
    assert!((average - 0.7667).abs() < 0.01);
}

#[test]
fn test_evolution_cycle_advance() {
    let mut engine = EvolutionEngine::new().unwrap();
    let initial_cycle = engine.current_cycle;

    engine.advance_cycle();

    assert_eq!(engine.current_cycle, initial_cycle + 1);
}

#[test]
fn test_mutation_rate_adjustment() {
    let mut engine = EvolutionEngine::new().unwrap();

    engine.fitness_stats.average_fitness = 900_000_000;
    let initial_rate = engine.mutation_rate;

    engine.advance_cycle();

    assert!(engine.mutation_rate < initial_rate);

    engine.fitness_stats.average_fitness = 200_000_000;
    let current_rate = engine.mutation_rate;

    engine.advance_cycle();

    assert!(engine.mutation_rate > current_rate);
}

#[test]
fn selection_eliminates_exactly_the_weak_half() {
    let mut engine = EvolutionEngine::new().unwrap();
    let mut organisms = Vec::new();
    for i in 0..10u64 {
        let mut o = organism(&format!("tron_{}", i));
        o.dna.fitness = i * 100_000_000;
        organisms.push(o);
    }
    engine.selection_pressure = 500_000_000;
    let eliminated = engine.apply_selection_pressure(&mut organisms).unwrap();
    assert_eq!(eliminated, vec!["tron_4", "tron_3", "tron_2", "tron_1", "tron_0"]);
    let kept: Vec<&str> = organisms.iter().map(|o| o.id.as_str()).collect();
    assert_eq!(kept, vec!["tron_9", "tron_8", "tron_7", "tron_6", "tron_5"]);
    assert_eq!(engine.fitness_stats.organism_count, 5);
    assert_eq!(engine.fitness_stats.average_fitness, 700_000_000);
    assert_eq!(engine.fitness_stats.max_fitness, 900_000_000);
    assert_eq!(engine.fitness_stats.min_fitness, 500_000_000);
    assert_eq!(engine.fitness_stats.fitness_variance, 20_000_000);
}

#[test]
fn selection_of_everyone_keeps_stats() {
    let mut engine = EvolutionEngine::new().unwrap();
    let mut organisms = vec![organism("a"), organism("b")];
    organisms[0].dna.fitness = 100;
    organisms[1].dna.fitness = 200;
    let eliminated = engine.apply_selection_pressure(&mut organisms).unwrap();
    assert_eq!(eliminated, vec!["b", "a"]);
    assert!(organisms.is_empty());
    assert_eq!(engine.fitness_stats.organism_count, 0);
    assert_eq!(engine.fitness_stats.min_fitness, u64::MAX);
}

#[test]
fn mutation_rate_tuning_values() {
    let mut engine = EvolutionEngine::new().unwrap();
    engine.fitness_stats.average_fitness = 900_000_000;
    engine.advance_cycle();
    assert_eq!(engine.mutation_rate, 9_000_000);
    engine.fitness_stats.average_fitness = 200_000_000;
    engine.advance_cycle();
    assert_eq!(engine.mutation_rate, 9_900_000);
    engine.fitness_stats.average_fitness = 500_000_000;
    engine.advance_cycle();
    assert_eq!(engine.mutation_rate, 9_900_000);
    engine.mutation_rate = 1_000_000;
    engine.fitness_stats.average_fitness = 900_000_000;
    engine.advance_cycle();
    assert_eq!(engine.mutation_rate, 1_000_000);
    engine.mutation_rate = 100_000_000;
    engine.fitness_stats.average_fitness = 100_000_000;
    engine.advance_cycle();
    assert_eq!(engine.mutation_rate, 100_000_000);
    assert_eq!(engine.current_cycle, 5);
}

#[test]
fn weak_organism_is_refused_unchanged() {
    let mut engine = EvolutionEngine::new().unwrap();
    let mut o = organism("weak");
    o.dna.fitness = 50_000_000;
    let sequence = o.dna.sequence.clone();
    let r = engine.evolve_organism(&mut o);
    assert!(matches!(r, Err(EvolutionError::InsufficientFitness(50_000_000))));
    assert_eq!(o.dna.sequence, sequence);
    assert_eq!(o.dna.generation, 0);
    assert!(o.dna.mutations.is_empty());
    assert!(engine.evolution_history.is_empty());
}

#[test]
fn low_fitness_organism_gets_duplication() {
    let mut engine = EvolutionEngine::new().unwrap();
    let mut o = organism("low");
    o.dna.fitness = 200_000_000;
    match engine.evolve_organism(&mut o) {
        Ok(event) => {
            assert!(matches!(event.mutation, Mutation::Duplication { .. }));
            assert_eq!(o.dna.generation, 1);
        }
        Err(e) => {
            assert!(matches!(e, EvolutionError::MutationFailed(_)));
            assert_eq!(o.dna.generation, 0);
        }
    }
}

#[test]
fn evolution_records_events_and_stats() {
    let mut engine = EvolutionEngine::new().unwrap();
    let mut o = organism("x");
    for _ in 0..3 {
        let event = engine.evolve_organism(&mut o).unwrap();
        assert_eq!(event.outcome, EvolutionOutcome::Failed);
        assert_eq!(event.fitness_after, o.dna.fitness);
    }
    let stats = engine.get_stats();
    assert_eq!(stats.total_events, 3);
    assert_eq!(stats.failed_evolutions, 3);
    assert_eq!(stats.successful_evolutions, 0);
    assert_eq!(stats.max_fitness, 980_000_000);
    assert_eq!(stats.min_fitness, o.dna.fitness);
    assert_eq!(engine.fitness_stats.organism_count, 3);
}

#[test]
fn selection_sorts_survivors_by_descending_fitness() {
    let mut engine = EvolutionEngine::new().unwrap();
    let fitness = [600_000_000u64, 900_000_000, 100_000_000, 700_000_000, 900_000_000];
    let mut organisms = Vec::new();
    for (i, f) in fitness.iter().enumerate() {
        let mut o = organism(&format!("o{}", i));
        o.dna.fitness = *f;
        organisms.push(o);
    }
    let eliminated = engine.apply_selection_pressure(&mut organisms).unwrap();
    assert_eq!(eliminated, vec!["o2"]);
    let kept: Vec<u64> = organisms.iter().map(|o| o.dna.fitness).collect();
    assert_eq!(kept, vec![900_000_000, 900_000_000, 700_000_000, 600_000_000]);
    assert_eq!(engine.fitness_stats.average_fitness, 775_000_000);
}
