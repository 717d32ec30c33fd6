use gene_pool::gene::{Fitness, Gene};
use gene_pool::pool::Pool;

fn fitness_value(f: &Fitness) -> f32 {
    let span: usize = 0x7E - 0x20 + 1;
    1.0 - (f.total_difference as f32) / (((span / 2) * f.positions) as f32)
}

#[test]
fn pool_has_requested_size() {
    let target = Gene::new("hello").unwrap();
    let pool = Pool::new(target, 50);
    assert_eq!(pool.size(), 50);
}

#[test]
fn pool_members_match_target_length() {
    let target = Gene::new("hello").unwrap();
    let pool = Pool::new(target, 40);
    for i in 0..pool.size() {
        let member = pool.member_at(i);
        assert_eq!(member.len(), 5);
        assert!(member.dna().iter().all(|b| (0x20..=0x7E).contains(b)));
    }
}

#[test]
fn generation_step_keeps_size() {
    let target = Gene::new("hi").unwrap();
    let mut pool = Pool::new(target, 20);
    for _ in 0..5 {
        pool.natural_selection();
        assert_eq!(pool.size(), 20);
    }
}

#[test]
fn best_member_beats_every_other() {
    let target = Gene::new("abcdef").unwrap();
    let target_copy = target.duplicate();
    let pool = Pool::new(target, 30);
    let best = pool.get_best();
    let best_diff = best.calc_fitness(&target_copy).unwrap().total_difference;
    for i in 0..pool.size() {
        let other = pool.member_at(i).calc_fitness(&target_copy).unwrap().total_difference;
        assert!(best_diff <= other);
    }
}

#[test]
fn evolution_converges_toward_target() {
    let target = Gene::new("hello").unwrap();
    let target_copy = target.duplicate();
    let mut pool = Pool::new(target, 200);

    let initial = fitness_value(&pool.get_best().calc_fitness(&target_copy).unwrap());

    let mut last = initial;
    for _ in 0..400 {
        pool.natural_selection();
        let f = pool.get_best().calc_fitness(&target_copy).unwrap();
        last = fitness_value(&f);
        if f.total_difference == 0 {
            break;
        }
    }

    assert!(last > initial, "no improvement after evolving: {initial} -> {last}");
    assert!(last >= 0.9, "fitness stayed low after evolving: {last}");
}
