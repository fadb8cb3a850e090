use lau_agent_organism::rng::{rand_bool, PseudoRandom, DRAW_RANGE};

#[test]
fn first_draws_from_the_default_seed() {
    let mut rng = PseudoRandom::new();
    assert_eq!(rng.seed, 42);
    assert_eq!(rng.next_draw(), 1220265334);
    assert_eq!(rng.seed, 10481999410520546993);
    assert_eq!(rng.next_draw(), 484179026);
    assert_eq!(rng.seed, 4159066171780167020);
}

#[test]
fn coin_flips_from_the_default_seed() {
    let mut rng = PseudoRandom::new();
    let flips: Vec<bool> = (0..5).map(|_| rand_bool(&mut rng)).collect();
    assert_eq!(flips, vec![false, true, true, false, false]);
}

#[test]
fn draws_match_the_unit_fraction() {
    let mut rng = PseudoRandom::with_seed(42);
    let d = rng.next_draw();
    assert!(d < DRAW_RANGE);
    let fraction = d as f64 / DRAW_RANGE as f64;
    assert!((fraction - 0.5682303262874484).abs() < 1e-15);
}

#[test]
fn same_seed_same_sequence() {
    let mut a = PseudoRandom::with_seed(7);
    let mut b = PseudoRandom::with_seed(7);
    for _ in 0..100 {
        assert_eq!(a.next_draw(), b.next_draw());
    }
}
