use mdp::generator::{gen_pass, generate, random_char_from, CharSet, XorShiftStar};

const SPECIALS: &str = "!@#$?&_.~-";

fn check_classes(p: &str, length: usize) {
    assert_eq!(p.chars().count(), length);
    assert!(p.chars().any(|c| c.is_ascii_uppercase()));
    assert!(p.chars().any(|c| c.is_ascii_lowercase()));
    assert!(p.chars().any(|c| c.is_ascii_digit()));
    assert!(p.chars().any(|c| SPECIALS.contains(c)));
    assert!(p.chars().all(|c| c.is_ascii_alphanumeric() || SPECIALS.contains(c)));
}

#[test]
fn engine_values_from_seed_one() {
    let mut rng = XorShiftStar::from_seed(1);
    assert_eq!(rng.next_u64(), 14229403333805649181);
    assert_eq!(rng.next_u64(), 11941438223552631185);
    assert_eq!(rng.next_u64(), 780631757808104859);
}

#[test]
fn zero_seed_becomes_one() {
    let mut a = XorShiftStar::from_seed(0);
    let mut b = XorShiftStar::from_seed(1);
    assert_eq!(a.next_u64(), b.next_u64());
}

#[test]
fn random_index_stays_below_max() {
    let mut rng = XorShiftStar::from_seed(1);
    assert_eq!(rng.random_index(10), (14229403333805649181u64 % 10) as usize);
    let mut rng = XorShiftStar::new();
    for max in 1..200usize {
        assert!(rng.random_index(max) < max);
    }
}

#[test]
fn char_sets_in_order() {
    assert_eq!(CharSet::All.len(), 72);
    assert_eq!(CharSet::All.char_at(0), 'a');
    assert_eq!(CharSet::All.char_at(26), 'A');
    assert_eq!(CharSet::All.char_at(52), '0');
    assert_eq!(CharSet::All.char_at(71), '-');
    assert_eq!(CharSet::Special.char_at(4), '?');
    assert_eq!(CharSet::Upper.char_at(25), 'Z');
    let mut rng = XorShiftStar::from_seed(1);
    assert_eq!(random_char_from(&mut rng, CharSet::Digit), '1');
}

#[test]
fn generate_from_fixed_seeds() {
    let mut rng = XorShiftStar::from_seed(42);
    assert_eq!(generate(&mut rng, 12), Some("qWzMVblJ?2l6".to_string()));
    let mut rng = XorShiftStar::from_seed(1);
    assert_eq!(generate(&mut rng, 4), Some("~pX9".to_string()));
    let mut rng = XorShiftStar::from_seed(7);
    assert_eq!(generate(&mut rng, 32), Some("~15w!u5xy~uU$s?FGDWsDHz0.fe03fa~".to_string()));
}

#[test]
fn generate_covers_classes_for_all_lengths() {
    for seed in 0..20u64 {
        for length in 4..=32usize {
            let mut rng = XorShiftStar::from_seed(seed);
            let p = generate(&mut rng, length).unwrap();
            check_classes(&p, length);
        }
    }
}

#[test]
fn generate_rejects_short_lengths() {
    let mut rng = XorShiftStar::from_seed(3);
    for length in 0..4usize {
        assert_eq!(generate(&mut rng, length), None);
    }
    let mut fresh = XorShiftStar::from_seed(3);
    assert_eq!(rng.next_u64(), fresh.next_u64());
}

#[test]
fn gen_pass_default_length() {
    let p = gen_pass(12).unwrap();
    check_classes(&p, 12);
    assert_eq!(gen_pass(3), None);
}
