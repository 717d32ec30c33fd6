use gene_pool::gene::{Fitness, Gene, GeneError};

/// The fitness score the reference formula assigns, evaluated in floating
/// point at the edge: `1 - total_difference / ((95 / 2) * positions)`, with
/// an empty candidate scoring a perfect 1 against itself.
fn fitness_value(f: &Fitness) -> f32 {
    if f.positions == 0 {
        return 1.0;
    }
    let span: usize = 0x7E - 0x20 + 1;
    1.0 - (f.total_difference as f32) / (((span / 2) * f.positions) as f32)
}

#[test]
fn construct_roundtrip() {
    let g = Gene::new("Hello, world!").unwrap();
    assert_eq!(g.to_string(), "Hello, world!");
    let e = Gene::new("").unwrap();
    assert_eq!(e.to_string(), "");
    let b = Gene::new(" ~").unwrap();
    assert_eq!(b.to_string(), " ~");
}

#[test]
fn construct_rejects_non_printable() {
    assert_eq!(Gene::new("caf\u{e9}").unwrap_err(), GeneError::NotPrintableAscii);
    assert_eq!(Gene::new("tab\there").unwrap_err(), GeneError::NotPrintableAscii);
    assert_eq!(Gene::new("line\nbreak").unwrap_err(), GeneError::NotPrintableAscii);
    assert_eq!(Gene::new("\u{7f}").unwrap_err(), GeneError::NotPrintableAscii);
}

#[test]
fn dna_exposes_bytes() {
    let g = Gene::new("abc").unwrap();
    assert_eq!(g.dna(), vec![0x61, 0x62, 0x63]);
    assert_eq!(g.len(), 3);
}

#[test]
fn set_dna_replaces_data() {
    let mut g = Gene::new("abc").unwrap();
    g.set_dna("xy").unwrap();
    assert_eq!(g.to_string(), "xy");
    assert_eq!(g.len(), 2);
}

#[test]
fn set_dna_rejects_and_keeps_prior_value() {
    let mut g = Gene::new("abc").unwrap();
    let r = g.set_dna("a\u{1}b");
    assert_eq!(r.unwrap_err(), GeneError::NotPrintableAscii);
    assert_eq!(g.to_string(), "abc");
}

#[test]
fn default_is_empty() {
    let g = Gene::default();
    assert_eq!(g.len(), 0);
    assert_eq!(g.to_string(), "");
}

#[test]
fn is_printable_ascii_checks_every_character() {
    assert!(Gene::is_printable_ascii("plain text 123 ~!"));
    assert!(Gene::is_printable_ascii(""));
    assert!(!Gene::is_printable_ascii("bad\u{0}byte"));
    assert!(!Gene::is_printable_ascii("caf\u{e9}"));
}

#[test]
fn fitness_of_self_is_one() {
    let g = Gene::new("hello").unwrap();
    let f = g.calc_fitness(&g).unwrap();
    assert_eq!(f.total_difference, 0);
    assert_eq!(f.positions, 5);
    assert_eq!(fitness_value(&f), 1.0);
}

#[test]
fn fitness_of_empty_self_is_one() {
    let g = Gene::new("").unwrap();
    let f = g.calc_fitness(&g).unwrap();
    assert_eq!(f.total_difference, 0);
    assert_eq!(f.positions, 0);
    assert_eq!(fitness_value(&f), 1.0);
}

#[test]
fn fitness_is_symmetric() {
    let a = Gene::new("abcde").unwrap();
    let b = Gene::new("vwxyz").unwrap();
    let fab = a.calc_fitness(&b).unwrap();
    let fba = b.calc_fitness(&a).unwrap();
    assert_eq!(fab.total_difference, fba.total_difference);
    assert_eq!(fitness_value(&fab), fitness_value(&fba));
}

#[test]
fn fitness_exact_value() {
    let a = Gene::new("ab").unwrap();
    let b = Gene::new("ac").unwrap();
    let f = a.calc_fitness(&b).unwrap();
    assert_eq!(f.total_difference, 1);
    assert_eq!(f.positions, 2);
    let expected = 1.0 - 1.0 / 94.0_f32;
    assert!((fitness_value(&f) - expected).abs() < 1e-6);
}

#[test]
fn fitness_distance_wraps_around_alphabet() {
    // 0x20 and 0x7E are adjacent on the 95-symbol circle.
    let lo = Gene::new(" ").unwrap();
    let hi = Gene::new("~").unwrap();
    let f = lo.calc_fitness(&hi).unwrap();
    assert_eq!(f.total_difference, 1);
}

#[test]
fn fitness_fails_on_length_mismatch() {
    let a = Gene::new("abc").unwrap();
    let b = Gene::new("ab").unwrap();
    assert_eq!(a.calc_fitness(&b).unwrap_err(), GeneError::MismatchedTargetDNALength);
}

#[test]
fn crossover_keeps_length() {
    let a = Gene::new("aaaaaa").unwrap();
    let b = Gene::new("bbbbbb").unwrap();
    let child = a.crossover(&b).unwrap();
    assert_eq!(child.len(), 6);
}

#[test]
fn crossover_takes_prefix_from_first_and_suffix_from_second() {
    let a = Gene::new("aaaa").unwrap();
    let b = Gene::new("bbbb").unwrap();
    let child = a.crossover(&b).unwrap().dna();
    let cross_point = child.iter().position(|&c| c == b'b').expect("suffix from second parent");
    assert!((1..=3).contains(&cross_point));
    assert!(child[..cross_point].iter().all(|&c| c == b'a'));
    assert!(child[cross_point..].iter().all(|&c| c == b'b'));
}

#[test]
fn crossover_of_two_chars_is_determined() {
    // The only valid cross point of length-2 parents is 1.
    let a = Gene::new("ab").unwrap();
    let b = Gene::new("cd").unwrap();
    let child = a.crossover(&b).unwrap();
    assert_eq!(child.to_string(), "ad");
}

#[test]
fn crossover_fails_on_length_mismatch() {
    let a = Gene::new("abc").unwrap();
    let b = Gene::new("ab").unwrap();
    assert_eq!(a.crossover(&b).unwrap_err(), GeneError::MismatchedPartnerDNALength);
}

#[test]
fn crossover_rejects_too_short_candidates() {
    let a = Gene::new("a").unwrap();
    let b = Gene::new("b").unwrap();
    assert_eq!(a.crossover(&b).unwrap_err(), GeneError::CandidateTooShortForCrossover);
    let e1 = Gene::new("").unwrap();
    let e2 = Gene::new("").unwrap();
    assert_eq!(e1.crossover(&e2).unwrap_err(), GeneError::CandidateTooShortForCrossover);
}

#[test]
fn mutate_zero_rate_keeps_data() {
    let mut g = Gene::new("Hello, world!").unwrap();
    g.mutate(0);
    assert_eq!(g.to_string(), "Hello, world!");
}

#[test]
fn mutate_full_rate_shifts_within_window() {
    let mut g = Gene::new("MMMMMMMMMMMMMMMM").unwrap();
    g.mutate(1000);
    let dna = g.dna();
    assert_eq!(dna.len(), 16);
    for &b in dna.iter() {
        assert!((0x20..=0x7E).contains(&b));
        let d = (b as i32 - b'M' as i32).abs();
        let circ = d.min(95 - d);
        assert!(circ <= 4, "byte {b} strayed {circ} steps from the original");
    }
}
