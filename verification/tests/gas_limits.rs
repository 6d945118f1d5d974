use optimistic_verifier::{gas_limit_variants_from, get_gas_limit_variants};

#[test]
fn no_gas_limit_gives_only_none() {
    assert_eq!(get_gas_limit_variants(false, 100, 4), vec![None]);
}

#[test]
fn gas_limit_gives_random_limit_and_zero() {
    for _ in 0..20 {
        let limits = get_gas_limit_variants(true, 100, 4);
        assert_eq!(limits.len(), 2);
        assert!(limits[0].unwrap() < 200);
        assert_eq!(limits[1], Some(0));
    }
}

#[test]
fn drawn_limit_comes_first() {
    assert_eq!(gas_limit_variants_from(true, 77), vec![Some(77), Some(0)]);
    assert_eq!(gas_limit_variants_from(false, 77), vec![None]);
}
