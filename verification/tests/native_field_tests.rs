use field_capability::capability::{FieldCapability, NoContext};
use field_capability::fq::Fq;
use field_capability::FieldError;

/// Deterministic xorshift generator for sampling residues.
struct Gen(u64);

impl Gen {
    fn next(&mut self) -> u64 {
        let mut x = self.0;
        x ^= x << 13;
        x ^= x >> 7;
        x ^= x << 17;
        self.0 = x;
        x
    }

    fn fq(&mut self) -> Fq {
        // keeping the top limb below all-ones keeps the value canonical
        let l0 = self.next();
        let l1 = self.next();
        let l2 = self.next();
        let l3 = self.next() >> 1;
        Fq::from_limbs(l0, l1, l2, l3).unwrap()
    }
}

#[test]
fn add_commutes_on_random_residues() {
    let mut g = Gen(0x9E3779B97F4A7C15);
    for _ in 0..50 {
        let a = g.fq();
        let b = g.fq();
        assert_eq!(a.add(&b), b.add(&a));
    }
}

#[test]
fn mul_distributes_on_random_residues() {
    let mut g = Gen(0xD1B54A32D192ED03);
    for _ in 0..25 {
        let a = g.fq();
        let b = g.fq();
        let c = g.fq();
        assert_eq!(a.mul(&b.add(&c)), a.mul(&b).add(&a.mul(&c)));
    }
}

#[test]
fn additive_and_multiplicative_identities() {
    let mut g = Gen(0x2545F4914F6CDD1D);
    let zero = Fq::zero();
    let one = Fq::one();
    for _ in 0..25 {
        let a = g.fq();
        assert_eq!(a.add(&zero), a);
        assert_eq!(a.mul(&one), a);
        assert_eq!(a.add(&a.neg()), zero);
        if !a.is_zero() {
            assert_eq!(a.mul(&a.invert().unwrap()), one);
        }
    }
}

#[test]
fn inverse_is_an_involution() {
    let mut g = Gen(0xA0761D6478BD642F);
    for _ in 0..10 {
        let a = g.fq();
        if !a.is_zero() {
            let inv = a.invert().unwrap();
            assert_eq!(inv.invert().unwrap(), a);
        }
    }
}

#[test]
fn minus_one_squares_to_one() {
    // a = Q - 1, i.e. -1 mod Q
    let a = Fq::from_limbs(
        0xFFFF_FFFE_FFFF_FC2E,
        0xFFFF_FFFF_FFFF_FFFF,
        0xFFFF_FFFF_FFFF_FFFF,
        0xFFFF_FFFF_FFFF_FFFF,
    )
    .unwrap();

    // double(a) == Q - 2
    let mut d = a;
    let mut ctx = NoContext;
    d.double(&mut ctx);
    let expected = Fq::from_limbs(
        0xFFFF_FFFE_FFFF_FC2D,
        0xFFFF_FFFF_FFFF_FFFF,
        0xFFFF_FFFF_FFFF_FFFF,
        0xFFFF_FFFF_FFFF_FFFF,
    )
    .unwrap();
    assert_eq!(d, expected);

    // a * a == 1, since a is -1 mod Q
    assert_eq!(a.mul(&a), Fq::one());

    // inverse(a) == a
    assert_eq!(a.invert().unwrap(), a);
}

#[test]
fn capability_operations_match_direct_arithmetic() {
    let mut g = Gen(0xE7037ED1A0B428DB);
    let mut ctx = NoContext;
    for _ in 0..10 {
        let a = g.fq();
        let b = g.fq();
        let mut s = a;
        s.add_assign(&b, &mut ctx);
        assert_eq!(s, a.add(&b));
        let mut p = a;
        p.mul_assign(&b, &mut ctx);
        assert_eq!(p, a.mul(&b));
        let mut d = a;
        d.sub_assign(&b, &mut ctx);
        assert_eq!(d, a.sub(&b));
        let mut n = a;
        n.negate(&mut ctx);
        assert_eq!(n, a.neg());
        let mut sq = a;
        sq.square(&mut ctx);
        assert_eq!(sq, a.mul(&a));
        if !a.is_zero() {
            assert_eq!(a.inverse(&mut ctx), a.invert().unwrap());
        }
    }
}

#[test]
fn native_capability_identities() {
    let mut ctx = NoContext;
    let zero = <Fq as FieldCapability>::zero(&mut ctx);
    assert_eq!(zero, Fq::zero());
    let one = <Fq as FieldCapability>::one(&mut ctx);
    assert_eq!(one, Fq::one());
    let minus_one = <Fq as FieldCapability>::minus_one(&mut ctx);
    assert_eq!(minus_one, Fq::zero().sub(&Fq::one()));
    let c = <Fq as FieldCapability>::constant(Fq::from_u64(42), &mut ctx);
    assert_eq!(c, Fq::from_u64(42));
}

#[test]
fn inverting_zero_fails() {
    assert_eq!(Fq::zero().invert(), Err(FieldError::DivisionByZero));
}

#[test]
fn deserialization_is_canonical() {
    // the modulus itself is not a canonical residue
    assert!(Fq::from_limbs(
        0xFFFF_FFFE_FFFF_FC2F,
        0xFFFF_FFFF_FFFF_FFFF,
        0xFFFF_FFFF_FFFF_FFFF,
        0xFFFF_FFFF_FFFF_FFFF,
    )
    .is_none());
    // the largest canonical residue round-trips
    let a = Fq::from_limbs(
        0xFFFF_FFFE_FFFF_FC2E,
        0xFFFF_FFFF_FFFF_FFFF,
        0xFFFF_FFFF_FFFF_FFFF,
        0xFFFF_FFFF_FFFF_FFFF,
    )
    .unwrap();
    assert_eq!(
        a.to_limbs(),
        (
            0xFFFF_FFFE_FFFF_FC2E,
            0xFFFF_FFFF_FFFF_FFFF,
            0xFFFF_FFFF_FFFF_FFFF,
            0xFFFF_FFFF_FFFF_FFFF,
        )
    );
}

#[test]
fn small_values_behave_like_integers() {
    let a = Fq::from_u64(1_000_000_007);
    let b = Fq::from_u64(998_244_353);
    assert_eq!(a.add(&b), Fq::from_u64(1_998_244_360));
    assert_eq!(a.mul(&b), Fq::from_u64(998_244_359_987_710_471));
    assert_eq!(a.sub(&b), Fq::from_u64(1_755_654));
}

#[test]
fn exponentiation_matches_repeated_multiplication() {
    let mut g = Gen(0x853C_49E6_748F_EA9B);
    for _ in 0..5 {
        let a = g.fq();
        assert_eq!(a.pow_limbs(1, 0, 0, 0), a);
        assert_eq!(a.pow_limbs(2, 0, 0, 0), a.mul(&a));
        assert_eq!(a.pow_limbs(5, 0, 0, 0), a.mul(&a).mul(&a.mul(&a)).mul(&a));
    }
    // 2^64 lands exactly in the second limb
    let two = Fq::from_u64(2);
    assert_eq!(two.pow_limbs(64, 0, 0, 0), Fq::from_limbs(0, 1, 0, 0).unwrap());
}
