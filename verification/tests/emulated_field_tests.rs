use field_capability::capability::FieldCapability;
use field_capability::context::{Context, GoldilocksField, GoldilocksFieldExt};
use field_capability::goldilocks::{Goldilocks, GoldilocksExt2, GOLDILOCKS_MODULUS};
use field_capability::prime_field_like::{GoldilocksAsFieldWrapper, GoldilocksExtAsFieldWrapper};
use field_capability::FieldError;

fn base_wrapper(ctx: &mut Context, v: u64) -> GoldilocksAsFieldWrapper {
    let inner = GoldilocksField::allocate(ctx, Goldilocks::from_u64(v)).unwrap();
    GoldilocksAsFieldWrapper::from(inner)
}

fn ext_wrapper(ctx: &mut Context, v0: u64, v1: u64) -> GoldilocksExtAsFieldWrapper {
    let c0 = GoldilocksField::allocate(ctx, Goldilocks::from_u64(v0)).unwrap();
    let c1 = GoldilocksField::allocate(ctx, Goldilocks::from_u64(v1)).unwrap();
    GoldilocksExtAsFieldWrapper::from(GoldilocksFieldExt { c0, c1 })
}

#[test]
fn zero_plus_one_equals_constant_one() {
    let mut ctx = Context::new(1024);
    let mut x = <GoldilocksAsFieldWrapper as FieldCapability>::zero(&mut ctx);
    let one = <GoldilocksAsFieldWrapper as FieldCapability>::one(&mut ctx);
    x.add_assign(&one, &mut ctx);
    let c = <GoldilocksAsFieldWrapper as FieldCapability>::constant(
        Goldilocks::from_u64(1),
        &mut ctx,
    );
    assert_eq!(x, c);
}

#[test]
fn doubling_one_three_times_equals_constant_eight() {
    let mut ctx = Context::new(1024);
    let mut x = <GoldilocksAsFieldWrapper as FieldCapability>::one(&mut ctx);
    x.double(&mut ctx);
    x.double(&mut ctx);
    x.double(&mut ctx);
    let c = <GoldilocksAsFieldWrapper as FieldCapability>::constant(
        Goldilocks::from_u64(8),
        &mut ctx,
    );
    assert_eq!(x, c);
}

#[test]
fn base_capability_matches_direct_arithmetic() {
    let samples = [
        (3u64, 11u64),
        (0, 5),
        (GOLDILOCKS_MODULUS - 1, 2),
        (0xDEAD_BEEF_CAFE_F00D, 0x1234_5678_9ABC_DEF0),
    ];
    for &(x, y) in samples.iter() {
        let mut ctx = Context::new(1024);
        let a = Goldilocks::from_u64(x);
        let b = Goldilocks::from_u64(y);
        let wa = base_wrapper(&mut ctx, x);
        let wb = base_wrapper(&mut ctx, y);

        let mut s = wa;
        s.add_assign(&wb, &mut ctx);
        assert_eq!(s.inner.value, a.add(b));

        let mut p = wa;
        p.mul_assign(&wb, &mut ctx);
        assert_eq!(p.inner.value, a.mul(b));

        let mut d = wa;
        d.sub_assign(&wb, &mut ctx);
        assert_eq!(d.inner.value, a.sub(b));

        let mut n = wa;
        n.negate(&mut ctx);
        assert_eq!(n.inner.value, a.neg());

        if a.to_u64() != 0 {
            let inv = wa.inverse(&mut ctx);
            assert_eq!(inv.inner.value, a.invert().unwrap());
            assert_eq!(inv.inner.value.mul(a), Goldilocks::from_u64(1));
        }
    }
}

#[test]
fn ext_capability_matches_direct_arithmetic() {
    let samples = [(3u64, 11u64, 7u64, 1u64), (0, 1, 5, 9), (12345, 0, 0, 67890)];
    for &(x0, x1, y0, y1) in samples.iter() {
        let mut ctx = Context::new(1024);
        let a = GoldilocksExt2::new(Goldilocks::from_u64(x0), Goldilocks::from_u64(x1));
        let b = GoldilocksExt2::new(Goldilocks::from_u64(y0), Goldilocks::from_u64(y1));
        let wa = ext_wrapper(&mut ctx, x0, x1);
        let wb = ext_wrapper(&mut ctx, y0, y1);

        let mut s = wa;
        s.add_assign(&wb, &mut ctx);
        let pure = a.add(b);
        assert_eq!((s.inner.c0.value, s.inner.c1.value), (pure.c0, pure.c1));

        let mut p = wa;
        p.mul_assign(&wb, &mut ctx);
        let pure = a.mul(b);
        assert_eq!((p.inner.c0.value, p.inner.c1.value), (pure.c0, pure.c1));

        let mut n = wa;
        n.negate(&mut ctx);
        let pure = a.neg();
        assert_eq!((n.inner.c0.value, n.inner.c1.value), (pure.c0, pure.c1));

        let inv = wa.inverse(&mut ctx);
        let pure = a.invert().unwrap();
        assert_eq!((inv.inner.c0.value, inv.inner.c1.value), (pure.c0, pure.c1));
        // an inverse really is one: the product is the scalar 1
        let product = a.mul(pure);
        assert_eq!(product, GoldilocksExt2::from_base(Goldilocks::from_u64(1)));
    }
}

#[test]
fn double_is_self_addition() {
    let mut ctx = Context::new(1024);
    let x = base_wrapper(&mut ctx, 0xABCD_EF01_2345_6789);
    let mut d = x;
    d.double(&mut ctx);
    let mut s = x;
    s.add_assign(&x, &mut ctx);
    assert_eq!(d.inner.value, s.inner.value);

    let e = ext_wrapper(&mut ctx, 42, 99);
    let mut de = e;
    de.double(&mut ctx);
    let mut se = e;
    se.add_assign(&e, &mut ctx);
    assert_eq!(de.inner.c0.value, se.inner.c0.value);
    assert_eq!(de.inner.c1.value, se.inner.c1.value);
}

#[test]
fn square_is_self_multiplication() {
    let mut ctx = Context::new(1024);
    let x = base_wrapper(&mut ctx, 0x1357_9BDF_0246_8ACE);
    let mut sq = x;
    sq.square(&mut ctx);
    let mut p = x;
    p.mul_assign(&x, &mut ctx);
    assert_eq!(sq.inner.value, p.inner.value);

    let e = ext_wrapper(&mut ctx, 7, 3);
    let mut sqe = e;
    sqe.square(&mut ctx);
    let mut pe = e;
    pe.mul_assign(&e, &mut ctx);
    assert_eq!(sqe.inner.c0.value, pe.inner.c0.value);
    assert_eq!(sqe.inner.c1.value, pe.inner.c1.value);
}

#[test]
fn subtraction_is_addition_of_negation() {
    let mut ctx = Context::new(1024);
    let x = base_wrapper(&mut ctx, 1000);
    let y = base_wrapper(&mut ctx, 123456789);
    let mut d = x;
    d.sub_assign(&y, &mut ctx);
    let mut ny = y;
    ny.negate(&mut ctx);
    let mut s = x;
    s.add_assign(&ny, &mut ctx);
    assert_eq!(d.inner.value, s.inner.value);
}

#[test]
fn negation_is_an_involution() {
    let mut ctx = Context::new(1024);
    let x = base_wrapper(&mut ctx, 0xFEED_FACE_DEAD_BEEF);
    let mut n = x;
    n.negate(&mut ctx);
    n.negate(&mut ctx);
    assert_eq!(n.inner.value, x.inner.value);

    let e = ext_wrapper(&mut ctx, 17, 29);
    let mut ne = e;
    ne.negate(&mut ctx);
    ne.negate(&mut ctx);
    assert_eq!(ne.inner.c0.value, e.inner.c0.value);
    assert_eq!(ne.inner.c1.value, e.inner.c1.value);
}

#[test]
fn emulated_inverse_is_an_involution() {
    let mut ctx = Context::new(1024);
    let x = base_wrapper(&mut ctx, 0x0123_4567_89AB_CDEF);
    let inv = x.inverse(&mut ctx);
    let back = inv.inverse(&mut ctx);
    assert_eq!(back.inner.value, x.inner.value);

    let e = ext_wrapper(&mut ctx, 31, 64);
    let inv = e.inverse(&mut ctx);
    let back = inv.inverse(&mut ctx);
    assert_eq!(back.inner.c0.value, e.inner.c0.value);
    assert_eq!(back.inner.c1.value, e.inner.c1.value);
}

#[test]
fn constants_combine_like_allocated_values_but_cost_less() {
    let v: u64 = 0x0F1E_2D3C_4B5A_6978;

    // constant-heavy circuit
    let mut ctx1 = Context::new(1024);
    let mut a1 = base_wrapper(&mut ctx1, 555);
    let c = <GoldilocksAsFieldWrapper as FieldCapability>::constant(
        Goldilocks::from_u64(v),
        &mut ctx1,
    );
    a1.add_assign(&c, &mut ctx1);

    // all-variable equivalent
    let mut ctx2 = Context::new(1024);
    let mut a2 = base_wrapper(&mut ctx2, 555);
    let w = base_wrapper(&mut ctx2, v);
    a2.add_assign(&w, &mut ctx2);

    assert_eq!(a1.inner.value, a2.inner.value);
    assert!(ctx1.witnesses < ctx2.witnesses);
}

#[test]
fn mutating_a_copy_leaves_the_original_unchanged() {
    let mut ctx = Context::new(1024);
    let x = base_wrapper(&mut ctx, 777);
    let one = <GoldilocksAsFieldWrapper as FieldCapability>::one(&mut ctx);
    let mut y = x;
    y.add_assign(&one, &mut ctx);
    assert_eq!(x.inner.value, Goldilocks::from_u64(777));
    assert_eq!(y.inner.value, Goldilocks::from_u64(778));

    let e = ext_wrapper(&mut ctx, 5, 6);
    let mut f = e;
    f.double(&mut ctx);
    assert_eq!(e.inner.c0.value, Goldilocks::from_u64(5));
    assert_eq!(e.inner.c1.value, Goldilocks::from_u64(6));
    assert_eq!(f.inner.c0.value, Goldilocks::from_u64(10));
    assert_eq!(f.inner.c1.value, Goldilocks::from_u64(12));
}

#[test]
fn exhausting_the_session_is_unsatisfiable() {
    // no room to allocate at all
    let mut ctx = Context::new(0);
    assert_eq!(
        GoldilocksField::allocate(&mut ctx, Goldilocks::from_u64(1)),
        Err(FieldError::ArithmeticUnsatisfiable)
    );

    // room for the operand but not for the sum it binds
    let mut ctx = Context::new(1);
    let w = GoldilocksField::allocate(&mut ctx, Goldilocks::from_u64(2)).unwrap();
    assert_eq!(w.add(&mut ctx, &w), Err(FieldError::ArithmeticUnsatisfiable));

    // constants still fold without a witness slot
    let c = GoldilocksField::constant_from_field(Goldilocks::from_u64(3));
    let folded = c.add(&mut ctx, &c).unwrap();
    assert_eq!(folded.value, Goldilocks::from_u64(6));
    assert!(folded.is_constant);
}

#[test]
fn inverting_the_zero_constant_fails() {
    let mut ctx = Context::new(16);
    let zero = GoldilocksField::zero();
    assert_eq!(zero.inverse(&mut ctx), Err(FieldError::DivisionByZero));

    let ext_zero = GoldilocksFieldExt::zero();
    assert_eq!(ext_zero.inverse(&mut ctx), Err(FieldError::DivisionByZero));

    assert_eq!(Goldilocks::from_u64(0).invert(), Err(FieldError::DivisionByZero));
    let pure_zero = GoldilocksExt2::new(Goldilocks::from_u64(0), Goldilocks::from_u64(0));
    assert_eq!(pure_zero.invert(), Err(FieldError::DivisionByZero));
}
