use axis::fixed::{Fix, FIX_CLAMP};
use axis::matrix::Matrix;
use axis::numeric::{Numeric, Real};
use axis::random_provider::RandomSource;
use axis::{Activation, Loss};

#[test]
fn fixed_arithmetic_is_scaled() {
    let two = Fix::from_int(2);
    let three = Fix::from_int(3);
    assert_eq!(two.add(three), Fix::from_int(5));
    assert_eq!(three.sub(two), Fix::from_int(1));
    assert_eq!(two.mul(three), Fix::from_int(6));
    assert_eq!(Fix::from_int(6).div(two), Fix::from_int(3));
    assert_eq!(two.neg(), Fix::from_int(-2));
    assert_eq!(Fix::from_int(-2).abs(), two);
    assert_eq!(two.double(), Fix::from_int(4));
    assert_eq!(three.half(), Fix { raw: 15_000 });
    assert!(two.lt(three));
    assert!(two.le(two));
    assert_eq!(two.max_with(three), three);
}

#[test]
fn fixed_arithmetic_saturates() {
    let top = Fix { raw: i64::MAX };
    assert_eq!(top.add(Fix::from_int(1)), top);
    let bottom = Fix { raw: i64::MIN };
    assert_eq!(bottom.sub(Fix::from_int(1)), bottom);
    assert_eq!(Fix::from_int(0).div(Fix::from_int(0)), Fix::from_int(0));
}

#[test]
fn fixed_clamp_holds_the_band() {
    let beyond = Fix { raw: i64::MAX };
    assert_eq!(beyond.clamp_finite(), Fix { raw: FIX_CLAMP });
    let under = Fix { raw: i64::MIN };
    assert_eq!(under.clamp_finite(), Fix { raw: -FIX_CLAMP });
    assert_eq!(Fix::from_int(3).clamp_finite(), Fix::from_int(3));
}

#[test]
fn fixed_transcendentals_are_coarse_but_anchored() {
    // exp(0) = 1, tanh clips to [-1, 1], ln(1) = 0.
    assert_eq!(Fix::from_int(0).exp(), Fix::from_int(1));
    assert_eq!(Fix::from_int(5).tanh(), Fix::from_int(1));
    assert_eq!(Fix::from_int(-5).tanh(), Fix::from_int(-1));
    assert_eq!(Fix { raw: 500 }.tanh(), Fix { raw: 500 });
    assert_eq!(Fix::from_int(1).ln(), Fix::from_int(0));
    assert_eq!(Fix::small_slope(), Fix { raw: 100 });
}

#[test]
fn fixed_draws_stay_in_range() {
    let mut source = RandomSource::from_seed(17);
    let lo = Fix::from_int(-1);
    let hi = Fix::from_int(1);
    for _ in 0..100 {
        let v = Fix::rand_range(lo, hi, &mut source);
        assert!(lo.le(v) && v.lt(hi));
    }
    let m = Matrix::<Fix>::random((3, 3), lo, hi, &mut source);
    for i in 0..3 {
        for j in 0..3 {
            let v = m.get(i, j).unwrap();
            assert!(lo.le(v) && v.lt(hi));
        }
    }
}

#[test]
fn fixed_matrices_compute_exactly() {
    let a = Matrix::from(vec![Fix::from_int(1), Fix::from_int(2)]);
    let b = Matrix::from(vec![Fix::from_int(3), Fix::from_int(4)]);
    let sum = a.add(&b).unwrap();
    assert_eq!(sum.get(0, 0), Ok(Fix::from_int(4)));
    assert_eq!(sum.get(0, 1), Ok(Fix::from_int(6)));

    let col = b.reshape((2, 1)).unwrap();
    let prod = a.dot(&col).unwrap();
    assert_eq!(prod.shape(), (1, 1));
    assert_eq!(prod.get(0, 0), Ok(Fix::from_int(11)));
}

#[test]
fn fixed_activation_and_loss_run() {
    // Linear keeps the value; ReLU cuts negatives; the MSE gradient is
    // exact in fixed point.
    assert_eq!(Activation::Linear.activate(Fix::from_int(2)), Fix::from_int(2));
    assert_eq!(Activation::ReLU.activate(Fix::from_int(-2)), Fix::from_int(0));
    assert_eq!(
        Activation::Linear.deactivate(Fix::from_int(9)),
        Fix::from_int(1)
    );
    let t = vec![Fix::from_int(1)];
    let p = vec![Fix::from_int(2)];
    assert_eq!(Loss::MSE.apply(&t, &p).unwrap(), vec![Fix::from_int(2)]);
    assert_eq!(Loss::Difference.apply(&t, &p).unwrap(), vec![Fix::from_int(1)]);
}
