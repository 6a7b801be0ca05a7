use tmn::binary32::Binary32;
use tmn::complex::CNum;
use tmn::unit::{BinOp, Prim, UnOp};

fn b(x: f32) -> Binary32 {
    Binary32::from_bits(x.to_bits())
}

fn f(x: Binary32) -> f32 {
    f32::from_bits(x.to_bits())
}

/// The unit of the machine: each primitive on single-precision values.
fn hw(p: Prim) -> Binary32 {
    match p {
        Prim::Binary(op, x, y) => {
            let (x, y) = (f(x), f(y));
            b(match op {
                BinOp::Add => x + y,
                BinOp::Sub => x - y,
                BinOp::Mul => x * y,
                BinOp::Div => x / y,
                BinOp::Powf => x.powf(y),
                BinOp::Atan2 => x.atan2(y),
            })
        }
        Prim::Unary(op, x) => b(match op {
            UnOp::Cos => f(x).cos(),
            UnOp::Sin => f(x).sin(),
        }),
    }
}

fn times(x: f32, y: f32) -> f32 {
    f(hw(Prim::Binary(BinOp::Mul, b(x), b(y))))
}

fn samples() -> Vec<f32> {
    vec![
        0.0,
        -0.0,
        1.0e-45,
        -1.0e-45,
        1.1e-38,
        1.0e-30,
        -3.5e-20,
        0.001,
        -0.75,
        1.0,
        -1.0,
        3.0,
        7.0,
        -1234.5,
        6.0e18,
        -2.0e19,
        1.7e38,
        3.0e38,
        f32::MAX,
        f32::MIN,
        f32::INFINITY,
        f32::NEG_INFINITY,
    ]
}

fn positive() -> Vec<f32> {
    samples().into_iter().filter(|x| x.is_finite() && *x > 0.0).collect()
}

#[test]
fn the_machine_turns_the_sign_of_a_product_with_a_factor() {
    for &x in samples().iter() {
        for &y in samples().iter() {
            let p = times(x, y);
            if !p.is_nan() {
                assert_eq!(times(x, -y).to_bits(), (-p).to_bits());
                assert_eq!(times(y, x).to_bits(), p.to_bits());
            }
        }
    }
}

#[test]
fn the_machine_cancels_a_finite_value_with_its_negation() {
    for &x in samples().iter() {
        if x.is_finite() {
            let s = f(hw(Prim::Binary(BinOp::Add, b(-x), b(x))));
            assert_eq!(s, 0.0);
        }
    }
}

#[test]
fn the_machine_keeps_a_zero_times_a_finite_value_zero() {
    for &z in [0.0_f32, -0.0].iter() {
        for &k in samples().iter() {
            if k.is_finite() {
                assert_eq!(times(z, k), 0.0);
            }
        }
    }
}

#[test]
fn the_machine_divides_within_one_part_in_two_to_the_22() {
    let two = 2.0_f64;
    for &x in positive().iter() {
        for &y in positive().iter() {
            let exact = (x as f64) / (y as f64);
            if exact >= two.powi(-128) && exact <= two.powi(127) {
                let q = f(hw(Prim::Binary(BinOp::Div, b(x), b(y))));
                assert!(q.is_finite());
                assert!((q as f64 - exact).abs() <= exact / two.powi(22));
            }
        }
    }
}

#[test]
fn the_machine_multiplies_within_one_part_in_two_to_the_24() {
    let two = 2.0_f64;
    for &x in positive().iter() {
        for &y in positive().iter() {
            let exact = (x as f64) * (y as f64);
            if exact >= two.powi(-126) && exact <= two.powi(127) {
                let p = times(x, y);
                assert!(p.is_finite());
                assert!((p as f64 - exact).abs() <= exact / two.powi(24));
            }
        }
    }
}

#[test]
fn a_complex_number_divided_by_itself_is_one_within_tolerance() {
    let parts = [
        0.0_f32, -0.0, 1.0e-15, -3.0e-15, 1.0e-7, 0.001, -0.75, 1.0, 3.0, -1234.5, 6.0e8, -2.0e15,
        1.0e18, -9.0e18, 1.3e19,
    ];
    for &r in parts.iter() {
        for &i in parts.iter() {
            let norm = r * r + i * i;
            if norm.is_finite() && norm >= 1.0e-30 {
                let v = CNum::make(b(r), b(i));
                let (a, d) = v.div_c(v.clone(), &hw).get();
                assert!((f(a) - 1.0).abs() <= 1.0e-5);
                assert_eq!(f(d), 0.0);
            }
        }
    }
}

#[test]
fn a_quotient_by_itself_is_close_at_the_ends_of_the_range() {
    for &r in [1.0e-15_f32, 8.9e-16, 1.3e19, 1.8e19].iter() {
        let v = CNum::make(b(r), b(0.0));
        let (a, d) = v.div_c(v.clone(), &hw).get();
        assert!((f(a) - 1.0).abs() <= 1.0e-5);
        assert_eq!(f(d), 0.0);
    }
}
