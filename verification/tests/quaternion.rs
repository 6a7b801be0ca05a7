use std::cell::RefCell;
use tmn::binary32::Binary32;
use tmn::complex::CNum;
use tmn::quaternion::{QNum, I, J, K, R};
use tmn::unit::{BinOp, Prim, UnOp};

fn b(x: f32) -> Binary32 {
    Binary32::from_bits(x.to_bits())
}

fn f(x: Binary32) -> f32 {
    f32::from_bits(x.to_bits())
}

/// The unit of the machine: each primitive on single-precision values.
fn hw(p: Prim) -> Binary32 {
    match p {
        Prim::Binary(op, x, y) => {
            let (x, y) = (f(x), f(y));
            b(match op {
                BinOp::Add => x + y,
                BinOp::Sub => x - y,
                BinOp::Mul => x * y,
                BinOp::Div => x / y,
                BinOp::Powf => x.powf(y),
                BinOp::Atan2 => x.atan2(y),
            })
        }
        Prim::Unary(op, x) => b(match op {
            UnOp::Cos => f(x).cos(),
            UnOp::Sin => f(x).sin(),
        }),
    }
}

fn q(r: f32, i: f32, j: f32, k: f32) -> QNum {
    QNum::make_from_r(b(r), b(i), b(j), b(k))
}

fn parts(v: QNum) -> (f32, f32, f32, f32) {
    let (r, i, j, k) = v.get();
    (f(r), f(i), f(j), f(k))
}

fn bits(v: QNum) -> (u32, u32, u32, u32) {
    let (r, i, j, k) = v.get();
    (r.to_bits(), i.to_bits(), j.to_bits(), k.to_bits())
}

fn close(a: (f32, f32, f32, f32), e: (f32, f32, f32, f32), tol: f32) -> bool {
    (a.0 - e.0).abs() < tol
        && (a.1 - e.1).abs() < tol
        && (a.2 - e.2).abs() < tol
        && (a.3 - e.3).abs() < tol
}

#[test]
fn quaternion_make_zero_is_zero() {
    let a = QNum::make_zero();
    assert!(q(0.0, 0.0, 0.0, 0.0) == a);
    assert_eq!(bits(a), (0, 0, 0, 0));
}

#[test]
fn quaternion_make_from_r_and_get() {
    let a = q(1.0, 2.0, 3.0, 4.0);
    assert_eq!((1.0_f32, 2.0_f32, 3.0_f32, 4.0_f32), parts(a));
    assert_eq!(f(a.r), 1.0);
    assert_eq!(f(a.i), 2.0);
    assert_eq!(f(a.j), 3.0);
    assert_eq!(f(a.k), 4.0);
}

#[test]
fn quaternion_make_from_c() {
    let a = QNum::make_from_c(CNum::make(b(1.0), b(2.0)), CNum::make(b(3.0), b(4.0)));
    assert_eq!((1.0_f32, 2.0_f32, 3.0_f32, 4.0_f32), parts(a));
}

#[test]
fn quaternion_make_from_a_quarter_turn() {
    let a = QNum::make_from_a(
        b(90.0_f32 * std::f32::consts::PI / 180.0_f32),
        (b(0.0), b(0.0), b(1.0)),
        &hw,
    );
    assert_eq!(
        ((2.0_f32).powf(0.5) / 2.0_f32, 0.0_f32, 0.0_f32, (2.0_f32).powf(0.5) / 2.0_f32),
        parts(a)
    );
}

#[test]
fn quaternion_make_from_a_is_half_angle_cos_and_sin() {
    let ang = 1.25_f32;
    let axis = (0.6_f32, -0.8_f32, 0.5_f32);
    let a = QNum::make_from_a(b(ang), (b(axis.0), b(axis.1), b(axis.2)), &hw);
    let expected = (
        (ang / 2.0).cos(),
        (ang / 2.0).sin() * axis.0,
        (ang / 2.0).sin() * axis.1,
        (ang / 2.0).sin() * axis.2,
    );
    assert_eq!(parts(a), expected);
}

#[test]
fn quaternion_clone_is_equal() {
    let a = q(1.0, 1.0, 1.0, 1.0);
    let d = a.clone();
    assert_eq!((1.0_f32, 1.0_f32, 1.0_f32, 1.0_f32), parts(d));
    assert_eq!(bits(a), bits(d));
}

#[test]
fn quaternion_conj_negates_the_imaginary_parts() {
    let a = q(1.0, 1.0, 1.0, 1.0).conj();
    assert_eq!((1.0_f32, -1.0_f32, -1.0_f32, -1.0_f32), parts(a));
}

#[test]
fn quaternion_conj_twice_is_identity() {
    let values = [0.0_f32, -0.0, 1.5, -2.25, 1.0e-40, f32::INFINITY, f32::NAN];
    for &r in values.iter() {
        for &i in values.iter() {
            for &j in values.iter() {
                for &k in values.iter() {
                    let a = q(r, i, j, k);
                    assert_eq!(bits(a.conj().conj()), bits(a));
                }
            }
        }
    }
}

#[test]
fn quaternion_norm_is_the_sum_of_squares() {
    let a = q(1.0, 1.0, 1.0, 1.0);
    assert_eq!(4.0_f32, f(a.norm(&hw)));
    assert_eq!(30.0_f32, f(q(1.0, -2.0, 3.0, -4.0).norm(&hw)));
}

#[test]
fn quaternion_modl_is_the_root_of_the_norm() {
    let a = q(1.0, 1.0, 1.0, 1.0);
    assert_eq!(2.0_f32, f(a.modl(&hw)));
}

#[test]
fn quaternion_modl_is_not_negative_and_zero_at_zero() {
    assert_eq!(f(QNum::make_zero().modl(&hw)).to_bits(), 0.0_f32.to_bits());
    let values = [0.0_f32, -1.0, 0.5, 1234.5, -3.0e17];
    for &r in values.iter() {
        for &i in values.iter() {
            for &j in values.iter() {
                for &k in values.iter() {
                    assert!(f(q(r, i, j, k).modl(&hw)) >= 0.0);
                }
            }
        }
    }
}

#[test]
fn quaternion_add_r_changes_the_real_part() {
    let a = q(4.0, 10.0, 10.0, 10.0).add_r(b(6.0), &hw);
    assert_eq!((10.0_f32, 10.0_f32, 10.0_f32, 10.0_f32), parts(a));
}

#[test]
fn quaternion_add_c_changes_r_and_i() {
    let a = q(4.0, 4.0, 10.0, 10.0).add_c(CNum::make(b(6.0), b(6.0)), &hw);
    assert_eq!((10.0_f32, 10.0_f32, 10.0_f32, 10.0_f32), parts(a));
}

#[test]
fn quaternion_add_q_adds_part_by_part() {
    let a = q(4.0, 4.0, 4.0, 4.0).add_q(q(6.0, 6.0, 6.0, 6.0), &hw);
    assert_eq!((10.0_f32, 10.0_f32, 10.0_f32, 10.0_f32), parts(a));
    let d = q(1.0, 2.0, 3.0, 4.0).add_q(q(10.0, 20.0, 30.0, 40.0), &hw);
    assert_eq!((11.0_f32, 22.0_f32, 33.0_f32, 44.0_f32), parts(d));
}

#[test]
fn quaternion_mult_r_scales_all_parts() {
    let a = q(1.0, 1.0, 1.0, 1.0).mult_r(b(10.0), &hw);
    assert_eq!((10.0_f32, 10.0_f32, 10.0_f32, 10.0_f32), parts(a));
}

#[test]
fn quaternion_mult_c_example() {
    let a = q(4.0, 4.0, 10.0, 10.0).mult_c(CNum::make(b(6.0), b(6.0)), &hw);
    assert_eq!((0.0_f32, 48.0_f32, 120.0_f32, 0.0_f32), parts(a));
}

#[test]
fn quaternion_mult_c_is_the_product_with_zero_j_and_k() {
    let a = q(1.0, -2.0, 3.0, 0.5);
    let by_c = a.mult_c(CNum::make(b(7.0), b(-3.0)), &hw);
    let by_q = a.mult_q(q(7.0, -3.0, 0.0, 0.0), &hw);
    assert!(by_c == by_q);
}

#[test]
fn quaternion_mult_q_example() {
    let a = q(4.0, 4.0, 4.0, 4.0).mult_q(q(6.0, 6.0, 6.0, 6.0), &hw);
    assert_eq!((-48.0_f32, 48.0_f32, 48.0_f32, 48.0_f32), parts(a));
}

#[test]
fn quaternion_mult_q_of_the_units() {
    let one = q(1.0, 0.0, 0.0, 0.0);
    let i = q(0.0, 1.0, 0.0, 0.0);
    let j = q(0.0, 0.0, 1.0, 0.0);
    let k = q(0.0, 0.0, 0.0, 1.0);
    assert!(i.mult_q(j, &hw) == k);
    assert!(j.mult_q(k, &hw) == i);
    assert!(k.mult_q(i, &hw) == j);
    assert!(j.mult_q(i, &hw) == q(0.0, 0.0, 0.0, -1.0));
    assert!(k.mult_q(j, &hw) == q(0.0, -1.0, 0.0, 0.0));
    assert!(i.mult_q(k, &hw) == q(0.0, 0.0, -1.0, 0.0));
    assert!(i.mult_q(i, &hw) == q(-1.0, 0.0, 0.0, 0.0));
    assert!(j.mult_q(j, &hw) == q(-1.0, 0.0, 0.0, 0.0));
    assert!(k.mult_q(k, &hw) == q(-1.0, 0.0, 0.0, 0.0));
    assert!(one.mult_q(k, &hw) == k);
}

#[test]
fn quaternion_mult_q_keeps_the_order_of_its_operands() {
    let a = q(1.0, 2.0, 3.0, 4.0);
    let d = q(5.0, 6.0, 7.0, 8.0);
    assert_eq!(parts(a.mult_q(d, &hw)), (-60.0, 12.0, 30.0, 24.0));
    assert_eq!(parts(d.mult_q(a, &hw)), (-60.0, 20.0, 14.0, 32.0));
}

#[test]
fn quaternion_mult_q_asks_the_unit_in_order() {
    let asked: RefCell<Vec<(BinOp, f32, f32)>> = RefCell::new(Vec::new());
    let unit = |p: Prim| {
        if let Prim::Binary(op, x, y) = p {
            asked.borrow_mut().push((op, f(x), f(y)));
        }
        hw(p)
    };
    let d = q(1.0, 2.0, 3.0, 4.0).mult_q(q(5.0, 6.0, 7.0, 8.0), &unit);
    assert_eq!(parts(d), (-60.0, 12.0, 30.0, 24.0));
    let asked = asked.borrow();
    assert_eq!(asked.len(), 28);
    assert_eq!(
        asked[0..7].to_vec(),
        vec![
            (BinOp::Mul, 1.0, 5.0),
            (BinOp::Mul, 2.0, 6.0),
            (BinOp::Sub, 5.0, 12.0),
            (BinOp::Mul, 3.0, 7.0),
            (BinOp::Sub, -7.0, 21.0),
            (BinOp::Mul, 4.0, 8.0),
            (BinOp::Sub, -28.0, 32.0),
        ]
    );
    assert_eq!(
        asked[7..14].to_vec(),
        vec![
            (BinOp::Mul, 1.0, 6.0),
            (BinOp::Mul, 2.0, 5.0),
            (BinOp::Add, 6.0, 10.0),
            (BinOp::Mul, 3.0, 8.0),
            (BinOp::Add, 16.0, 24.0),
            (BinOp::Mul, 4.0, 7.0),
            (BinOp::Sub, 40.0, 28.0),
        ]
    );
    assert_eq!(
        asked[14..21].to_vec(),
        vec![
            (BinOp::Mul, 1.0, 7.0),
            (BinOp::Mul, 2.0, 8.0),
            (BinOp::Sub, 7.0, 16.0),
            (BinOp::Mul, 3.0, 5.0),
            (BinOp::Add, -9.0, 15.0),
            (BinOp::Mul, 4.0, 6.0),
            (BinOp::Add, 6.0, 24.0),
        ]
    );
    assert_eq!(
        asked[21..28].to_vec(),
        vec![
            (BinOp::Mul, 1.0, 8.0),
            (BinOp::Mul, 2.0, 7.0),
            (BinOp::Add, 8.0, 14.0),
            (BinOp::Mul, 3.0, 6.0),
            (BinOp::Sub, 22.0, 18.0),
            (BinOp::Mul, 4.0, 5.0),
            (BinOp::Add, 4.0, 20.0),
        ]
    );
}

#[test]
fn quaternion_inv_example() {
    let a = q(1.0, 1.0, 1.0, 1.0).inv(&hw);
    assert_eq!((0.25_f32, -0.25_f32, -0.25_f32, -0.25_f32), parts(a));
}

#[test]
fn quaternion_times_its_inverse_is_one() {
    let values = [
        (1.0_f32, 1.0_f32, 1.0_f32, 1.0_f32),
        (0.5, -2.0, 3.0, 0.25),
        (0.0, 0.0, 0.0, 2.0),
        (-7.0, 1.0, 0.0, 3.0),
    ];
    for &(r, i, j, k) in values.iter() {
        let v = q(r, i, j, k);
        let p = parts(v.mult_q(v.inv(&hw), &hw));
        assert!(close(p, (1.0, 0.0, 0.0, 0.0), 1.0e-6));
    }
}

#[test]
fn quaternion_inv_of_zero_is_not_trapped() {
    let (r, i, j, k) = parts(QNum::make_zero().inv(&hw));
    assert!(r.is_nan());
    assert!(i.is_nan());
    assert!(j.is_nan());
    assert!(k.is_nan());
}

#[test]
fn quaternion_sandwich_keeps_the_modulus() {
    let rotations = [
        (0.3_f32, (1.0_f32, 0.0_f32, 0.0_f32)),
        (1.7, (0.0, 0.6, 0.8)),
        (-2.5, (0.0, 0.0, 1.0)),
    ];
    let values = [(0.0_f32, 1.0_f32, 2.0_f32, 3.0_f32), (4.0, -1.0, 0.5, 0.0), (0.0, 0.0, 0.0, 1.0)];
    for &(ang, axis) in rotations.iter() {
        let r = QNum::make_from_a(b(ang), (b(axis.0), b(axis.1), b(axis.2)), &hw);
        assert!((f(r.modl(&hw)) - 1.0).abs() < 1.0e-6);
        for &(a, i, j, k) in values.iter() {
            let v = q(a, i, j, k);
            let turned = r.mult_q(v, &hw).mult_q(r.conj(), &hw);
            let before = f(v.modl(&hw));
            let after = f(turned.modl(&hw));
            assert!((after - before).abs() < 1.0e-5 * before.max(1.0));
        }
    }
}

#[test]
fn quaternion_set_r_and_j() {
    let a = QNum::make_zero().set(R | J, b(3.0));
    assert_eq!((3.0_f32, 0.0_f32, 3.0_f32, 0.0_f32), parts(a));
}

#[test]
fn quaternion_set_overwrites_the_selected_parts_only() {
    let a = q(1.0, 2.0, 3.0, 4.0);
    assert_eq!(parts(a.set(R, b(9.0))), (9.0, 2.0, 3.0, 4.0));
    assert_eq!(parts(a.set(I, b(9.0))), (1.0, 9.0, 3.0, 4.0));
    assert_eq!(parts(a.set(J, b(9.0))), (1.0, 2.0, 9.0, 4.0));
    assert_eq!(parts(a.set(K, b(9.0))), (1.0, 2.0, 3.0, 9.0));
    assert_eq!(parts(a.set(I | K, b(9.0))), (1.0, 9.0, 3.0, 9.0));
    assert_eq!(parts(a.set(R | I | J | K, b(9.0))), (9.0, 9.0, 9.0, 9.0));
    assert_eq!(parts(a.set(0, b(9.0))), (1.0, 2.0, 3.0, 4.0));
    assert_eq!(parts(a.set(0xf0, b(9.0))), (1.0, 2.0, 3.0, 4.0));
}

#[test]
fn quaternion_set_follows_the_mask_bit_by_bit() {
    let a = q(1.0, 2.0, 3.0, 4.0);
    for c in 0..=255_u8 {
        let expected = (
            if c & 1 != 0 { 9.0 } else { 1.0 },
            if c & 2 != 0 { 9.0 } else { 2.0 },
            if c & 4 != 0 { 9.0 } else { 3.0 },
            if c & 8 != 0 { 9.0 } else { 4.0 },
        );
        assert_eq!(parts(a.set(c, b(9.0))), expected);
    }
}

#[test]
fn quaternion_eq_compares_values() {
    assert!(q(1.0, 2.0, 3.0, 4.0) == q(1.0, 2.0, 3.0, 4.0));
    assert!(q(1.0, 2.0, 3.0, 4.0) != q(0.0, 2.0, 3.0, 4.0));
    assert!(q(1.0, 2.0, 3.0, 4.0) != q(1.0, 0.0, 3.0, 4.0));
    assert!(q(1.0, 2.0, 3.0, 4.0) != q(1.0, 2.0, 0.0, 4.0));
    assert!(q(1.0, 2.0, 3.0, 4.0) != q(1.0, 2.0, 3.0, 0.0));
    assert!(q(0.0, 0.0, 0.0, 0.0) == q(-0.0, -0.0, -0.0, -0.0));
    assert!(q(1.0, 2.0, 3.0, f32::NAN) != q(1.0, 2.0, 3.0, f32::NAN));
}

#[test]
fn quaternion_neg_negates_all_parts() {
    let a = q(3.0, 4.0, 1.0, 2.0).neg(&hw);
    assert_eq!(parts(a), (-3.0_f32, -4.0_f32, -1.0_f32, -2.0_f32));
}

#[test]
fn quaternion_results_are_what_the_unit_gives() {
    let seven = |_p: Prim| b(7.0);
    assert_eq!(parts(q(1.0, 2.0, 3.0, 4.0).add_r(b(1.0), &seven)), (7.0, 2.0, 3.0, 4.0));
    assert_eq!(
        parts(q(1.0, 2.0, 3.0, 4.0).add_c(CNum::make(b(1.0), b(1.0)), &seven)),
        (7.0, 7.0, 3.0, 4.0)
    );
    assert_eq!(parts(q(1.0, 2.0, 3.0, 4.0).mult_q(q(1.0, 2.0, 3.0, 4.0), &seven)), (7.0, 7.0, 7.0, 7.0));
    assert_eq!(f(q(1.0, 2.0, 3.0, 4.0).norm(&seven)), 7.0);
}

#[test]
fn quaternion_norm_of_a_product_is_the_product_of_the_norms() {
    let values = [
        (1.0_f32, 2.0_f32, 3.0_f32, 4.0_f32),
        (5.0, -6.0, 7.0, -8.0),
        (0.0, 1.0, 0.0, -1.0),
        (-3.0, 0.0, 2.0, 9.0),
    ];
    for &(a, b, c, d) in values.iter() {
        for &(e, g, h, l) in values.iter() {
            let x = q(a, b, c, d);
            let y = q(e, g, h, l);
            let left = f(x.mult_q(y, &hw).norm(&hw));
            let right = f(x.norm(&hw)) * f(y.norm(&hw));
            assert_eq!(left, right);
        }
    }
}

#[test]
fn quaternion_times_its_conjugate_is_its_norm() {
    let x = q(1.0, -2.0, 3.0, -4.0);
    assert_eq!(parts(x.mult_q(x.conj(), &hw)), (30.0, 0.0, 0.0, 0.0));
    assert_eq!(f(x.conj().norm(&hw)), 30.0);
}

#[test]
fn quaternion_sandwich_scales_the_norm_by_the_square_of_the_norm() {
    let r = q(1.0, 2.0, 0.0, -1.0);
    let v = q(3.0, -1.0, 4.0, 2.0);
    let turned = r.mult_q(v, &hw).mult_q(r.conj(), &hw);
    assert_eq!(f(turned.norm(&hw)), f(r.norm(&hw)) * f(v.norm(&hw)) * f(r.norm(&hw)));
    assert_eq!(f(turned.norm(&hw)), 6.0 * 30.0 * 6.0);
}

#[test]
fn quaternion_mult_c_left_example() {
    let a = q(0.0, 0.0, 1.0, 0.0).mult_c_left(CNum::make(b(0.0), b(1.0)), &hw);
    assert_eq!(parts(a), (0.0, 0.0, 0.0, 1.0));
    let d = q(1.0, -2.0, 5.0, 7.0).mult_c_left(CNum::make(b(2.0), b(3.0)), &hw);
    assert_eq!(parts(d), (8.0, -1.0, -11.0, 29.0));
}

#[test]
fn quaternion_mult_c_left_is_the_product_with_the_complex_number_on_the_left() {
    let a = q(1.0, -2.0, 3.0, 0.5);
    let by_c = a.mult_c_left(CNum::make(b(7.0), b(-3.0)), &hw);
    let by_q = q(7.0, -3.0, 0.0, 0.0).mult_q(a, &hw);
    assert!(by_c == by_q);
    let right = a.mult_c(CNum::make(b(7.0), b(-3.0)), &hw);
    assert!(by_c != right);
}

#[test]
fn quaternion_mult_c_left_asks_the_unit_in_order() {
    let asked: RefCell<Vec<(BinOp, f32, f32)>> = RefCell::new(Vec::new());
    let unit = |p: Prim| {
        if let Prim::Binary(op, x, y) = p {
            asked.borrow_mut().push((op, f(x), f(y)));
        }
        hw(p)
    };
    let d = q(1.0, -2.0, 5.0, 7.0).mult_c_left(CNum::make(b(2.0), b(3.0)), &unit);
    assert_eq!(parts(d), (8.0, -1.0, -11.0, 29.0));
    assert_eq!(
        *asked.borrow(),
        vec![
            (BinOp::Mul, 2.0, 1.0),
            (BinOp::Mul, 3.0, -2.0),
            (BinOp::Sub, 2.0, -6.0),
            (BinOp::Mul, 2.0, -2.0),
            (BinOp::Mul, 3.0, 1.0),
            (BinOp::Add, -4.0, 3.0),
            (BinOp::Mul, 2.0, 5.0),
            (BinOp::Mul, 3.0, 7.0),
            (BinOp::Sub, 10.0, 21.0),
            (BinOp::Mul, 2.0, 7.0),
            (BinOp::Mul, 3.0, 5.0),
            (BinOp::Add, 14.0, 15.0),
        ]
    );
}
