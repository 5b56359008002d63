use z3::{Config, Context};

#[test]
fn equal_terms_have_equal_text_and_hash() {
    let cfg = Config::new();
    let ctx = Context::new(&cfg);
    let a = ctx.named_int_const("x");
    let b = ctx.named_int_const("x");
    assert!(a == b);
    assert_eq!(a.to_text(), b.to_text());
    assert_eq!(a.term_hash(), b.term_hash());

    let s1 = ctx.from_i64(2).add(&[&ctx.from_i64(3)]);
    let s2 = ctx.from_i64(2).add(&[&ctx.from_i64(3)]);
    assert!(s1 == s2);
    assert_eq!(s1.to_text(), s2.to_text());
    assert_eq!(s1.term_hash(), s2.term_hash());
}

#[test]
fn different_terms_have_different_text() {
    let cfg = Config::new();
    let ctx = Context::new(&cfg);
    let a = ctx.named_int_const("x");
    let b = ctx.named_int_const("y");
    assert!(a != b);
    assert_ne!(a.to_text(), b.to_text());

    let s1 = ctx.from_i64(2).add(&[&a]);
    let s2 = ctx.from_i64(2).mul(&[&a]);
    assert!(s1 != s2);
    assert_ne!(s1.to_text(), s2.to_text());
    // same name, different sorts: unequal terms, and the canonical text
    // carries the sort, so the texts differ too
    let xi = ctx.named_int_const("x");
    let xr = ctx.named_real_const("x");
    assert!(xi != xr);
    assert_ne!(xi.to_text(), xr.to_text());
}

#[test]
fn numeral_text() {
    let cfg = Config::new();
    let ctx = Context::new(&cfg);
    // the canonical form codes a numeral as its tag, folded value, and sort
    assert_eq!(ctx.from_i64(5).to_text(), "1;10;1;");
    assert_eq!(ctx.from_i64(0).to_text(), "1;0;1;");
    assert_eq!(ctx.from_i64(-3).to_text(), "1;5;1;");
    assert_eq!(
        ctx.from_u64(12345678901234567890).to_text(),
        "1;24691357802469135780;1;",
    );
    assert_eq!(ctx.from_bool(true).to_text(), "0;1;");
    assert_eq!(ctx.from_bool(false).to_text(), "0;0;");
    assert_eq!(ctx.from_real(1, 2).to_text(), "2;2;4;");
    assert_eq!(ctx.from_real(-7, 3).to_text(), "2;13;6;");
}

#[test]
fn application_text() {
    let cfg = Config::new();
    let ctx = Context::new(&cfg);
    let x = ctx.named_int_const("x");
    let y = ctx.named_int_const("y");
    // applications code the operator triple, the arity, then the arguments
    assert_eq!(x.to_text(), "3;1;1;120;1;");
    assert_eq!(x.add(&[&y]).to_text(), "4;8;0;0;2;3;1;1;120;1;3;1;1;121;1;");
    assert_eq!(x._eq(&y).to_text(), "4;18;0;0;2;3;1;1;120;1;3;1;1;121;1;");
    // distinct operators on the same operands have distinct texts
    assert_ne!(x.add(&[&y]).to_text(), x.mul(&[&y]).to_text());
    assert_ne!(x.lt(&y).to_text(), x.le(&y).to_text());
    let inner = x.lt(&y);
    assert_eq!(inner.not().to_text(), format!("4;7;0;0;1;{}", inner.to_text()));
    assert_ne!(x.ite(&y, &ctx.from_i64(0)).to_text(), x.ite(&ctx.from_i64(0), &y).to_text());
}

#[test]
fn bitvector_numeral_text() {
    let cfg = Config::new();
    let ctx = Context::new(&cfg);
    let bv8 = ctx.bitvector_sort(8);
    assert_eq!(bv8.from_u64(5).to_text(), "1;10;3;8;");
    // -1 reduces modulo 2^8 to 255
    assert_eq!(bv8.from_i64(-1).to_text(), "1;510;3;8;");
    assert!(bv8.from_i64(-1) == bv8.from_u64(255));
}

#[test]
fn i64_round_trip() {
    let cfg = Config::new();
    let ctx = Context::new(&cfg);
    for i in [0i64, 1, -1, 42, -42, i64::MAX, i64::MIN] {
        assert_eq!(ctx.from_i64(i).as_i64(), Some(i));
    }
}

#[test]
fn numeral_read_back_bounds() {
    let cfg = Config::new();
    let ctx = Context::new(&cfg);
    assert_eq!(ctx.from_u64(u64::MAX).as_i64(), None);
    assert_eq!(ctx.from_u64(u64::MAX).as_u64(), Some(u64::MAX));
    assert_eq!(ctx.from_i64(-1).as_u64(), None);
    assert_eq!(ctx.from_i64(-1).as_i32(), Some(-1));
    assert_eq!(ctx.from_i64(i64::MAX).as_i32(), None);
    assert_eq!(ctx.from_u64(7).as_u32(), Some(7));
    assert_eq!(ctx.from_u64(1 << 40).as_u32(), None);
    assert_eq!(ctx.from_i64(9).as_usize(), Some(9usize));
    assert_eq!(z3::Ast::from_isize(&ctx, -9).as_isize(), Some(-9isize));
    // reading the wrong kind is a normal absent outcome, not an error
    assert_eq!(ctx.named_int_const("x").as_i64(), None);
    assert_eq!(ctx.from_i64(1).as_bool(), None);
    assert_eq!(ctx.from_bool(true).as_bool(), Some(true));
    assert_eq!(ctx.from_bool(true).as_i64(), None);
    assert_eq!(ctx.from_real(3, 4).as_real(), Some((3, 4)));
    // rationals are reduced to lowest terms with a positive denominator
    assert_eq!(ctx.from_real(2, 4).as_real(), Some((1, 2)));
    assert_eq!(ctx.from_real(1, -2).as_real(), Some((-1, 2)));
    assert_eq!(ctx.from_real(-6, -4).as_real(), Some((3, 2)));
    assert_eq!(ctx.from_real(0, 7).as_real(), Some((0, 1)));
    assert!(ctx.from_real(2, 4) == ctx.from_real(1, 2));
    assert_eq!(ctx.from_i64(3).as_real(), None);
}

#[test]
fn simplify_folds_ground_terms() {
    let cfg = Config::new();
    let ctx = Context::new(&cfg);
    let t = ctx.from_i64(2)._eq(&ctx.from_i64(2));
    assert_eq!(t.simplify().as_bool(), Some(true));
    let f = ctx.from_i64(2)._eq(&ctx.from_i64(3));
    assert_eq!(f.simplify().as_bool(), Some(false));
    // an unbound constant does not fold
    let x = ctx.named_int_const("x");
    assert!(x.simplify() == x);
    // boolean connectives fold
    let conj = ctx.from_bool(true).and(&[&ctx.from_bool(false)]);
    assert_eq!(conj.simplify().as_bool(), Some(false));
    let disj = ctx.from_bool(false).or(&[&ctx.from_bool(true)]);
    assert_eq!(disj.simplify().as_bool(), Some(true));
    assert_eq!(ctx.from_bool(false).not().simplify().as_bool(), Some(true));
}

#[test]
fn symbols_and_fresh_constants() {
    let cfg = Config::new();
    let mut ctx = Context::new(&cfg);
    let n = ctx.numbered_int_const(7);
    assert_eq!(n.to_text(), "3;0;7;1;");
    assert!(n != ctx.numbered_int_const(8));
    let f1 = ctx.fresh_int_const("x");
    let f2 = ctx.fresh_int_const("x");
    // names carry the fresh counter: "x!0" then "x!1"
    assert_eq!(f1.to_text(), "3;1;3;120;33;48;1;");
    assert_eq!(f2.to_text(), "3;1;3;120;33;49;1;");
    assert!(f1 != f2);
    assert_ne!(f1.to_text(), f2.to_text());
}

#[test]
fn sort_texts_and_equality() {
    let cfg = Config::new();
    let ctx = Context::new(&cfg);
    assert_eq!(ctx.bool_sort().to_text(), "0;");
    assert_eq!(ctx.int_sort().to_text(), "1;");
    assert_eq!(ctx.real_sort().to_text(), "2;");
    assert_eq!(ctx.bitvector_sort(32).to_text(), "3;32;");
    let arr = ctx.array_sort(&ctx.int_sort(), &ctx.bool_sort());
    assert_eq!(arr.to_text(), "4;1;0;");
    assert_eq!(ctx.set_sort(&ctx.int_sort()).to_text(), "5;1;");
    let u = z3::Sort::uninterpreted(&ctx, &ctx.str_sym("T"));
    assert_eq!(u.to_text(), "6;1;1;84;");
    assert!(ctx.bitvector_sort(8) == ctx.bitvector_sort(8));
    assert!(ctx.bitvector_sort(8) != ctx.bitvector_sort(9));
    assert!(ctx.int_sort() != ctx.bool_sort());
}

#[test]
fn func_decl_application() {
    let cfg = Config::new();
    let ctx = Context::new(&cfg);
    let f = ctx.func_decl(ctx.str_sym("f"), &[&ctx.int_sort()], &ctx.int_sort());
    let x = ctx.named_int_const("x");
    let fx = f.apply(&[&x]);
    let fx2 = f.apply(&[&x]);
    assert!(fx == fx2);
    assert_eq!(fx.to_text(), fx2.to_text());
    // the application differs from its argument and from another function's
    let g = ctx.func_decl(ctx.str_sym("g"), &[&ctx.int_sort()], &ctx.int_sort());
    assert_ne!(fx.to_text(), x.to_text());
    assert_ne!(fx.to_text(), g.apply(&[&x]).to_text());
}

#[test]
fn pseudo_boolean_text() {
    let cfg = Config::new();
    let ctx = Context::new(&cfg);
    let a = ctx.named_bool_const("a");
    let b = ctx.named_bool_const("b");
    // the three kinds with equal data render differently, and each kind
    // renders identically on a rebuild
    let le = a.pb_le(&[&b], vec![1, 2], 3);
    let ge = a.pb_ge(&[&b], vec![1, 2], 3);
    let eq = a.pb_eq(&[&b], vec![1, 2], 3);
    assert_ne!(le.to_text(), ge.to_text());
    assert_ne!(ge.to_text(), eq.to_text());
    assert_eq!(le.to_text(), a.pb_le(&[&b], vec![1, 2], 3).to_text());
    // distinct coefficients and thresholds render differently
    assert_ne!(le.to_text(), a.pb_le(&[&b], vec![1, -2], 3).to_text());
    assert_ne!(le.to_text(), a.pb_le(&[&b], vec![1, 2], 4).to_text());
}

#[test]
fn translate_keeps_text() {
    let cfg = Config::new();
    let ctx1 = Context::new(&cfg);
    let ctx2 = Context::new(&cfg);
    let t = ctx1.from_i64(3).add(&[&ctx1.named_int_const("x")]);
    let moved = t.translate(&ctx2);
    assert_eq!(moved.to_text(), t.to_text());
    assert!(moved == t);
}
