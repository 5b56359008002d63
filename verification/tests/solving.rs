use z3::{Config, Context, Solver, Optimize, Stats};

#[test]
fn check_binds_constants() {
    let cfg = Config::new();
    let ctx = Context::new(&cfg);
    let mut solver = Solver::new(&ctx);
    let x = ctx.named_int_const("x");
    solver.assert_term(&x._eq(&ctx.from_i64(5)));
    assert!(solver.check());
    let model = solver.get_model();
    assert_eq!(model.eval(&x).unwrap().as_i64(), Some(5));
}

#[test]
fn stack_discipline() {
    let cfg = Config::new();
    let ctx = Context::new(&cfg);
    let mut solver = Solver::new(&ctx);
    let x = ctx.named_int_const("x");
    solver.assert_term(&x._eq(&ctx.from_i64(5)));
    solver.push();
    solver.assert_term(&x._eq(&ctx.from_i64(6)));
    assert!(!solver.check());
    solver.pop();
    assert!(solver.check());
    let model = solver.get_model();
    assert_eq!(model.eval(&x).unwrap().as_i64(), Some(5));
}

#[test]
fn nested_stack_discipline() {
    let cfg = Config::new();
    let ctx = Context::new(&cfg);
    let mut solver = Solver::new(&ctx);
    let x = ctx.named_int_const("x");
    let y = ctx.named_int_const("y");
    solver.push();
    solver.assert_term(&x._eq(&ctx.from_i64(1)));
    solver.push();
    solver.assert_term(&y._eq(&ctx.from_i64(2)));
    assert!(solver.check());
    solver.pop();
    solver.pop();
    // back to an empty assertion set
    assert!(solver.check());
}

#[test]
fn unsatisfiable_ground_assertion() {
    let cfg = Config::new();
    let ctx = Context::new(&cfg);
    let mut solver = Solver::new(&ctx);
    solver.assert_term(&ctx.from_i64(1)._eq(&ctx.from_i64(2)));
    assert!(!solver.check());
}

#[test]
fn bv_round_trip_in_solver() {
    let cfg = Config::new();
    let ctx = Context::new(&cfg);
    // signed read-back restores a negative value
    let mut solver = Solver::new(&ctx);
    let i = ctx.named_int_const("i");
    solver.assert_term(&i._eq(&ctx.from_i64(-3)));
    let x = i.int2bv(32).bv2int(true);
    assert!(solver.check());
    let model = solver.get_model();
    assert_eq!(model.eval(&x).unwrap().as_i64(), Some(-3));
    // unsigned read-back gives the reduction modulo 2^32
    let y = i.int2bv(32).bv2int(false);
    assert_eq!(model.eval(&y).unwrap().as_i64(), Some((1i64 << 32) - 3));
    // width 8: 300 reduces to 44 either way
    let t = ctx.from_i64(300).int2bv(8).bv2int(false);
    assert_eq!(model.eval(&t).unwrap().as_i64(), Some(44));
    let t = ctx.from_i64(300).int2bv(8).bv2int(true);
    assert_eq!(model.eval(&t).unwrap().as_i64(), Some(44));
    // width 8 signed: 200 re-centers to -56
    let t = ctx.from_i64(200).int2bv(8).bv2int(true);
    assert_eq!(model.eval(&t).unwrap().as_i64(), Some(-56));
    // width 64 round trip at the numeral limit
    let t = ctx.from_i64(-1).int2bv(64).bv2int(false);
    assert_eq!(model.eval(&t).unwrap().as_u64(), Some(u64::MAX));
    let t = ctx.from_i64(-1).int2bv(64).bv2int(true);
    assert_eq!(model.eval(&t).unwrap().as_i64(), Some(-1));
    // checking the equation end-to-end
    let mut solver = Solver::new(&ctx);
    solver.assert_term(
        &ctx.from_i64(300).int2bv(8).bv2int(false)._eq(&ctx.from_i64(44)),
    );
    assert!(solver.check());
}

#[test]
fn quantifier_short_circuit() {
    let cfg = Config::new();
    let ctx = Context::new(&cfg);
    let x = ctx.named_int_const("x");
    let body = x._eq(&ctx.from_i64(5));
    let f = ctx.forall_const(&[], &body);
    let e = z3::Ast::exists_const(&ctx, &[], &body);
    assert!(f == body);
    assert!(e == body);
    assert_eq!(f.to_text(), body.to_text());
    // asserting the collapsed quantifier behaves exactly as the body
    let mut s1 = Solver::new(&ctx);
    s1.assert_term(&body);
    let mut s2 = Solver::new(&ctx);
    s2.assert_term(&f);
    assert_eq!(s1.check(), s2.check());
    // with bound constants a real quantifier is built
    let q = ctx.forall_const(&[&x], &body);
    assert!(q != body);
    assert_ne!(q.to_text(), body.to_text());
    let q2 = ctx.forall_const(&[&x], &body);
    assert!(q == q2);
    assert_eq!(q.to_text(), q2.to_text());
    let e2 = z3::Ast::exists_const(&ctx, &[&x], &body);
    assert!(q != e2);
    assert_ne!(q.to_text(), e2.to_text());
}

#[test]
fn quantifier_with_patterns() {
    let cfg = Config::new();
    let ctx = Context::new(&cfg);
    let f = ctx.func_decl(ctx.str_sym("f"), &[&ctx.int_sort()], &ctx.int_sort());
    let x = ctx.named_int_const("x");
    let f_x = f.apply(&[&x]);
    let p = ctx.pattern(&[&f_x]);
    let q = ctx.forall_const_weight_patterns(2, &[&x], &[&p], &x._eq(&f_x));
    // the weight and the patterns take part in the canonical text
    let plain = ctx.forall_const(&[&x], &x._eq(&f_x));
    assert!(q != plain);
    assert_ne!(q.to_text(), plain.to_text());
    let q3 = ctx.forall_const_weight_patterns(3, &[&x], &[&p], &x._eq(&f_x));
    assert_ne!(q.to_text(), q3.to_text());
}

#[test]
fn optimize_stack_and_objectives() {
    let cfg = Config::new();
    let ctx = Context::new(&cfg);
    let mut opt = Optimize::new(&ctx);
    let x = ctx.named_int_const("x");
    opt.assert_term(&x._eq(&ctx.from_i64(5)));
    opt.maximize(&x);
    opt.minimize(&x);
    opt.push();
    opt.assert_term(&x._eq(&ctx.from_i64(6)));
    assert!(!opt.check());
    opt.pop();
    assert!(opt.check());
    let model = opt.get_model();
    assert_eq!(model.eval(&x).unwrap().as_i64(), Some(5));
    assert_eq!(opt.get_help(), "");
    assert_eq!(opt.to_text(), "(assert 4;18;0;0;2;3;1;1;120;1;1;10;1;)\n");
}

#[test]
fn stats_counts_assertions() {
    let cfg = Config::new();
    let ctx = Context::new(&cfg);
    let mut solver = Solver::new(&ctx);
    solver.assert_term(&ctx.from_bool(true));
    solver.assert_term(&ctx.from_bool(true));
    let stats = Stats::with_solver(&solver);
    assert_eq!(stats.to_text(), "(:assertions 2)");
}

#[test]
fn model_leaves_unknown_terms_undecided() {
    let cfg = Config::new();
    let ctx = Context::new(&cfg);
    let mut solver = Solver::new(&ctx);
    let x = ctx.named_int_const("x");
    solver.assert_term(&x._eq(&ctx.from_i64(1)));
    assert!(solver.check());
    let model = solver.get_model();
    // an unbound constant has no value in the model
    let y = ctx.named_int_const("y");
    assert!(model.eval(&y).is_none());
    // arithmetic is beyond the ground rules of this engine
    let s = x.add(&[&x]);
    assert!(model.eval(&s).is_none());
}

#[test]
fn wrapping_addition_example() {
    let cfg = z3::Config::new();
    let ctx = Context::new(&cfg);
    // bit-vector arithmetic wraps: an 8-bit x with x + 1 == 0 is 0xFF
    let x = ctx.named_bitvector_const("b", 8);
    let bv_sort = ctx.bitvector_sort(8);
    let mut solver = Solver::new(&ctx);
    solver.assert_term(&x.bvadd(&bv_sort.from_u64(1))._eq(&bv_sort.from_u64(0)));
    assert!(solver.check());
    let model = solver.get_model();
    assert!(model.eval(&x).and_then(|i| i.as_u64()).unwrap_or(0) == 0xFF);
}

#[test]
fn signed_multiplication_example() {
    let cfg = z3::Config::new();
    let ctx = Context::new(&cfg);
    // signed 8-bit multiplication overflows mod 256
    let bv_sort = ctx.bitvector_sort(8);
    let mut solver = Solver::new(&ctx);
    solver.assert_term(
        &bv_sort.from_i64(-5).bvmul(&bv_sort.from_i64(-100))._eq(&bv_sort.from_i64(
            (-5 * -100) % 256,
        )),
    );
    assert!(solver.check());
}

#[test]
fn ground_bitvector_operations() {
    let cfg = z3::Config::new();
    let ctx = Context::new(&cfg);
    let bv = ctx.bitvector_sort(8);
    let mut solver = Solver::new(&ctx);
    assert!(solver.check());
    let model = solver.get_model();
    // arithmetic wraps modulo 2^8
    let t = bv.from_u64(200).bvadd(&bv.from_u64(100));
    assert_eq!(model.eval(&t).unwrap().as_u64(), Some(44));
    let t = bv.from_u64(3).bvsub(&bv.from_u64(5));
    assert_eq!(model.eval(&t).unwrap().as_u64(), Some(254));
    let t = bv.from_u64(16).bvmul(&bv.from_u64(17));
    assert_eq!(model.eval(&t).unwrap().as_u64(), Some(16));
    let t = bv.from_u64(1).bvneg();
    assert_eq!(model.eval(&t).unwrap().as_u64(), Some(255));
    // comparisons, unsigned and signed: 255 is -1 signed
    let t = bv.from_u64(255).bvult(&bv.from_u64(1));
    assert_eq!(model.eval(&t).unwrap().as_bool(), Some(false));
    let t = bv.from_u64(255).bvslt(&bv.from_u64(1));
    assert_eq!(model.eval(&t).unwrap().as_bool(), Some(true));
    let t = bv.from_u64(7).bvuge(&bv.from_u64(7));
    assert_eq!(model.eval(&t).unwrap().as_bool(), Some(true));
    let t = bv.from_u64(128).bvsle(&bv.from_u64(127));
    assert_eq!(model.eval(&t).unwrap().as_bool(), Some(true));
    // mixing widths stays undecided
    let wide = ctx.bitvector_sort(16).from_u64(1);
    assert!(model.eval(&bv.from_u64(1).bvadd(&wide)).is_none());
}

#[test]
fn ground_pseudo_boolean() {
    let cfg = z3::Config::new();
    let ctx = Context::new(&cfg);
    let mut solver = Solver::new(&ctx);
    // one true operand with coefficient 1 against threshold 1
    let t = ctx.from_bool(true);
    solver.assert_term(&t.pb_le(&[], vec![1], 1));
    solver.assert_term(&t.pb_ge(&[], vec![1], 1));
    solver.assert_term(&t.pb_eq(&[], vec![1], 1));
    assert!(solver.check());
    // weighted sum: true*2 + false*3 + true*(-1) == 1
    let f = ctx.from_bool(false);
    let mut s2 = Solver::new(&ctx);
    s2.assert_term(&t.pb_eq(&[&f, &t], vec![2, 3, -1], 1));
    assert!(s2.check());
    // and a violated threshold is unsatisfiable
    let mut s3 = Solver::new(&ctx);
    s3.assert_term(&t.pb_le(&[&t], vec![1, 1], 1));
    assert!(!s3.check());
}

#[test]
fn tester_binds_enumeration_constant() {
    let cfg = z3::Config::new();
    let ctx = Context::new(&cfg);
    let (colors, consts, testers) = ctx.enumeration_sort(
        &ctx.str_sym("Color"),
        &[&ctx.str_sym("Red"), &ctx.str_sym("Green")],
    );
    // asserting a tester on an unbound constant binds it to that variant
    let x = ctx.named_const("x", &colors);
    let mut solver = Solver::new(&ctx);
    solver.assert_term(&testers[1].apply(&[&x]));
    assert!(solver.check());
    let model = solver.get_model();
    assert_eq!(model.eval(&testers[0].apply(&[&x])).unwrap().as_bool(), Some(false));
    assert_eq!(model.eval(&testers[1].apply(&[&x])).unwrap().as_bool(), Some(true));
    let green = consts[1].apply(&[]);
    assert_eq!(model.eval(&x._eq(&green)).unwrap().as_bool(), Some(true));
}

#[test]
fn wide_bitvector_numerals() {
    let cfg = z3::Config::new();
    let ctx = Context::new(&cfg);
    // numerals exist at widths beyond 64 when no reduction is needed
    let wide = ctx.bitvector_sort(100);
    let t = wide.from_u64(u64::MAX);
    assert_eq!(t.as_u64(), Some(u64::MAX));
    assert_eq!(t.to_text(), "1;36893488147419103230;3;100;");
    assert_eq!(wide.from_i64(5).as_i64(), Some(5));
}
