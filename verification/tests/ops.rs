use z3::{Config, Context};

fn all_distinct(texts: &[String]) {
    for i in 0..texts.len() {
        for j in 0..texts.len() {
            if i != j {
                assert_ne!(texts[i], texts[j]);
            }
        }
    }
}

#[test]
fn boolean_op_text() {
    let cfg = Config::new();
    let ctx = Context::new(&cfg);
    let a = ctx.named_bool_const("a");
    let b = ctx.named_bool_const("b");
    // each connective has its own canonical text, stable under rebuilding
    let texts = [
        a.iff(&b).to_text(),
        a.implies(&b).to_text(),
        a.xor(&b).to_text(),
        a.or(&[&b]).to_text(),
        a.and(&[&b]).to_text(),
        a.distinct(&[&b]).to_text(),
    ];
    all_distinct(&texts);
    assert_eq!(a.iff(&b).to_text(), a.iff(&b).to_text());
    assert!(a.iff(&b) == a.iff(&b));
    assert!(a.iff(&b) != a.xor(&b));
}

#[test]
fn arithmetic_op_text() {
    let cfg = Config::new();
    let ctx = Context::new(&cfg);
    let x = ctx.named_int_const("x");
    let y = ctx.named_int_const("y");
    let texts = [
        x.sub(&[&y]).to_text(),
        x.div(&y).to_text(),
        x.rem(&y).to_text(),
        x.modulo(&y).to_text(),
        x.power(&y).to_text(),
        x.lt(&y).to_text(),
        x.le(&y).to_text(),
        x.ge(&y).to_text(),
        x.gt(&y).to_text(),
    ];
    all_distinct(&texts);
    let units = [x.minus().to_text(), x.int2real().to_text(), x.real2int().to_text(),
        x.is_int().to_text()];
    all_distinct(&units);
}

#[test]
fn bitvector_op_text() {
    let cfg = Config::new();
    let ctx = Context::new(&cfg);
    let x = ctx.named_bitvector_const("x", 8);
    let y = ctx.named_bitvector_const("y", 8);
    let texts = [
        x.bvadd(&y).to_text(),
        x.bvmul(&y).to_text(),
        x.bvudiv(&y).to_text(),
        x.bvslt(&y).to_text(),
        x.concat(&y).to_text(),
        x.bvshl(&y).to_text(),
        x.bvrotl(&y).to_text(),
        x.bvnot().to_text(),
        x.bvneg().to_text(),
        x.bvextract(7, 0).to_text(),
        x.bvrepeat(2).to_text(),
        x.bvsignextend(8).to_text(),
        x.bvzeroextend(8).to_text(),
        x.int2bv(16).to_text(),
        x.bv2int(true).to_text(),
        x.bv2int(false).to_text(),
    ];
    all_distinct(&texts);
    // the numeric parameters take part in the text
    assert_ne!(x.bvextract(7, 0).to_text(), x.bvextract(6, 0).to_text());
    assert_ne!(x.bvextract(7, 0).to_text(), x.bvextract(7, 1).to_text());
    assert_ne!(x.int2bv(16).to_text(), x.int2bv(32).to_text());
}

#[test]
fn overflow_check_text() {
    let cfg = Config::new();
    let ctx = Context::new(&cfg);
    let x = ctx.named_bitvector_const("x", 8);
    let y = ctx.named_bitvector_const("y", 8);
    let texts = [
        x.bvadd_no_overflow(&y, true).to_text(),
        x.bvadd_no_overflow(&y, false).to_text(),
        x.bvadd_no_underflow(&y).to_text(),
        x.bvsub_no_overflow(&y).to_text(),
        x.bvsub_no_underflow(&y, true).to_text(),
        x.bvsdiv_no_overflow(&y).to_text(),
        x.bvmul_no_overflow(&y, false).to_text(),
        x.bvmul_no_underflow(&y).to_text(),
        x.bvneg_no_overflow().to_text(),
    ];
    all_distinct(&texts);
}

#[test]
fn array_and_set_op_text() {
    let cfg = Config::new();
    let ctx = Context::new(&cfg);
    let arr = ctx.named_const("a", &ctx.array_sort(&ctx.int_sort(), &ctx.int_sort()));
    let i = ctx.named_int_const("i");
    let v = ctx.named_int_const("v");
    assert_ne!(arr.select(&i).to_text(), arr.store(&i, &v).to_text());
    let s = ctx.named_const("s", &ctx.set_sort(&ctx.int_sort()));
    let t = ctx.named_const("t", &ctx.set_sort(&ctx.int_sort()));
    let texts = [
        s.set_add(&i).to_text(),
        s.set_del(&i).to_text(),
        s.set_union(&[&t]).to_text(),
        s.set_intersect(&[&t]).to_text(),
        s.set_subset(&t).to_text(),
        s.set_complement().to_text(),
    ];
    all_distinct(&texts);
}

#[test]
fn undecided_widths_stay_undecided() {
    let cfg = Config::new();
    let ctx = Context::new(&cfg);
    let mut solver = z3::Solver::new(&ctx);
    assert!(solver.check());
    let model = solver.get_model();
    // a zero-width or over-wide conversion is beyond the ground rules
    let t = ctx.from_i64(1).int2bv(0).bv2int(false);
    assert!(model.eval(&t).is_none());
    let t = ctx.from_i64(1).int2bv(65).bv2int(false);
    assert!(model.eval(&t).is_none());
}

#[test]
fn fresh_constants_of_each_sort() {
    let cfg = Config::new();
    let mut ctx = Context::new(&cfg);
    // the names carry the prefix, a separator, and the fresh counter
    assert_eq!(ctx.fresh_bool_const("b").to_text(), "3;1;3;98;33;48;0;");
    assert_eq!(ctx.fresh_real_const("r").to_text(), "3;1;3;114;33;49;2;");
    assert_eq!(ctx.fresh_bitvector_const("v", 8).to_text(), "3;1;3;118;33;50;3;8;");
    let s = ctx.int_sort();
    assert_eq!(ctx.fresh_const("c", &s).to_text(), "3;1;3;99;33;51;1;");
    assert_eq!(ctx.numbered_bool_const(1).to_text(), "3;0;1;0;");
    assert_eq!(ctx.numbered_real_const(2).to_text(), "3;0;2;2;");
    assert_eq!(ctx.numbered_bitvector_const(3, 4).to_text(), "3;0;3;3;4;");
}

#[test]
fn from_widths() {
    let cfg = Config::new();
    let ctx = Context::new(&cfg);
    assert_eq!(z3::Ast::from_i32(&ctx, -5).as_i64(), Some(-5));
    assert_eq!(z3::Ast::from_u32(&ctx, 5).as_u64(), Some(5));
    assert_eq!(z3::Ast::from_usize(&ctx, 77).as_usize(), Some(77));
    let sym = z3::Symbol::from_int(&ctx, 9);
    let srt = ctx.int_sort();
    assert_eq!(z3::Ast::new_const(&sym, &srt).to_text(), "3;0;9;1;");
    let named = z3::Symbol::from_string(&ctx, "q");
    assert_eq!(z3::Ast::new_const(&named, &srt).to_text(), "3;1;1;113;1;");
}
