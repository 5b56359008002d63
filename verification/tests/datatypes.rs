use z3::{Config, Context, DatatypeBuilder, Solver};

#[test]
fn enumeration_round_trip() {
    let cfg = Config::new();
    let ctx = Context::new(&cfg);
    let (_colors, color_consts, color_testers) = ctx.enumeration_sort(
        &ctx.str_sym("Color"),
        &[&ctx.str_sym("Red"), &ctx.str_sym("Green"), &ctx.str_sym("Blue")],
    );
    assert_eq!(color_consts.len(), 3);
    assert_eq!(color_testers.len(), 3);
    for k in 0..3 {
        let mut solver = Solver::new(&ctx);
        let x = ctx.named_const("x", &_colors);
        solver.assert_term(&x._eq(&color_consts[k].apply(&[])));
        assert!(solver.check());
        let model = solver.get_model();
        for j in 0..3 {
            let tested = color_testers[j].apply(&[&x]);
            assert_eq!(model.eval(&tested).unwrap().as_bool(), Some(j == k));
        }
    }
}

#[test]
fn enumeration_tester_on_constant() {
    let cfg = Config::new();
    let ctx = Context::new(&cfg);
    let (_colors, consts, testers) = ctx.enumeration_sort(
        &ctx.str_sym("Color"),
        &[&ctx.str_sym("Red"), &ctx.str_sym("Green")],
    );
    let mut solver = Solver::new(&ctx);
    let red = consts[0].apply(&[]);
    let eq = testers[0].apply(&[&red]);
    assert!(solver.check());
    let model = solver.get_model();
    assert!(model.eval(&eq).unwrap().as_bool().unwrap());
    let not_green = testers[1].apply(&[&red]);
    assert_eq!(model.eval(&not_green).unwrap().as_bool(), Some(false));
}

#[test]
fn datatype_round_trip() {
    let cfg = Config::new();
    let ctx = Context::new(&cfg);
    let mut solver = Solver::new(&ctx);

    // Like Rust's Option<int> type
    let option_int = DatatypeBuilder::new(&ctx)
        .variant("None", &[])
        .variant("Some", &[("value", &ctx.int_sort())])
        .finish("OptionInt");

    assert_eq!(option_int.sort.to_text(), "7;9;79;112;116;105;111;110;73;110;116;");
    assert_eq!(option_int.variants.len(), 2);
    assert_eq!(option_int.variants[1].accessors.len(), 1);

    // Assert x.is_none()
    let x = ctx.named_const("x", &option_int.sort);
    solver.assert_term(&option_int.variants[0].tester.apply(&[&x]));

    // Assert y == Some(3)
    let y = ctx.named_const("y", &option_int.sort);
    let value = option_int.variants[1].constructor.apply(&[&ctx.from_i64(3)]);
    solver.assert_term(&y._eq(&value));

    assert!(solver.check());
    let model = solver.get_model();

    // Get the value out of Some(3)
    let ast = option_int.variants[1].accessors[0].apply(&[&y]);
    assert_eq!(3, model.eval(&ast).unwrap().as_i64().unwrap());

    // The testers separate the two variants
    let is_none_x = option_int.variants[0].tester.apply(&[&x]);
    assert_eq!(model.eval(&is_none_x).unwrap().as_bool(), Some(true));
    let is_some_x = option_int.variants[1].tester.apply(&[&x]);
    assert_eq!(model.eval(&is_some_x).unwrap().as_bool(), Some(false));
    let is_none_y = option_int.variants[0].tester.apply(&[&y]);
    assert_eq!(model.eval(&is_none_y).unwrap().as_bool(), Some(false));
}

#[test]
fn datatype_declaration_names() {
    let cfg = Config::new();
    let ctx = Context::new(&cfg);
    let dt = DatatypeBuilder::new(&ctx)
        .variant("Leaf", &[])
        .variant("Node", &[("left", &ctx.int_sort()), ("right", &ctx.int_sort())])
        .finish("Tree");
    let leaf = dt.variants[0].constructor.apply(&[]);
    let node = dt.variants[1].constructor.apply(&[&ctx.from_i64(1), &ctx.from_i64(2)]);
    // the declarations render injectively into the applications
    assert!(leaf != node);
    assert_ne!(leaf.to_text(), node.to_text());
    assert_eq!(leaf.to_text(), dt.variants[0].constructor.apply(&[]).to_text());
    let tested = dt.variants[1].tester.apply(&[&node]);
    let accessed = dt.variants[1].accessors[0].apply(&[&node]);
    assert_ne!(tested.to_text(), accessed.to_text());
    assert_ne!(
        accessed.to_text(),
        dt.variants[1].accessors[1].apply(&[&node]).to_text(),
    );
    // accessors recover the fields in declaration order
    let mut solver = Solver::new(&ctx);
    assert!(solver.check());
    let model = solver.get_model();
    assert_eq!(model.eval(&dt.variants[1].accessors[0].apply(&[&node])).unwrap().as_i64(), Some(1));
    assert_eq!(model.eval(&dt.variants[1].accessors[1].apply(&[&node])).unwrap().as_i64(), Some(2));
}

#[test]
fn params_render() {
    let cfg = Config::new();
    let ctx = Context::new(&cfg);
    let mut params = z3::Params::new(&ctx);
    params.set_bool(&ctx.str_sym("model"), true);
    params.set_uint(&ctx.str_sym("timeout"), 1000);
    params.set_symbol(&ctx.str_sym("logic"), &ctx.str_sym("QF_BV"));
    assert_eq!(params.to_text(), "(model true)(timeout 1000)(logic QF_BV)");
    // setting a key again overwrites its value in place
    params.set_bool(&ctx.str_sym("model"), false);
    assert_eq!(params.to_text(), "(model false)(timeout 1000)(logic QF_BV)");
    params.set_uint(&ctx.str_sym("timeout"), 50);
    assert_eq!(params.to_text(), "(model false)(timeout 50)(logic QF_BV)");
}
