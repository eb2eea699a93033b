use ssa_builder::{Context, Op};

#[test]
fn test_tailcall() {
    let mut ctx = Context::new();

    // setup our builder and module
    let mut builder = ctx.create_builder();
    let module = ctx.create_module("tailcall").unwrap();

    // declare printf function: i32 printf(i8*, ...)
    let i32_type = ctx.Int32Type();
    let char_ptr = ctx.CharPointerType();
    let printf_type = ctx.function_type(i32_type, &[char_ptr], true);
    let printf_func = module.get_or_add_function(&mut ctx, "printf", printf_type).unwrap();

    // define fastcc function: i32 fastcc(i32)
    let fun_type = ctx.function_type(i32_type, &[i32_type], false);
    let fastcc_func = module.add_function(&mut ctx, "fastcc", fun_type).unwrap();
    let entry_block = fastcc_func.append_basic_block(&mut ctx, "entry").unwrap();
    builder.position_at_end(entry_block);

    // load param to x
    let x = builder.build_alloca(&mut ctx, i32_type);
    let param = fastcc_func.get_param(&ctx, 0);
    builder.build_store(&mut ctx, param, x);
    let x_val = builder.build_load(&mut ctx, x);

    // define blocks
    let then_block = fastcc_func.append_basic_block(&mut ctx, "then").unwrap();
    let else_block = fastcc_func.append_basic_block(&mut ctx, "else").unwrap();

    // x == 1 ?
    let one = ctx.UInt32(1);
    let cmp = builder.build_icmp_eq(&mut ctx, x_val, one);
    builder.build_cond_br(&mut ctx, cmp, then_block, else_block);

    // if false
    builder.position_at_end(else_block);
    let one = ctx.UInt32(1);
    let x2 = builder.build_sub(&mut ctx, x_val, one);
    let ret = builder.build_tail_call(&mut ctx, fastcc_func.as_ref(), &[x2]);
    builder.build_ret(&mut ctx, ret);

    // if true: ret 1
    builder.position_at_end(then_block);
    let one = ctx.SInt32(1);
    let _ret = builder.build_ret(&mut ctx, one);

    // define main function
    let void_type = ctx.VoidType();
    let fun_type = ctx.function_type(void_type, &[], false);
    let main_func = module.add_function(&mut ctx, "main", fun_type).unwrap();
    let entry_block = main_func.append_basic_block(&mut ctx, "entry").unwrap();
    builder.position_at_end(entry_block);

    // call fastcc
    let arg = ctx.UInt32(100000000);
    let ret = builder.build_call(&mut ctx, fastcc_func.as_ref(), &[arg]);

    // setup format string
    let fmt_d = builder.build_global_string_ptr(&mut ctx, "%d\n");

    // call printf function
    let _call = builder.build_call(&mut ctx, printf_func.as_ref(), &[fmt_d, ret]);
    // ret void
    let _ret = builder.build_ret_void(&mut ctx);

    match module.verify(&ctx) {
        Ok(_) => {}
        Err(msg) => panic!("Error: {}", msg),
    }

    // the recursive call is marked as a tail call, the call in main is not
    match &ctx.values[ret.index].kind {
        ssa_builder::ValueKind::Inst { op: Op::Call(_, _, tail), .. } => assert!(!*tail),
        _ => panic!("not a call"),
    }
}
