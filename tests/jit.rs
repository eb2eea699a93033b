use ssa_builder::Context;

#[test]
fn test_jit_engine() {
    let mut ctx = Context::new();

    // setup our builder and module
    let mut builder = ctx.create_builder();
    let module = ctx.create_module("jit_engine").unwrap();

    // create main function and entry point
    let void_type = ctx.VoidType();
    let fun_type = ctx.function_type(void_type, &[], false);
    let function = module.add_function(&mut ctx, "main", fun_type).unwrap();
    let entry_block = function.append_basic_block(&mut ctx, "entry").unwrap();
    builder.position_at_end(entry_block);

    // setup strings
    let hello = builder.build_global_string_ptr(&mut ctx, "Hello, %s\n");
    let world = builder.build_global_string_ptr(&mut ctx, "JIT Engine!");

    // setup printf function: i32 printf(i8*, ...)
    let i32_type = ctx.Int32Type();
    let char_ptr = ctx.CharPointerType();
    let printf_type = ctx.function_type(i32_type, &[char_ptr], true);
    let printf_func = module.add_function(&mut ctx, "printf", printf_type).unwrap();

    // call printf function
    let args = [hello, world];
    let _call = builder.build_call(&mut ctx, printf_func.as_ref(), &args);
    // ret void
    let _ret = builder.build_ret_void(&mut ctx);

    match module.verify(&ctx) {
        Ok(_) => {
            let named_function = module.named_function(&ctx, "main").unwrap();
            assert_eq!(named_function.as_ref(), function.as_ref());
        }
        Err(msg) => panic!("Error: {}", msg),
    }
}
