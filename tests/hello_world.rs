use ssa_builder::Context;

#[test]
fn hello_world_test_puts() {
    let mut ctx = Context::new();
    let mut builder = ctx.create_builder();
    let module = ctx.create_module("call_puts").unwrap();

    // create main function and entry point
    let void_type = ctx.VoidType();
    let fun_type = ctx.function_type(void_type, &[], false);
    let function = module.add_function(&mut ctx, "main", fun_type).unwrap();
    let entry_block = function.append_basic_block(&mut ctx, "entry").unwrap();
    builder.position_at_end(entry_block);

    let helloworld = builder.build_global_string_ptr(&mut ctx, "Hello, world!");

    let i32_type = ctx.Int32Type();
    let char_ptr = ctx.CharPointerType();
    let puts_type = ctx.function_type(i32_type, &[char_ptr], false);
    let puts_func = module.add_function(&mut ctx, "puts", puts_type).unwrap();

    let args = [helloworld];
    let _call = builder.build_call(&mut ctx, puts_func.as_ref(), &args);

    let _ret = builder.build_ret_void(&mut ctx);

    match module.verify(&ctx) {
        Ok(_) => {}
        Err(msg) => panic!("Error: {}", msg),
    }
}
