use ssa_builder::{Builder, Context, Function, Module};

#[test]
fn puts_test_puts() {
    let mut ctx = Context::new();

    // setup our builder and module
    let mut builder = Builder::new();
    let module: Module = ctx.create_module("top").unwrap();

    // create main function and entry point
    let void_type = ctx.VoidType();
    let fun_type = ctx.function_type(void_type, &[], false);
    let function: Function = module.add_function(&mut ctx, "main", fun_type).unwrap();
    let entry_block = function.append_basic_block(&mut ctx, "entry").unwrap();
    builder.position_at_end(entry_block);

    let helloworld = builder
        .build_global_string_ptr_with_name(&mut ctx, "Hello, world!\n", "hello_world_str")
        .unwrap();

    let i32_type = ctx.Int32Type();
    let i8_type = ctx.Int8Type();
    let i8_ptr = ctx.PointerType(i8_type);
    let puts_type = ctx.function_type(i32_type, &[i8_ptr], false);
    let puts_func = module.add_function(&mut ctx, "puts", puts_type).unwrap();

    let args = [helloworld];
    let _call = builder.build_call_with_name(&mut ctx, puts_func.as_ref(), &args, "call_puts").unwrap();

    let _ret = builder.build_ret_void(&mut ctx);

    match module.verify(&ctx) {
        Ok(_) => {}
        Err(msg) => println!("Error: {}", msg),
    }
}
