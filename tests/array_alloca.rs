use ssa_builder::{Builder, Context, ValueRef};

fn store_next_byte(ctx: &mut Context, builder: &Builder, ptr: ValueRef, byte: u64) {
    let one = ctx.SInt32(1);
    let current = builder.build_load(ctx, ptr);
    let next = builder.build_inbounds_gep(ctx, current, &[one]);
    builder.build_store(ctx, next, ptr);
    let tmp = builder.build_load(ctx, ptr);
    let value = ctx.UInt8(byte);
    builder.build_store(ctx, value, tmp);
}

#[test]
fn test_array_alloca() {
    let mut ctx = Context::new();

    // setup our builder and module
    let mut builder = ctx.create_builder();
    let module = ctx.create_module("array_alloca").unwrap();

    // create main function and entry point
    let void_type = ctx.VoidType();
    let fun_type = ctx.function_type(void_type, &[], false);
    let function = module.add_function(&mut ctx, "main", fun_type).unwrap();
    let entry_block = function.append_basic_block(&mut ctx, "entry").unwrap();
    builder.position_at_end(entry_block);

    // setup printf function: i32 printf(i8*, ...)
    let i32_type = ctx.Int32Type();
    let char_ptr = ctx.CharPointerType();
    let printf_type = ctx.function_type(i32_type, &[char_ptr], true);
    let printf_func = module.add_function(&mut ctx, "printf", printf_type).unwrap();

    // alloca
    let i8_type = ctx.Int8Type();
    let seven = ctx.SInt32(7);
    let buf = builder.build_array_alloca(&mut ctx, i8_type, seven);
    let i8_ptr = ctx.Int8PointerType();
    let ptr = builder.build_alloca(&mut ctx, i8_ptr);
    let zero = ctx.SInt32(0);
    let first = builder.build_inbounds_gep(&mut ctx, buf, &[zero]);
    builder.build_store(&mut ctx, first, ptr);

    // setup buf
    let tmp = builder.build_load(&mut ctx, ptr);
    let h = ctx.UInt8('H' as u64);
    builder.build_store(&mut ctx, h, tmp);
    for byte in ['e', 'l', 'l', 'o', '\n', '\0'] {
        store_next_byte(&mut ctx, &builder, ptr, byte as u64);
    }

    // call printf function
    let args = [buf];
    let _call = builder.build_call(&mut ctx, printf_func.as_ref(), &args);

    // ret
    let _ret = builder.build_ret_void(&mut ctx);

    match module.verify(&ctx) {
        Ok(_) => {}
        Err(msg) => panic!("Error: {}", msg),
    }
}
