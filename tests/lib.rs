use ssa_builder::{Builder, Context, TypeRef};

fn main_returning(ctx: &mut Context, module_name: &str, ret: TypeRef) -> (ssa_builder::Module, ssa_builder::Function, Builder) {
    let builder = ctx.create_builder();
    let module = ctx.create_module(module_name).unwrap();
    let fun_type = ctx.function_type(ret, &[], false);
    let function = module.add_function(ctx, "main", fun_type).unwrap();
    (module, function, builder)
}

#[test]
fn it_works() {
    let mut ctx = Context::new();
    let i32_type = ctx.Int32Type();
    let (module, function, mut builder) = main_returning(&mut ctx, "my_module", i32_type);
    let entry_block = function.append_basic_block(&mut ctx, "entry").unwrap();
    builder.position_at_end(entry_block);

    // int a = 32
    let a = builder.build_alloca(&mut ctx, i32_type);
    let const_a_value = ctx.SInt32(32);
    builder.build_store(&mut ctx, const_a_value, a);

    // int b = 16
    let b = builder.build_alloca(&mut ctx, i32_type);
    let const_b_value = ctx.SInt32(16);
    builder.build_store(&mut ctx, const_b_value, b);

    // return a + b
    let a_val = builder.build_load(&mut ctx, a);
    let b_val = builder.build_load(&mut ctx, b);
    let ab_val = builder.build_add(&mut ctx, a_val, b_val);
    builder.build_ret(&mut ctx, ab_val);

    match module.verify(&ctx) {
        Ok(_) => {}
        Err(msg) => panic!("Error: {}", msg),
    }
}
