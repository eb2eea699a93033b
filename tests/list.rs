use ssa_builder::Context;

#[test]
fn test_list() {
    let mut ctx = Context::new();

    // setup our builder and module
    let mut builder = ctx.create_builder();
    let module = ctx.create_module("call_printf").unwrap();

    // create main function and entry point
    let void_type = ctx.VoidType();
    let fun_type = ctx.function_type(void_type, &[], false);
    let function = module.add_function(&mut ctx, "main", fun_type).unwrap();
    let entry_block = function.append_basic_block(&mut ctx, "entry").unwrap();
    builder.position_at_end(entry_block);

    // define struct Pair<int, &Pair>
    let pair_type = ctx.StructTypeNamed("Pair").unwrap();
    let pair_pointer_type = ctx.PointerType(pair_type.as_ref());
    // define struct body
    let i32_type = ctx.Int32Type();
    let field_types = [i32_type, pair_pointer_type];
    pair_type.set_body(&mut ctx, &field_types, false);

    // setup strings
    let fmt_num = builder.build_global_string_ptr(&mut ctx, "%d");
    let _fmt_str = builder.build_global_string_ptr(&mut ctx, "%s");
    let str_lparen = builder.build_global_string_ptr(&mut ctx, "(");
    let str_rparen = builder.build_global_string_ptr(&mut ctx, ")\n");

    // declare printf function: i32 printf(i8*, ...)
    let char_ptr = ctx.CharPointerType();
    let printf_type = ctx.function_type(i32_type, &[char_ptr], true);
    let printf_func = module.add_function(&mut ctx, "printf", printf_type).unwrap();

    // make list (0 1 2 3 4): an array of Pair
    let five = ctx.SInt32(5);
    let buf = builder.build_array_alloca(&mut ctx, pair_type.as_ref(), five);
    let ptr = builder.build_alloca(&mut ctx, pair_pointer_type);
    let next_ptr = builder.build_alloca(&mut ctx, pair_pointer_type);
    let i32_ptr_type = ctx.PointerType(i32_type);
    let i32_ptr = builder.build_alloca(&mut ctx, i32_ptr_type);
    let zero32 = ctx.UInt32(0);
    let null_pointer = builder.build_int_to_ptr(&mut ctx, zero32, pair_pointer_type);

    for i in 0..5u64 {
        // ptr = &buf[i]
        let index = ctx.UInt32(i);
        let slot = builder.build_inbounds_gep(&mut ctx, buf, &[index]);
        builder.build_store(&mut ctx, slot, ptr);

        // ptr.value = i
        let node = builder.build_load(&mut ctx, ptr);
        let value_field = builder.build_struct_gep(&mut ctx, node, 0);
        builder.build_store(&mut ctx, value_field, i32_ptr);
        let value = ctx.SInt32(i);
        let target = builder.build_load(&mut ctx, i32_ptr);
        builder.build_store(&mut ctx, value, target);

        // ptr.next = next pointer
        let node = builder.build_load(&mut ctx, ptr);
        let tmp = builder.build_struct_gep(&mut ctx, node, 1);
        if i == 4 {
            builder.build_store(&mut ctx, null_pointer, tmp);
        } else {
            let next_index = ctx.UInt32(i + 1);
            let next_slot = builder.build_inbounds_gep(&mut ctx, buf, &[next_index]);
            builder.build_store(&mut ctx, next_slot, next_ptr);
            let next = builder.build_load(&mut ctx, next_ptr);
            builder.build_store(&mut ctx, next, tmp);
        }
    }

    // display '('
    builder.build_call(&mut ctx, printf_func.as_ref(), &[str_lparen]);

    // ptr = &buf[0]
    let index = ctx.UInt32(0);
    let slot = builder.build_inbounds_gep(&mut ctx, buf, &[index]);
    builder.build_store(&mut ctx, slot, ptr);

    // define loop block
    let loop_block = function.append_basic_block(&mut ctx, "loop").unwrap();
    let end_block = function.append_basic_block(&mut ctx, "loop_end").unwrap();
    builder.build_br(&mut ctx, loop_block);
    builder.position_at_end(loop_block);

    // loop start
    let node = builder.build_load(&mut ctx, ptr);
    let value_field = builder.build_struct_gep(&mut ctx, node, 0);
    builder.build_store(&mut ctx, value_field, i32_ptr);
    let field = builder.build_load(&mut ctx, i32_ptr);
    let val = builder.build_load(&mut ctx, field);
    builder.build_call(&mut ctx, printf_func.as_ref(), &[fmt_num, val]);

    // ptr = ptr.next
    let node = builder.build_load(&mut ctx, ptr);
    let next = builder.build_struct_gep(&mut ctx, node, 1);
    let next_node = builder.build_load(&mut ctx, next);
    builder.build_store(&mut ctx, next_node, ptr);
    let current = builder.build_load(&mut ctx, ptr);
    let cond = builder.build_icmp_eq(&mut ctx, null_pointer, current);
    builder.build_cond_br(&mut ctx, cond, loop_block, end_block);

    // loop end: display ')'
    builder.position_at_end(end_block);
    builder.build_call(&mut ctx, printf_func.as_ref(), &[str_rparen]);

    // ret void
    let _ret = builder.build_ret_void(&mut ctx);

    match module.verify(&ctx) {
        Ok(_) => {}
        Err(msg) => panic!("Error: {}", msg),
    }
}
