use ssa_builder::{
    BlockRef, Builder, Context, FuncallResult, Function, Module, NameError, NameId, TypeKind,
    TypeRef, ValueKind,
};

/// A module with one function `main` of type `ret ()`, its entry block, and
/// a builder at that block.
fn setup(ctx: &mut Context, ret: TypeRef) -> (Module, Function, BlockRef, Builder) {
    let mut builder = ctx.create_builder();
    let module = ctx.create_module("m").unwrap();
    let fun_type = ctx.function_type(ret, &[], false);
    let function = module.add_function(ctx, "main", fun_type).unwrap();
    let entry = function.append_basic_block(ctx, "entry").unwrap();
    builder.position_at_end(entry);
    (module, function, entry, builder)
}

#[test]
fn arithmetic_round_trip_verifies() {
    let mut ctx = Context::new();
    let i32_type = ctx.Int32Type();
    let (module, _function, _entry, builder) = setup(&mut ctx, i32_type);
    let a = builder.build_alloca(&mut ctx, i32_type);
    let b = builder.build_alloca(&mut ctx, i32_type);
    let c32 = ctx.SInt32(32);
    let c16 = ctx.SInt32(16);
    builder.build_store(&mut ctx, c32, a);
    builder.build_store(&mut ctx, c16, b);
    let x = builder.build_load(&mut ctx, a);
    let y = builder.build_load(&mut ctx, b);
    let sum = builder.build_add(&mut ctx, x, y);
    builder.build_ret(&mut ctx, sum);
    assert!(module.verify(&ctx).is_ok());
    // the loads and the sum have the type of the stored constants
    assert_eq!(ctx.values[sum.index].ty, i32_type);
    assert_eq!(ctx.values[x.index].ty, i32_type);
}

#[test]
fn self_referential_struct_builds_a_list_type() {
    let mut ctx = Context::new();
    let node = ctx.StructTypeNamed("Node").unwrap();
    // a pointer to the struct can be formed before its body exists
    let node_ptr = ctx.PointerType(node.as_ref());
    let i32_type = ctx.Int32Type();
    node.set_body(&mut ctx, &[i32_type, node_ptr], false);
    let void_type = ctx.VoidType();
    let (module, _function, _entry, builder) = setup(&mut ctx, void_type);
    let five = ctx.SInt32(5);
    let nodes = builder.build_array_alloca(&mut ctx, node.as_ref(), five);
    for i in 0..5u64 {
        let index = ctx.UInt32(i);
        let slot = builder.build_inbounds_gep(&mut ctx, nodes, &[index]);
        let value_field = builder.build_struct_gep(&mut ctx, slot, 0);
        let next_field = builder.build_struct_gep(&mut ctx, slot, 1);
        assert_eq!(ctx.types[ctx.values[next_field.index].ty.index], TypeKind::Pointer(node_ptr));
        let value = ctx.SInt32(i);
        builder.build_store(&mut ctx, value, value_field);
    }
    builder.build_ret_void(&mut ctx);
    assert!(module.verify(&ctx).is_ok());
}

#[test]
fn fibonacci_with_tail_calls_verifies() {
    let mut ctx = Context::new();
    let mut builder = ctx.create_builder();
    let module = ctx.create_module("fib").unwrap();
    let i32_type = ctx.Int32Type();
    let fib_type = ctx.function_type(i32_type, &[i32_type], false);
    let fib = module.add_function(&mut ctx, "fib", fib_type).unwrap();
    let entry = fib.append_basic_block(&mut ctx, "entry").unwrap();
    let base = fib.append_basic_block(&mut ctx, "base").unwrap();
    let recurse = fib.append_basic_block(&mut ctx, "recurse").unwrap();
    builder.position_at_end(entry);
    let n = fib.get_param(&ctx, 0);
    let two = ctx.SInt32(2);
    let small = builder.build_icmp_slt(&mut ctx, n, two);
    builder.build_cond_br(&mut ctx, small, base, recurse);
    builder.position_at_end(base);
    builder.build_ret(&mut ctx, n);
    builder.position_at_end(recurse);
    let one = ctx.SInt32(1);
    let n1 = builder.build_sub(&mut ctx, n, one);
    let n2 = builder.build_sub(&mut ctx, n, two);
    let f1 = builder.build_tail_call(&mut ctx, fib.as_ref(), &[n1]);
    let f2 = builder.build_tail_call(&mut ctx, fib.as_ref(), &[n2]);
    let sum = builder.build_add(&mut ctx, f1, f2);
    builder.build_ret(&mut ctx, sum);

    let char_ptr = ctx.CharPointerType();
    let printf_type = ctx.function_type(i32_type, &[char_ptr], true);
    let printf = module.add_function(&mut ctx, "printf", printf_type).unwrap();
    let main_type = ctx.function_type(i32_type, &[], false);
    let main = module.add_function(&mut ctx, "main", main_type).unwrap();
    let main_entry = main.append_basic_block(&mut ctx, "entry").unwrap();
    builder.position_at_end(main_entry);
    let ten = ctx.SInt32(10);
    let result = builder.build_call(&mut ctx, fib.as_ref(), &[ten]);
    let fmt = builder.build_global_string_ptr(&mut ctx, "%d\n");
    builder.build_call(&mut ctx, printf.as_ref(), &[fmt, result]);
    let zero = ctx.SInt32(0);
    builder.build_ret(&mut ctx, zero);
    assert_eq!(module.verify(&ctx), Ok(()));
    match &ctx.values[fmt.index].kind {
        ValueKind::GlobalString { text, .. } => assert_eq!(text.as_slice(), b"%d\n"),
        _ => panic!("not a global string"),
    }
}

/// Builds `main` with an `if` whose two arms join in a block with a phi,
/// with the given incoming blocks (0: then, 1: else, 2: entry).
fn diamond(incoming: &[usize]) -> Result<(), String> {
    let mut ctx = Context::new();
    let i32_type = ctx.Int32Type();
    let (module, function, entry, mut builder) = setup(&mut ctx, i32_type);
    let then_block = function.append_basic_block(&mut ctx, "then").unwrap();
    let else_block = function.append_basic_block(&mut ctx, "else").unwrap();
    let join = function.append_basic_block(&mut ctx, "join").unwrap();
    let flag = ctx.UInt1(1);
    builder.build_cond_br(&mut ctx, flag, then_block, else_block);
    builder.position_at_end(then_block);
    builder.build_br(&mut ctx, join);
    builder.position_at_end(else_block);
    builder.build_br(&mut ctx, join);
    builder.position_at_end(join);
    let phi = builder.build_phi(&mut ctx, i32_type);
    let blocks = [then_block, else_block, entry];
    for &k in incoming {
        let v = ctx.SInt32(k as u64);
        phi.add_incoming(&mut ctx, v, blocks[k]);
    }
    builder.build_ret(&mut ctx, phi.as_ref());
    module.verify(&ctx)
}

#[test]
fn phi_matching_predecessors_verifies() {
    assert_eq!(diamond(&[0, 1]), Ok(()));
    assert_eq!(diamond(&[1, 0]), Ok(()));
}

#[test]
fn phi_missing_a_predecessor_fails_verification() {
    let r = diamond(&[0]);
    assert!(matches!(&r, Err(msg) if !msg.is_empty()));
}

#[test]
fn phi_with_a_non_predecessor_fails_verification() {
    let r = diamond(&[0, 1, 2]);
    assert!(matches!(&r, Err(msg) if !msg.is_empty()));
}

#[test]
fn phi_value_of_another_type_fails_verification() {
    let mut ctx = Context::new();
    let i32_type = ctx.Int32Type();
    let (module, function, _entry, mut builder) = setup(&mut ctx, i32_type);
    let next = function.append_basic_block(&mut ctx, "next").unwrap();
    builder.build_br(&mut ctx, next);
    let entry = BlockRef { index: next.index - 1 };
    builder.position_at_end(next);
    let phi = builder.build_phi(&mut ctx, i32_type);
    let wrong = ctx.SInt64(3);
    phi.add_incoming(&mut ctx, wrong, entry);
    builder.build_ret(&mut ctx, phi.as_ref());
    assert!(module.verify(&ctx).is_err());
}

#[test]
fn verify_twice_gives_the_same_answer() {
    let mut ctx = Context::new();
    let void_type = ctx.VoidType();
    let (module, _function, _entry, builder) = setup(&mut ctx, void_type);
    builder.build_ret_void(&mut ctx);
    let values_before = ctx.values.len();
    let first = module.verify(&ctx);
    let second = module.verify(&ctx);
    assert_eq!(first, Ok(()));
    assert_eq!(first, second);
    assert_eq!(ctx.values.len(), values_before);
}

#[test]
fn struct_without_body_cannot_be_allocated() {
    let mut ctx = Context::new();
    let opaque = ctx.StructTypeNamed("Later").unwrap();
    let ptr_type = ctx.PointerType(opaque.as_ref());
    assert_eq!(ctx.types[ptr_type.index], TypeKind::Pointer(opaque.as_ref()));
    let void_type = ctx.VoidType();
    let (module, _function, _entry, builder) = setup(&mut ctx, void_type);
    // a pointer to it needs no layout
    let _slot_for_pointer = builder.build_alloca(&mut ctx, ptr_type);
    builder.build_alloca(&mut ctx, opaque.as_ref());
    builder.build_ret_void(&mut ctx);
    let r = module.verify(&ctx);
    assert!(matches!(&r, Err(msg) if !msg.is_empty()));
    // once the body is there, the same module verifies
    let i8_type = ctx.Int8Type();
    opaque.set_body(&mut ctx, &[i8_type], true);
    assert_eq!(module.verify(&ctx), Ok(()));
}

#[test]
fn block_without_terminator_fails_verification() {
    let mut ctx = Context::new();
    let i32_type = ctx.Int32Type();
    let (module, _function, _entry, builder) = setup(&mut ctx, i32_type);
    let one = ctx.SInt32(1);
    builder.build_add(&mut ctx, one, one);
    assert!(module.verify(&ctx).is_err());
}

#[test]
fn empty_block_fails_verification() {
    let mut ctx = Context::new();
    let void_type = ctx.VoidType();
    let (module, _function, _entry, _builder) = setup(&mut ctx, void_type);
    assert!(module.verify(&ctx).is_err());
}

#[test]
fn instruction_after_terminator_fails_verification() {
    let mut ctx = Context::new();
    let void_type = ctx.VoidType();
    let (module, _function, _entry, builder) = setup(&mut ctx, void_type);
    builder.build_ret_void(&mut ctx);
    builder.build_ret_void(&mut ctx);
    assert!(module.verify(&ctx).is_err());
}

#[test]
fn call_with_wrong_arity_fails_verification() {
    let mut ctx = Context::new();
    let void_type = ctx.VoidType();
    let i32_type = ctx.Int32Type();
    let (module, _function, _entry, builder) = setup(&mut ctx, void_type);
    let callee_type = ctx.function_type(i32_type, &[i32_type, i32_type], false);
    let callee = module.add_function(&mut ctx, "two", callee_type).unwrap();
    let one = ctx.SInt32(1);
    builder.build_call(&mut ctx, callee.as_ref(), &[one]);
    builder.build_ret_void(&mut ctx);
    assert!(module.verify(&ctx).is_err());
}

#[test]
fn variadic_call_takes_extra_arguments() {
    let mut ctx = Context::new();
    let void_type = ctx.VoidType();
    let i32_type = ctx.Int32Type();
    let (module, _function, _entry, builder) = setup(&mut ctx, void_type);
    let callee_type = ctx.function_type(i32_type, &[i32_type], true);
    let callee = module.add_function(&mut ctx, "many", callee_type).unwrap();
    let one = ctx.SInt32(1);
    let wide = ctx.SInt64(2);
    builder.build_call(&mut ctx, callee.as_ref(), &[one, wide, one]);
    builder.build_ret_void(&mut ctx);
    assert_eq!(module.verify(&ctx), Ok(()));
}

#[test]
fn call_argument_of_wrong_type_fails_verification() {
    let mut ctx = Context::new();
    let void_type = ctx.VoidType();
    let i32_type = ctx.Int32Type();
    let (module, _function, _entry, builder) = setup(&mut ctx, void_type);
    let callee_type = ctx.function_type(void_type, &[i32_type], false);
    let callee = module.add_function(&mut ctx, "one", callee_type).unwrap();
    let wide = ctx.SInt64(1);
    builder.build_call(&mut ctx, callee.as_ref(), &[wide]);
    builder.build_ret_void(&mut ctx);
    assert!(module.verify(&ctx).is_err());
}

#[test]
fn return_of_wrong_type_fails_verification() {
    let mut ctx = Context::new();
    let i32_type = ctx.Int32Type();
    let (module, _function, _entry, builder) = setup(&mut ctx, i32_type);
    builder.build_ret_void(&mut ctx);
    assert!(module.verify(&ctx).is_err());
}

#[test]
fn branch_into_another_function_fails_verification() {
    let mut ctx = Context::new();
    let void_type = ctx.VoidType();
    let (module, _function, _entry, mut builder) = setup(&mut ctx, void_type);
    let other_type = ctx.function_type(void_type, &[], false);
    let other = module.add_function(&mut ctx, "other", other_type).unwrap();
    let foreign = other.append_basic_block(&mut ctx, "entry").unwrap();
    builder.build_br(&mut ctx, foreign);
    builder.position_at_end(foreign);
    builder.build_ret_void(&mut ctx);
    assert!(module.verify(&ctx).is_err());
}

#[test]
fn switch_targets_are_predecessor_edges() {
    let mut ctx = Context::new();
    let i32_type = ctx.Int32Type();
    let (module, function, entry, mut builder) = setup(&mut ctx, i32_type);
    let a = function.append_basic_block(&mut ctx, "a").unwrap();
    let join = function.append_basic_block(&mut ctx, "join").unwrap();
    let zero = ctx.SInt32(0);
    let one = ctx.SInt32(1);
    builder.build_switch(&mut ctx, zero, join, &[(one, a)]);
    builder.position_at_end(a);
    builder.build_br(&mut ctx, join);
    builder.position_at_end(join);
    let phi = builder.build_phi(&mut ctx, i32_type);
    phi.add_incomings(&mut ctx, &[zero, one], &[entry, a]);
    assert_eq!(phi.incoming_count(&ctx), 2);
    assert_eq!(phi.get_incoming(&ctx, 1), (one, a));
    builder.build_ret(&mut ctx, phi.as_ref());
    assert_eq!(module.verify(&ctx), Ok(()));
}

#[test]
fn phi_incoming_read_back() {
    let mut ctx = Context::new();
    let i32_type = ctx.Int32Type();
    let (_module, function, entry, builder) = setup(&mut ctx, i32_type);
    let other = function.append_basic_block(&mut ctx, "other").unwrap();
    let phi = builder.build_phi(&mut ctx, i32_type);
    let second = builder.build_phi(&mut ctx, i32_type);
    assert_eq!(phi.incoming_count(&ctx), 0);
    let a = ctx.SInt32(7);
    let b = ctx.SInt32(9);
    phi.add_incoming(&mut ctx, a, entry);
    second.add_incoming(&mut ctx, b, other);
    phi.add_incoming(&mut ctx, b, other);
    assert_eq!(phi.incoming_count(&ctx), 2);
    assert_eq!(second.incoming_count(&ctx), 1);
    assert_eq!(phi.get_incoming(&ctx, 0), (a, entry));
    assert_eq!(phi.get_incoming(&ctx, 1), (b, other));
    assert_eq!(second.get_incoming(&ctx, 0), (b, other));
}

#[test]
fn names_with_a_null_byte_are_refused() {
    let mut ctx = Context::new();
    assert_eq!(ctx.create_module("ab\0c").err(), Some(NameError::InteriorNul { position: 2 }));
    let module = ctx.create_module("m").unwrap();
    let i32_type = ctx.Int32Type();
    let fun_type = ctx.function_type(i32_type, &[], false);
    assert_eq!(module.add_function(&mut ctx, "\0", fun_type).err(), Some(NameError::InteriorNul { position: 0 }));
    let function = module.add_function(&mut ctx, "f", fun_type).unwrap();
    let entry = function.append_basic_block(&mut ctx, "entry").unwrap();
    let mut builder = ctx.create_builder();
    builder.position_at_end(entry);
    let values_before = ctx.values.len();
    let one = ctx.SInt32(1);
    assert_eq!(
        builder.build_add_with_name(&mut ctx, one, one, "sum\0").err(),
        Some(NameError::InteriorNul { position: 3 })
    );
    // nothing was emitted for the refused name
    assert_eq!(ctx.values.len(), values_before + 1);
    let sum = builder.build_add_with_name(&mut ctx, one, one, "sum").unwrap();
    assert_eq!(ctx.names.text_of(ctx.values[sum.index].name), b"sum".to_vec());
}

#[test]
fn empty_names_share_one_buffer() {
    let mut ctx = Context::new();
    let a = ctx.intern_name("").unwrap();
    let b = ctx.intern_name("").unwrap();
    assert_eq!(a, NameId { index: 0 });
    assert_eq!(a, b);
    let c = ctx.intern_name("x").unwrap();
    let d = ctx.intern_name("x").unwrap();
    assert_ne!(c, a);
    assert_eq!(ctx.names.text_of(c), ctx.names.text_of(d));
    // each name is followed by a zero byte in the arena
    let start = ctx.names.starts[c.index];
    assert_eq!(ctx.names.buffer[start], b'x');
    assert_eq!(ctx.names.buffer[start + 1], 0);
}

#[test]
fn types_are_interned() {
    let mut ctx = Context::new();
    let a = ctx.Int32Type();
    let b = ctx.IntType(32);
    assert_eq!(a, b);
    let c = ctx.Int64Type();
    assert_ne!(a, c);
    let p1 = ctx.CharPointerType();
    let p2 = ctx.Int8PointerType();
    assert_eq!(p1, p2);
    let f1 = ctx.function_type(a, &[p1], true);
    let f2 = ctx.function_type(a, &[p1], true);
    let f3 = ctx.function_type(a, &[p1], false);
    assert_eq!(f1, f2);
    assert_ne!(f1, f3);
    // named structs are distinct even with the same name
    let s1 = ctx.StructTypeNamed("S").unwrap();
    let s2 = ctx.StructTypeNamed("S").unwrap();
    assert_ne!(s1.as_ref(), s2.as_ref());
}

#[test]
fn functions_are_found_by_name() {
    let mut ctx = Context::new();
    let module = ctx.create_module("m").unwrap();
    let other = ctx.create_module("other").unwrap();
    let i32_type = ctx.Int32Type();
    let fun_type = ctx.function_type(i32_type, &[i32_type, i32_type], false);
    assert!(module.named_function(&ctx, "add").is_none());
    let f = module.add_function(&mut ctx, "add", fun_type).unwrap();
    assert_eq!(module.named_function(&ctx, "add"), Some(f));
    assert!(other.named_function(&ctx, "add").is_none());
    let again = module.get_or_add_function(&mut ctx, "add", fun_type).unwrap();
    assert_eq!(again, f);
    let functions_before = ctx.functions.len();
    let fresh = other.get_or_add_function(&mut ctx, "add", fun_type).unwrap();
    assert_ne!(fresh, f);
    assert_eq!(ctx.functions.len(), functions_before + 1);
    assert_eq!(Function::from_ptr(&ctx, f.as_ref()), Some(f));
}

#[test]
fn function_parameters_and_signature() {
    let mut ctx = Context::new();
    let module = ctx.create_module("m").unwrap();
    let i32_type = ctx.Int32Type();
    let i64_type = ctx.Int64Type();
    let fun_type = ctx.function_type(i64_type, &[i32_type, i64_type], false);
    let f = module.add_function(&mut ctx, "f", fun_type).unwrap();
    assert_eq!(f.params_count(&ctx), 2);
    let p0 = f.get_param(&ctx, 0);
    let p1 = f.get_param(&ctx, 1);
    assert_eq!(ctx.values[p0.index].ty, i32_type);
    assert_eq!(ctx.values[p1.index].ty, i64_type);
    assert_eq!(f.get_return_type(&ctx), i64_type);
    assert_eq!(f.get_param_types(&ctx), vec![i32_type, i64_type]);
    assert_eq!(f.get_function_type(), fun_type);
}

#[test]
fn signed_and_unsigned_constants_keep_the_same_bits() {
    let mut ctx = Context::new();
    let s = ctx.SInt8(200);
    let u = ctx.UInt8(200);
    let i8_type = ctx.Int8Type();
    assert_eq!(ctx.values[s.index].ty, i8_type);
    assert_eq!(ctx.values[u.index].ty, i8_type);
    match (&ctx.values[s.index].kind, &ctx.values[u.index].kind) {
        (ValueKind::ConstInt { value: a, signed: true }, ValueKind::ConstInt { value: b, signed: false }) => {
            assert_eq!(a, b)
        }
        _ => panic!("not integer constants"),
    }
}

#[test]
fn comparisons_have_type_i1() {
    let mut ctx = Context::new();
    let i32_type = ctx.Int32Type();
    let (_module, _function, _entry, builder) = setup(&mut ctx, i32_type);
    let one = ctx.SInt32(1);
    let c = builder.build_icmp_sle(&mut ctx, one, one);
    let i1_type = ctx.Int1Type();
    assert_eq!(ctx.values[c.index].ty, i1_type);
    let n = builder.build_is_not_null(&mut ctx, one);
    assert_eq!(ctx.values[n.index].ty, i1_type);
    let wide = ctx.Int64Type();
    let z = builder.build_zext(&mut ctx, one, wide);
    assert_eq!(ctx.values[z.index].ty, wide);
}

#[test]
fn funcall_result_reads_back() {
    let r = FuncallResult::new(48, 32);
    assert_eq!(r.to_int(), 48);
    assert_eq!(r.int_width(), 32);
}

#[test]
fn operand_from_another_function_fails_verification() {
    let mut ctx = Context::new();
    let i32_type = ctx.Int32Type();
    let (module, _function, _entry, mut builder) = setup(&mut ctx, i32_type);
    let one = ctx.SInt32(1);
    let local = builder.build_add(&mut ctx, one, one);
    builder.build_ret(&mut ctx, local);
    let other_type = ctx.function_type(i32_type, &[], false);
    let other = module.add_function(&mut ctx, "other", other_type).unwrap();
    let entry = other.append_basic_block(&mut ctx, "entry").unwrap();
    builder.position_at_end(entry);
    let stolen = builder.build_add(&mut ctx, local, one);
    builder.build_ret(&mut ctx, stolen);
    assert!(module.verify(&ctx).is_err());
}

#[test]
fn result_of_store_is_not_an_operand() {
    let mut ctx = Context::new();
    let i32_type = ctx.Int32Type();
    let (module, _function, _entry, builder) = setup(&mut ctx, i32_type);
    let slot = builder.build_alloca(&mut ctx, i32_type);
    let one = ctx.SInt32(1);
    let store = builder.build_store(&mut ctx, one, slot);
    builder.build_ret(&mut ctx, store);
    assert!(module.verify(&ctx).is_err());
}

#[test]
fn use_before_definition_in_a_block_fails_verification() {
    let mut ctx = Context::new();
    let i32_type = ctx.Int32Type();
    let (module, _function, _entry, builder) = setup(&mut ctx, i32_type);
    let one = ctx.SInt32(1);
    // `first` reads the instruction emitted right after it
    let ahead = ssa_builder::ValueRef { index: ctx.values.len() + 1 };
    let first = builder.build_add(&mut ctx, one, ahead);
    let second = builder.build_add(&mut ctx, one, one);
    assert_eq!(second, ahead);
    builder.build_ret(&mut ctx, first);
    assert!(module.verify(&ctx).is_err());
}

/// `main` with an `if` whose arms join; the value returned at the join is
/// computed in the block given (0: entry, 1: then).
fn join_uses_value_from(defining: usize) -> Result<(), String> {
    let mut ctx = Context::new();
    let i32_type = ctx.Int32Type();
    let (module, function, _entry, mut builder) = setup(&mut ctx, i32_type);
    let then_block = function.append_basic_block(&mut ctx, "then").unwrap();
    let else_block = function.append_basic_block(&mut ctx, "else").unwrap();
    let join = function.append_basic_block(&mut ctx, "join").unwrap();
    let one = ctx.SInt32(1);
    let in_entry = builder.build_add(&mut ctx, one, one);
    let flag = ctx.UInt1(1);
    builder.build_cond_br(&mut ctx, flag, then_block, else_block);
    builder.position_at_end(then_block);
    let in_then = builder.build_mul(&mut ctx, one, one);
    builder.build_br(&mut ctx, join);
    builder.position_at_end(else_block);
    builder.build_br(&mut ctx, join);
    builder.position_at_end(join);
    let used = if defining == 0 { in_entry } else { in_then };
    builder.build_ret(&mut ctx, used);
    module.verify(&ctx)
}

#[test]
fn use_in_a_dominated_block_verifies() {
    assert_eq!(join_uses_value_from(0), Ok(()));
}

#[test]
fn use_in_a_block_not_dominated_fails_verification() {
    let r = join_uses_value_from(1);
    assert!(matches!(&r, Err(msg) if !msg.is_empty()));
}

#[test]
fn store_of_a_struct_without_body_fails_verification() {
    let mut ctx = Context::new();
    let opaque = ctx.StructTypeNamed("Later").unwrap();
    let ptr_type = ctx.PointerType(opaque.as_ref());
    let void_type = ctx.VoidType();
    let module = ctx.create_module("m").unwrap();
    let fun_type = ctx.function_type(void_type, &[opaque.as_ref(), ptr_type], false);
    let function = module.add_function(&mut ctx, "f", fun_type).unwrap();
    let entry = function.append_basic_block(&mut ctx, "entry").unwrap();
    let mut builder = ctx.create_builder();
    builder.position_at_end(entry);
    let value = function.get_param(&ctx, 0);
    let target = function.get_param(&ctx, 1);
    builder.build_store(&mut ctx, value, target);
    builder.build_ret_void(&mut ctx);
    let r = module.verify(&ctx);
    assert!(matches!(&r, Err(msg) if !msg.is_empty()));
    let i8_type = ctx.Int8Type();
    opaque.set_body(&mut ctx, &[i8_type], false);
    assert_eq!(module.verify(&ctx), Ok(()));
}

#[test]
fn store_through_pointer_of_another_type_fails_verification() {
    let mut ctx = Context::new();
    let void_type = ctx.VoidType();
    let (module, _function, _entry, builder) = setup(&mut ctx, void_type);
    let i64_type = ctx.Int64Type();
    let slot = builder.build_alloca(&mut ctx, i64_type);
    let small = ctx.SInt32(1);
    builder.build_store(&mut ctx, small, slot);
    builder.build_ret_void(&mut ctx);
    assert!(module.verify(&ctx).is_err());
}

#[test]
fn binary_operands_of_different_types_fail_verification() {
    let mut ctx = Context::new();
    let void_type = ctx.VoidType();
    let (module, _function, _entry, builder) = setup(&mut ctx, void_type);
    let a = ctx.SInt32(1);
    let b = ctx.SInt64(1);
    builder.build_add(&mut ctx, a, b);
    builder.build_ret_void(&mut ctx);
    assert!(module.verify(&ctx).is_err());
}

#[test]
fn comparison_of_different_types_fails_verification() {
    let mut ctx = Context::new();
    let void_type = ctx.VoidType();
    let (module, _function, _entry, builder) = setup(&mut ctx, void_type);
    let a = ctx.SInt32(1);
    let b = ctx.SInt8(1);
    builder.build_icmp_eq(&mut ctx, a, b);
    builder.build_ret_void(&mut ctx);
    assert!(module.verify(&ctx).is_err());
}

#[test]
fn branch_condition_must_be_i1() {
    let mut ctx = Context::new();
    let void_type = ctx.VoidType();
    let (module, function, _entry, mut builder) = setup(&mut ctx, void_type);
    let next = function.append_basic_block(&mut ctx, "next").unwrap();
    let wide = ctx.SInt32(1);
    builder.build_cond_br(&mut ctx, wide, next, next);
    builder.position_at_end(next);
    builder.build_ret_void(&mut ctx);
    assert!(module.verify(&ctx).is_err());
}

#[test]
fn phi_after_another_instruction_fails_verification() {
    let mut ctx = Context::new();
    let i32_type = ctx.Int32Type();
    let (module, function, entry, mut builder) = setup(&mut ctx, i32_type);
    let next = function.append_basic_block(&mut ctx, "next").unwrap();
    builder.build_br(&mut ctx, next);
    builder.position_at_end(next);
    let one = ctx.SInt32(1);
    let sum = builder.build_add(&mut ctx, one, one);
    let phi = builder.build_phi(&mut ctx, i32_type);
    phi.add_incoming(&mut ctx, one, entry);
    let total = builder.build_add(&mut ctx, sum, phi.as_ref());
    builder.build_ret(&mut ctx, total);
    assert!(module.verify(&ctx).is_err());
}

#[test]
fn insert_value_must_fit_the_field() {
    let mut ctx = Context::new();
    let i32_type = ctx.Int32Type();
    let i64_type = ctx.Int64Type();
    let pair = ctx.StructType(&[i32_type, i64_type], false);
    let void_type = ctx.VoidType();
    let (module, _function, _entry, builder) = setup(&mut ctx, void_type);
    let agg = ctx.Null(pair.as_ref());
    let small = ctx.SInt32(3);
    builder.build_insert_value(&mut ctx, agg, small, 0);
    builder.build_ret_void(&mut ctx);
    assert_eq!(module.verify(&ctx), Ok(()));

    let (module, _function, _entry, builder) = setup(&mut ctx, void_type);
    builder.build_insert_value(&mut ctx, agg, small, 1);
    builder.build_ret_void(&mut ctx);
    assert!(module.verify(&ctx).is_err());
}

#[test]
fn parameters_know_their_function_and_position() {
    let mut ctx = Context::new();
    let module = ctx.create_module("m").unwrap();
    let i8_type = ctx.Int8Type();
    let i16_type = ctx.Int16Type();
    let fun_type = ctx.function_type(i8_type, &[i8_type, i16_type], false);
    let f = module.add_function(&mut ctx, "f", fun_type).unwrap();
    let p1 = f.get_param(&ctx, 1);
    match ctx.values[p1.index].kind {
        ValueKind::Param { func, position } => {
            assert_eq!(func, f.index);
            assert_eq!(position, 1);
        }
        _ => panic!("not a parameter"),
    }
    assert_eq!(ctx.values[p1.index].ty, i16_type);
}

#[test]
fn a_new_session_is_empty() {
    let ctx = Context::new();
    assert_eq!(ctx.names.starts.len(), 1);
    assert_eq!(ctx.names.buffer, vec![0u8]);
    assert!(ctx.types.is_empty() && ctx.values.is_empty() && ctx.modules.is_empty());
    assert!(ctx.functions.is_empty() && ctx.blocks.is_empty() && ctx.incoming.is_empty());
}

#[test]
fn literal_structs_have_no_name() {
    let mut ctx = Context::new();
    let i32_type = ctx.Int32Type();
    let s = ctx.StructType(&[i32_type], true);
    let index = match ctx.types[s.as_ref().index] {
        TypeKind::Struct(k) => k,
        _ => panic!("not a struct"),
    };
    assert_eq!(ctx.structs[index].name, NameId { index: 0 });
    assert!(ctx.structs[index].packed);
}
