use vicis::codegen::target::x86_64::X86_64;
use vicis::ir::types::{same_type, ArrayType, FunctionType, Type, TypeId, Types};

#[test]
fn the_primitive_types_come_first() {
    let types = Types::new();
    assert_eq!(types.len(), 6);
    assert_eq!(types.void(), TypeId(0));
    assert_eq!(types.i1(), TypeId(1));
    assert_eq!(types.i8(), TypeId(2));
    assert_eq!(types.i16(), TypeId(3));
    assert_eq!(types.i32(), TypeId(4));
    assert_eq!(types.i64(), TypeId(5));
    assert_eq!(types.get(types.void()), Some(&Type::Void));
    assert_eq!(types.get(types.i1()), Some(&Type::Int(1)));
    assert_eq!(types.get(types.i16()), Some(&Type::Int(16)));
    assert_eq!(types.get(types.i64()), Some(&Type::Int(64)));
    assert_eq!(types.get(TypeId(6)), None);
    assert!(types.is_i32(types.i32()));
    assert!(!types.is_i32(types.i64()));
    assert!(!types.is_i32(TypeId(100)));
}

#[test]
fn equal_types_share_an_id() {
    let mut types = Types::new();
    let i32_ty = types.i32();
    let ptr = types.pointer_to(i32_ty);
    assert_eq!(ptr, TypeId(6));
    assert_eq!(types.pointer_to(i32_ty), ptr);
    let ptr_ptr = types.pointer_to(ptr);
    assert_eq!(ptr_ptr, TypeId(7));
    assert_eq!(types.int_of(32), i32_ty);
    assert_eq!(types.int_of(8), types.i8());
    assert_eq!(types.int_of(128), TypeId(8));
    assert_eq!(types.int_of(128), TypeId(8));
    let array = types.array_of(i32_ty, 4);
    assert_eq!(array, TypeId(9));
    assert_eq!(types.array_of(i32_ty, 4), array);
    assert_eq!(types.array_of(i32_ty, 5), TypeId(10));
    let function = types.function(i32_ty, vec![i32_ty, ptr], false);
    assert_eq!(function, TypeId(11));
    assert_eq!(types.function(i32_ty, vec![i32_ty, ptr], false), function);
    assert_eq!(types.function(i32_ty, vec![i32_ty, ptr], true), TypeId(12));
    assert_eq!(types.function(i32_ty, vec![ptr, i32_ty], false), TypeId(13));
    assert_eq!(types.len(), 14);
    assert_eq!(types.get(ptr), Some(&Type::Pointer(i32_ty)));
    assert_eq!(
        types.get(array),
        Some(&Type::Array(ArrayType { inner: i32_ty, num_elements: 4 }))
    );
    assert_eq!(
        types.get(function),
        Some(&Type::Function(FunctionType {
            ret: i32_ty,
            params: vec![i32_ty, ptr],
            is_var_arg: false
        }))
    );
}

#[test]
fn types_are_compared_by_value() {
    let array = |inner, num_elements| Type::Array(ArrayType { inner: TypeId(inner), num_elements });
    let function = |ret, params: Vec<usize>, is_var_arg| {
        Type::Function(FunctionType {
            ret: TypeId(ret),
            params: params.into_iter().map(TypeId).collect(),
            is_var_arg,
        })
    };
    assert!(same_type(&Type::Void, &Type::Void));
    assert!(same_type(&Type::Int(8), &Type::Int(8)));
    assert!(!same_type(&Type::Int(8), &Type::Int(16)));
    assert!(!same_type(&Type::Int(8), &Type::Void));
    assert!(same_type(&Type::Pointer(TypeId(3)), &Type::Pointer(TypeId(3))));
    assert!(!same_type(&Type::Pointer(TypeId(3)), &Type::Pointer(TypeId(4))));
    assert!(same_type(&array(4, 2), &array(4, 2)));
    assert!(!same_type(&array(4, 2), &array(4, 3)));
    assert!(!same_type(&array(4, 2), &array(5, 2)));
    assert!(same_type(&function(4, vec![1, 2], false), &function(4, vec![1, 2], false)));
    assert!(!same_type(&function(4, vec![1, 2], false), &function(4, vec![1, 2], true)));
    assert!(!same_type(&function(4, vec![1, 2], false), &function(4, vec![1], false)));
    assert!(!same_type(&function(4, vec![1, 2], false), &function(4, vec![1, 3], false)));
    assert!(!same_type(&function(4, vec![], false), &function(5, vec![], false)));
}

#[test]
fn types_are_written_as_in_the_source_language() {
    let mut types = Types::new();
    let i32_ty = types.i32();
    let i8_ty = types.i8();
    let ptr = types.pointer_to(i8_ty);
    let ptr_ptr = types.pointer_to(ptr);
    let array = types.array_of(i32_ty, 4);
    let nested = types.array_of(array, 0);
    let wide = types.int_of(128);
    let void = types.void();
    let nullary = types.function(void, vec![], false);
    let binary = types.function(i32_ty, vec![i32_ty, ptr], false);
    let variadic = types.function(i32_ty, vec![ptr], true);
    assert_eq!(types.to_string(void), "void");
    assert_eq!(types.to_string(types.i1()), "i1");
    assert_eq!(types.to_string(i32_ty), "i32");
    assert_eq!(types.to_string(wide), "i128");
    assert_eq!(types.to_string(ptr), "i8*");
    assert_eq!(types.to_string(ptr_ptr), "i8**");
    assert_eq!(types.to_string(array), "[4 x i32]");
    assert_eq!(types.to_string(nested), "[0 x [4 x i32]]");
    assert_eq!(types.to_string(nullary), "void ()");
    assert_eq!(types.to_string(binary), "i32 (i32, i8*, )");
    assert_eq!(types.to_string(variadic), "i32 (i8*, ...)");
    assert_eq!(types.to_string(TypeId(1000)), "");
}

#[test]
fn the_size_of_a_type() {
    let mut types = Types::new();
    let i32_ty = types.i32();
    let ptr = types.pointer_to(i32_ty);
    let array = types.array_of(i32_ty, 4);
    let rows = types.array_of(array, 3);
    let pointers = types.array_of(ptr, 5);
    let empty = types.array_of(i32_ty, 0);
    let odd = types.int_of(17);
    let function = types.function(i32_ty, vec![i32_ty], false);
    assert_eq!(X86_64::type_size(&types, types.void()), Some(0));
    assert_eq!(X86_64::type_size(&types, types.i1()), Some(0));
    assert_eq!(X86_64::type_size(&types, types.i8()), Some(1));
    assert_eq!(X86_64::type_size(&types, types.i16()), Some(2));
    assert_eq!(X86_64::type_size(&types, i32_ty), Some(4));
    assert_eq!(X86_64::type_size(&types, types.i64()), Some(8));
    assert_eq!(X86_64::type_size(&types, odd), Some(2));
    assert_eq!(X86_64::type_size(&types, ptr), Some(8));
    assert_eq!(X86_64::type_size(&types, array), Some(16));
    assert_eq!(X86_64::type_size(&types, rows), Some(48));
    assert_eq!(X86_64::type_size(&types, pointers), Some(40));
    assert_eq!(X86_64::type_size(&types, empty), Some(0));
    assert_eq!(X86_64::type_size(&types, function), Some(0));
    assert_eq!(X86_64::type_size(&types, TypeId(999)), Some(0));
}

#[test]
fn a_size_that_does_not_fit_is_not_given() {
    let mut types = Types::new();
    let i64_ty = types.i64();
    let large = types.array_of(i64_ty, 0x2000_0000);
    assert_eq!(X86_64::type_size(&types, large), None);
    let fits = types.array_of(i64_ty, 0x1fff_ffff);
    assert_eq!(X86_64::type_size(&types, fits), Some(0xffff_fff8));
    let of_large = types.array_of(large, 1);
    assert_eq!(X86_64::type_size(&types, of_large), None);
    let none_of_large = types.array_of(large, 0);
    assert_eq!(X86_64::type_size(&types, none_of_large), Some(0));
}
