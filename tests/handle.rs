use c_api_tools::handle::{c_wrapper_impl, CWrapperArgs, HandleError, HandleTable, MarkerDecl};

fn marker() -> MarkerDecl {
    MarkerDecl { is_public: true, has_generics: false, is_unit: true }
}

fn wrapper_args(name: &str) -> CWrapperArgs {
    CWrapperArgs { name: name.to_string(), create: true, free: true, unwrap: true }
}

#[test]
fn operation_names() {
    let ops = c_wrapper_impl(&wrapper_args("my_wrapper"), &marker()).ok().unwrap();
    assert_eq!(ops.create, Some("my_wrapper_create".to_string()));
    assert_eq!(ops.free, Some("my_wrapper_free".to_string()));
    assert_eq!(ops.unwrap, Some("my_wrapper_unwrap".to_string()));
    let args = CWrapperArgs { name: "w".to_string(), create: false, free: true, unwrap: false };
    let ops = c_wrapper_impl(&args, &marker()).ok().unwrap();
    assert_eq!(ops.create, None);
    assert_eq!(ops.free, Some("w_free".to_string()));
    assert_eq!(ops.unwrap, None);
}

#[test]
fn marker_declaration_errors() {
    let args = wrapper_args("w");
    let hidden = MarkerDecl { is_public: false, has_generics: true, is_unit: false };
    assert_eq!(c_wrapper_impl(&args, &hidden).err(), Some(HandleError::NotPublic));
    let generic = MarkerDecl { is_public: true, has_generics: true, is_unit: false };
    assert_eq!(c_wrapper_impl(&args, &generic).err(), Some(HandleError::Generic));
    let fields = MarkerDecl { is_public: true, has_generics: false, is_unit: false };
    assert_eq!(c_wrapper_impl(&args, &fields).err(), Some(HandleError::NotUnit));
    assert_eq!(c_wrapper_impl(&wrapper_args(""), &marker()).err(), Some(HandleError::EmptyName));
}

#[test]
fn create_then_unwrap_is_present() {
    let mut table: HandleTable<u32> = HandleTable::new();
    let h = table.create(0);
    assert_eq!(table.unwrap(h), Some(&0));
    assert!(table.populate(h, 7));
    assert_eq!(table.unwrap(h), Some(&7));
    let g = table.create(1);
    assert_ne!(h, g);
    assert_eq!(table.unwrap(g), Some(&1));
}

#[test]
fn free_twice_is_a_no_op() {
    let mut table: HandleTable<u32> = HandleTable::new();
    let h = table.create(3);
    let g = table.create(4);
    table.free(h);
    assert_eq!(table.unwrap(h), None);
    table.free(h);
    assert_eq!(table.unwrap(h), None);
    assert_eq!(table.unwrap(g), Some(&4));
    assert!(!table.populate(h, 5));
    table.free(99);
    assert_eq!(table.unwrap(99), None);
    assert_eq!(table.unwrap(g), Some(&4));
}
