use std::any::Any;

use c_api_tools::dispatch::{
    check_declaration, concretise_type_impl, create_if_let_condition, create_signature,
    first_match, ConcretiseTypeArgs, DeclError, Field, GenType,
};
use c_api_tools::handle::HandleTable;
use c_api_tools::signature::{
    create_function_call, create_ptr_argument, function_arg_is_mutable, get_function_arg_ident,
    ArgError, ArgType, FnArg, Signature,
};

fn strings(v: &[&str]) -> Vec<String> {
    v.iter().map(|s| s.to_string()).collect()
}

fn gen(name: &str, cands: &[&str]) -> GenType {
    GenType { name: name.to_string(), replace_with: strings(cands) }
}

fn field(arg: usize, name: &str, wrapper: &str, mutable: bool, cands: &[&str]) -> Field {
    Field {
        arg,
        name: name.to_string(),
        wrapper: wrapper.to_string(),
        mutable,
        replace_with: strings(cands),
    }
}

fn by_ref(name: &str, mutable: bool, target: &str) -> FnArg {
    FnArg::Typed {
        pat: Some(name.to_string()),
        ty: ArgType::Ref { mutable, target: target.to_string() },
    }
}

fn plain(name: &str, text: &str) -> FnArg {
    FnArg::Typed { pat: Some(name.to_string()), ty: ArgType::Other { text: text.to_string() } }
}

fn sig(name: &str, inputs: Vec<FnArg>) -> Signature {
    Signature { ident: name.to_string(), inputs, output: String::new() }
}

fn arg_name(a: &FnArg) -> String {
    get_function_arg_ident(a).ok().unwrap()
}

fn is_ptr_to(a: &FnArg, wrapper: &str) -> bool {
    match a {
        FnArg::Typed { ty: ArgType::MutPtr { target }, .. } => target == wrapper,
        _ => false,
    }
}

#[derive(Debug)]
struct MyStruct<T, V> {
    a: T,
    b: V,
}

#[test]
fn test_fun() {
    let args = ConcretiseTypeArgs {
        gen_type: vec![gen("dtype1", &["f32", "f64"]), gen("dtype2", &["f32", "f64"])],
        field: vec![field(0, "wrap", "MyWrapper", false, &["MyStruct<{{dtype1}}, {{dtype2}}>"])],
    };
    let test_func = sig("test_func", vec![by_ref("spam", false, "MyStruct<T, V>")]);
    let plan = concretise_type_impl(&args, &test_func).ok().unwrap();

    let mut wrappers: HandleTable<Box<dyn Any>> = HandleTable::new();
    let wrapper = wrappers.create(Box::new(()));
    assert!(wrappers.unwrap(wrapper).is_some());
    assert!(wrappers.populate(wrapper, Box::new(MyStruct::<f64, f32> { a: 5.0, b: 3.0 })));

    let held = strings(&["MyStruct<f64, f32>"]);
    let index = first_match(&plan.shapes, &held).unwrap();
    assert_eq!(index, 2);
    let value = wrappers.unwrap(wrapper).unwrap();
    let spam = value.downcast_ref::<MyStruct<f64, f32>>().unwrap();
    println!("{} {}", spam.a, spam.b);
    wrappers.free(wrapper);
}

#[test]
fn ladder_size_is_the_product_of_candidate_counts() {
    let args = ConcretiseTypeArgs {
        gen_type: vec![gen("A", &["a1", "a2"]), gen("B", &["b1", "b2", "b3"])],
        field: vec![
            field(0, "x", "W", false, &["X<{{A}}>", "Y<{{B}}>"]),
            field(1, "y", "W", true, &["Z<{{x}}>"]),
        ],
    };
    let f = sig("f", vec![by_ref("p", false, "P"), by_ref("q", true, "Q")]);
    let plan = concretise_type_impl(&args, &f).ok().unwrap();
    assert_eq!(plan.shapes.len(), 12);
    assert_eq!(plan.arms.len(), 12);
    assert_eq!(plan.shapes[0], strings(&["X<a1>", "Z<X<a1>>"]));
    assert_eq!(plan.shapes[1], strings(&["Y<b1>", "Z<Y<b1>>"]));
    assert_eq!(plan.shapes[2], strings(&["X<a1>", "Z<X<a1>>"]));
    assert_eq!(plan.shapes[3], strings(&["Y<b2>", "Z<Y<b2>>"]));
    assert_eq!(plan.shapes[11], strings(&["Y<b3>", "Z<Y<b3>>"]));
    assert_eq!(
        plan.arms[0],
        "if let (Some(p), Some(q)) = (p.downcast_ref::<X<a1>>(), q.downcast_mut::<Z<X<a1>>>()) { f(p, q) } else"
    );
    assert_eq!(plan.handles, strings(&["p", "q"]));
}

#[test]
fn ladder_with_duplicate_candidates() {
    let args = ConcretiseTypeArgs {
        gen_type: vec![gen("T", &["u8", "u8"])],
        field: vec![field(0, "x", "W", false, &["V<{{T}}>"])],
    };
    let f = sig("f", vec![by_ref("p", false, "V<T>")]);
    let plan = concretise_type_impl(&args, &f).ok().unwrap();
    assert_eq!(plan.shapes, vec![strings(&["V<u8>"]), strings(&["V<u8>"])]);
}

#[test]
fn ladder_with_an_empty_candidate_list() {
    let args = ConcretiseTypeArgs {
        gen_type: vec![gen("T", &[])],
        field: vec![field(0, "x", "W", false, &["V<{{T}}>"])],
    };
    let f = sig("f", vec![by_ref("p", false, "V<T>")]);
    let plan = concretise_type_impl(&args, &f).ok().unwrap();
    assert!(plan.shapes.is_empty());
    assert!(plan.arms.is_empty());
}

#[test]
fn ladder_without_generic_slots() {
    let args = ConcretiseTypeArgs {
        gen_type: vec![],
        field: vec![field(0, "x", "W", false, &["u8", "u16"])],
    };
    let f = sig("f", vec![by_ref("p", false, "T")]);
    let plan = concretise_type_impl(&args, &f).ok().unwrap();
    assert_eq!(plan.shapes, vec![strings(&["u8"]), strings(&["u16"])]);
}

#[test]
fn first_match_wins() {
    let shapes = vec![strings(&["Pair<f32>"]), strings(&["Pair<f32>"]), strings(&["Pair<f64>"])];
    assert_eq!(first_match(&shapes, &strings(&["Pair<f32>"])), Some(0));
    assert_eq!(first_match(&shapes, &strings(&["Pair<f64>"])), Some(2));
}

#[test]
fn no_shape_matches_an_unrelated_type() {
    let shapes = vec![strings(&["Float32Pair"]), strings(&["Float64Pair"])];
    assert_eq!(first_match(&shapes, &strings(&["String"])), None);
    assert_eq!(first_match(&vec![], &strings(&["Float32Pair"])), None);
}

#[derive(Debug)]
struct Pair<T> {
    a: T,
    b: T,
}

fn describe(pair: &Pair<f64>) -> String {
    format!("{:?} {:?}", pair.a, pair.b)
}

#[test]
fn describe_pair_end_to_end() {
    let args = ConcretiseTypeArgs {
        gen_type: vec![gen("T", &["int32", "float64"])],
        field: vec![field(0, "pair", "Wrapper", false, &["Pair<{{T}}>"])],
    };
    let describe_sig = sig("describe", vec![by_ref("pair", false, "Pair<T>")]);
    let plan = concretise_type_impl(&args, &describe_sig).ok().unwrap();
    assert_eq!(plan.shapes, vec![strings(&["Pair<int32>"]), strings(&["Pair<float64>"])]);
    assert_eq!(
        plan.arms,
        strings(&[
            "if let Some(pair) = pair.downcast_ref::<Pair<int32>>() { describe(pair) } else",
            "if let Some(pair) = pair.downcast_ref::<Pair<float64>>() { describe(pair) } else",
        ])
    );
    assert_eq!(plan.signature.ident, "describe");
    assert_eq!(plan.signature.inputs.len(), 1);
    assert!(is_ptr_to(&plan.signature.inputs[0], "Wrapper"));
    assert_eq!(arg_name(&plan.signature.inputs[0]), "pair");

    let mut wrappers: HandleTable<Box<dyn Any>> = HandleTable::new();
    let h = wrappers.create(Box::new(()));
    assert!(wrappers.populate(h, Box::new(Pair::<f64> { a: 5.0, b: 3.0 })));
    let index = first_match(&plan.shapes, &strings(&["Pair<float64>"])).unwrap();
    assert_eq!(index, 1);
    let pair = wrappers.unwrap(h).unwrap().downcast_ref::<Pair<f64>>().unwrap();
    assert_eq!(describe(pair), "5.0 3.0");
    wrappers.free(h);
    wrappers.free(h);
    assert!(wrappers.unwrap(h).is_none());
}

#[test]
fn signature_keeps_other_arguments() {
    let args = ConcretiseTypeArgs {
        gen_type: vec![gen("T", &["f32"])],
        field: vec![field(1, "x", "W", true, &["V<{{T}}>"])],
    };
    let f = sig("f", vec![plain("n", "usize"), by_ref("v", true, "V<T>")]);
    let s = create_signature(&args, &f);
    assert_eq!(s.ident, "f");
    assert!(!is_ptr_to(&s.inputs[0], "W"));
    assert_eq!(arg_name(&s.inputs[0]), "n");
    assert!(is_ptr_to(&s.inputs[1], "W"));
    assert_eq!(arg_name(&s.inputs[1]), "v");
    assert_eq!(create_function_call(&f).ok().unwrap(), "f(n, v)");
    let arm = create_if_let_condition(&args, &strings(&["V<f32>"]), &f, "f(n, v)");
    assert_eq!(arm, "if let Some(v) = v.downcast_mut::<V<f32>>() { f(n, v) } else");
}

#[test]
fn argument_inspection() {
    assert_eq!(function_arg_is_mutable(&by_ref("a", true, "T")), Ok(true));
    assert_eq!(function_arg_is_mutable(&by_ref("a", false, "T")), Ok(false));
    assert_eq!(function_arg_is_mutable(&plain("a", "u8")), Err(ArgError::NotReference));
    assert_eq!(function_arg_is_mutable(&FnArg::Receiver), Err(ArgError::Untyped));
    assert_eq!(get_function_arg_ident(&FnArg::Receiver), Err(ArgError::Untyped));
    let unnamed = FnArg::Typed { pat: None, ty: ArgType::Other { text: "u8".to_string() } };
    assert_eq!(get_function_arg_ident(&unnamed), Err(ArgError::NotIdent));
    let p = create_ptr_argument("h", "Wrapper");
    assert_eq!(arg_name(&p), "h");
    assert!(is_ptr_to(&p, "Wrapper"));
    let f = sig("g", vec![plain("a", "u8"), unnamed]);
    assert_eq!(create_function_call(&f).err(), Some((1, ArgError::NotIdent)));
}

#[test]
fn declaration_errors() {
    let f = sig("f", vec![by_ref("p", false, "P"), plain("n", "u8")]);
    let dup = ConcretiseTypeArgs {
        gen_type: vec![gen("T", &["u8"])],
        field: vec![field(0, "T", "W", false, &["P"])],
    };
    assert_eq!(check_declaration(&dup, &f).err(), Some(DeclError::DuplicateName));
    let missing = ConcretiseTypeArgs { gen_type: vec![], field: vec![field(5, "x", "W", false, &["P"])] };
    assert_eq!(concretise_type_impl(&missing, &f).err(), Some(DeclError::MissingArgument { arg: 5 }));
    let not_ref = ConcretiseTypeArgs { gen_type: vec![], field: vec![field(1, "x", "W", false, &["P"])] };
    assert_eq!(
        concretise_type_impl(&not_ref, &f).err(),
        Some(DeclError::BadArgument { arg: 1, reason: ArgError::NotReference })
    );
    let mismatch = ConcretiseTypeArgs { gen_type: vec![], field: vec![field(0, "x", "W", true, &["P"])] };
    assert_eq!(
        concretise_type_impl(&mismatch, &f).err(),
        Some(DeclError::MutabilityMismatch { arg: 0 })
    );
    let g = sig("g", vec![by_ref("p", false, "P"), FnArg::Typed { pat: None, ty: ArgType::Other { text: "u8".to_string() } }]);
    let ok_field = ConcretiseTypeArgs { gen_type: vec![], field: vec![field(0, "x", "W", false, &["P"])] };
    assert_eq!(
        concretise_type_impl(&ok_field, &g).err(),
        Some(DeclError::BadArgument { arg: 1, reason: ArgError::NotIdent })
    );
    assert_eq!(check_declaration(&ok_field, &f), Ok(()));
}
