use c_api_tools::template::{placeholder_of, replace_str, replace_templates_with_types};

fn strings(v: &[&str]) -> Vec<String> {
    v.iter().map(|s| s.to_string()).collect()
}

#[test]
fn replace_every_occurrence() {
    assert_eq!(replace_str("a{{T}}b{{T}}", "{{T}}", "f32"), "af32bf32");
    assert_eq!(replace_str("aaa", "aa", "b"), "ba");
    assert_eq!(replace_str("", "x", "y"), "");
    assert_eq!(replace_str("xyz", "q", "r"), "xyz");
}

#[test]
fn placeholder_text() {
    assert_eq!(placeholder_of("dtype"), "{{dtype}}");
}

#[test]
fn substitution_is_in_declared_order() {
    let names = strings(&["A", "B"]);
    let resolved = replace_templates_with_types(&names, &strings(&["f32", "Y<{{A}}>"]));
    assert_eq!(resolved, strings(&["f32", "Y<f32>"]));
    let resolved = replace_templates_with_types(&names, &strings(&["f64", "Y<{{A}}>"]));
    assert_eq!(resolved, strings(&["f64", "Y<f64>"]));
}

#[test]
fn substitution_chains_through_slots() {
    let names = strings(&["A", "B", "C"]);
    let resolved = replace_templates_with_types(
        &names,
        &strings(&["u8", "Vec<{{A}}>", "({{B}}, {{A}})"]),
    );
    assert_eq!(resolved, strings(&["u8", "Vec<u8>", "(Vec<u8>, u8)"]));
}

#[test]
fn substitution_of_nothing() {
    let resolved = replace_templates_with_types(&[], &[]);
    assert!(resolved.is_empty());
}
