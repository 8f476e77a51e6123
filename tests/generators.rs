use cmp_by_derive::{
    cmp_by_derive, generate_impls, hash_by_derive, Attribute, Field, GenError, Generator, Shape,
    TypeDescription,
};
use std::cmp::Ordering;

fn attr(path: &str, args: &str) -> Attribute {
    Attribute { path: path.to_string(), args: args.to_string() }
}

fn field(name: &str, attrs: &[&str]) -> Field {
    Field { name: name.to_string(), attrs: attrs.iter().map(|a| a.to_string()).collect() }
}

fn ord_body(output: &str) -> String {
    let start = output.find("-> core::cmp::Ordering {\n        ").unwrap()
        + "-> core::cmp::Ordering {\n        ".len();
    let end = output[start..].find("\n    }\n}\n").unwrap() + start;
    output[start..end].to_string()
}

// The struct of the marked-field example, compared as the generated chain does.
struct Marked {
    a: u16,
    #[allow(dead_code)]
    b: u16,
}

impl Marked {
    fn cmp(&self, other: &Self) -> Ordering {
        core::cmp::Ord::cmp(&self.a, &other.a)
    }
}

#[test]
fn marked_field_only_compares_marked() {
    let d = TypeDescription {
        name: "T".to_string(),
        shape: Shape::Named,
        attrs: vec![],
        fields: vec![field("a", &["cmp_by"]), field("b", &[])],
    };
    let out = cmp_by_derive(&d).unwrap();
    assert_eq!(ord_body(&out), "core::cmp::Ord::cmp(&self.a, &other.a)");
    assert!(!out.contains("Hash"));
    assert_eq!(Marked { a: 2, b: 0 }.cmp(&Marked { a: 1, b: 1 }), Ordering::Greater);
    assert_eq!(Marked { a: 1, b: 0 }.cmp(&Marked { a: 1, b: 1 }), Ordering::Equal);
}

struct Product {
    a: u16,
    b: u16,
}

impl Product {
    fn product(&self) -> u16 {
        self.a * self.b
    }

    fn cmp(&self, other: &Self) -> Ordering {
        core::cmp::Ord::cmp(&self.a, &other.a)
            .then_with(|| self.product().cmp(&other.product()))
    }
}

#[test]
fn fields_marker_then_method() {
    let d = TypeDescription {
        name: "Something".to_string(),
        shape: Shape::Named,
        attrs: vec![attr("cmp_by", "(_fields, product())")],
        fields: vec![field("a", &["cmp_by"]), field("b", &[])],
    };
    let out = cmp_by_derive(&d).unwrap();
    assert_eq!(
        ord_body(&out),
        "core::cmp::Ord::cmp(&self.a, &other.a)\n            .then_with(|| self.product().cmp(&other.product()))"
    );
    assert_eq!(Product { a: 1, b: 3 }.cmp(&Product { a: 1, b: 2 }), Ordering::Greater);
    assert_eq!(Product { a: 1, b: 0 }.cmp(&Product { a: 2, b: 3 }), Ordering::Less);
}

#[test]
fn type_level_precedes_fields() {
    let d = TypeDescription {
        name: "S".to_string(),
        shape: Shape::Named,
        attrs: vec![attr("cmp_by", "(product())")],
        fields: vec![field("a", &["cmp_by"]), field("b", &[])],
    };
    let out = cmp_by_derive(&d).unwrap();
    assert_eq!(
        ord_body(&out),
        "core::cmp::Ord::cmp(&self.product(), &other.product())\n            .then_with(|| self.a.cmp(&other.a))"
    );
}

#[test]
fn marker_in_the_middle() {
    let d = TypeDescription {
        name: "S".to_string(),
        shape: Shape::Named,
        attrs: vec![attr("cmp_by", "(x, _fields, y())")],
        fields: vec![field("a", &["cmp_by"]), field("b", &["cmp_by"])],
    };
    let out = cmp_by_derive(&d).unwrap();
    assert_eq!(
        ord_body(&out),
        "core::cmp::Ord::cmp(&self.x, &other.x)\n            .then_with(|| self.a.cmp(&other.a))\n            .then_with(|| self.b.cmp(&other.b))\n            .then_with(|| self.y().cmp(&other.y()))"
    );
}

#[test]
fn attachments_concatenate_in_order() {
    let d = TypeDescription {
        name: "S".to_string(),
        shape: Shape::Enum,
        attrs: vec![attr("cmp_by", "(x)"), attr("hash_by", "(z)"), attr("cmp_by", "(y)")],
        fields: vec![],
    };
    let out = cmp_by_derive(&d).unwrap();
    assert_eq!(
        ord_body(&out),
        "core::cmp::Ord::cmp(&self.x, &other.x)\n            .then_with(|| self.y.cmp(&other.y))"
    );
}

#[test]
fn positional_fields_use_their_index() {
    let mut fields = vec![field("", &["cmp_by"]), field("", &["cmp_by"]), field("", &[])];
    for _ in 0..8 {
        fields.push(field("", &[]));
    }
    fields.push(field("", &["cmp_by"]));
    let d = TypeDescription {
        name: "Something".to_string(),
        shape: Shape::Positional,
        attrs: vec![],
        fields,
    };
    let out = cmp_by_derive(&d).unwrap();
    assert_eq!(
        ord_body(&out),
        "core::cmp::Ord::cmp(&self.0, &other.0)\n            .then_with(|| self.1.cmp(&other.1))\n            .then_with(|| self.11.cmp(&other.11))"
    );
}

#[test]
fn hash_by_exact_output() {
    let d = TypeDescription {
        name: "Something".to_string(),
        shape: Shape::Named,
        attrs: vec![attr("hash_by", "(product())")],
        fields: vec![field("a", &["hash_by"]), field("b", &[])],
    };
    assert_eq!(
        hash_by_derive(&d).unwrap(),
        "impl std::hash::Hash for Something {\n    fn hash<H: std::hash::Hasher>(&self, state: &mut H) {\n        self.product().hash(state);\n        self.a.hash(state);\n    }\n}\n"
    );
}

#[test]
fn hash_by_fields_in_declaration_order() {
    let d = TypeDescription {
        name: "H".to_string(),
        shape: Shape::Named,
        attrs: vec![],
        fields: vec![field("z", &["hash_by"]), field("m", &[]), field("a", &["hash_by"])],
    };
    let out = hash_by_derive(&d).unwrap();
    assert!(out.contains("        self.z.hash(state);\n        self.a.hash(state);\n"));
}

#[test]
fn cmp_by_exact_output() {
    let d = TypeDescription {
        name: "P".to_string(),
        shape: Shape::Named,
        attrs: vec![],
        fields: vec![field("a", &["cmp_by"])],
    };
    assert_eq!(
        cmp_by_derive(&d).unwrap(),
        "impl core::cmp::Eq for P {}\nimpl core::cmp::PartialEq<Self> for P {\n    fn eq(&self, other: &Self) -> bool {\n        self.cmp(other).is_eq()\n    }\n}\nimpl core::cmp::PartialOrd<Self> for P {\n    fn partial_cmp(&self, other: &Self) -> core::option::Option<core::cmp::Ordering> {\n        std::option::Option::Some(self.cmp(other))\n    }\n}\nimpl core::cmp::Ord for P {\n    fn cmp(&self, other: &Self) -> core::cmp::Ordering {\n        core::cmp::Ord::cmp(&self.a, &other.a)\n    }\n}\n"
    );
}

#[test]
fn no_selector_is_an_error() {
    let d = TypeDescription {
        name: "S".to_string(),
        shape: Shape::Named,
        attrs: vec![],
        fields: vec![field("a", &[]), field("b", &["other"])],
    };
    assert_eq!(cmp_by_derive(&d), Err(GenError::NoSelector));
    assert_eq!(hash_by_derive(&d), Err(GenError::NoSelector));
    let e = TypeDescription { name: "E".to_string(), shape: Shape::Enum, attrs: vec![], fields: vec![] };
    assert_eq!(generate_impls(Generator::SortBy, &e), Err(GenError::NoSelector));
}

#[test]
fn empty_list_and_no_fields_is_an_error() {
    let d = TypeDescription {
        name: "S".to_string(),
        shape: Shape::Named,
        attrs: vec![attr("cmp_by", "()")],
        fields: vec![field("a", &[])],
    };
    assert_eq!(cmp_by_derive(&d), Err(GenError::NoSelector));
}

#[test]
fn lone_marker_without_fields_is_an_error() {
    let d = TypeDescription {
        name: "S".to_string(),
        shape: Shape::Named,
        attrs: vec![attr("cmp_by", "(_fields)")],
        fields: vec![field("a", &[])],
    };
    assert_eq!(cmp_by_derive(&d), Err(GenError::NoSelector));
}

#[test]
fn field_marked_twice_is_named() {
    let d = TypeDescription {
        name: "S".to_string(),
        shape: Shape::Named,
        attrs: vec![],
        fields: vec![
            field("a", &["cmp_by"]),
            field("b", &["cmp_by", "doc", "cmp_by"]),
            field("c", &["cmp_by", "cmp_by"]),
        ],
    };
    assert_eq!(cmp_by_derive(&d), Err(GenError::DuplicateMarker { field: 1 }));
}

#[test]
fn unit_and_union_are_shape_errors() {
    let u = TypeDescription { name: "U".to_string(), shape: Shape::Unit, attrs: vec![attr("cmp_by", "(x)")], fields: vec![] };
    assert_eq!(cmp_by_derive(&u), Err(GenError::Shape));
    let n = TypeDescription { name: "N".to_string(), shape: Shape::Union, attrs: vec![], fields: vec![] };
    assert_eq!(hash_by_derive(&n), Err(GenError::Shape));
}

#[test]
fn grammar_error_names_the_attribute() {
    let d = TypeDescription {
        name: "S".to_string(),
        shape: Shape::Named,
        attrs: vec![attr("doc", "= \"x\""), attr("cmp_by", "(a)"), attr("cmp_by", "(a + b)")],
        fields: vec![field("a", &["cmp_by", "cmp_by"])],
    };
    assert_eq!(cmp_by_derive(&d), Err(GenError::Grammar { attr: 2 }));
}

#[test]
fn enum_fields_are_not_scanned() {
    let d = TypeDescription {
        name: "E".to_string(),
        shape: Shape::Enum,
        attrs: vec![attr("cmp_by", "(channel(), _fields)")],
        fields: vec![field("x", &["cmp_by", "cmp_by"])],
    };
    let out = cmp_by_derive(&d).unwrap();
    assert_eq!(ord_body(&out), "core::cmp::Ord::cmp(&self.channel(), &other.channel())");
}

#[test]
fn resolution_is_deterministic() {
    let make = || TypeDescription {
        name: "S".to_string(),
        shape: Shape::Named,
        attrs: vec![attr("sort_by", "(x.y(), _fields, \"z\")")],
        fields: vec![field("a", &["sort_by"]), field("b", &["sort_by"])],
    };
    let first = generate_impls(Generator::SortBy, &make());
    let second = generate_impls(Generator::SortBy, &make());
    assert!(first.is_ok());
    assert_eq!(first, second);
}

#[test]
fn repeated_marker_is_a_grammar_error() {
    let d = TypeDescription {
        name: "S".to_string(),
        shape: Shape::Named,
        attrs: vec![attr("cmp_by", "(_fields, x, _fields)")],
        fields: vec![field("a", &["cmp_by"])],
    };
    assert_eq!(cmp_by_derive(&d), Err(GenError::Grammar { attr: 0 }));
    let split = TypeDescription {
        name: "S".to_string(),
        shape: Shape::Named,
        attrs: vec![attr("sort_by", "(_fields)"), attr("doc", "x"), attr("sort_by", "(y, _fields)")],
        fields: vec![field("a", &["sort_by"])],
    };
    assert_eq!(generate_impls(Generator::SortBy, &split), Err(GenError::Grammar { attr: 2 }));
}

#[test]
fn hashing_does_not_reserve_the_marker() {
    let d = TypeDescription {
        name: "S".to_string(),
        shape: Shape::Named,
        attrs: vec![attr("hash_by", "(_fields, _fields)")],
        fields: vec![],
    };
    let out = hash_by_derive(&d).unwrap();
    assert!(out.contains("        self._fields.hash(state);\n        self._fields.hash(state);\n"));
}

#[test]
fn non_ascii_and_raw_selectors_are_emitted() {
    let d = TypeDescription {
        name: "S".to_string(),
        shape: Shape::Named,
        attrs: vec![attr("cmp_by", "(r#type)")],
        fields: vec![field("é", &["cmp_by"])],
    };
    let out = cmp_by_derive(&d).unwrap();
    assert_eq!(
        ord_body(&out),
        "core::cmp::Ord::cmp(&self.r#type, &other.r#type)\n            .then_with(|| self.é.cmp(&other.é))"
    );
}

#[test]
fn first_field_marked_twice_is_named_after_earlier_duplicates_too() {
    let d = TypeDescription {
        name: "S".to_string(),
        shape: Shape::Positional,
        attrs: vec![],
        fields: vec![field("", &["hash_by", "hash_by"]), field("", &["hash_by", "hash_by"])],
    };
    assert_eq!(hash_by_derive(&d), Err(GenError::DuplicateMarker { field: 0 }));
}
