use cmp_by_derive::{impl_sort_by_derive, Attribute, Field, Shape, TypeDescription};

fn attr(path: &str, args: &str) -> Attribute {
    Attribute { path: path.to_string(), args: args.to_string() }
}

fn field(name: &str, attrs: &[&str]) -> Field {
    Field { name: name.to_string(), attrs: attrs.iter().map(|a| a.to_string()).collect() }
}

#[test]
fn test_struct() {
    let input = TypeDescription {
        name: "Toto".to_string(),
        shape: Shape::Named,
        attrs: vec![attr("sort_by", "(\"embed.otherfield\")")],
        fields: vec![
            field("a", &["sort_by"]),
            field("c", &["sort_by"]),
            field("b", &[]),
            field("embed", &[]),
        ],
    };
    let output = impl_sort_by_derive(&input).unwrap();
    assert_eq!(
        output,
        r#"impl std::hash::Hash for Toto {
    fn hash<H: std::hash::Hasher>(&self, state: &mut H) {
        self.embed.otherfield.hash(state);
        self.a.hash(state);
        self.c.hash(state);
    }
}
impl core::cmp::Eq for Toto {}
impl core::cmp::PartialEq<Self> for Toto {
    fn eq(&self, other: &Self) -> bool {
        self.cmp(other).is_eq()
    }
}
impl core::cmp::PartialOrd<Self> for Toto {
    fn partial_cmp(&self, other: &Self) -> core::option::Option<core::cmp::Ordering> {
        std::option::Option::Some(self.cmp(other))
    }
}
impl core::cmp::Ord for Toto {
    fn cmp(&self, other: &Self) -> core::cmp::Ordering {
        core::cmp::Ord::cmp(&self.embed.otherfield, &other.embed.otherfield)
            .then_with(|| self.a.cmp(&other.a))
            .then_with(|| self.c.cmp(&other.c))
    }
}
"#
    );
}

#[test]
fn test_enum() {
    let input = TypeDescription {
        name: "Toto".to_string(),
        shape: Shape::Enum,
        attrs: vec![
            attr("sort_by", "(get_something(), something.do_this())"),
            attr("accessor", "(global_time: usize)"),
        ],
        fields: vec![],
    };
    let output = impl_sort_by_derive(&input).unwrap();
    assert_eq!(
        output,
        r#"impl std::hash::Hash for Toto {
    fn hash<H: std::hash::Hasher>(&self, state: &mut H) {
        self.get_something().hash(state);
        self.something.do_this().hash(state);
    }
}
impl core::cmp::Eq for Toto {}
impl core::cmp::PartialEq<Self> for Toto {
    fn eq(&self, other: &Self) -> bool {
        self.cmp(other).is_eq()
    }
}
impl core::cmp::PartialOrd<Self> for Toto {
    fn partial_cmp(&self, other: &Self) -> core::option::Option<core::cmp::Ordering> {
        std::option::Option::Some(self.cmp(other))
    }
}
impl core::cmp::Ord for Toto {
    fn cmp(&self, other: &Self) -> core::cmp::Ordering {
        core::cmp::Ord::cmp(&self.get_something(), &other.get_something())
            .then_with(|| self.something.do_this().cmp(&other.something.do_this()))
    }
}
"#
    );
}

#[test]
fn test_singlecall() {
    let input = TypeDescription {
        name: "Toto".to_string(),
        shape: Shape::Enum,
        attrs: vec![
            attr("sort_by", "(get_something())"),
            attr("accessor", "(global_time: usize)"),
        ],
        fields: vec![],
    };
    let output = impl_sort_by_derive(&input).unwrap();
    assert_eq!(
        output,
        r#"impl std::hash::Hash for Toto {
    fn hash<H: std::hash::Hasher>(&self, state: &mut H) {
        self.get_something().hash(state);
    }
}
impl core::cmp::Eq for Toto {}
impl core::cmp::PartialEq<Self> for Toto {
    fn eq(&self, other: &Self) -> bool {
        self.cmp(other).is_eq()
    }
}
impl core::cmp::PartialOrd<Self> for Toto {
    fn partial_cmp(&self, other: &Self) -> core::option::Option<core::cmp::Ordering> {
        std::option::Option::Some(self.cmp(other))
    }
}
impl core::cmp::Ord for Toto {
    fn cmp(&self, other: &Self) -> core::cmp::Ordering {
        core::cmp::Ord::cmp(&self.get_something(), &other.get_something())
    }
}
"#
    );
}

#[test]
fn sort_by_hash_keeps_marker_as_plain_selector() {
    let input = TypeDescription {
        name: "S".to_string(),
        shape: Shape::Named,
        attrs: vec![attr("sort_by", "(x(), _fields)")],
        fields: vec![field("a", &["sort_by"])],
    };
    let output = impl_sort_by_derive(&input).unwrap();
    assert!(output.contains("        self.x().hash(state);\n        self._fields.hash(state);\n        self.a.hash(state);\n"));
    assert!(output.contains(
        "core::cmp::Ord::cmp(&self.x(), &other.x())\n            .then_with(|| self.a.cmp(&other.a))"
    ));
}
