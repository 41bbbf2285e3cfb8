use ctypes::ast::{Node, NodeKind};
use ctypes::extract::{extract_types, get_name, parse_enum, parse_struct, parse_typedef, parse_union};
use ctypes::model::{
    EnumField, EnumType, ExtractError, StructField, StructType, TypeDefType, Types, UnionField,
    UnionType,
};

fn node(kind: NodeKind, name: Option<&str>, children: Vec<Node>) -> Node {
    Node {
        kind,
        name: name.map(|s| s.to_string()),
        type_display: None,
        enum_value: None,
        in_main_file: true,
        is_forward_decl: false,
        children,
    }
}

fn member(name: &str, ty: &str) -> Node {
    Node {
        kind: NodeKind::Other,
        name: Some(name.to_string()),
        type_display: Some(ty.to_string()),
        enum_value: None,
        in_main_file: true,
        is_forward_decl: false,
        children: vec![],
    }
}

fn constant(name: &str, value: i64) -> Node {
    Node {
        kind: NodeKind::Other,
        name: Some(name.to_string()),
        type_display: None,
        enum_value: Some(value),
        in_main_file: true,
        is_forward_decl: false,
        children: vec![],
    }
}

fn alias(name: &str, underlying: &str, children: Vec<Node>) -> Node {
    Node {
        kind: NodeKind::Alias,
        name: Some(name.to_string()),
        type_display: Some(underlying.to_string()),
        enum_value: None,
        in_main_file: true,
        is_forward_decl: false,
        children,
    }
}

fn root_of(children: Vec<Node>) -> Node {
    Node {
        kind: NodeKind::Other,
        name: None,
        type_display: None,
        enum_value: None,
        in_main_file: true,
        is_forward_decl: false,
        children,
    }
}

fn struct_field(name: &str, ty: &str) -> StructField {
    StructField { name: name.to_string(), type_: ty.to_string() }
}

#[test]
fn typedef_anonymous_struct_is_named_by_alias() {
    // typedef struct { int a; char b; } Point;
    let tree = root_of(vec![alias(
        "Point",
        "struct Point",
        vec![node(NodeKind::Struct, None, vec![member("a", "int"), member("b", "char")])],
    )]);
    let out = extract_types(&tree).unwrap();
    let expected_struct = Types::StructType(StructType {
        name: "Point".to_string(),
        fields: vec![struct_field("a", "int"), struct_field("b", "char")],
    });
    let structs: Vec<&Types> = out
        .iter()
        .filter(|t| matches!(t, Types::StructType(_)))
        .collect();
    assert_eq!(structs, vec![&expected_struct]);
    assert_eq!(
        out,
        vec![
            Types::TypeDefType(TypeDefType {
                name: "Point".to_string(),
                underlying: "struct Point".to_string(),
            }),
            expected_struct,
        ]
    );
}

#[test]
fn enum_constants_keep_reported_values() {
    // enum Color { RED, GREEN = 5, BLUE };
    let tree = root_of(vec![node(
        NodeKind::Enum,
        Some("Color"),
        vec![constant("RED", 0), constant("GREEN", 5), constant("BLUE", 6)],
    )]);
    let out = extract_types(&tree).unwrap();
    assert_eq!(
        out,
        vec![Types::EnumType(EnumType {
            name: "Color".to_string(),
            fields: vec![
                EnumField { name: "RED".to_string(), value: 0 },
                EnumField { name: "GREEN".to_string(), value: 5 },
                EnumField { name: "BLUE".to_string(), value: 6 },
            ],
        })]
    );
}

#[test]
fn anonymous_struct_without_alias_is_dropped() {
    // struct { int x; }; with no typedef around it
    let tree = root_of(vec![node(NodeKind::Struct, None, vec![member("x", "int")])]);
    let out = extract_types(&tree).unwrap();
    assert_eq!(out, Vec::<Types>::new());
}

#[test]
fn anonymous_aggregate_members_are_never_read() {
    // An anonymous, unaliased struct is skipped before its members are
    // touched, so a nameless member in it is not a contract violation.
    let bad_member = Node {
        kind: NodeKind::Other,
        name: None,
        type_display: None,
        enum_value: None,
        in_main_file: true,
        is_forward_decl: false,
        children: vec![],
    };
    let tree = root_of(vec![node(NodeKind::Struct, None, vec![bad_member])]);
    assert_eq!(extract_types(&tree), Ok(vec![]));
}

#[test]
fn forward_declaration_then_definition_yields_one_entry() {
    // struct Foo; ... struct Foo { int x; };
    let mut fwd = node(NodeKind::Struct, Some("Foo"), vec![]);
    fwd.is_forward_decl = true;
    let def = node(NodeKind::Struct, Some("Foo"), vec![member("x", "int")]);
    let tree = root_of(vec![fwd, def]);
    let out = extract_types(&tree).unwrap();
    assert_eq!(
        out,
        vec![Types::StructType(StructType {
            name: "Foo".to_string(),
            fields: vec![struct_field("x", "int")],
        })]
    );
}

#[test]
fn forward_declaration_with_header_definition_yields_nothing() {
    // struct Foo; where the definition lives in an included header
    let mut fwd = node(NodeKind::Struct, Some("Foo"), vec![]);
    fwd.is_forward_decl = true;
    let mut def = node(NodeKind::Struct, Some("Foo"), vec![member("x", "int")]);
    def.in_main_file = false;
    let tree = root_of(vec![fwd, def]);
    assert_eq!(extract_types(&tree), Ok(vec![]));
}

#[test]
fn opaque_declaration_without_definition_is_kept() {
    // struct Foo; with no definition anywhere: kept, with no members
    let tree = root_of(vec![node(NodeKind::Struct, Some("Foo"), vec![])]);
    assert_eq!(
        extract_types(&tree),
        Ok(vec![Types::StructType(StructType { name: "Foo".to_string(), fields: vec![] })])
    );
}

#[test]
fn header_declarations_are_filtered_out() {
    let mut from_header = node(NodeKind::Struct, Some("H"), vec![member("x", "int")]);
    from_header.in_main_file = false;
    let tree = root_of(vec![from_header, node(NodeKind::Union, Some("U"), vec![member("y", "long")])]);
    let out = extract_types(&tree).unwrap();
    assert_eq!(
        out,
        vec![Types::UnionType(UnionType {
            name: "U".to_string(),
            fields: vec![UnionField { name: "y".to_string(), type_: "long".to_string() }],
        })]
    );
}

#[test]
fn children_of_filtered_nodes_are_still_visited() {
    // A container outside the parsed file can still hold a declaration
    // that belongs to it.
    let mut container = node(
        NodeKind::Other,
        None,
        vec![node(NodeKind::Enum, Some("E"), vec![constant("A", 1)])],
    );
    container.in_main_file = false;
    let tree = root_of(vec![container]);
    let out = extract_types(&tree).unwrap();
    assert_eq!(
        out,
        vec![Types::EnumType(EnumType {
            name: "E".to_string(),
            fields: vec![EnumField { name: "A".to_string(), value: 1 }],
        })]
    );
}

#[test]
fn output_keeps_encounter_order_depth_first() {
    let tree = root_of(vec![
        alias("Id", "unsigned long", vec![]),
        node(
            NodeKind::Other,
            Some("container"),
            vec![node(NodeKind::Struct, Some("Inner"), vec![member("v", "int")])],
        ),
        node(NodeKind::Enum, Some("Last"), vec![constant("ONE", 1)]),
    ]);
    let out = extract_types(&tree).unwrap();
    let names: Vec<String> = out
        .iter()
        .map(|t| match t {
            Types::TypeDefType(e) => e.name.clone(),
            Types::StructType(e) => e.name.clone(),
            Types::EnumType(e) => e.name.clone(),
            Types::UnionType(e) => e.name.clone(),
        })
        .collect();
    assert_eq!(names, vec!["Id".to_string(), "Inner".to_string(), "Last".to_string()]);
}

#[test]
fn enum_values_stay_signed_including_extremes() {
    let tree = root_of(vec![node(
        NodeKind::Enum,
        Some("Signed"),
        vec![constant("NEG", -1), constant("MIN", i64::MIN), constant("MAX", i64::MAX)],
    )]);
    let out = extract_types(&tree).unwrap();
    assert_eq!(
        out,
        vec![Types::EnumType(EnumType {
            name: "Signed".to_string(),
            fields: vec![
                EnumField { name: "NEG".to_string(), value: -1 },
                EnumField { name: "MIN".to_string(), value: i64::MIN },
                EnumField { name: "MAX".to_string(), value: i64::MAX },
            ],
        })]
    );
}

#[test]
fn alias_without_name_is_a_contract_violation() {
    let mut bad = alias("x", "int", vec![]);
    bad.name = None;
    let tree = root_of(vec![bad]);
    assert_eq!(extract_types(&tree), Err(ExtractError::ProviderContract));
}

#[test]
fn alias_without_underlying_type_is_a_contract_violation() {
    let mut bad = alias("x", "int", vec![]);
    bad.type_display = None;
    let tree = root_of(vec![bad]);
    assert_eq!(extract_types(&tree), Err(ExtractError::ProviderContract));
}

#[test]
fn named_struct_with_nameless_member_is_a_contract_violation() {
    let mut bad_member = member("x", "int");
    bad_member.name = None;
    let tree = root_of(vec![node(NodeKind::Struct, Some("S"), vec![bad_member])]);
    assert_eq!(extract_types(&tree), Err(ExtractError::ProviderContract));
}

#[test]
fn enum_constant_without_value_is_a_contract_violation() {
    let mut bad = constant("A", 0);
    bad.enum_value = None;
    let tree = root_of(vec![node(NodeKind::Enum, Some("E"), vec![bad])]);
    assert_eq!(extract_types(&tree), Err(ExtractError::ProviderContract));
}

#[test]
fn violation_deep_in_the_tree_fails_the_whole_extraction() {
    let mut bad_member = member("x", "int");
    bad_member.type_display = None;
    let nested = node(
        NodeKind::Other,
        None,
        vec![node(NodeKind::Union, Some("U"), vec![bad_member])],
    );
    let tree = root_of(vec![alias("Ok", "int", vec![]), nested]);
    assert_eq!(extract_types(&tree), Err(ExtractError::ProviderContract));
}

#[test]
fn get_name_prefers_the_node_name() {
    let parent = alias("Alias", "struct S", vec![]);
    let named = node(NodeKind::Struct, Some("S"), vec![]);
    assert_eq!(get_name(&named, &parent), Some("S".to_string()));
}

#[test]
fn get_name_falls_back_to_alias_parent() {
    let parent = alias("Alias", "struct S", vec![]);
    let anon = node(NodeKind::Struct, None, vec![]);
    assert_eq!(get_name(&anon, &parent), Some("Alias".to_string()));
}

#[test]
fn get_name_is_none_without_alias_parent() {
    let parent = root_of(vec![]);
    let anon = node(NodeKind::Struct, None, vec![]);
    assert_eq!(get_name(&anon, &parent), None);
}

#[test]
fn parse_typedef_appends_one_entry() {
    let mut out = Vec::new();
    let r = parse_typedef(&alias("Byte", "unsigned char", vec![]), &mut out);
    assert_eq!(r, Ok(()));
    assert_eq!(
        out,
        vec![Types::TypeDefType(TypeDefType {
            name: "Byte".to_string(),
            underlying: "unsigned char".to_string(),
        })]
    );
}

#[test]
fn parse_struct_skips_anonymous_and_keeps_named() {
    let parent = root_of(vec![]);
    let mut out = Vec::new();
    assert_eq!(parse_struct(&node(NodeKind::Struct, None, vec![]), &parent, &mut out), Ok(()));
    assert_eq!(out, vec![]);
    let named = node(NodeKind::Struct, Some("S"), vec![member("a", "int")]);
    assert_eq!(parse_struct(&named, &parent, &mut out), Ok(()));
    assert_eq!(
        out,
        vec![Types::StructType(StructType {
            name: "S".to_string(),
            fields: vec![struct_field("a", "int")],
        })]
    );
}

#[test]
fn parse_enum_and_parse_union_extract_members() {
    let parent = root_of(vec![]);
    let mut out = Vec::new();
    let e = node(NodeKind::Enum, Some("E"), vec![constant("A", 7)]);
    assert_eq!(parse_enum(&e, &parent, &mut out), Ok(()));
    let u = node(NodeKind::Union, Some("U"), vec![member("f", "float")]);
    assert_eq!(parse_union(&u, &parent, &mut out), Ok(()));
    assert_eq!(
        out,
        vec![
            Types::EnumType(EnumType {
                name: "E".to_string(),
                fields: vec![EnumField { name: "A".to_string(), value: 7 }],
            }),
            Types::UnionType(UnionType {
                name: "U".to_string(),
                fields: vec![UnionField { name: "f".to_string(), type_: "float".to_string() }],
            }),
        ]
    );
}

#[test]
fn typedef_names_anonymous_union_and_enum() {
    let tree = root_of(vec![
        alias("Value", "union Value", vec![node(
            NodeKind::Union,
            None,
            vec![member("i", "int"), member("f", "char *")],
        )]),
        alias("Mode", "enum Mode", vec![node(
            NodeKind::Enum,
            None,
            vec![constant("OFF", 0), constant("ON", 1)],
        )]),
    ]);
    let out = extract_types(&tree).unwrap();
    assert_eq!(out.len(), 4);
    assert_eq!(
        out[1],
        Types::UnionType(UnionType {
            name: "Value".to_string(),
            fields: vec![
                UnionField { name: "i".to_string(), type_: "int".to_string() },
                UnionField { name: "f".to_string(), type_: "char *".to_string() },
            ],
        })
    );
    assert_eq!(
        out[3],
        Types::EnumType(EnumType {
            name: "Mode".to_string(),
            fields: vec![
                EnumField { name: "OFF".to_string(), value: 0 },
                EnumField { name: "ON".to_string(), value: 1 },
            ],
        })
    );
}

#[test]
fn nameless_alias_parent_names_nothing() {
    let mut parent = alias("x", "int", vec![]);
    parent.name = None;
    let anon = node(NodeKind::Struct, None, vec![member("a", "int")]);
    assert_eq!(get_name(&anon, &parent), None);
    let mut out = Vec::new();
    assert_eq!(parse_struct(&anon, &parent, &mut out), Ok(()));
    assert_eq!(out, vec![]);
}
