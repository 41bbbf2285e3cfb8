//! The walker and the extractors: one pass over the declaration tree,
//! producing the ordered sequence of output entries.
//!
//! The spec side defines, for every node, what the pass must produce:
//! `None` when the front end broke its own guarantees (a missing name,
//! type or value where one is promised), and `Some` of the entry sequence
//! otherwise. The executable functions are proved to return exactly that.

use vstd::prelude::*;

use crate::ast::{Node, NodeKind};
use crate::model::{
    EnumField, EnumFieldV, EnumType, EnumTypeV, ExtractError, FieldV, StructField, StructType,
    StructTypeV, TypeDefType, TypeDefTypeV, Types, TypesV, UnionField, UnionType, UnionTypeV,
};

verus! {

/// The views of a sequence of output entries.
pub open spec fn view_of_types(s: Seq<Types>) -> Seq<TypesV> {
    s.map_values(|t: Types| t@)
}

/// The name under which a declaration is emitted: the node's own name when
/// it has one; else the name of the immediately enclosing type-alias
/// declaration (the `typedef struct { ... } Name;` pattern); else none, and
/// the declaration is anonymous at this scope.
pub open spec fn resolved_name(entity: Node, parent: Node) -> Option<Seq<char>> {
    match entity.name {
        Some(n) => Some(n@),
        None => {
            if parent.kind == NodeKind::Alias {
                match parent.name {
                    Some(p) => Some(p@),
                    None => None,
                }
            } else {
                None
            }
        },
    }
}

/// Every member node carries a name and a type rendering, as the front end
/// guarantees of the members of a named aggregate.
pub open spec fn members_ok(members: Seq<Node>) -> bool {
    forall|i: int|
        0 <= i < members.len() ==> members[i].name is Some && members[i].type_display is Some
}

/// The member list of a structure or union entry, read off the children.
pub open spec fn member_views(members: Seq<Node>) -> Seq<FieldV> {
    members.map(|i: int, c: Node| FieldV { name: c.name.unwrap()@, type_: c.type_display.unwrap()@ })
}

/// Every enumerator-constant node carries a name and a signed value.
pub open spec fn constants_ok(members: Seq<Node>) -> bool {
    forall|i: int|
        0 <= i < members.len() ==> members[i].name is Some && members[i].enum_value is Some
}

/// The constant list of an enumeration entry, read off the children.
pub open spec fn constant_views(members: Seq<Node>) -> Seq<EnumFieldV> {
    members.map(|i: int, c: Node| EnumFieldV { name: c.name.unwrap()@, value: c.enum_value.unwrap() })
}

/// What a type-alias declaration contributes: one entry, or a violation
/// when the front end withheld the guaranteed name or underlying type.
pub open spec fn alias_out(entity: Node) -> Option<Seq<TypesV>> {
    if entity.name is Some && entity.type_display is Some {
        Some(
            seq![
                TypesV::TypeDefType(
                    TypeDefTypeV {
                        name: entity.name.unwrap()@,
                        underlying: entity.type_display.unwrap()@,
                    },
                ),
            ],
        )
    } else {
        None
    }
}

/// What a structure declaration contributes: nothing when anonymous and
/// unaliased; one entry when named; a violation when a member of a named
/// structure lacks its name or type.
pub open spec fn struct_out(entity: Node, parent: Node) -> Option<Seq<TypesV>> {
    match resolved_name(entity, parent) {
        Some(name) => {
            if members_ok(entity.children@) {
                Some(
                    seq![
                        TypesV::StructType(
                            StructTypeV { name, fields: member_views(entity.children@) },
                        ),
                    ],
                )
            } else {
                None
            }
        },
        None => Some(Seq::empty()),
    }
}

/// What an enumeration declaration contributes; the constants keep the
/// signed 64-bit values the front end reports.
pub open spec fn enum_out(entity: Node, parent: Node) -> Option<Seq<TypesV>> {
    match resolved_name(entity, parent) {
        Some(name) => {
            if constants_ok(entity.children@) {
                Some(
                    seq![
                        TypesV::EnumType(
                            EnumTypeV { name, fields: constant_views(entity.children@) },
                        ),
                    ],
                )
            } else {
                None
            }
        },
        None => Some(Seq::empty()),
    }
}

/// What a union declaration contributes; same shape as a structure.
pub open spec fn union_out(entity: Node, parent: Node) -> Option<Seq<TypesV>> {
    match resolved_name(entity, parent) {
        Some(name) => {
            if members_ok(entity.children@) {
                Some(
                    seq![
                        TypesV::UnionType(
                            UnionTypeV { name, fields: member_views(entity.children@) },
                        ),
                    ],
                )
            } else {
                None
            }
        },
        None => Some(Seq::empty()),
    }
}

/// The contribution of one dispatched node, by declaration kind. Nodes of
/// any other kind contribute nothing and can violate nothing.
pub open spec fn node_out(entity: Node, parent: Node) -> Option<Seq<TypesV>> {
    match entity.kind {
        NodeKind::Alias => alias_out(entity),
        NodeKind::Struct => struct_out(entity, parent),
        NodeKind::Enum => enum_out(entity, parent),
        NodeKind::Union => union_out(entity, parent),
        NodeKind::Other => Some(Seq::empty()),
    }
}

/// The contribution of a visited node itself, before its children: nothing
/// for a mere forward declaration (its definition node, visited in its own
/// place, supplies the one entry) and nothing for a node that lies in an
/// included header rather than in the parsed file.
pub open spec fn visited_out(n: Node, parent: Node) -> Option<Seq<TypesV>> {
    if !n.is_forward_decl && n.in_main_file {
        node_out(n, parent)
    } else {
        Some(Seq::empty())
    }
}

/// Concatenation of two contributions; a violation on either side is a
/// violation of the whole.
pub open spec fn opt_concat(a: Option<Seq<TypesV>>, b: Option<Seq<TypesV>>) -> Option<
    Seq<TypesV>,
> {
    if a is Some && b is Some {
        Some(a.unwrap() + b.unwrap())
    } else {
        None
    }
}

/// The contribution of a whole subtree, depth-first and pre-order: the
/// node's own entry first, then the children's subtrees in order. Children
/// are always walked, whatever became of the node itself.
pub open spec fn walk_out(n: Node, parent: Node) -> Option<Seq<TypesV>>
    decreases n,
{
    opt_concat(visited_out(n, parent), walk_children_out(n.children@, n))
}

/// The contribution of a forest of sibling subtrees, in order.
pub open spec fn walk_children_out(nodes: Seq<Node>, parent: Node) -> Option<Seq<TypesV>>
    decreases nodes,
{
    if nodes.len() == 0 {
        Some(Seq::empty())
    } else {
        opt_concat(walk_out(nodes[0], parent), walk_children_out(nodes.drop_first(), parent))
    }
}

/// The whole extraction: the root stands for the parsed file and is not
/// itself a declaration; its children are the top-level declarations.
pub open spec fn extract_out(root: Node) -> Option<Seq<TypesV>> {
    walk_children_out(root.children@, root)
}

proof fn lemma_opt_concat_assoc(
    a: Option<Seq<TypesV>>,
    b: Option<Seq<TypesV>>,
    c: Option<Seq<TypesV>>,
)
    ensures
        opt_concat(opt_concat(a, b), c) == opt_concat(a, opt_concat(b, c)),
{
    if a is Some && b is Some && c is Some {
        assert((a.unwrap() + b.unwrap()) + c.unwrap() =~= a.unwrap() + (b.unwrap() + c.unwrap()));
    }
}

/// Walking a forest extended by one more sibling appends that sibling's
/// contribution.
proof fn lemma_walk_children_push(nodes: Seq<Node>, extra: Node, parent: Node)
    ensures
        walk_children_out(nodes.push(extra), parent) == opt_concat(
            walk_children_out(nodes, parent),
            walk_out(extra, parent),
        ),
    decreases nodes.len(),
{
    let whole = nodes.push(extra);
    assert(whole.len() == nodes.len() + 1);
    if nodes.len() == 0 {
        assert(whole[0] == extra);
        assert(whole.drop_first() =~= Seq::<Node>::empty());
        assert(walk_children_out(whole.drop_first(), parent) == Some(Seq::<TypesV>::empty()));
        assert(walk_children_out(whole, parent) == opt_concat(
            walk_out(extra, parent),
            Some(Seq::<TypesV>::empty()),
        ));
        assert(walk_children_out(nodes, parent) == Some(Seq::<TypesV>::empty()));
        match walk_out(extra, parent) {
            Some(es) => {
                assert(es + Seq::<TypesV>::empty() =~= es);
                assert(Seq::<TypesV>::empty() + es =~= es);
            },
            None => {},
        }
    } else {
        assert(whole[0] == nodes[0]);
        assert(whole.drop_first() =~= nodes.drop_first().push(extra));
        lemma_walk_children_push(nodes.drop_first(), extra, parent);
        assert(walk_children_out(whole, parent) == opt_concat(
            walk_out(nodes[0], parent),
            opt_concat(
                walk_children_out(nodes.drop_first(), parent),
                walk_out(extra, parent),
            ),
        ));
        lemma_opt_concat_assoc(
            walk_out(nodes[0], parent),
            walk_children_out(nodes.drop_first(), parent),
            walk_out(extra, parent),
        );
        assert(walk_children_out(nodes, parent) == opt_concat(
            walk_out(nodes[0], parent),
            walk_children_out(nodes.drop_first(), parent),
        ));
    }
}

/// Resolves the name under which a declaration is emitted: the node's own
/// name, or the enclosing type-alias declaration's name, or none.
pub fn get_name(entity: &Node, parent: &Node) -> (r: Option<String>)
    ensures
        match r {
            Some(n) => resolved_name(*entity, *parent) == Some(n@),
            None => resolved_name(*entity, *parent) is None,
        },
{
    match &entity.name {
        Some(n) => Some(n.clone()),
        None => {
            if parent.kind == NodeKind::Alias {
                match &parent.name {
                    Some(p) => Some(p.clone()),
                    None => None,
                }
            } else {
                None
            }
        },
    }
}

/// Extracts a type-alias declaration: always one entry. A missing name or
/// underlying type breaks the front end's guarantee for alias declarations.
pub fn parse_typedef(entity: &Node, types: &mut Vec<Types>) -> (r: Result<(), ExtractError>)
    ensures
        match r {
            Ok(_) => alias_out(*entity) is Some && view_of_types(final(types)@) == view_of_types(
                old(types)@,
            ) + alias_out(*entity).unwrap(),
            Err(_) => alias_out(*entity) is None && final(types)@ == old(types)@,
        },
{
    let name = match &entity.name {
        Some(n) => n.clone(),
        None => {
            return Err(ExtractError::ProviderContract);
        },
    };
    let underlying = match &entity.type_display {
        Some(u) => u.clone(),
        None => {
            return Err(ExtractError::ProviderContract);
        },
    };
    types.push(Types::TypeDefType(TypeDefType { name, underlying }));
    proof {
        assert(view_of_types(types@) =~= view_of_types(old(types)@) + alias_out(
            *entity,
        ).unwrap());
    }
    Ok(())
}

/// Extracts a structure declaration: one entry when a name resolves, none
/// when the declaration is anonymous and unaliased. A member without a name
/// or type breaks the front end's guarantee for members of named aggregates.
pub fn parse_struct(entity: &Node, parent: &Node, types: &mut Vec<Types>) -> (r: Result<
    (),
    ExtractError,
>)
    ensures
        match r {
            Ok(_) => struct_out(*entity, *parent) is Some && view_of_types(final(types)@)
                == view_of_types(old(types)@) + struct_out(*entity, *parent).unwrap(),
            Err(_) => struct_out(*entity, *parent) is None && final(types)@ == old(types)@,
        },
{
    let name = match get_name(entity, parent) {
        Some(n) => n,
        None => {
            proof {
                assert(view_of_types(types@) =~= view_of_types(types@) + Seq::<TypesV>::empty());
            }
            return Ok(());
        },
    };
    let mut fields: Vec<StructField> = Vec::new();
    proof {
        assert(fields@.map_values(|f: StructField| f@) =~= member_views(
            entity.children@.subrange(0, 0),
        ));
    }
    let mut i: usize = 0;
    while i < entity.children.len()
        invariant
            i <= entity.children@.len(),
            fields@.len() == i,
            resolved_name(*entity, *parent) == Some(name@),
            forall|j: int|
                0 <= j < i ==> entity.children@[j].name is Some
                    && entity.children@[j].type_display is Some,
            fields@.map_values(|f: StructField| f@) == member_views(
                entity.children@.subrange(0, i as int),
            ),
            types@ == old(types)@,
        decreases entity.children@.len() - i,
    {
        let c = &entity.children[i];
        let field_name = match &c.name {
            Some(s) => s.clone(),
            None => {
                return Err(ExtractError::ProviderContract);
            },
        };
        let field_type = match &c.type_display {
            Some(s) => s.clone(),
            None => {
                return Err(ExtractError::ProviderContract);
            },
        };
        let ghost fields_pre = fields@;
        fields.push(StructField { name: field_name, type_: field_type });
        proof {
            let cs = entity.children@;
            let pre = cs.subrange(0, i as int);
            let cur = cs.subrange(0, i as int + 1);
            assert(cur =~= pre.push(cs[i as int]));
            let lhs = fields@.map_values(|f: StructField| f@);
            let rhs = member_views(cur);
            assert(cs[i as int].name == Some(field_name));
            assert(cs[i as int].type_display == Some(field_type));
            assert forall|j: int| 0 <= j < lhs.len() implies lhs[j] == rhs[j] by {
                assert(lhs[j] == fields@[j]@);
                assert(rhs[j] == FieldV { name: cur[j].name.unwrap()@, type_: cur[j].type_display.unwrap()@ });
                if j < i as int {
                    assert(fields@[j] == fields_pre[j]);
                    assert(fields_pre.map_values(|f: StructField| f@)[j] == fields_pre[j]@);
                    assert(member_views(pre)[j] == FieldV { name: pre[j].name.unwrap()@, type_: pre[j].type_display.unwrap()@ });
                }
            }
            assert(lhs =~= rhs);
        }
        i += 1;
    }
    proof {
        assert(entity.children@.subrange(0, entity.children@.len() as int) =~= entity.children@);
        assert(members_ok(entity.children@));
    }
    types.push(Types::StructType(StructType { name, fields }));
    proof {
        assert(view_of_types(types@) =~= view_of_types(old(types)@) + struct_out(
            *entity,
            *parent,
        ).unwrap());
    }
    Ok(())
}

/// Extracts an enumeration declaration: one entry when a name resolves,
/// none when anonymous and unaliased. Every constant keeps the signed
/// 64-bit value the front end reports, whatever the enumeration's declared
/// underlying type; a constant without a name or value breaks the front
/// end's guarantee.
pub fn parse_enum(entity: &Node, parent: &Node, types: &mut Vec<Types>) -> (r: Result<
    (),
    ExtractError,
>)
    ensures
        match r {
            Ok(_) => enum_out(*entity, *parent) is Some && view_of_types(final(types)@)
                == view_of_types(old(types)@) + enum_out(*entity, *parent).unwrap(),
            Err(_) => enum_out(*entity, *parent) is None && final(types)@ == old(types)@,
        },
{
    let name = match get_name(entity, parent) {
        Some(n) => n,
        None => {
            proof {
                assert(view_of_types(types@) =~= view_of_types(types@) + Seq::<TypesV>::empty());
            }
            return Ok(());
        },
    };
    let mut fields: Vec<EnumField> = Vec::new();
    proof {
        assert(fields@.map_values(|f: EnumField| f@) =~= constant_views(
            entity.children@.subrange(0, 0),
        ));
    }
    let mut i: usize = 0;
    while i < entity.children.len()
        invariant
            i <= entity.children@.len(),
            fields@.len() == i,
            resolved_name(*entity, *parent) == Some(name@),
            forall|j: int|
                0 <= j < i ==> entity.children@[j].name is Some
                    && entity.children@[j].enum_value is Some,
            fields@.map_values(|f: EnumField| f@) == constant_views(
                entity.children@.subrange(0, i as int),
            ),
            types@ == old(types)@,
        decreases entity.children@.len() - i,
    {
        let c = &entity.children[i];
        let field_name = match &c.name {
            Some(s) => s.clone(),
            None => {
                return Err(ExtractError::ProviderContract);
            },
        };
        let value = match c.enum_value {
            Some(v) => v,
            None => {
                return Err(ExtractError::ProviderContract);
            },
        };
        let ghost fields_pre = fields@;
        fields.push(EnumField { name: field_name, value });
        proof {
            let cs = entity.children@;
            let pre = cs.subrange(0, i as int);
            let cur = cs.subrange(0, i as int + 1);
            assert(cur =~= pre.push(cs[i as int]));
            let lhs = fields@.map_values(|f: EnumField| f@);
            let rhs = constant_views(cur);
            assert(cs[i as int].name == Some(field_name));
            assert(cs[i as int].enum_value == Some(value));
            assert forall|j: int| 0 <= j < lhs.len() implies lhs[j] == rhs[j] by {
                assert(lhs[j] == fields@[j]@);
                if j < i as int {
                    assert(fields@[j] == fields_pre[j]);
                    assert(fields_pre.map_values(|f: EnumField| f@)[j] == fields_pre[j]@);
                    assert(constant_views(pre)[j] == EnumFieldV {
                        name: pre[j].name.unwrap()@,
                        value: pre[j].enum_value.unwrap(),
                    });
                }
            }
            assert(lhs =~= rhs);
        }
        i += 1;
    }
    proof {
        assert(entity.children@.subrange(0, entity.children@.len() as int) =~= entity.children@);
        assert(constants_ok(entity.children@));
    }
    types.push(Types::EnumType(EnumType { name, fields }));
    proof {
        assert(view_of_types(types@) =~= view_of_types(old(types)@) + enum_out(
            *entity,
            *parent,
        ).unwrap());
    }
    Ok(())
}

/// Extracts a union declaration; same shape as a structure.
pub fn parse_union(entity: &Node, parent: &Node, types: &mut Vec<Types>) -> (r: Result<
    (),
    ExtractError,
>)
    ensures
        match r {
            Ok(_) => union_out(*entity, *parent) is Some && view_of_types(final(types)@)
                == view_of_types(old(types)@) + union_out(*entity, *parent).unwrap(),
            Err(_) => union_out(*entity, *parent) is None && final(types)@ == old(types)@,
        },
{
    let name = match get_name(entity, parent) {
        Some(n) => n,
        None => {
            proof {
                assert(view_of_types(types@) =~= view_of_types(types@) + Seq::<TypesV>::empty());
            }
            return Ok(());
        },
    };
    let mut fields: Vec<UnionField> = Vec::new();
    proof {
        assert(fields@.map_values(|f: UnionField| f@) =~= member_views(
            entity.children@.subrange(0, 0),
        ));
    }
    let mut i: usize = 0;
    while i < entity.children.len()
        invariant
            i <= entity.children@.len(),
            fields@.len() == i,
            resolved_name(*entity, *parent) == Some(name@),
            forall|j: int|
                0 <= j < i ==> entity.children@[j].name is Some
                    && entity.children@[j].type_display is Some,
            fields@.map_values(|f: UnionField| f@) == member_views(
                entity.children@.subrange(0, i as int),
            ),
            types@ == old(types)@,
        decreases entity.children@.len() - i,
    {
        let c = &entity.children[i];
        let field_name = match &c.name {
            Some(s) => s.clone(),
            None => {
                return Err(ExtractError::ProviderContract);
            },
        };
        let field_type = match &c.type_display {
            Some(s) => s.clone(),
            None => {
                return Err(ExtractError::ProviderContract);
            },
        };
        let ghost fields_pre = fields@;
        fields.push(UnionField { name: field_name, type_: field_type });
        proof {
            let cs = entity.children@;
            let pre = cs.subrange(0, i as int);
            let cur = cs.subrange(0, i as int + 1);
            assert(cur =~= pre.push(cs[i as int]));
            let lhs = fields@.map_values(|f: UnionField| f@);
            let rhs = member_views(cur);
            assert(cs[i as int].name == Some(field_name));
            assert(cs[i as int].type_display == Some(field_type));
            assert forall|j: int| 0 <= j < lhs.len() implies lhs[j] == rhs[j] by {
                assert(lhs[j] == fields@[j]@);
                if j < i as int {
                    assert(fields@[j] == fields_pre[j]);
                    assert(fields_pre.map_values(|f: UnionField| f@)[j] == fields_pre[j]@);
                    assert(member_views(pre)[j] == FieldV {
                        name: pre[j].name.unwrap()@,
                        type_: pre[j].type_display.unwrap()@,
                    });
                }
            }
            assert(lhs =~= rhs);
        }
        i += 1;
    }
    proof {
        assert(entity.children@.subrange(0, entity.children@.len() as int) =~= entity.children@);
        assert(members_ok(entity.children@));
    }
    types.push(Types::UnionType(UnionType { name, fields }));
    proof {
        assert(view_of_types(types@) =~= view_of_types(old(types)@) + union_out(
            *entity,
            *parent,
        ).unwrap());
    }
    Ok(())
}

/// Visits one node: dispatches on it (unless it is a mere forward
/// declaration or lies outside the parsed file), then walks its children,
/// depth-first and pre-order.
pub fn visit(n: &Node, parent: &Node, types: &mut Vec<Types>) -> (r: Result<(), ExtractError>)
    ensures
        match r {
            Ok(_) => walk_out(*n, *parent) is Some && view_of_types(final(types)@)
                == view_of_types(old(types)@) + walk_out(*n, *parent).unwrap(),
            Err(_) => walk_out(*n, *parent) is None,
        },
    decreases *n, 1int,
{
    if !n.is_forward_decl && n.in_main_file {
        let dispatched = match n.kind {
            NodeKind::Alias => parse_typedef(n, types),
            NodeKind::Struct => parse_struct(n, parent, types),
            NodeKind::Enum => parse_enum(n, parent, types),
            NodeKind::Union => parse_union(n, parent, types),
            NodeKind::Other => Ok(()),
        };
        if let Err(e) = dispatched {
            return Err(e);
        }
        proof {
            if n.kind == NodeKind::Other {
                assert(view_of_types(types@) =~= view_of_types(old(types)@) + visited_out(
                    *n,
                    *parent,
                ).unwrap());
            }
        }
    } else {
        proof {
            assert(view_of_types(types@) =~= view_of_types(old(types)@) + visited_out(
                *n,
                *parent,
            ).unwrap());
        }
    }
    match visit_children(n, types) {
        Ok(_) => {
            proof {
                assert((view_of_types(old(types)@) + visited_out(*n, *parent).unwrap())
                    + walk_children_out(n.children@, *n).unwrap() =~= view_of_types(old(types)@)
                    + (visited_out(*n, *parent).unwrap() + walk_children_out(
                    n.children@,
                    *n,
                ).unwrap()));
            }
            Ok(())
        },
        Err(e) => Err(e),
    }
}

/// Walks all children of a node, in order, with the node itself as their
/// parent for name resolution.
pub fn visit_children(n: &Node, types: &mut Vec<Types>) -> (r: Result<(), ExtractError>)
    ensures
        match r {
            Ok(_) => walk_children_out(n.children@, *n) is Some && view_of_types(final(types)@)
                == view_of_types(old(types)@) + walk_children_out(n.children@, *n).unwrap(),
            Err(_) => walk_children_out(n.children@, *n) is None,
        },
    decreases *n, 0int,
{
    proof {
        assert(n.children@.subrange(0, 0) =~= Seq::<Node>::empty());
        assert(view_of_types(types@) =~= view_of_types(types@) + Seq::<TypesV>::empty());
    }
    let mut i: usize = 0;
    while i < n.children.len()
        invariant
            i <= n.children@.len(),
            walk_children_out(n.children@.subrange(0, i as int), *n) is Some,
            view_of_types(types@) == view_of_types(old(types)@) + walk_children_out(
                n.children@.subrange(0, i as int),
                *n,
            ).unwrap(),
        decreases n.children@.len() - i,
    {
        let child = &n.children[i];
        let res = visit(child, n, types);
        proof {
            assert(n.children@.subrange(0, i as int + 1) =~= n.children@.subrange(0, i as int).push(
                n.children@[i as int],
            ));
            lemma_walk_children_push(n.children@.subrange(0, i as int), n.children@[i as int], *n);
        }
        match res {
            Ok(_) => {
                proof {
                    assert((view_of_types(old(types)@) + walk_children_out(
                        n.children@.subrange(0, i as int),
                        *n,
                    ).unwrap()) + walk_out(n.children@[i as int], *n).unwrap() =~= view_of_types(
                        old(types)@,
                    ) + (walk_children_out(n.children@.subrange(0, i as int), *n).unwrap()
                        + walk_out(n.children@[i as int], *n).unwrap()));
                }
                i += 1;
            },
            Err(e) => {
                proof {
                    lemma_walk_children_none_prefix(n.children@, *n, i as int + 1);
                }
                return Err(e);
            },
        }
    }
    proof {
        assert(n.children@.subrange(0, n.children@.len() as int) =~= n.children@);
    }
    Ok(())
}

/// The whole extraction: walks the declaration tree under `root` and
/// returns the ordered entry sequence, or reports that the front end broke
/// its own guarantees somewhere in the tree. The root stands for the parsed
/// file itself and is not a declaration.
pub fn extract_types(root: &Node) -> (r: Result<Vec<Types>, ExtractError>)
    ensures
        match r {
            Ok(v) => extract_out(*root) == Some(view_of_types(v@)),
            Err(_) => extract_out(*root) is None,
        },
{
    let mut types: Vec<Types> = Vec::new();
    proof {
        assert(view_of_types(types@) =~= Seq::<TypesV>::empty());
    }
    match visit_children(root, &mut types) {
        Ok(_) => {
            proof {
                assert(Seq::<TypesV>::empty() + walk_children_out(root.children@, *root).unwrap()
                    =~= walk_children_out(root.children@, *root).unwrap());
            }
            Ok(types)
        },
        Err(e) => Err(e),
    }
}

/// Once a prefix of a forest holds a violation, the whole forest does.
proof fn lemma_walk_children_none_prefix(nodes: Seq<Node>, parent: Node, j: int)
    requires
        0 <= j <= nodes.len(),
        walk_children_out(nodes.subrange(0, j), parent) is None,
    ensures
        walk_children_out(nodes, parent) is None,
    decreases nodes.len() - j,
{
    if j == nodes.len() {
        assert(nodes.subrange(0, j) =~= nodes);
    } else {
        assert(nodes.subrange(0, j + 1) =~= nodes.subrange(0, j).push(nodes[j]));
        lemma_walk_children_push(nodes.subrange(0, j), nodes[j], parent);
        lemma_walk_children_none_prefix(nodes, parent, j + 1);
    }
}

} // verus!
