//! The guarantees of the extraction, stated and proved over the walk spec:
//! output order, forward declarations, anonymous aggregates, enumerator
//! values.

use vstd::prelude::*;

use crate::ast::{Node, NodeKind};
use crate::extract::{
    constant_views, constants_ok, members_ok, node_out, opt_concat, resolved_name, visited_out,
    walk_children_out, walk_out,
};
use crate::model::{entry_name, EnumTypeV, TypesV};

verus! {

/// Plain member children: nodes of no dispatched kind, without children of
/// their own, as the members and enumerator constants of an aggregate are.
pub open spec fn leaf_members(members: Seq<Node>) -> bool {
    forall|i: int|
        0 <= i < members.len() ==> members[i].kind == NodeKind::Other
            && members[i].children@.len() == 0
}

/// A forest of plain member children contributes no entry of its own.
pub proof fn lemma_leaf_members_silent(members: Seq<Node>, parent: Node)
    requires
        leaf_members(members),
    ensures
        walk_children_out(members, parent) == Some(Seq::<TypesV>::empty()),
    decreases members.len(),
{
    if members.len() > 0 {
        let head = members[0];
        assert(head.children@.subrange(0, 0) =~= head.children@);
        assert(walk_out(head, parent) == Some(
            Seq::<TypesV>::empty() + Seq::<TypesV>::empty(),
        ));
        assert(Seq::<TypesV>::empty() + Seq::<TypesV>::empty() =~= Seq::<TypesV>::empty());
        lemma_leaf_members_silent(members.drop_first(), parent);
    }
}

/// Law: entries appear in encounter order. A visited node's own entry comes
/// before everything its subtree contributes, and the children's subtrees
/// contribute after it, each in full, in child order.
pub proof fn lemma_encounter_order_node(n: Node, parent: Node)
    requires
        walk_out(n, parent) is Some,
    ensures
        visited_out(n, parent) is Some,
        walk_children_out(n.children@, n) is Some,
        walk_out(n, parent).unwrap() == visited_out(n, parent).unwrap() + walk_children_out(
            n.children@,
            n,
        ).unwrap(),
{
}

/// Law: sibling subtrees contribute in order: the first subtree's entries
/// in full, then the remaining siblings' entries, in their order.
pub proof fn lemma_encounter_order_siblings(nodes: Seq<Node>, parent: Node)
    requires
        nodes.len() > 0,
        walk_children_out(nodes, parent) is Some,
    ensures
        walk_out(nodes[0], parent) is Some,
        walk_children_out(nodes.drop_first(), parent) is Some,
        walk_children_out(nodes, parent).unwrap() == walk_out(nodes[0], parent).unwrap()
            + walk_children_out(nodes.drop_first(), parent).unwrap(),
{
}

/// Law: a node that is merely a forward declaration contributes no entry of
/// its own; extraction is left to its definition node, wherever that
/// stands.
pub proof fn lemma_forward_declaration_skipped(fwd: Node, parent: Node)
    requires
        fwd.is_forward_decl,
        fwd.children@.len() == 0,
    ensures
        walk_out(fwd, parent) == Some(Seq::<TypesV>::empty()),
{
    assert(fwd.children@.subrange(0, 0) =~= fwd.children@);
    assert(Seq::<TypesV>::empty() + Seq::<TypesV>::empty() =~= Seq::<TypesV>::empty());
}

/// Law: a named aggregate definition in the parsed file, whose children are
/// its plain members, yields exactly one entry, built from that member
/// list.
pub proof fn lemma_definition_single_entry(def: Node, parent: Node)
    requires
        !def.is_forward_decl,
        def.in_main_file,
        def.kind == NodeKind::Struct || def.kind == NodeKind::Enum || def.kind == NodeKind::Union,
        resolved_name(def, parent) is Some,
        def.kind == NodeKind::Struct || def.kind == NodeKind::Union ==> members_ok(def.children@),
        def.kind == NodeKind::Enum ==> constants_ok(def.children@),
        leaf_members(def.children@),
    ensures
        walk_out(def, parent) == node_out(def, parent),
        node_out(def, parent) is Some,
        node_out(def, parent).unwrap().len() == 1,
        entry_name(node_out(def, parent).unwrap()[0]) == resolved_name(def, parent).unwrap(),
{
    lemma_leaf_members_silent(def.children@, def);
    let es = node_out(def, parent).unwrap();
    assert(es + Seq::<TypesV>::empty() =~= es);
}

/// Law: a forward-declared aggregate followed by its later definition
/// produces exactly one entry, with the definition's full member list, not
/// an empty placeholder.
pub proof fn lemma_forward_then_definition(fwd: Node, def: Node, parent: Node)
    requires
        fwd.is_forward_decl,
        fwd.children@.len() == 0,
        !def.is_forward_decl,
        def.in_main_file,
        def.kind == NodeKind::Struct || def.kind == NodeKind::Enum || def.kind == NodeKind::Union,
        resolved_name(def, parent) is Some,
        def.kind == NodeKind::Struct || def.kind == NodeKind::Union ==> members_ok(def.children@),
        def.kind == NodeKind::Enum ==> constants_ok(def.children@),
        leaf_members(def.children@),
    ensures
        walk_children_out(seq![fwd, def], parent) == node_out(def, parent),
        node_out(def, parent) is Some,
        node_out(def, parent).unwrap().len() == 1,
{
    lemma_forward_declaration_skipped(fwd, parent);
    lemma_definition_single_entry(def, parent);
    let pair = seq![fwd, def];
    assert(pair[0] == fwd);
    assert(pair.drop_first() =~= seq![def]);
    let tail = seq![def];
    assert(tail[0] == def);
    assert(tail.drop_first() =~= Seq::<Node>::empty());
    let es = node_out(def, parent).unwrap();
    assert(walk_children_out(Seq::<Node>::empty(), parent) == Some(Seq::<TypesV>::empty()));
    assert(walk_children_out(tail, parent) == opt_concat(
        walk_out(def, parent),
        Some(Seq::<TypesV>::empty()),
    ));
    assert(es + Seq::<TypesV>::empty() =~= es);
    assert(Seq::<TypesV>::empty() + es =~= es);
}

/// Law: an anonymous aggregate that no type-alias declaration encloses
/// produces no entry at all.
pub proof fn lemma_anonymous_aggregate_dropped(n: Node, parent: Node)
    requires
        n.kind == NodeKind::Struct || n.kind == NodeKind::Enum || n.kind == NodeKind::Union,
        n.name is None,
        parent.kind != NodeKind::Alias,
        leaf_members(n.children@),
    ensures
        walk_out(n, parent) == Some(Seq::<TypesV>::empty()),
{
    lemma_leaf_members_silent(n.children@, n);
    assert(Seq::<TypesV>::empty() + Seq::<TypesV>::empty() =~= Seq::<TypesV>::empty());
}

/// Law: the same anonymous aggregate, enclosed in a type-alias declaration
/// that carries a name, produces exactly one entry under that name.
pub proof fn lemma_alias_wrapping_names_aggregate(n: Node, parent: Node)
    requires
        n.kind == NodeKind::Struct || n.kind == NodeKind::Enum || n.kind == NodeKind::Union,
        n.name is None,
        parent.kind == NodeKind::Alias,
        parent.name is Some,
        !n.is_forward_decl,
        n.in_main_file,
        n.kind == NodeKind::Struct || n.kind == NodeKind::Union ==> members_ok(n.children@),
        n.kind == NodeKind::Enum ==> constants_ok(n.children@),
        leaf_members(n.children@),
    ensures
        walk_out(n, parent) is Some,
        walk_out(n, parent).unwrap().len() == 1,
        entry_name(walk_out(n, parent).unwrap()[0]) == parent.name.unwrap()@,
{
    lemma_definition_single_entry(n, parent);
}

/// Every name the front end spells in this subtree is non-empty, as the
/// front end guarantees of spelled names.
pub open spec fn names_nonempty(n: Node) -> bool
    decreases n,
{
    &&& (n.name matches Some(s) ==> s@.len() > 0)
    &&& forest_names_nonempty(n.children@)
}

/// Every name spelled anywhere in a forest of subtrees is non-empty.
pub open spec fn forest_names_nonempty(nodes: Seq<Node>) -> bool
    decreases nodes,
{
    nodes.len() == 0 || (names_nonempty(nodes[0]) && forest_names_nonempty(nodes.drop_first()))
}

/// Law: when the front end spells only non-empty names, every emitted entry
/// carries a non-empty name; a declaration whose name cannot be resolved is
/// dropped, never emitted under an empty one.
pub proof fn lemma_entries_named(n: Node, parent: Node)
    requires
        names_nonempty(n),
        parent.name matches Some(p) ==> p@.len() > 0,
        walk_out(n, parent) is Some,
    ensures
        forall|k: int|
            0 <= k < walk_out(n, parent).unwrap().len() ==> entry_name(
                #[trigger] walk_out(n, parent).unwrap()[k],
            ).len() > 0,
    decreases n, 1int,
{
    let own = visited_out(n, parent).unwrap();
    let rest = walk_children_out(n.children@, n).unwrap();
    assert(walk_out(n, parent).unwrap() == own + rest);
    assert forall|k: int| 0 <= k < own.len() implies entry_name(own[k]).len() > 0 by {
        match resolved_name(n, parent) {
            Some(name) => {
                assert(name.len() > 0);
            },
            None => {},
        }
    }
    lemma_forest_entries_named(n.children@, n);
    assert forall|k: int|
        0 <= k < walk_out(n, parent).unwrap().len() implies entry_name(
        walk_out(n, parent).unwrap()[k],
    ).len() > 0 by {
        if k < own.len() {
            assert((own + rest)[k] == own[k]);
        } else {
            assert((own + rest)[k] == rest[k - own.len()]);
        }
    }
}

/// Law: the same, over a forest of sibling subtrees.
pub proof fn lemma_forest_entries_named(nodes: Seq<Node>, parent: Node)
    requires
        forest_names_nonempty(nodes),
        parent.name matches Some(p) ==> p@.len() > 0,
        walk_children_out(nodes, parent) is Some,
    ensures
        forall|k: int|
            0 <= k < walk_children_out(nodes, parent).unwrap().len() ==> entry_name(
                #[trigger] walk_children_out(nodes, parent).unwrap()[k],
            ).len() > 0,
    decreases nodes, 0int,
{
    if nodes.len() > 0 {
        let head = walk_out(nodes[0], parent).unwrap();
        let tail = walk_children_out(nodes.drop_first(), parent).unwrap();
        lemma_entries_named(nodes[0], parent);
        lemma_forest_entries_named(nodes.drop_first(), parent);
        assert forall|k: int|
            0 <= k < walk_children_out(nodes, parent).unwrap().len() implies entry_name(
            walk_children_out(nodes, parent).unwrap()[k],
        ).len() > 0 by {
            if k < head.len() {
                assert((head + tail)[k] == head[k]);
            } else {
                assert((head + tail)[k] == tail[k - head.len()]);
            }
        }
    }
}

/// Law: enumerator values are recorded exactly as the front end's signed
/// 64-bit constant values, in declaration order, whatever the
/// enumeration's declared underlying type.
pub proof fn lemma_enum_values_signed(n: Node, parent: Node)
    requires
        n.kind == NodeKind::Enum,
        resolved_name(n, parent) is Some,
        constants_ok(n.children@),
    ensures
        node_out(n, parent) is Some,
        node_out(n, parent).unwrap().len() == 1,
        node_out(n, parent).unwrap()[0] == TypesV::EnumType(
            EnumTypeV {
                name: resolved_name(n, parent).unwrap(),
                fields: constant_views(n.children@),
            },
        ),
        constant_views(n.children@).len() == n.children@.len(),
        forall|i: int|
            0 <= i < n.children@.len() ==> constant_views(n.children@)[i].value
                == n.children@[i].enum_value.unwrap(),
{
}

} // verus!
