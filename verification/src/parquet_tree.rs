//! The schema of a Parquet footer as a tree: the footer lists its nodes
//! depth-first, each group followed by its children; the tree gives the
//! fields of the schema and its leaf columns.
use vstd::prelude::*;
use crate::parquet::{
    ConvertedType, LogicalType, PhysicalType, Repetition, map_primitive_type, primitive_type_spec,
};
use crate::props::StringMap;
use crate::schema::{Field, FieldType, FieldTypeView, FieldView, field_view, fields_view, ft_view};
use crate::text::{concat3, copy_str, opt_view};

verus! {

// ─── The schema tree ────────────────────────────────────────────────────────

/// One node of a Parquet schema as the footer lists them, depth-first: a
/// column (it has a physical type) or a group, whose `num_children` nodes
/// follow it.
pub struct FlatElement {
    pub name: String,
    pub physical: Option<PhysicalType>,
    pub repetition: Option<Repetition>,
    pub converted: ConvertedType,
    pub logical: Option<LogicalType>,
    pub num_children: Option<i32>,
}

pub struct FlatElementView {
    pub name: Seq<char>,
    pub physical: Option<PhysicalType>,
    pub repetition: Option<Repetition>,
    pub converted: ConvertedType,
    pub logical: Option<LogicalType>,
    pub num_children: Option<i32>,
}

impl View for FlatElement {
    type V = FlatElementView;

    open spec fn view(&self) -> FlatElementView {
        FlatElementView {
            name: self.name@,
            physical: self.physical,
            repetition: self.repetition,
            converted: self.converted,
            logical: self.logical,
            num_children: self.num_children,
        }
    }
}

/// A node of the schema tree: a column, or a group with its children.
pub struct SchemaNode {
    pub name: String,
    pub physical: Option<PhysicalType>,
    pub repetition: Option<Repetition>,
    pub converted: ConvertedType,
    pub logical: Option<LogicalType>,
    pub children: Vec<SchemaNode>,
}

pub struct SchemaNodeView {
    pub name: Seq<char>,
    pub physical: Option<PhysicalType>,
    pub repetition: Option<Repetition>,
    pub converted: ConvertedType,
    pub logical: Option<LogicalType>,
    pub children: Seq<SchemaNodeView>,
}

pub open spec fn node_view(n: SchemaNode) -> SchemaNodeView
    decreases n,
{
    SchemaNodeView {
        name: n.name@,
        physical: n.physical,
        repetition: n.repetition,
        converted: n.converted,
        logical: n.logical,
        children: nodes_view(n.children@),
    }
}

pub open spec fn nodes_view(s: Seq<SchemaNode>) -> Seq<SchemaNodeView>
    decreases s,
{
    if s.len() == 0 {
        Seq::empty()
    } else {
        nodes_view(s.drop_last()).push(node_view(s.last()))
    }
}

proof fn lemma_nodes_view_len(s: Seq<SchemaNode>)
    ensures
        nodes_view(s).len() == s.len(),
    decreases s.len(),
{
    if s.len() > 0 {
        lemma_nodes_view_len(s.drop_last());
    }
}

proof fn lemma_nodes_view_index(s: Seq<SchemaNode>, i: int)
    requires
        0 <= i < s.len(),
    ensures
        nodes_view(s)[i] == node_view(s[i]),
    decreases s.len(),
{
    lemma_nodes_view_len(s.drop_last());
    if i < s.len() - 1 {
        lemma_nodes_view_index(s.drop_last(), i);
    }
}

pub open spec fn elements_view(s: Seq<FlatElement>) -> Seq<FlatElementView> {
    s.map_values(|e: FlatElement| e@)
}

/// How many nodes below an element belong to it: none for a column.
pub open spec fn child_count(e: FlatElementView) -> int {
    if e.physical is Some {
        0
    } else {
        match e.num_children {
            Some(n) => if n > 0 { n as int } else { 0 },
            None => 0,
        }
    }
}

pub open spec fn tree_node(e: FlatElementView, children: Seq<SchemaNodeView>) -> SchemaNodeView {
    SchemaNodeView {
        name: e.name,
        physical: e.physical,
        repetition: e.repetition,
        converted: e.converted,
        logical: e.logical,
        children,
    }
}

/// The node whose element stands at `pos`, and the position after its last
/// descendant; `None` where the list ends too early.
pub open spec fn parse_node(es: Seq<FlatElementView>, pos: int) -> Option<(SchemaNodeView, int)>
    decreases es.len() - pos, 0int,
{
    if 0 <= pos < es.len() {
        match parse_children(es, pos + 1, child_count(es[pos])) {
            Some((kids, next)) => Some((tree_node(es[pos], kids), next)),
            None => None,
        }
    } else {
        None
    }
}

/// `count` sibling nodes from `pos` on, and the position after them.
pub open spec fn parse_children(es: Seq<FlatElementView>, pos: int, count: int) -> Option<
    (Seq<SchemaNodeView>, int),
>
    decreases es.len() - pos, count,
{
    if count <= 0 {
        Some((Seq::empty(), pos))
    } else {
        match parse_node(es, pos) {
            Some((n, next)) => if pos < next <= es.len() {
                match parse_children(es, next, count - 1) {
                    Some((rest, end)) => Some((seq![n] + rest, end)),
                    None => None,
                }
            } else {
                None
            },
            None => None,
        }
    }
}

/// The top-level fields of a flattened schema: the children of its root.
pub open spec fn schema_roots(es: Seq<FlatElementView>) -> Seq<SchemaNodeView> {
    match parse_node(es, 0) {
        Some((root, _)) => root.children,
        None => Seq::empty(),
    }
}

fn parse_node_exec(es: &Vec<FlatElement>, pos: usize) -> (r: Option<(SchemaNode, usize)>)
    ensures
        match r {
            Some((n, next)) => parse_node(elements_view(es@), pos as int) == Some(
                (node_view(n), next as int),
            ),
            None => parse_node(elements_view(es@), pos as int) is None,
        },
    decreases es@.len() - pos, 0int,
{
    let ghost v = elements_view(es@);
    if pos >= es.len() {
        return None;
    }
    let e = &es[pos];
    let count: usize = match e.physical {
        Some(_) => 0,
        None => match e.num_children {
            Some(n) => if n > 0 { n as usize } else { 0 },
            None => 0,
        },
    };
    assert(v[pos as int] == e@);
    match parse_children_exec(es, pos + 1, count) {
        Some((kids, next)) => {
            let node = SchemaNode {
                name: e.name.clone(),
                physical: e.physical,
                repetition: e.repetition,
                converted: e.converted,
                logical: e.logical,
                children: kids,
            };
            proof {
                assert(node_view(node).children == nodes_view(kids@));
                assert(node_view(node) == tree_node(v[pos as int], nodes_view(kids@)));
            }
            Some((node, next))
        },
        None => None,
    }
}

fn parse_children_exec(es: &Vec<FlatElement>, pos: usize, count: usize) -> (r: Option<
    (Vec<SchemaNode>, usize),
>)
    requires
        pos <= es@.len(),
    ensures
        match r {
            Some((ns, next)) => parse_children(elements_view(es@), pos as int, count as int)
                == Some((nodes_view(ns@), next as int)),
            None => parse_children(elements_view(es@), pos as int, count as int) is None,
        },
    decreases es@.len() - pos, count,
{
    let ghost v = elements_view(es@);
    let mut acc: Vec<SchemaNode> = Vec::new();
    let mut at: usize = pos;
    let mut k: usize = 0;
    assert(Seq::<SchemaNodeView>::empty() + Seq::<SchemaNodeView>::empty() =~= Seq::<
        SchemaNodeView,
    >::empty());
    while k < count
        invariant
            v == elements_view(es@),
            pos <= at <= es@.len(),
            k <= count,
            k > 0 ==> pos < at,
            parse_children(v, pos as int, count as int) == match parse_children(
                v,
                at as int,
                count - k,
            ) {
                Some((rest, end)) => Some((nodes_view(acc@) + rest, end)),
                None => None,
            },
        decreases count - k,
    {
        let step = parse_node_exec(es, at);
        match step {
            Some((n, next)) => {
                if next <= at || next > es.len() {
                    return None;
                }
                proof {
                    let nv = node_view(n);
                    match parse_children(v, next as int, count - k - 1) {
                        Some((rest, end)) => {
                            assert(nodes_view(acc@.push(n)) == nodes_view(acc@).push(nv)) by {
                                assert(acc@.push(n).drop_last() =~= acc@);
                            }
                            assert(nodes_view(acc@).push(nv) + rest =~= nodes_view(acc@) + (seq![nv]
                                + rest));
                        },
                        None => {},
                    }
                }
                acc.push(n);
                at = next;
                k = k + 1;
            },
            None => {
                return None;
            },
        }
    }
    proof {
        assert(nodes_view(acc@) + Seq::<SchemaNodeView>::empty() =~= nodes_view(acc@));
    }
    Some((acc, at))
}

/// The schema tree that a depth-first list of elements describes: the
/// children of its root (the first element).
pub fn schema_tree(es: &Vec<FlatElement>) -> (r: Vec<SchemaNode>)
    ensures
        nodes_view(r@) == schema_roots(elements_view(es@)),
{
    match parse_node_exec(es, 0) {
        Some((root, _)) => {
            assert(node_view(root).children == nodes_view(root.children@));
            root.children
        },
        None => {
            let empty: Vec<SchemaNode> = Vec::new();
            assert(nodes_view(empty@) =~= Seq::<SchemaNodeView>::empty());
            empty
        },
    }
}

// ─── Fields of the schema tree ──────────────────────────────────────────────

/// The field a schema node stands for. A `REQUIRED` node is not nullable;
/// an `OPTIONAL` or `REPEATED` one, or one without repetition, is.
pub open spec fn field_of_node(n: SchemaNodeView) -> FieldView
    decreases n, 0int,
{
    FieldView {
        name: n.name,
        field_type: match n.physical {
            Some(p) => primitive_type_spec(p, n.logical, n.converted),
            None => group_type_spec(n.children, n.logical),
        },
        nullable: n.repetition != Some(Repetition::REQUIRED),
        metadata: Map::empty(),
    }
}

/// The element type of a list group: the first field of its repeated
/// group (standard 3-level encoding), or the repeated field itself where it
/// is a column.
pub open spec fn list_element_spec(fields: Seq<SchemaNodeView>) -> FieldTypeView
    decreases fields, 1int,
{
    if fields.len() == 0 {
        FieldTypeView::Unknown("element"@)
    } else if fields[0].physical is None {
        if fields[0].children.len() == 0 {
            FieldTypeView::Unknown("element"@)
        } else {
            field_of_node(fields[0].children[0]).field_type
        }
    } else {
        field_of_node(fields[0]).field_type
    }
}

/// The key and value types of a map group: the first two fields of its
/// repeated `key_value` group.
pub open spec fn map_entry_spec(fields: Seq<SchemaNodeView>) -> (FieldTypeView, FieldTypeView)
    decreases fields, 1int,
{
    if fields.len() > 0 && fields[0].physical is None {
        let kv = fields[0].children;
        (
            if kv.len() > 0 {
                field_of_node(kv[0]).field_type
            } else {
                FieldTypeView::Unknown("key"@)
            },
            if kv.len() > 1 {
                field_of_node(kv[1]).field_type
            } else {
                FieldTypeView::Unknown("value"@)
            },
        )
    } else {
        (FieldTypeView::Unknown("key"@), FieldTypeView::Unknown("value"@))
    }
}

/// The type of a group: a list, a map, or else a struct of its fields.
pub open spec fn group_type_spec(fields: Seq<SchemaNodeView>, logical: Option<LogicalType>) -> FieldTypeView
    decreases fields, 2int,
{
    match logical {
        Some(LogicalType::List) => FieldTypeView::List(Box::new(list_element_spec(fields))),
        Some(LogicalType::MapOf) => FieldTypeView::MapOf {
            key: Box::new(map_entry_spec(fields).0),
            value: Box::new(map_entry_spec(fields).1),
        },
        _ => FieldTypeView::Struct(fields_of_nodes(fields)),
    }
}

pub open spec fn fields_of_nodes(s: Seq<SchemaNodeView>) -> Seq<FieldView>
    decreases s, 0int,
{
    if s.len() == 0 {
        Seq::empty()
    } else {
        fields_of_nodes(s.drop_last()).push(field_of_node(s.last()))
    }
}

/// The field a schema node stands for.
pub fn parquet_type_to_field(t: &SchemaNode) -> (f: Field)
    ensures
        field_view(f) == field_of_node(node_view(*t)),
    decreases t, 0int,
{
    let field_type = match t.physical {
        Some(p) => map_primitive_type(p, t.logical, t.converted),
        None => map_group_type(&t.children, t.logical),
    };
    let nullable = match t.repetition {
        Some(Repetition::REQUIRED) => false,
        _ => true,
    };
    let metadata = StringMap::new();
    Field { name: t.name.clone(), field_type, nullable, metadata }
}

fn list_element_type(fields: &Vec<SchemaNode>) -> (t: FieldType)
    ensures
        ft_view(t) == list_element_spec(nodes_view(fields@)),
    decreases fields, 1int,
{
    proof {
        lemma_nodes_view_len(fields@);
    }
    if fields.len() == 0 {
        return FieldType::Unknown(copy_str("element"));
    }
    let list_group = &fields[0];
    proof {
        lemma_nodes_view_index(fields@, 0);
    }
    match list_group.physical {
        None => {
            proof {
                lemma_nodes_view_len(list_group.children@);
            }
            if list_group.children.len() == 0 {
                FieldType::Unknown(copy_str("element"))
            } else {
                proof {
                    lemma_nodes_view_index(list_group.children@, 0);
                }
                parquet_type_to_field(&list_group.children[0]).field_type
            }
        },
        Some(_) => parquet_type_to_field(list_group).field_type,
    }
}

fn map_entry_types(fields: &Vec<SchemaNode>) -> (r: (FieldType, FieldType))
    ensures
        ft_view(r.0) == map_entry_spec(nodes_view(fields@)).0,
        ft_view(r.1) == map_entry_spec(nodes_view(fields@)).1,
    decreases fields, 1int,
{
    proof {
        lemma_nodes_view_len(fields@);
        if fields@.len() > 0 {
            lemma_nodes_view_index(fields@, 0);
        }
    }
    if fields.len() > 0 && fields[0].physical.is_none() {
        let kv = &fields[0].children;
        proof {
            lemma_nodes_view_len(kv@);
        }
        let key = if kv.len() > 0 {
            proof {
                lemma_nodes_view_index(kv@, 0);
            }
            parquet_type_to_field(&kv[0]).field_type
        } else {
            FieldType::Unknown(copy_str("key"))
        };
        let value = if kv.len() > 1 {
            proof {
                lemma_nodes_view_index(kv@, 1);
            }
            parquet_type_to_field(&kv[1]).field_type
        } else {
            FieldType::Unknown(copy_str("value"))
        };
        (key, value)
    } else {
        (FieldType::Unknown(copy_str("key")), FieldType::Unknown(copy_str("value")))
    }
}

/// The type of a group with fields `fields` and annotation `logical`.
pub fn map_group_type(fields: &Vec<SchemaNode>, logical: Option<LogicalType>) -> (t: FieldType)
    ensures
        ft_view(t) == group_type_spec(nodes_view(fields@), logical),
    decreases fields, 2int,
{
    match logical {
        Some(LogicalType::List) => FieldType::List(Box::new(list_element_type(fields))),
        Some(LogicalType::MapOf) => {
            let (key, value) = map_entry_types(fields);
            FieldType::MapOf { key: Box::new(key), value: Box::new(value) }
        },
        _ => FieldType::Struct(fields_of_schema_nodes(fields)),
    }
}

/// The fields that a list of schema nodes stand for.
pub fn fields_of_schema_nodes(nodes: &Vec<SchemaNode>) -> (r: Vec<Field>)
    ensures
        fields_view(r@) == fields_of_nodes(nodes_view(nodes@)),
    decreases nodes, 0int,
{
    let ghost nv = nodes_view(nodes@);
    proof {
        lemma_nodes_view_len(nodes@);
    }
    let mut out: Vec<Field> = Vec::new();
    let mut i: usize = 0;
    while i < nodes.len()
        invariant
            i <= nodes.len(),
            nv == nodes_view(nodes@),
            nv.len() == nodes@.len(),
            fields_view(out@) == fields_of_nodes(nv.take(i as int)),
        decreases nodes.len() - i,
    {
        let f = parquet_type_to_field(&nodes[i]);
        proof {
            lemma_nodes_view_index(nodes@, i as int);
            assert(nv.take(i + 1).drop_last() =~= nv.take(i as int));
            assert(out@.push(f).drop_last() =~= out@);
        }
        out.push(f);
        i += 1;
    }
    assert(nv.take(nodes.len() as int) =~= nv);
    out
}

// ─── Leaf columns ───────────────────────────────────────────────────────────

/// A leaf column of the schema: its path with `.` between the names (as
/// parquet's `ColumnPath::string` writes it) and its types.
pub struct LeafColumn {
    pub path: String,
    pub physical: PhysicalType,
    pub logical: Option<LogicalType>,
    pub converted: ConvertedType,
}

pub struct LeafColumnView {
    pub path: Seq<char>,
    pub physical: PhysicalType,
    pub logical: Option<LogicalType>,
    pub converted: ConvertedType,
}

impl View for LeafColumn {
    type V = LeafColumnView;

    open spec fn view(&self) -> LeafColumnView {
        LeafColumnView {
            path: self.path@,
            physical: self.physical,
            logical: self.logical,
            converted: self.converted,
        }
    }
}

pub open spec fn leaves_view(s: Seq<LeafColumn>) -> Seq<LeafColumnView> {
    s.map_values(|l: LeafColumn| l@)
}

pub open spec fn dotted(prefix: Option<Seq<char>>, name: Seq<char>) -> Seq<char> {
    match prefix {
        Some(p) => p + "."@ + name,
        None => name,
    }
}

/// The columns under a node, depth-first, below the path `prefix`.
pub open spec fn leaves_of_node(n: SchemaNodeView, prefix: Option<Seq<char>>) -> Seq<LeafColumnView>
    decreases n,
{
    match n.physical {
        Some(p) => seq![
            LeafColumnView {
                path: dotted(prefix, n.name),
                physical: p,
                logical: n.logical,
                converted: n.converted,
            },
        ],
        None => leaves_of_nodes(n.children, Some(dotted(prefix, n.name))),
    }
}

pub open spec fn leaves_of_nodes(s: Seq<SchemaNodeView>, prefix: Option<Seq<char>>) -> Seq<LeafColumnView>
    decreases s,
{
    if s.len() == 0 {
        Seq::empty()
    } else {
        leaves_of_nodes(s.drop_last(), prefix) + leaves_of_node(s.last(), prefix)
    }
}

fn dotted_exec(prefix: &Option<String>, name: &String) -> (r: String)
    ensures
        r@ == dotted(opt_view(*prefix), name@),
{
    match prefix {
        Some(p) => concat3(p.as_str(), ".", name.as_str()),
        None => name.clone(),
    }
}

fn collect_leaves(n: &SchemaNode, prefix: &Option<String>, out: &mut Vec<LeafColumn>)
    ensures
        leaves_view(final(out)@) == leaves_view(old(out)@) + leaves_of_node(
            node_view(*n),
            opt_view(*prefix),
        ),
    decreases n,
{
    let path = dotted_exec(prefix, &n.name);
    match n.physical {
        Some(p) => {
            let leaf = LeafColumn { path, physical: p, logical: n.logical, converted: n.converted };
            proof {
                assert(leaves_view(out@.push(leaf)) =~= leaves_view(out@) + seq![leaf@]);
            }
            out.push(leaf);
        },
        None => {
            let sub = Some(path);
            collect_leaves_of(&n.children, &sub, out);
        },
    }
}

fn collect_leaves_of(nodes: &Vec<SchemaNode>, prefix: &Option<String>, out: &mut Vec<LeafColumn>)
    ensures
        leaves_view(final(out)@) == leaves_view(old(out)@) + leaves_of_nodes(
            nodes_view(nodes@),
            opt_view(*prefix),
        ),
    decreases nodes,
{
    let ghost nv = nodes_view(nodes@);
    let ghost p = opt_view(*prefix);
    let ghost start = leaves_view(out@);
    proof {
        lemma_nodes_view_len(nodes@);
        assert(nv.take(0) =~= Seq::<SchemaNodeView>::empty());
        assert(start + Seq::<LeafColumnView>::empty() =~= start);
    }
    let mut i: usize = 0;
    while i < nodes.len()
        invariant
            i <= nodes.len(),
            nv == nodes_view(nodes@),
            nv.len() == nodes@.len(),
            p == opt_view(*prefix),
            leaves_view(out@) == start + leaves_of_nodes(nv.take(i as int), p),
        decreases nodes.len() - i,
    {
        proof {
            lemma_nodes_view_index(nodes@, i as int);
            assert(nv.take(i + 1).drop_last() =~= nv.take(i as int));
        }
        collect_leaves(&nodes[i], prefix, out);
        proof {
            assert(start + leaves_of_nodes(nv.take(i as int), p) + leaves_of_node(nv[i as int], p)
                =~= start + (leaves_of_nodes(nv.take(i as int), p) + leaves_of_node(nv[i as int], p)));
        }
        i += 1;
    }
    assert(nv.take(nodes.len() as int) =~= nv);
}

/// The leaf columns of a schema tree, depth-first.
pub fn leaf_columns(nodes: &Vec<SchemaNode>) -> (r: Vec<LeafColumn>)
    ensures
        leaves_view(r@) == leaves_of_nodes(nodes_view(nodes@), None),
{
    let mut out: Vec<LeafColumn> = Vec::new();
    let none: Option<String> = None;
    collect_leaves_of(nodes, &none, &mut out);
    assert(leaves_view(Seq::<LeafColumn>::empty()) =~= Seq::<LeafColumnView>::empty());
    assert(Seq::<LeafColumnView>::empty() + leaves_of_nodes(nodes_view(nodes@), None) =~= leaves_of_nodes(
        nodes_view(nodes@),
        None,
    ));
    out
}

} // verus!
