use pgx_nodes::classify::{classify_struct, ChildReference, ShapeError};
use pgx_nodes::family::node_family;
use pgx_nodes::generate::{family_flags, generate, GenerateError, NodeWalker};
use pgx_nodes::graph::SubtypeGraph;
use pgx_nodes::rules::{BoundExpr, ContainerShape, Rules, SchemaVersion};
use pgx_nodes::schema::{find_struct, FieldDescriptor, Schema, StructDescriptor, TypeRef};
use pgx_nodes::walk::{AccessDescriptor, FieldValue, ListCell, NodeGraph, NodeValue, Value, WalkEvent};

fn path(n: &str) -> TypeRef {
    TypeRef::Path(n.to_string())
}

fn ptr(t: TypeRef) -> TypeRef {
    TypeRef::Pointer(Box::new(t))
}

fn arr(t: TypeRef, n: usize) -> TypeRef {
    TypeRef::Array(Box::new(t), n)
}

fn field(name: &str, ty: TypeRef) -> FieldDescriptor {
    FieldDescriptor { name: name.to_string(), ty }
}

fn def(name: &str, fields: Vec<FieldDescriptor>, offset: usize) -> StructDescriptor {
    StructDescriptor { name: name.to_string(), fields, items_offset: offset }
}

fn tag_field() -> FieldDescriptor {
    field("type_", path("NodeTag"))
}

fn base_structs() -> Vec<StructDescriptor> {
    vec![
        def("Node", vec![tag_field()], 0),
        def(
            "List",
            vec![tag_field(), field("length", path("i32")), field("head", ptr(path("ListCell"))), field("elements", ptr(path("ListCell")))],
            1,
        ),
        def(
            "Plan",
            vec![
                tag_field(),
                field("targetlist", ptr(path("List"))),
                field("lefttree", ptr(path("Plan"))),
                field("righttree", ptr(path("Plan"))),
                field("initPlan", arr(ptr(path("Plan")), 2)),
                field("plan_rows", path("f64")),
            ],
            2,
        ),
        def("Result", vec![field("plan", path("Plan")), field("resconstantqual", ptr(path("Node")))], 3),
        def("Expr", vec![tag_field()], 4),
        def("Var", vec![field("xpr", path("Expr")), field("varno", path("i32"))], 5),
        def(
            "AppendState",
            vec![tag_field(), field("appendplans", ptr(ptr(path("Plan")))), field("as_nplans", path("i32"))],
            6,
        ),
        def(
            "RangeTblEntry",
            vec![
                tag_field(),
                field("rtekind", path("RTEKind")),
                field("alias", ptr(path("Alias"))),
                field("eref", ptr(path("Alias"))),
                field("tablesample", ptr(path("Node"))),
                field("subquery", ptr(path("Node"))),
                field("securityQuals", ptr(path("List"))),
            ],
            7,
        ),
        def("Alias", vec![tag_field(), field("aliasname", ptr(path("c_char")))], 8),
        def("Other", vec![field("x", path("i32"))], 9),
        def("Sub", vec![field("base", path("Other")), field("y", ptr(path("Node")))], 10),
        def("Empty", vec![], 11),
        def("Callback", vec![field("f", TypeRef::Other("fn(i32)".to_string()))], 12),
    ]
}

fn tags() -> Vec<String> {
    ["List", "Plan", "Result", "Var", "AppendState", "RangeTblEntry", "Alias"].iter().map(|s| s.to_string()).collect()
}

fn schema() -> Schema {
    Schema { structs: base_structs(), tags: tags() }
}

fn walker(v: SchemaVersion) -> NodeWalker {
    match generate(&schema(), Rules::for_version(v)) {
        Ok(w) => w,
        Err(e) => panic!("unexpected failures: {:?}", e),
    }
}

fn node(tag: &str, fields: Vec<(&str, Value)>) -> NodeValue {
    NodeValue {
        tag: tag.to_string(),
        fields: fields.into_iter().map(|(n, v)| FieldValue { name: n.to_string(), value: v }).collect(),
    }
}

fn var(varno: i64) -> NodeValue {
    node("Var", vec![("xpr", Value::Opaque), ("varno", Value::Scalar(varno))])
}

fn enter(access: AccessDescriptor, ancestor: usize, node: usize) -> WalkEvent {
    WalkEvent::Enter { access, ancestor, node }
}

fn exit(node: usize) -> WalkEvent {
    WalkEvent::Exit { node }
}

fn list_events() -> Vec<WalkEvent> {
    vec![
        enter(AccessDescriptor::ListElement(0), 0, 1),
        exit(1),
        enter(AccessDescriptor::ListElement(1), 0, 2),
        exit(2),
        enter(AccessDescriptor::ListElement(2), 0, 3),
        exit(3),
    ]
}

fn program_of<'a>(w: &'a NodeWalker, name: &str) -> &'a Vec<ChildReference> {
    &w.programs.iter().find(|p| p.struct_name == name).expect("program").steps
}

#[test]
fn subtype_graph_follows_first_field() {
    let s = base_structs();
    let g = SubtypeGraph::build(&s);
    assert_eq!(g.parent[3], Some(2));
    assert_eq!(g.parent[5], Some(4));
    assert_eq!(g.parent[10], Some(9));
    assert_eq!(g.parent[0], None);
    assert_eq!(g.parent[11], None);
    assert_eq!(g.parent[12], None);
    assert_eq!(g.children[2], vec![3]);
    assert_eq!(g.children[9], vec![10]);
    assert!(g.children[0].is_empty());
}

#[test]
fn find_struct_gives_first_of_name() {
    let mut s = base_structs();
    s.push(def("Plan", vec![], 13));
    assert_eq!(find_struct(&s, &"Plan".to_string()), Some(2));
    assert_eq!(find_struct(&s, &"Missing".to_string()), None);
}

#[test]
fn family_is_exactly_the_reachable_structs() {
    let s = base_structs();
    let g = SubtypeGraph::build(&s);
    let mut fam = node_family(&s, &g, &"NodeTag".to_string());
    fam.sort();
    assert_eq!(fam, vec![0, 1, 2, 3, 4, 5, 6, 7, 8]);
}

#[test]
fn family_lists_a_struct_reached_twice_once() {
    let s = vec![
        def("NodeTag", vec![field("self_", path("NodeTag"))], 0),
        def("A", vec![field("t", path("NodeTag"))], 1),
        def("B", vec![field("a", path("A"))], 2),
        def("C", vec![field("x", path("i32"))], 3),
    ];
    let g = SubtypeGraph::build(&s);
    let mut fam = node_family(&s, &g, &"NodeTag".to_string());
    fam.sort();
    assert_eq!(fam, vec![0, 1, 2]);
}

#[test]
fn self_parented_tag_struct_is_a_cycle() {
    let s = Schema {
        structs: vec![
            def("NodeTag", vec![field("self_", path("NodeTag"))], 0),
            def("A", vec![field("t", path("NodeTag"))], 1),
        ],
        tags: vec!["A".to_string()],
    };
    assert!(matches!(generate(&s, Rules::for_version(SchemaVersion::V13)), Err(GenerateError::Cycle(0))));
}

#[test]
fn programs_follow_field_order_and_tables() {
    let w = walker(SchemaVersion::V13);
    let plan = program_of(&w, "Plan");
    assert_eq!(plan.len(), 4);
    assert!(matches!(&plan[0], ChildReference::Pointer { field } if field == "targetlist"));
    assert!(matches!(&plan[1], ChildReference::Pointer { field } if field == "lefttree"));
    assert!(matches!(&plan[2], ChildReference::Pointer { field } if field == "righttree"));
    assert!(matches!(&plan[3], ChildReference::FixedArray { field, len: 2 } if field == "initPlan"));
    let result = program_of(&w, "Result");
    assert_eq!(result.len(), 2);
    assert!(matches!(&result[0], ChildReference::Embedded { field, target: 2 } if field == "plan"));
    assert!(matches!(&result[1], ChildReference::Pointer { field } if field == "resconstantqual"));
    assert!(program_of(&w, "Var").is_empty());
    let append = program_of(&w, "AppendState");
    assert_eq!(append.len(), 1);
    assert!(matches!(&append[0], ChildReference::Bounded { field, bound: BoundExpr::Field(b) } if field == "appendplans" && b == "as_nplans"));
    let list = program_of(&w, "List");
    assert!(matches!(list.as_slice(), [ChildReference::Container { shape: ContainerShape::Flat }]));
    let rte = program_of(&w, "RangeTblEntry");
    assert_eq!(rte.len(), 4);
    assert!(matches!(&rte[2], ChildReference::Union { discriminant } if discriminant == "rtekind"));
    assert!(w.programs.iter().all(|p| p.struct_name != "Empty" && p.struct_name != "Sub"));
}

#[test]
fn container_layout_follows_version() {
    assert_eq!(Rules::for_version(SchemaVersion::V11).container_shape, ContainerShape::Linked);
    assert_eq!(Rules::for_version(SchemaVersion::V12).container_shape, ContainerShape::Linked);
    assert_eq!(Rules::for_version(SchemaVersion::V13).container_shape, ContainerShape::Flat);
    assert_eq!(SchemaVersion::from_major(14), Some(SchemaVersion::V14));
    assert_eq!(SchemaVersion::from_major(10), None);
    assert_eq!(SchemaVersion::V15.major(), 15);
}

#[test]
fn classifying_twice_gives_the_same_programs() {
    let a = walker(SchemaVersion::V14);
    let b = walker(SchemaVersion::V14);
    assert_eq!(format!("{:?}", a.programs.iter().map(|p| (&p.struct_name, &p.steps)).collect::<Vec<_>>()),
        format!("{:?}", b.programs.iter().map(|p| (&p.struct_name, &p.steps)).collect::<Vec<_>>()));
}

#[test]
fn zero_field_struct_is_a_bare_root() {
    let s = base_structs();
    let g = SubtypeGraph::build(&s);
    assert_eq!(g.parent[11], None);
    let fam = family_flags(s.len(), &node_family(&s, &g, &"NodeTag".to_string()));
    let rules = Rules::for_version(SchemaVersion::V15);
    let (steps, fails) = classify_struct(&s, &fam, &rules, &s[11]);
    assert!(steps.is_empty());
    assert!(fails.is_empty());
}

fn append_graph(count: i64) -> NodeGraph {
    NodeGraph {
        nodes: vec![
            node("AppendState", vec![("appendplans", Value::PtrArray(vec![Some(1), Some(2)])), ("as_nplans", Value::Scalar(count))]),
            node("Plan", vec![]),
            node("Plan", vec![]),
        ],
        cells: vec![],
    }
}

#[test]
fn zero_bound_walks_no_elements() {
    let w = walker(SchemaVersion::V15);
    assert!(w.traverse(&append_graph(0), 0).is_empty());
    assert!(w.traverse(&append_graph(-3), 0).is_empty());
    assert_eq!(
        w.traverse(&append_graph(1), 0),
        vec![enter(AccessDescriptor::ArrayElement(0), 0, 1), exit(1)]
    );
    assert_eq!(w.traverse(&append_graph(9), 0).len(), 4);
}

#[test]
fn linked_list_of_three_is_walked_in_order() {
    let w = walker(SchemaVersion::V11);
    let g = NodeGraph {
        nodes: vec![
            node("List", vec![("length", Value::Scalar(3)), ("head", Value::Cells(Some(0)))]),
            var(1),
            var(2),
            var(3),
        ],
        cells: vec![
            ListCell { value: Some(1), next: Some(1) },
            ListCell { value: Some(2), next: Some(2) },
            ListCell { value: Some(3), next: None },
        ],
    };
    assert_eq!(w.traverse(&g, 0), list_events());
}

#[test]
fn flat_list_of_three_is_walked_the_same_way() {
    let w = walker(SchemaVersion::V13);
    let g = NodeGraph {
        nodes: vec![
            node("List", vec![("length", Value::Scalar(3)), ("elements", Value::PtrArray(vec![Some(1), Some(2), Some(3)]))]),
            var(1),
            var(2),
            var(3),
        ],
        cells: vec![],
    };
    assert_eq!(w.traverse(&g, 0), list_events());
}

fn rte_graph(kind: i64) -> NodeGraph {
    NodeGraph {
        nodes: vec![
            node(
                "RangeTblEntry",
                vec![
                    ("rtekind", Value::Scalar(kind)),
                    ("alias", Value::Ptr(None)),
                    ("eref", Value::Ptr(Some(3))),
                    ("tablesample", Value::Ptr(Some(1))),
                    ("subquery", Value::Ptr(Some(2))),
                    ("securityQuals", Value::Ptr(None)),
                ],
            ),
            node("Plan", vec![]),
            node("Plan", vec![]),
            node("Alias", vec![]),
        ],
        cells: vec![],
    }
}

fn entered_fields(events: &[WalkEvent]) -> Vec<String> {
    events
        .iter()
        .filter_map(|e| match e {
            WalkEvent::Enter { access: AccessDescriptor::Field(f), .. } => Some(f.clone()),
            _ => None,
        })
        .collect()
}

#[test]
fn union_walks_only_the_selected_branch() {
    let w = walker(SchemaVersion::V15);
    let relation = entered_fields(&w.traverse(&rte_graph(0), 0));
    let subquery = entered_fields(&w.traverse(&rte_graph(1), 0));
    assert_eq!(relation, vec!["eref".to_string(), "tablesample".to_string()]);
    assert_eq!(subquery, vec!["eref".to_string(), "subquery".to_string()]);
    assert!(!relation.contains(&"subquery".to_string()));
    assert!(!subquery.contains(&"tablesample".to_string()));
    let unknown = entered_fields(&w.traverse(&rte_graph(99), 0));
    assert_eq!(unknown, vec!["eref".to_string()]);
}

#[test]
fn every_unclassifiable_field_is_reported_together() {
    let mut structs = base_structs();
    structs.push(def("Foo", vec![tag_field(), field("bad", ptr(ptr(path("Node"))))], 13));
    structs.push(def("Bar", vec![tag_field(), field("slots", arr(ptr(ptr(path("Node"))), 2))], 14));
    structs.push(def("Baz", vec![tag_field(), field("hook", TypeRef::Other("fn()".to_string()))], 15));
    let s = Schema { structs, tags: tags() };
    match generate(&s, Rules::for_version(SchemaVersion::V15)) {
        Ok(_) => panic!("expected failures"),
        Err(GenerateError::Cycle(i)) => panic!("unexpected cycle at {}", i),
        Err(GenerateError::Unclassifiable(errs)) => {
            assert_eq!(errs.len(), 3);
            let mut seen: Vec<(String, String, ShapeError)> =
                errs.iter().map(|e| (e.struct_name.clone(), e.field_name.clone(), e.shape)).collect();
            seen.sort_by(|a, b| a.0.cmp(&b.0));
            assert_eq!(
                seen,
                vec![
                    ("Bar".to_string(), "slots".to_string(), ShapeError::ArrayElementTarget),
                    ("Baz".to_string(), "hook".to_string(), ShapeError::Unsupported),
                    ("Foo".to_string(), "bad".to_string(), ShapeError::PointerTarget),
                ]
            );
        }
    }
}

#[test]
fn covered_pointer_array_needs_no_override_failure() {
    let mut structs = base_structs();
    structs.push(def("Foo", vec![tag_field(), field("bad", ptr(ptr(path("Node"))))], 13));
    let s = Schema { structs, tags: tags() };
    let mut rules = Rules::for_version(SchemaVersion::V15);
    rules.bounds.push(pgx_nodes::rules::BoundRule {
        struct_name: "Foo".to_string(),
        field_name: "bad".to_string(),
        bound: Some(BoundExpr::Literal(2)),
    });
    assert!(generate(&s, rules).is_ok());
}

#[test]
fn unknown_tag_walks_nothing() {
    let w = walker(SchemaVersion::V15);
    let g = NodeGraph { nodes: vec![node("Mystery", vec![("x", Value::Ptr(Some(0)))])], cells: vec![] };
    assert!(w.traverse(&g, 0).is_empty());
    assert!(w.traverse(&g, 5).is_empty());
}

fn result_graph() -> NodeGraph {
    NodeGraph {
        nodes: vec![
            node("Result", vec![("plan", Value::Embedded(1)), ("resconstantqual", Value::Ptr(Some(4)))]),
            node(
                "Result",
                vec![
                    ("targetlist", Value::Ptr(Some(2))),
                    ("lefttree", Value::Ptr(None)),
                    ("righttree", Value::Ptr(None)),
                    ("initPlan", Value::PtrArray(vec![None, Some(3)])),
                ],
            ),
            node("List", vec![("length", Value::Scalar(1)), ("elements", Value::PtrArray(vec![Some(5)]))]),
            node("Plan", vec![]),
            var(7),
            var(-2),
        ],
        cells: vec![],
    }
}

#[test]
fn embedded_member_uses_its_static_program() {
    let w = walker(SchemaVersion::V13);
    let events = w.traverse(&result_graph(), 0);
    assert_eq!(
        events,
        vec![
            enter(AccessDescriptor::Field("plan".to_string()), 0, 1),
            enter(AccessDescriptor::Field("targetlist".to_string()), 1, 2),
            enter(AccessDescriptor::ListElement(0), 2, 5),
            exit(5),
            exit(2),
            enter(AccessDescriptor::ArrayElement(1), 1, 3),
            exit(3),
            exit(1),
            enter(AccessDescriptor::Field("resconstantqual".to_string()), 0, 4),
            exit(4),
        ]
    );
}

#[test]
fn render_gives_bracketed_text() {
    let w = walker(SchemaVersion::V13);
    let text = w.render(&result_graph(), 0);
    assert_eq!(
        text,
        "{Result :plan {Result :targetlist {List length=1 #0 {Var varno=-2}} [1] {Plan}} :resconstantqual {Var varno=7}}"
    );
    assert_eq!(w.render(&result_graph(), 9), "");
}

fn parse_labels(text: &str) -> Vec<String> {
    let mut labels = Vec::new();
    let mut depth: i32 = 0;
    for token in text.split(' ') {
        let mut t = token;
        while let Some(rest) = t.strip_suffix('}') {
            depth -= 1;
            t = rest;
        }
        if t.starts_with('{') {
            depth += 1;
        } else if t.starts_with(':') || t.starts_with('[') || t.starts_with('#') {
            labels.push(t.to_string());
        }
    }
    assert_eq!(depth, 0);
    labels
}

fn label_of(a: &AccessDescriptor) -> String {
    match a {
        AccessDescriptor::Field(f) => format!(":{}", f),
        AccessDescriptor::ArrayElement(i) => format!("[{}]", i),
        AccessDescriptor::ListElement(i) => format!("#{}", i),
    }
}

#[test]
fn rendering_reparses_to_the_walk_order() {
    let w = walker(SchemaVersion::V13);
    let g = result_graph();
    let walked: Vec<String> = w
        .traverse(&g, 0)
        .iter()
        .filter_map(|e| match e {
            WalkEvent::Enter { access, .. } => Some(label_of(access)),
            _ => None,
        })
        .collect();
    assert_eq!(parse_labels(&w.render(&g, 0)), walked);
    let l = walker(SchemaVersion::V11);
    let lg = NodeGraph {
        nodes: vec![node("List", vec![("length", Value::Scalar(2)), ("head", Value::Cells(Some(0)))]), var(1), var(2)],
        cells: vec![ListCell { value: Some(1), next: Some(1) }, ListCell { value: Some(2), next: None }],
    };
    assert_eq!(parse_labels(&l.render(&lg, 0)), vec!["#0".to_string(), "#1".to_string()]);
}

#[test]
fn untagged_family_member_is_not_dispatched() {
    let w = walker(SchemaVersion::V15);
    assert!(w.programs.iter().any(|p| p.struct_name == "Expr"));
    assert!(w.dispatch.iter().all(|d| d.tag != "Expr" && d.tag != "Node"));
    assert_eq!(w.route(&"Plan".to_string()).map(|k| w.programs[k].struct_name.clone()), Some("Plan".to_string()));
    let g = NodeGraph { nodes: vec![node("Expr", vec![]), node("Plan", vec![])], cells: vec![] };
    assert!(w.traverse(&g, 0).is_empty());
}

#[test]
fn union_branches_follow_version() {
    let v11 = Rules::for_version(SchemaVersion::V11);
    let v13 = Rules::for_version(SchemaVersion::V13);
    let v15 = Rules::for_version(SchemaVersion::V15);
    assert_eq!(v11.union_rule.branches.len(), 8);
    assert_eq!(v13.union_rule.branches.len(), 9);
    assert_eq!(v11.union_rule.branches[2].fields, vec!["joinaliasvars".to_string()]);
    assert_eq!(v13.union_rule.branches[2].fields.len(), 3);
    assert_eq!(v15.union_rule.branches[2].fields.last(), Some(&"join_using_alias".to_string()));
    assert!(v15.union_rule.branches[8].fields.is_empty());
}

#[test]
fn bound_table_follows_version() {
    let has = |r: &Rules, s: &str, f: &str| r.bounds.iter().any(|b| b.struct_name == s && b.field_name == f);
    let v11 = Rules::for_version(SchemaVersion::V11);
    let v14 = Rules::for_version(SchemaVersion::V14);
    assert!(has(&v11, "AggState", "aggcontexts"));
    assert!(!has(&v11, "AppendState", "as_asyncplans"));
    assert!(has(&v14, "AppendState", "as_asyncplans"));
    assert!(has(&v11, "ModifyTableState", "mt_plans"));
    assert!(!has(&v14, "ModifyTableState", "mt_plans"));
    let opaque = v14.bounds.iter().find(|b| b.struct_name == "PlannerInfo" && b.field_name == "join_rel_level").unwrap();
    assert!(opaque.bound.is_none());
    let gm = v14.bounds.iter().find(|b| b.struct_name == "GatherMergeState" && b.field_name == "gm_slots").unwrap();
    assert!(matches!(&gm.bound, Some(BoundExpr::FieldPlus(f, 1)) if f == "nreaders"));
}

#[test]
fn field_plus_bound_counts_one_more() {
    let mut structs = base_structs();
    structs.push(def(
        "GatherMergeState",
        vec![tag_field(), field("gm_slots", ptr(ptr(path("Plan")))), field("nreaders", path("i32"))],
        13,
    ));
    let mut t = tags();
    t.push("GatherMergeState".to_string());
    let w = match generate(&Schema { structs, tags: t }, Rules::for_version(SchemaVersion::V15)) {
        Ok(w) => w,
        Err(e) => panic!("unexpected failure: {:?}", e),
    };
    let g = NodeGraph {
        nodes: vec![
            node("GatherMergeState", vec![("gm_slots", Value::PtrArray(vec![Some(1), None, Some(2)])), ("nreaders", Value::Scalar(2))]),
            node("Plan", vec![]),
            node("Plan", vec![]),
        ],
        cells: vec![],
    };
    assert_eq!(
        w.traverse(&g, 0),
        vec![enter(AccessDescriptor::ArrayElement(0), 0, 1), exit(1), enter(AccessDescriptor::ArrayElement(2), 0, 2), exit(2)]
    );
}
