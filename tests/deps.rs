use rust_exe::{infer_dependencies, SyntaxNode, UseTree};

fn names(nodes: &Vec<SyntaxNode>) -> Vec<String> {
    let mut v = infer_dependencies(nodes).to_vec();
    v.sort();
    v
}

fn global_use(tree: UseTree) -> SyntaxNode {
    SyntaxNode::Import { leading_colon: true, tree }
}

#[test]
fn global_import_names_its_crate() {
    // use ::foo::Bar;
    let nodes = vec![global_use(UseTree::Path("foo".to_string()))];
    assert_eq!(names(&nodes), vec!["foo".to_string()]);
}

#[test]
fn global_group_names_each_member() {
    // use ::{foo, bar::Baz};
    let nodes = vec![global_use(UseTree::Group(vec![
        UseTree::Name("foo".to_string()),
        UseTree::Path("bar".to_string()),
    ]))];
    assert_eq!(names(&nodes), vec!["bar".to_string(), "foo".to_string()]);
}

#[test]
fn local_import_names_nothing() {
    // use foo::Bar;
    let nodes = vec![SyntaxNode::Import { leading_colon: false, tree: UseTree::Path("foo".to_string()) }];
    assert_eq!(names(&nodes), Vec::<String>::new());
    assert_eq!(infer_dependencies(&nodes).len(), 0);
}

#[test]
fn builtin_only_sources_need_nothing() {
    let nodes = vec![
        SyntaxNode::QualifiedPath { leading_colon: true, first_segment: "std".to_string() },
        global_use(UseTree::Group(vec![
            UseTree::Path("core".to_string()),
            UseTree::Name("alloc".to_string()),
        ])),
        SyntaxNode::ExternCrate { ident: "proc_macro".to_string() },
        SyntaxNode::QualifiedPath { leading_colon: true, first_segment: "test".to_string() },
        SyntaxNode::QualifiedPath { leading_colon: false, first_segment: "serde".to_string() },
    ];
    assert_eq!(infer_dependencies(&nodes).len(), 0);
    assert_eq!(infer_dependencies(&Vec::new()).len(), 0);
}

#[test]
fn roots_are_deduplicated_and_builtins_dropped() {
    let nodes = vec![
        SyntaxNode::QualifiedPath { leading_colon: true, first_segment: "eyre".to_string() },
        SyntaxNode::QualifiedPath { leading_colon: true, first_segment: "eyre".to_string() },
        SyntaxNode::QualifiedPath { leading_colon: true, first_segment: "std".to_string() },
        global_use(UseTree::Rename("serde_json".to_string(), "json".to_string())),
        SyntaxNode::ExternCrate { ident: "rand".to_string() },
        global_use(UseTree::Path("eyre".to_string())),
    ];
    let set = infer_dependencies(&nodes);
    assert_eq!(set.len(), 3);
    assert!(set.contains(&"rand".to_string()));
    assert!(!set.contains(&"std".to_string()));
    assert_eq!(names(&nodes), vec!["eyre".to_string(), "rand".to_string(), "serde_json".to_string()]);
}

#[test]
fn globs_are_passed_over_and_nested_groups_read() {
    let nodes = vec![
        global_use(UseTree::Glob),
        global_use(UseTree::Group(vec![
            UseTree::Glob,
            UseTree::Group(vec![UseTree::Name("once_cell".to_string())]),
        ])),
    ];
    assert_eq!(names(&nodes), vec!["once_cell".to_string()]);
}
