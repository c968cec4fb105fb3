use noirc_driver::context::Context;
use noirc_driver::diagnostics::FileId;
use noirc_driver::graph::{CrateGraph, CrateGraphError, CrateId};
use noirc_driver::{add_dep, prepare_crate, prepare_dependency};

fn new_context() -> Context {
    Context::new("0.10.3+test".to_string())
}

fn stdlib_index(context: &Context) -> usize {
    let mut found = None;
    for (i, unit) in context.crate_graph.crates.iter().enumerate() {
        if unit.is_stdlib {
            assert!(found.is_none(), "two stdlib crates registered");
            found = Some(i);
        }
    }
    found.expect("no stdlib crate registered")
}

fn has_std_edge(context: &Context, from: CrateId, to: usize) -> bool {
    context.crate_graph.crates[from.idx]
        .dependencies
        .iter()
        .any(|d| d.name == "std" && d.crate_id.idx == to)
}

#[test]
fn prepare_crate_wires_stdlib_dependency() {
    let mut context = new_context();
    let root = prepare_crate(&mut context, "main.nr".to_string());
    let std_idx = stdlib_index(&context);
    assert!(!context.crate_graph.crates[root.idx].is_stdlib);
    assert!(has_std_edge(&context, root, std_idx));
}

#[test]
fn prepare_dependency_wires_stdlib_dependency() {
    let mut context = new_context();
    let _root = prepare_crate(&mut context, "main.nr".to_string());
    let dep = prepare_dependency(&mut context, "dep.nr".to_string());
    let std_idx = stdlib_index(&context);
    assert!(has_std_edge(&context, dep, std_idx));
}

#[test]
fn preparing_the_same_root_twice_duplicates_nothing() {
    let mut context = new_context();
    let root1 = prepare_crate(&mut context, "main.nr".to_string());
    let crates_before = context.crate_graph.crates.len();
    let edges_before = context.crate_graph.crates[root1.idx].dependencies.len();
    let root2 = prepare_crate(&mut context, "main.nr".to_string());
    assert_eq!(root1, root2);
    assert_eq!(context.crate_graph.crates.len(), crates_before);
    assert_eq!(
        context.crate_graph.crates[root1.idx].dependencies.len(),
        edges_before
    );
}

#[test]
fn adding_the_same_named_edge_twice_duplicates_nothing() {
    let mut context = new_context();
    let root = prepare_crate(&mut context, "main.nr".to_string());
    let dep = prepare_dependency(&mut context, "dep.nr".to_string());
    add_dep(&mut context, root, dep, "helpers".to_string());
    let edges_before = context.crate_graph.crates[root.idx].dependencies.len();
    add_dep(&mut context, root, dep, "helpers".to_string());
    assert_eq!(
        context.crate_graph.crates[root.idx].dependencies.len(),
        edges_before
    );
}

#[test]
fn cyclic_dependency_is_refused() {
    let mut graph = CrateGraph::new();
    let a = graph.add_crate_root(FileId { id: 1 });
    let b = graph.add_crate(FileId { id: 2 });
    let c = graph.add_crate(FileId { id: 3 });
    assert!(graph.add_dep(a, "b".to_string(), b).is_ok());
    assert!(graph.add_dep(b, "c".to_string(), c).is_ok());
    match graph.add_dep(c, "a".to_string(), a) {
        Err(CrateGraphError::CyclicDependency { from, to }) => {
            assert_eq!(from, c);
            assert_eq!(to, a);
        }
        Ok(()) => panic!("a cycle was accepted"),
    }
    // the refused edge left the graph unchanged
    assert!(graph.crates[c.idx].dependencies.is_empty());
}

#[test]
fn self_dependency_is_refused() {
    let mut graph = CrateGraph::new();
    let a = graph.add_crate_root(FileId { id: 1 });
    assert!(graph.add_dep(a, "me".to_string(), a).is_err());
}

#[test]
fn reachability_follows_edges_transitively() {
    let mut graph = CrateGraph::new();
    let a = graph.add_crate_root(FileId { id: 1 });
    let b = graph.add_crate(FileId { id: 2 });
    let c = graph.add_crate(FileId { id: 3 });
    graph.add_dep(a, "b".to_string(), b).unwrap();
    graph.add_dep(b, "c".to_string(), c).unwrap();
    assert!(graph.can_reach(a, c));
    assert!(graph.can_reach(a, a));
    assert!(!graph.can_reach(c, a));
    assert!(!graph.can_reach(b, a));
}

#[test]
fn add_crate_root_reuses_the_crate_of_a_known_file() {
    let mut graph = CrateGraph::new();
    let a = graph.add_crate_root(FileId { id: 7 });
    let b = graph.add_crate_root(FileId { id: 7 });
    assert_eq!(a, b);
    assert_eq!(graph.crates.len(), 1);
}
