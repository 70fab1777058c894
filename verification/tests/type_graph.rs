use protosnirk::ast::{Primitive, ScopedId};
use protosnirk::check::types::concrete_type::{ConcreteType, FnType};
use protosnirk::check::types::environment::TypeId;
use protosnirk::check::types::identify::{InferenceSource, TypeGraph};

fn var(ixs: &[usize]) -> ScopedId {
    ScopedId::new(ixs.to_vec())
}

#[test]
fn concrete_types_get_one_node_each() {
    let mut graph = TypeGraph::new();
    let int_node = graph.add_concrete_type(TypeId::new(1));
    let bool_node = graph.add_concrete_type(TypeId::new(2));
    assert_eq!(int_node.index(), 0);
    assert_eq!(bool_node.index(), 1);
    assert_eq!(graph.add_concrete_type(TypeId::new(1)), int_node);
}

#[test]
fn variables_get_one_node_each() {
    let mut graph = TypeGraph::default();
    let a = graph.add_variable(var(&[1]));
    let b = graph.add_variable(var(&[1, 2]));
    assert_eq!(a.index(), 0);
    assert_eq!(b.index(), 1);
    assert_eq!(graph.add_variable(var(&[1])), a);
}

#[test]
fn inference_follows_edges_to_a_concrete_type() {
    let mut graph = TypeGraph::new();
    let a = graph.add_variable(var(&[1]));
    let b = graph.add_variable(var(&[2]));
    let float = graph.add_concrete_type(TypeId::new(7));
    assert_eq!(graph.add_inference(a, b, InferenceSource::Assignment).index(), 0);
    assert_eq!(graph.add_inference(b, float, InferenceSource::NumericOperator).index(), 1);
    assert_eq!(graph.infer_type_of_var(&var(&[1])), Some(TypeId::new(7)));
    assert_eq!(graph.infer_type_of_var(&var(&[2])), Some(TypeId::new(7)));
    // The inference is recorded as a new edge.
    assert_eq!(graph.add_inference(a, b, InferenceSource::Assignment).index(), 4);
}

#[test]
fn inference_without_a_reachable_type_finds_nothing() {
    let mut graph = TypeGraph::new();
    let a = graph.add_variable(var(&[1]));
    let b = graph.add_variable(var(&[2]));
    let int = graph.add_concrete_type(TypeId::new(1));
    graph.add_inference(a, b, InferenceSource::Assignment);
    // An edge into `a` does not make the type reachable from it.
    graph.add_inference(int, a, InferenceSource::Assignment);
    assert_eq!(graph.infer_type_of_var(&var(&[1])), None);
    assert_eq!(graph.infer_type_of_var(&var(&[2])), None);
    assert_eq!(graph.add_inference(a, b, InferenceSource::Assignment).index(), 2);
}

#[test]
fn inference_walks_around_cycles() {
    let mut graph = TypeGraph::new();
    let a = graph.add_variable(var(&[1]));
    let b = graph.add_variable(var(&[2]));
    let c = graph.add_variable(var(&[3]));
    let boolean = graph.add_concrete_type(TypeId::new(3));
    graph.add_inference(a, b, InferenceSource::IfBranchesSame);
    graph.add_inference(b, a, InferenceSource::IfBranchesSame);
    graph.add_inference(b, c, InferenceSource::IfBranchesSame);
    graph.add_inference(c, boolean, InferenceSource::IfConditionalBool);
    assert_eq!(graph.infer_type_of_var(&var(&[1])), Some(TypeId::new(3)));
}

#[test]
fn identified_types_are_numbered_from_zero() {
    let mut graph = TypeGraph::new();
    let int = ConcreteType::Primitive(Primitive::Int);
    let boolean = ConcreteType::Primitive(Primitive::Bool);
    assert_eq!(graph.id_type(&int), TypeId::new(0));
    assert_eq!(graph.id_type(&boolean), TypeId::new(1));
    assert_eq!(graph.id_type(&int), TypeId::new(0));
    let f = ConcreteType::Function(FnType {
        ident: var(&[1]),
        args: vec![("x".to_string(), ConcreteType::Primitive(Primitive::Int))],
        ret: Box::new(ConcreteType::Primitive(Primitive::Bool)),
    });
    let g = ConcreteType::Function(FnType {
        ident: var(&[1]),
        args: vec![("y".to_string(), ConcreteType::Primitive(Primitive::Int))],
        ret: Box::new(ConcreteType::Primitive(Primitive::Bool)),
    });
    assert_eq!(graph.id_type(&f), TypeId::new(2));
    assert_eq!(graph.id_type(&g), TypeId::new(3));
    assert_eq!(graph.id_type(&f.clone()), TypeId::new(2));
}


#[test]
fn inference_takes_the_first_type_of_a_depth_first_walk() {
    // Successors are visited from the oldest edge on, each one's own
    // successors before the next.
    let mut graph = TypeGraph::new();
    let a = graph.add_variable(var(&[1]));
    let b = graph.add_variable(var(&[2]));
    let float = graph.add_concrete_type(TypeId::new(1));
    let boolean = graph.add_concrete_type(TypeId::new(2));
    graph.add_inference(a, b, InferenceSource::Assignment);
    graph.add_inference(a, float, InferenceSource::NumericOperator);
    graph.add_inference(b, boolean, InferenceSource::IfConditionalBool);
    assert_eq!(graph.infer_type_of_var(&var(&[1])), Some(TypeId::new(2)));

    let mut graph = TypeGraph::new();
    let c = graph.add_variable(var(&[3]));
    let float = graph.add_concrete_type(TypeId::new(1));
    let boolean = graph.add_concrete_type(TypeId::new(2));
    graph.add_inference(c, float, InferenceSource::NumericOperator);
    graph.add_inference(c, boolean, InferenceSource::IfConditionalBool);
    assert_eq!(graph.infer_type_of_var(&var(&[3])), Some(TypeId::new(1)));
}
