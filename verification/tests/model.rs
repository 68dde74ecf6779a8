use components::component::clone_inputs;
use components::{
    sink, source, transform, Component, ComponentChanged, ComponentKey, ComponentKind, DataType,
    OutputId,
};

fn source_of(key: &str) -> Component {
    Component::Source(source::Source(source::Data {
        component_key: ComponentKey::from(key),
        component_type: "demo_logs".to_string(),
        output_type: DataType::Log,
    }))
}

fn transform_of(key: &str) -> Component {
    Component::Transform(transform::Transform(transform::Data {
        component_key: ComponentKey::from(key),
        component_type: "json".to_string(),
        inputs: vec![OutputId::from("gen1"), OutputId::from("gen2")],
    }))
}

fn sink_of(key: &str) -> Component {
    Component::Sink(sink::Sink(sink::Data {
        component_key: ComponentKey::from(key),
        component_type: "blackhole".to_string(),
        inputs: vec![OutputId {
            component: ComponentKey::from("parse_json"),
            port: Some("errors".to_string()),
        }],
    }))
}

#[test]
fn component_key_keeps_its_identifier() {
    assert_eq!(ComponentKey::from("gen1").id(), "gen1");
    assert_eq!(ComponentKey::new("parse_json".to_string()).id(), "parse_json");
    assert_eq!(ComponentKey::from("").id(), "");
    assert_eq!(ComponentKey::from("gen1"), ComponentKey::new("gen1".to_string()));
    assert_eq!(ComponentKey::from("gen1").clone(), ComponentKey::from("gen1"));
}

#[test]
fn output_id_from_names_the_default_output() {
    let id = OutputId::from("gen1");
    assert_eq!(id.component.id(), "gen1");
    assert_eq!(id.port, None);
    let with_port = OutputId {
        component: ComponentKey::from("route"),
        port: Some("errors".to_string()),
    };
    assert_eq!(with_port.clone(), with_port);
}

#[test]
fn clone_inputs_copies_every_reference_in_order() {
    let inputs = vec![
        OutputId::from("gen1"),
        OutputId {
            component: ComponentKey::from("route"),
            port: Some("errors".to_string()),
        },
        OutputId::from("gen1"),
    ];
    assert_eq!(clone_inputs(&inputs), inputs);
    assert!(clone_inputs(&Vec::new()).is_empty());
}

#[test]
fn get_component_key_and_kind_look_through_the_kind() {
    assert_eq!(source_of("gen1").get_component_key().id(), "gen1");
    assert_eq!(transform_of("parse_json").get_component_key().id(), "parse_json");
    assert_eq!(sink_of("devnull").get_component_key().id(), "devnull");
    assert_eq!(source_of("gen1").get_component_kind(), ComponentKind::Source);
    assert_eq!(transform_of("parse_json").get_component_kind(), ComponentKind::Transform);
    assert_eq!(sink_of("devnull").get_component_kind(), ComponentKind::Sink);
}

#[test]
fn clone_copies_a_component_of_each_kind() {
    for c in [source_of("gen1"), transform_of("parse_json"), sink_of("devnull")] {
        assert_eq!(c.clone(), c);
    }
}

#[test]
fn clone_copies_a_change() {
    match ComponentChanged::Added(sink_of("devnull")).clone() {
        ComponentChanged::Added(c) => assert_eq!(c, sink_of("devnull")),
        other => panic!("not an addition: {:?}", other),
    }
    match ComponentChanged::Removed(source_of("gen1")).clone() {
        ComponentChanged::Removed(c) => assert_eq!(c, source_of("gen1")),
        other => panic!("not a removal: {:?}", other),
    }
}
