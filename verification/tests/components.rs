use components::filter;
use components::sort;
use components::{
    filter_items, sink, source, transform, Component, ComponentKey, ComponentKind,
    ComponentsFilter, ComponentsSortFieldName, DataType, OutputId,
};

/// Generate component fixes for use with tests
fn component_fixtures() -> Vec<Component> {
    vec![
        Component::Source(source::Source(source::Data {
            component_key: ComponentKey::from("gen1"),
            component_type: "demo_logs".to_string(),
            output_type: DataType::Metric,
        })),
        Component::Source(source::Source(source::Data {
            component_key: ComponentKey::from("gen2"),
            component_type: "demo_logs".to_string(),
            output_type: DataType::Metric,
        })),
        Component::Source(source::Source(source::Data {
            component_key: ComponentKey::from("gen3"),
            component_type: "demo_logs".to_string(),
            output_type: DataType::Metric,
        })),
        Component::Transform(transform::Transform(transform::Data {
            component_key: ComponentKey::from("parse_json"),
            component_type: "json".to_string(),
            inputs: vec![OutputId::from("gen1"), OutputId::from("gen2")],
        })),
        Component::Sink(sink::Sink(sink::Data {
            component_key: ComponentKey::from("devnull"),
            component_type: "blackhole".to_string(),
            inputs: vec![OutputId::from("gen3"), OutputId::from("parse_json")],
        })),
    ]
}

#[test]
fn components_filter_contains() {
    let filter = ComponentsFilter {
        component_id: Some(vec![filter::StringFilter {
            contains: Some("gen".to_string()),
            ..Default::default()
        }]),
        ..Default::default()
    };

    let components = filter_items(component_fixtures(), &filter);

    assert_eq!(components.len(), 3);
}

#[test]
fn components_filter_equals_or() {
    let filter = ComponentsFilter {
        component_id: Some(vec![filter::StringFilter {
            equals: Some("gen1".to_string()),
            ..Default::default()
        }]),
        or: Some(vec![ComponentsFilter {
            component_id: Some(vec![filter::StringFilter {
                equals: Some("devnull".to_string()),
                ..Default::default()
            }]),
            ..Default::default()
        }]),
        ..Default::default()
    };

    let components = filter_items(component_fixtures(), &filter);

    assert_eq!(components.len(), 2);
}

#[test]
fn components_filter_and() {
    let filter = ComponentsFilter {
        component_id: Some(vec![filter::StringFilter {
            equals: Some("gen1".to_string()),
            ..Default::default()
        }]),
        component_kind: Some(vec![filter::EqualityFilter {
            equals: Some(ComponentKind::Source),
            not_equals: None,
        }]),
        ..Default::default()
    };

    let components = filter_items(component_fixtures(), &filter);

    assert_eq!(components.len(), 1);
}

#[test]
fn components_filter_and_or() {
    let filter = ComponentsFilter {
        component_id: Some(vec![filter::StringFilter {
            equals: Some("gen1".to_string()),
            ..Default::default()
        }]),
        component_kind: Some(vec![filter::EqualityFilter {
            equals: Some(ComponentKind::Source),
            not_equals: None,
        }]),
        or: Some(vec![ComponentsFilter {
            component_kind: Some(vec![filter::EqualityFilter {
                equals: Some(ComponentKind::Sink),
                not_equals: None,
            }]),
            ..Default::default()
        }]),
    };

    let components = filter_items(component_fixtures(), &filter);

    assert_eq!(components.len(), 2);
}

#[test]
fn components_sort_asc() {
    let mut components = component_fixtures();
    let fields = vec![sort::SortField::<ComponentsSortFieldName> {
        field: ComponentsSortFieldName::ComponentKey,
        direction: sort::Direction::Asc,
    }];
    sort::by_fields(&mut components, &fields);

    let expectations = ["devnull", "gen1", "gen2", "gen3", "parse_json"];

    for (i, component_id) in expectations.iter().enumerate() {
        assert_eq!(components[i].get_component_key().id(), *component_id);
    }
}

#[test]
fn components_sort_desc() {
    let mut components = component_fixtures();
    let fields = vec![sort::SortField::<ComponentsSortFieldName> {
        field: ComponentsSortFieldName::ComponentKey,
        direction: sort::Direction::Desc,
    }];
    sort::by_fields(&mut components, &fields);

    let expectations = ["parse_json", "gen3", "gen2", "gen1", "devnull"];

    for (i, component_id) in expectations.iter().enumerate() {
        assert_eq!(components[i].get_component_key().id(), *component_id);
    }
}

#[test]
fn components_sort_multi() {
    let mut components = vec![
        Component::Sink(sink::Sink(sink::Data {
            component_key: ComponentKey::from("a"),
            component_type: "blackhole".to_string(),
            inputs: vec![OutputId::from("gen3"), OutputId::from("parse_json")],
        })),
        Component::Sink(sink::Sink(sink::Data {
            component_key: ComponentKey::from("b"),
            component_type: "blackhole".to_string(),
            inputs: vec![OutputId::from("gen3"), OutputId::from("parse_json")],
        })),
        Component::Transform(transform::Transform(transform::Data {
            component_key: ComponentKey::from("c"),
            component_type: "json".to_string(),
            inputs: vec![OutputId::from("gen1"), OutputId::from("gen2")],
        })),
        Component::Source(source::Source(source::Data {
            component_key: ComponentKey::from("e"),
            component_type: "demo_logs".to_string(),
            output_type: DataType::Metric,
        })),
        Component::Source(source::Source(source::Data {
            component_key: ComponentKey::from("d"),
            component_type: "demo_logs".to_string(),
            output_type: DataType::Metric,
        })),
        Component::Source(source::Source(source::Data {
            component_key: ComponentKey::from("g"),
            component_type: "demo_logs".to_string(),
            output_type: DataType::Metric,
        })),
        Component::Source(source::Source(source::Data {
            component_key: ComponentKey::from("f"),
            component_type: "demo_logs".to_string(),
            output_type: DataType::Metric,
        })),
    ];

    let fields = vec![
        sort::SortField::<ComponentsSortFieldName> {
            field: ComponentsSortFieldName::ComponentKind,
            direction: sort::Direction::Asc,
        },
        sort::SortField::<ComponentsSortFieldName> {
            field: ComponentsSortFieldName::ComponentKey,
            direction: sort::Direction::Asc,
        },
    ];
    sort::by_fields(&mut components, &fields);

    let expectations = ["d", "e", "f", "g", "c", "a", "b"];
    for (i, component_id) in expectations.iter().enumerate() {
        assert_eq!(components[i].get_component_key().id(), *component_id);
    }
}
