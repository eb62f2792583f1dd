use brep_kernel::objects::{Curve, Objects, Vertex};
use brep_kernel::operations::Insert;
use brep_kernel::services::{
    Validated, Validation, ValidationCommand, ValidationError, ValidationEvent,
};
use brep_kernel::storage::ObjectId;

fn error(message: &str) -> ValidationError {
    ValidationError { message: String::from(message) }
}

fn ids() -> (ObjectId, ObjectId) {
    let mut objects = Objects::new();
    let curve = Curve {}.insert(&mut objects);
    let vertex = Vertex {}.insert(&mut objects);
    (curve.id(), vertex.id())
}

fn failed(events: &[ValidationEvent]) -> Vec<Option<(ObjectId, String)>> {
    events
        .iter()
        .map(|event| match event {
            ValidationEvent::ValidationFailed { object, err } => {
                Some((*object, err.message.clone()))
            }
            ValidationEvent::ClearErrors => None,
        })
        .collect()
}

#[test]
fn validating_an_object_yields_a_failure_for_each_error() {
    let (curve, _) = ids();
    let validation = Validation::new();
    let mut events = Vec::new();

    validation.decide(
        ValidationCommand::ValidateObject {
            object: Validated { object: curve, errors: vec![error("first"), error("second")] },
        },
        &mut events,
    );

    assert_eq!(
        failed(&events),
        vec![
            Some((curve, String::from("first"))),
            Some((curve, String::from("second"))),
        ]
    );
    // deciding changes nothing
    assert_eq!(validation.num_errors(), 0);
}

#[test]
fn validating_a_sound_object_yields_nothing() {
    let (curve, _) = ids();
    let validation = Validation::new();
    let mut events = vec![ValidationEvent::ClearErrors];
    validation.decide(
        ValidationCommand::ValidateObject { object: Validated { object: curve, errors: vec![] } },
        &mut events,
    );
    assert_eq!(failed(&events), vec![None]);
}

#[test]
fn validating_only_some_objects_clears_the_errors_first() {
    let (curve, vertex) = ids();
    let validation = Validation::new();
    let mut events = Vec::new();

    validation.decide(
        ValidationCommand::OnlyValidate {
            objects: vec![
                Validated { object: curve, errors: vec![error("a")] },
                Validated { object: vertex, errors: vec![] },
                Validated { object: vertex, errors: vec![error("b"), error("c")] },
            ],
        },
        &mut events,
    );

    assert_eq!(
        failed(&events),
        vec![
            None,
            Some((curve, String::from("a"))),
            Some((vertex, String::from("b"))),
            Some((vertex, String::from("c"))),
        ]
    );

    let mut events = Vec::new();
    validation.decide(ValidationCommand::OnlyValidate { objects: vec![] }, &mut events);
    assert_eq!(failed(&events), vec![None]);
}

#[test]
fn the_record_keeps_the_last_error_of_each_object() {
    let (curve, vertex) = ids();
    let mut validation = Validation::new();
    assert_eq!(validation.num_errors(), 0);
    assert_eq!(validation.error_of(&curve), None);

    validation.evolve(&ValidationEvent::ValidationFailed { object: curve, err: error("first") });
    validation.evolve(&ValidationEvent::ValidationFailed { object: vertex, err: error("other") });
    validation.evolve(&ValidationEvent::ValidationFailed { object: curve, err: error("second") });

    assert_eq!(validation.num_errors(), 2);
    assert_eq!(validation.error_of(&curve), Some(&error("second")));
    assert_eq!(validation.error_of(&vertex), Some(&error("other")));

    validation.evolve(&ValidationEvent::ClearErrors);
    assert_eq!(validation.num_errors(), 0);
    assert_eq!(validation.error_of(&curve), None);
    assert_eq!(validation.error_of(&vertex), None);
}

#[test]
fn the_events_of_a_command_evolve_the_record() {
    let (curve, vertex) = ids();
    let mut validation = Validation::new();
    validation.evolve(&ValidationEvent::ValidationFailed { object: curve, err: error("stale") });

    let mut events = Vec::new();
    validation.decide(
        ValidationCommand::OnlyValidate {
            objects: vec![Validated { object: vertex, errors: vec![error("fresh")] }],
        },
        &mut events,
    );
    for event in &events {
        validation.evolve(&event.clone());
    }

    assert_eq!(validation.num_errors(), 1);
    assert_eq!(validation.error_of(&curve), None);
    assert_eq!(validation.error_of(&vertex), Some(&error("fresh")));
}
