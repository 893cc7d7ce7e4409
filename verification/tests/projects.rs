use punchcard::{ClockType, Operation, ProjectOperationType, Projects, StatusOperation};

#[test]
fn projects_start_empty() {
    let p = Projects::new();
    assert_eq!(p.len(), 0);
    assert!(p.is_empty());
    assert_eq!(p.get(0), None);
}

#[test]
fn projects_add_and_get() {
    let mut p = Projects::new();
    p.add("alpha".to_owned());
    p.add("beta".to_owned());
    assert_eq!(p.len(), 2);
    assert!(!p.is_empty());
    assert_eq!(p.get(0), Some(&"alpha".to_owned()));
    assert_eq!(p.get(1), Some(&"beta".to_owned()));
    assert_eq!(p.get(2), None);
}

#[test]
fn projects_remove_keeps_order() {
    let mut p = Projects::from_vec(vec![
        "alpha".to_owned(),
        "beta".to_owned(),
        "alpha".to_owned(),
        "gamma".to_owned(),
    ]);
    p.remove("alpha");
    assert_eq!(p.iter().as_slice(), ["beta".to_owned(), "gamma".to_owned()]);
}

#[test]
fn projects_remove_missing_is_noop() {
    let mut p = Projects::from_vec(vec!["alpha".to_owned()]);
    p.remove("beta");
    assert_eq!(p.len(), 1);
    assert_eq!(p.get(0), Some(&"alpha".to_owned()));
}

#[test]
fn clock_type_labels() {
    assert_eq!(ClockType::In.to_string(), "Clock in");
    assert_eq!(ClockType::Out.to_string(), "Clock out");
    assert_eq!(ClockType::Toggle.to_string(), "Toggle clock");
    assert_eq!(ClockType::default(), ClockType::Toggle);
}

#[test]
fn project_operation_labels() {
    assert_eq!(ProjectOperationType::Add.to_string(), "Add a project");
    assert_eq!(ProjectOperationType::Remove.to_string(), "Remove a project");
    assert_eq!(
        ProjectOperationType::Rename("x".to_owned()).to_string(),
        "Rename a project"
    );
}

#[test]
fn operations_carry_their_data() {
    let op = Operation::Status(StatusOperation { offset: None });
    match op {
        Operation::Status(s) => assert!(s.offset.is_none()),
        _ => panic!("wrong variant"),
    }
}
