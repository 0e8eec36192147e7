use tuner_server::Tuner;
use tuner_server::TunerRegistry;

fn tuner(name: &str, types: &[&str], disabled: bool) -> Tuner {
    Tuner {
        name: name.to_owned(),
        types: types.iter().map(|t| (*t).to_owned()).collect(),
        command: "recisdb tune --device /dev/video0 --no-strip".to_owned(),
        is_disabled: disabled,
    }
}

#[test]
fn allocates_first_free_tuner_in_catalog_order() {
    let tuners = vec![tuner("A", &["sat"], false), tuner("B", &["sat"], false)];
    let mut reg = TunerRegistry::new();
    assert_eq!(reg.try_allocate(&tuners, &"sat".to_owned()), Some(0));
    assert!(reg.contains_name(&"A".to_owned()));
}

#[test]
fn two_requests_get_two_distinct_tuners_and_a_third_gets_none() {
    let tuners = vec![tuner("A", &["sat"], false), tuner("B", &["sat"], false)];
    let mut reg = TunerRegistry::new();
    let first = reg.try_allocate(&tuners, &"sat".to_owned());
    let second = reg.try_allocate(&tuners, &"sat".to_owned());
    let third = reg.try_allocate(&tuners, &"sat".to_owned());
    assert_eq!(first, Some(0));
    assert_eq!(second, Some(1));
    assert_ne!(first, second);
    assert_eq!(third, None);
}

#[test]
fn released_tuner_becomes_eligible_again() {
    let tuners = vec![tuner("A", &["sat"], false)];
    let mut reg = TunerRegistry::new();
    assert_eq!(reg.try_allocate(&tuners, &"sat".to_owned()), Some(0));
    assert_eq!(reg.try_allocate(&tuners, &"sat".to_owned()), None);
    reg.release(&"A".to_owned());
    assert_eq!(reg.try_allocate(&tuners, &"sat".to_owned()), Some(0));
}

#[test]
fn release_of_absent_name_is_a_no_op() {
    let tuners = vec![tuner("A", &["sat"], false)];
    let mut reg = TunerRegistry::new();
    reg.release(&"A".to_owned());
    assert!(!reg.contains_name(&"A".to_owned()));
    assert_eq!(reg.try_allocate(&tuners, &"sat".to_owned()), Some(0));
    reg.release(&"A".to_owned());
    reg.release(&"A".to_owned());
    assert!(!reg.contains_name(&"A".to_owned()));
}

#[test]
fn disabled_tuner_is_never_allocated() {
    let tuners = vec![tuner("A", &["sat"], true), tuner("B", &["sat"], false)];
    let mut reg = TunerRegistry::new();
    assert_eq!(reg.try_allocate(&tuners, &"sat".to_owned()), Some(1));
    assert_eq!(reg.try_allocate(&tuners, &"sat".to_owned()), None);
}

#[test]
fn tuner_of_other_type_is_not_allocated() {
    let tuners = vec![tuner("A", &["terrestrial"], false)];
    let mut reg = TunerRegistry::new();
    assert_eq!(reg.try_allocate(&tuners, &"sat".to_owned()), None);
    assert_eq!(reg.try_allocate(&tuners, &"terrestrial".to_owned()), Some(0));
}

#[test]
fn contains_string_finds_only_exact_matches() {
    let items = vec!["sat".to_owned(), "terrestrial".to_owned()];
    assert!(tuner_server::contains_string(&items, &"sat".to_owned()));
    assert!(!tuner_server::contains_string(&items, &"cable".to_owned()));
    assert!(!tuner_server::contains_string(&items, &"sa".to_owned()));
}

#[test]
fn busy_tuner_of_one_type_does_not_block_another_type() {
    let tuners = vec![
        tuner("A", &["sat"], false),
        tuner("B", &["terrestrial"], false),
    ];
    let mut reg = TunerRegistry::new();
    assert_eq!(reg.try_allocate(&tuners, &"sat".to_owned()), Some(0));
    assert_eq!(reg.try_allocate(&tuners, &"terrestrial".to_owned()), Some(1));
    assert_eq!(reg.try_allocate(&tuners, &"sat".to_owned()), None);
}
