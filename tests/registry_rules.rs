use course_registry::registry::{course_registry_create_course, CourseStore};
use course_registry::text::{decimal_string, is_blank_title, normalized_title};
use course_registry::{Course, CourseError};

fn create(store: &mut CourseStore, title: &str, price: u128) -> Result<Course, CourseError> {
    course_registry_create_course(
        store,
        String::from("GCREATOR"),
        String::from(title),
        String::from("description"),
        price,
        None,
        None,
        None,
    )
}

#[test]
fn valid_request_gets_counter_plus_one() {
    let mut store = CourseStore::new();
    create(&mut store, "First", 10).unwrap();
    assert_eq!(store.counter(), 1);
    let course = create(&mut store, "Second", 10).unwrap();
    assert_eq!(course.id, "2");
    assert_eq!(course.creator, "GCREATOR");
    assert_eq!(store.counter(), 2);
}

#[test]
fn ids_follow_calls_in_order() {
    let mut store = CourseStore::new();
    for n in 1..=12u128 {
        let course = create(&mut store, &format!("Course number {}", n), 5).unwrap();
        assert_eq!(course.id, n.to_string());
    }
    assert_eq!(store.counter(), 12);
}

#[test]
fn title_differing_in_case_is_duplicate() {
    let mut store = CourseStore::new();
    create(&mut store, "Title", 1).unwrap();
    assert_eq!(create(&mut store, "TITLE", 1).unwrap_err(), CourseError::DuplicateTitle);
    assert_eq!(create(&mut store, "title", 1).unwrap_err(), CourseError::DuplicateTitle);
    assert_eq!(store.counter(), 1);
}

#[test]
fn duplicate_check_folds_case_only() {
    let mut store = CourseStore::new();
    create(&mut store, "café", 1).unwrap();
    assert!(create(&mut store, "CAFE", 1).is_ok());
    assert!(create(&mut store, "café  ", 1).is_ok());
    assert_eq!(create(&mut store, "CAFÉ", 1).unwrap_err(), CourseError::DuplicateTitle);
}

#[test]
fn blank_titles_leave_counter_alone() {
    let mut store = CourseStore::new();
    for title in ["", "   ", "\t\n", "\u{3000}\u{a0}"] {
        assert_eq!(create(&mut store, title, 100).unwrap_err(), CourseError::EmptyTitle);
        assert_eq!(store.counter(), 0);
    }
    assert!(store.get_course(&String::from("1")).is_none());
}

#[test]
fn blank_title_is_reported_before_zero_price() {
    let mut store = CourseStore::new();
    assert_eq!(create(&mut store, " ", 0).unwrap_err(), CourseError::EmptyTitle);
}

#[test]
fn zero_price_leaves_counter_alone() {
    let mut store = CourseStore::new();
    create(&mut store, "Paid", 3).unwrap();
    assert_eq!(create(&mut store, "Free", 0).unwrap_err(), CourseError::NonPositivePrice);
    assert_eq!(store.counter(), 1);
    assert!(create(&mut store, "Free", 1).is_ok());
}

#[test]
fn zero_price_is_reported_before_duplicate() {
    let mut store = CourseStore::new();
    create(&mut store, "Same", 3).unwrap();
    assert_eq!(create(&mut store, "same", 0).unwrap_err(), CourseError::NonPositivePrice);
}

#[test]
fn omitted_fields_are_absent_not_empty() {
    let mut store = CourseStore::new();
    let course = create(&mut store, "Bare", 7).unwrap();
    assert_eq!(course.category, None);
    assert_eq!(course.language, None);
    assert_eq!(course.thumbnail_url, None);
    let empty = course_registry_create_course(
        &mut store,
        String::from("GCREATOR"),
        String::from("Empty fields"),
        String::new(),
        7,
        Some(String::new()),
        None,
        Some(String::new()),
    )
    .unwrap();
    assert_eq!(empty.category, Some(String::new()));
    assert_eq!(empty.language, None);
    assert_eq!(empty.thumbnail_url, Some(String::new()));
    assert_ne!(empty.category, course.category);
}

#[test]
fn stored_course_reads_back_equal() {
    let mut store = CourseStore::new();
    let made = course_registry_create_course(
        &mut store,
        String::from("GOWNER"),
        String::from("Round Trip"),
        String::from("stored and read"),
        99,
        Some(String::from("Math")),
        None,
        Some(String::from("https://example.com/t.png")),
    )
    .unwrap();
    let stored = store.get_course(&made.id).unwrap();
    assert_eq!(stored.id, made.id);
    assert_eq!(stored.title, made.title);
    assert_eq!(stored.description, made.description);
    assert_eq!(stored.creator, made.creator);
    assert_eq!(stored.price, made.price);
    assert_eq!(stored.category, made.category);
    assert_eq!(stored.language, made.language);
    assert_eq!(stored.thumbnail_url, made.thumbnail_url);
    assert_eq!(stored.published, made.published);
    assert!(store.get_course(&String::from("2")).is_none());
}

#[test]
fn maximum_price_is_stored_exactly() {
    let mut store = CourseStore::new();
    create(&mut store, "Top", u128::MAX).unwrap();
    assert_eq!(store.get_course(&String::from("1")).unwrap().price, u128::MAX);
}

#[test]
fn taken_titles_are_lower_cased() {
    let mut store = CourseStore::new();
    create(&mut store, "Mixed Case Title", 1).unwrap();
    assert!(store.has_title(&String::from("mixed case title")));
    assert!(!store.has_title(&String::from("Mixed Case Title")));
}

#[test]
fn normalized_title_lowers_case() {
    assert_eq!(normalized_title("Programming BASICS"), "programming basics");
    assert_eq!(normalized_title("ÉCOLE"), "école");
}

#[test]
fn blank_title_detection() {
    assert!(is_blank_title(""));
    assert!(is_blank_title(" \t\r\n\u{2003}"));
    assert!(!is_blank_title("  x  "));
    assert!(!is_blank_title("\u{200b}"));
}

#[test]
fn decimal_forms() {
    assert_eq!(decimal_string(0), "0");
    assert_eq!(decimal_string(9), "9");
    assert_eq!(decimal_string(10), "10");
    assert_eq!(decimal_string(1234567890), "1234567890");
    assert_eq!(decimal_string(u128::MAX), "340282366920938463463374607431768211455");
}

#[test]
fn error_messages_name_the_rule() {
    assert_eq!(CourseError::EmptyTitle.message(), "Course error: Course Title cannot be empty");
    assert_eq!(CourseError::NonPositivePrice.message(), "Course error: Price must be greater than 0");
    assert_eq!(CourseError::DuplicateTitle.message(), "Course error: Course Title already exists");
}
