use sylvia_core::utils::{assert_no_intersection, init_states, should_end, State};

#[test]
fn it_works() {}

#[test]
fn disjoint_lists_pass() {
    let a: &[&str] = &["transfer_owner", "pause"];
    let b: &[&str] = &["mint", "burn"];
    assert!(assert_no_intersection(&[a, b]).is_ok());
}

#[test]
fn shared_name_is_reported_with_both_lists() {
    let a: &[&str] = &["c", "a"];
    let b: &[&str] = &["a", "b"];
    let err = assert_no_intersection(&[a, b]).unwrap_err();
    assert_eq!(err.first, 0);
    assert_eq!(err.second, 1);
    assert_eq!(err.name, "a");
}

#[test]
fn states_start_at_the_first_name() {
    let a: &[&str] = &["x"];
    let b: &[&str] = &[];
    let states = init_states(&[a, b]);
    assert!(matches!(states[0], State::Ongoing(0)));
    assert!(matches!(states[1], State::Empty));
    assert!(!should_end(&states));
    assert!(should_end(&[State::Finished(0), State::Empty]));
}

#[test]
fn collision_that_sorts_first_is_reported() {
    let a: &[&str] = &["zeta", "send", "abc", "ab"];
    let b: &[&str] = &["other"];
    let c: &[&str] = &["ab!", "zeta", "abc"];
    let d: &[&str] = &["abc"];
    let err = assert_no_intersection(&[a, b, c, d]).unwrap_err();
    assert_eq!((err.first, err.second, err.name.as_str()), (0, 2, "abc"));
}

#[test]
fn a_name_within_one_list_is_no_collision() {
    let a: &[&str] = &["twice", "twice"];
    let b: &[&str] = &[];
    let c: &[&str] = &["Twice", "twic", "twicee"];
    assert!(assert_no_intersection(&[a, b, c]).is_ok());
    assert!(assert_no_intersection(&[]).is_ok());
    assert!(assert_no_intersection(&[a]).is_ok());
}

#[test]
fn names_are_compared_byte_by_byte() {
    let a: &[&str] = &["é", "z"];
    let b: &[&str] = &["e", "é"];
    let err = assert_no_intersection(&[b, a]).unwrap_err();
    assert_eq!((err.first, err.second, err.name.as_str()), (0, 1, "é"));
}
