use security_api::breakdown::calculate_rep_breakdown;

#[test]
fn simple() {
    let a = calculate_rep_breakdown(7);
    let b = calculate_rep_breakdown(7 + 7);

    assert!(a.to_string() == "Triage");
    assert!(b.to_string() == "Triage(2)");
}

#[test]
fn negative() {
    let a = calculate_rep_breakdown(-2);
    let b = calculate_rep_breakdown(-2 + -2);

    assert!(a.to_string() == "N/A");
    assert!(b.to_string() == "N/A(2)");
}

#[test]
fn none() {
    let a = calculate_rep_breakdown(0);
    let b = calculate_rep_breakdown(3);

    assert!(a.to_string() == "");
    assert!(b.to_string() == "");
}

#[test]
fn gain_is_split_largest_award_first() {
    let a = calculate_rep_breakdown(50 + 25 + 15 + 7);
    assert_eq!(a.to_string(), "High, Medium, Low, Triage");
    let c = calculate_rep_breakdown(50 + 7 + 7);
    assert_eq!(c.to_string(), "High, Triage(2)");
    let b = calculate_rep_breakdown(1234);
    assert_eq!(b.to_string(), "High(24), Medium, Triage");
}

#[test]
fn loss_is_never_read_as_spam() {
    let a = calculate_rep_breakdown(-10);
    assert_eq!(a.to_string(), "N/A(5)");
    let b = calculate_rep_breakdown(-1);
    assert_eq!(b.to_string(), "");
    let c = calculate_rep_breakdown(i32::MIN);
    assert_eq!(c.to_string(), "N/A(1073741824)");
}
