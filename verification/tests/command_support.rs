// Shared builders live in each test file; this file checks the unmet reasons.
use majordomus_cli::command::model::{Availability, Requirement};

#[test]
fn every_requirement_has_one_sentence() {
    assert_eq!(Requirement::Always.unmet_reason(), "always available");
    assert_eq!(
        Requirement::Repository.unmet_reason(),
        "no Majordomus layer was found here"
    );
    assert_eq!(Requirement::Browser.unmet_reason(), "no browser automation runtime was found");
    let a = Availability::always();
    assert!(a.available);
    assert_eq!(a.requires, vec![Requirement::Always]);
    assert_eq!(a.reason, None);
}
