use compute_pi::error::EstimateError;
use compute_pi::steps::{StepCount, DEFAULT_STEPS};

#[test]
fn zero_steps_are_refused() {
    assert_eq!(StepCount::new(0), Err(EstimateError::InvalidArgument));
}

#[test]
fn one_step_is_accepted() {
    let steps: StepCount = StepCount::new(1).expect("one subinterval is a valid count");
    assert_eq!(steps.get(), 1);
}

#[test]
fn largest_count_is_accepted() {
    let steps: StepCount = StepCount::new(u32::MAX).expect("any positive count is valid");
    assert_eq!(steps.get(), u32::MAX);
}

#[test]
fn accepted_count_is_handed_back_unchanged() {
    let counts: [u32; 5] = [2, 3, 1000, 65_536, 4_000_000_000];
    for n in counts {
        let steps: StepCount = StepCount::new(n).expect("positive counts are valid");
        assert_eq!(steps.get(), n);
    }
}

#[test]
fn default_count_is_one_hundred_million() {
    assert_eq!(DEFAULT_STEPS, 100_000_000);
    let steps: StepCount = StepCount::new(DEFAULT_STEPS).expect("the default count is valid");
    assert_eq!(steps.get(), 100_000_000);
}

#[test]
fn copies_of_a_count_compare_equal() {
    let steps: StepCount = StepCount::new(7).expect("seven is a valid count");
    let copy: StepCount = steps;
    assert_eq!(steps, copy);
    assert_ne!(Ok(steps), StepCount::new(8));
}

#[test]
fn invalid_argument_message_names_the_constraint() {
    let text: String = EstimateError::InvalidArgument.message();
    assert_eq!(text, "invalid argument: n must be >= 1");
    assert!(text.contains("n"));
    assert!(text.contains(">= 1"));
}

#[test]
fn refusal_carries_the_message() {
    match StepCount::new(0) {
        Ok(_) => panic!("zero subintervals must be refused"),
        Err(why) => assert_eq!(why.message(), "invalid argument: n must be >= 1"),
    }
}
