use arrest::{function, Arrest};

struct Quiet;

impl Arrest for Quiet {}

#[test]
fn run_says_good_morning() {
    assert_eq!(Quiet.run(), "Good morning.");
}

#[test]
fn function_says_that_it_was_called() {
    assert_eq!(function(), "called `my_mod::function()`");
}
