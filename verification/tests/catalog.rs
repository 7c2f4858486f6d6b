use help_table::model::Model;

#[test]
fn wire_names_are_the_fixed_literals() {
    assert_eq!(Model::Gpt35Turbo.wire_name(), "gpt-3.5-turbo");
    assert_eq!(Model::Gpt4.wire_name(), "gpt-4");
    assert_eq!(Model::Gpt432k.wire_name(), "gpt-4-32k");
}

#[test]
fn context_sizes_are_the_fixed_literals() {
    assert_eq!(Model::Gpt35Turbo.context_size(), 4096);
    assert_eq!(Model::Gpt4.context_size(), 8192);
    assert_eq!(Model::Gpt432k.context_size(), 32768);
}

#[test]
fn cost_matches_the_literal_table() {
    // prices are in millionths of a dollar; 60_000 of them are 0.06 dollars,
    // the price of 1000 prompt and 500 completion tokens on the middle model
    let c = Model::Gpt4.cost(1000, 500);
    assert_eq!(c, 60_000);
    assert_eq!(c as f64 / 1_000_000.0, 0.06);
    assert_eq!(Model::Gpt35Turbo.cost(1000, 500), 3_000);
    assert_eq!(Model::Gpt432k.cost(1000, 500), 120_000);
}

#[test]
fn cost_is_linear_in_both_counts() {
    let a = Model::Gpt4.cost(3, 7);
    let b = Model::Gpt4.cost(5, 11);
    let sum = Model::Gpt4.cost(8, 18);
    assert_eq!(a + b, sum);
    assert_eq!(Model::Gpt4.cost(0, 0), 0);
}

#[test]
fn from_str_accepts_exactly_the_wire_names() {
    assert!(matches!(Model::from_str("gpt-3.5-turbo"), Ok(Model::Gpt35Turbo)));
    assert!(matches!(Model::from_str("gpt-4"), Ok(Model::Gpt4)));
    assert!(matches!(Model::from_str("gpt-4-32k"), Ok(Model::Gpt432k)));
    let err = Model::from_str("gpt-5").unwrap_err();
    assert_eq!(err, "gpt-5 is not a valid model");
}

#[test]
fn default_model_is_the_cheapest() {
    assert!(matches!(Model::default(), Model::Gpt35Turbo));
}
