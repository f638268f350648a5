use pmc::model::Model;
use pmc::model::TestModel;

#[test]
fn should_add_42_to_input() {
    let input = 7;
    let expected = 49;

    let model = TestModel::new();
    let output = model.compute(input);

    assert_eq!(expected, output);
}

#[test]
fn test_model_train_is_a_no_op() {
    let model = TestModel::new();
    model.train(3, 5);
    assert_eq!(45, model.compute(3));
}
