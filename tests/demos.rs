use learn::demos::{
    arrays, expressions, human, mutability, primitive_data_type, slices, transcript, tuples, types,
};

fn float_text() -> String {
    let float: f32 = 3.14;
    float.to_string()
}

fn height_text() -> String {
    let height: f32 = 5.11;
    height.to_string()
}

#[test]
fn transcript_starts_with_greeting() {
    let lines = transcript(&float_text(), &height_text());
    assert_eq!(lines[0], "Hello, world!");
}

#[test]
fn transcript_runs_demos_in_order() {
    let lines = transcript(&float_text(), &height_text());
    let mut expected: Vec<String> = vec!["Hello, world!".to_string()];
    expected.extend(types(&float_text()));
    expected.extend(mutability());
    expected.push(human("Shashank", 25, &height_text()));
    assert_eq!(lines, expected);
    assert_eq!(lines.len(), 1 + 4 + 2 + 1 + 2 + 3 + 1);
    assert_eq!(
        lines[lines.len() - 1],
        "Human details are:\n Name: Shashank\n Age: 25\n Height: 5.11\n"
    );
}

#[test]
fn expression_value_is_fifty() {
    assert_eq!(expressions(), 50);
    assert_eq!(expressions(), 50);
}

#[test]
fn primitive_lines_in_order() {
    let lines = primitive_data_type(&float_text());
    assert_eq!(
        lines,
        vec![
            "Value of integer 8: 42",
            "Value of float 32: 3.14",
            "Value of boolean: true",
            "Value of character: z",
        ]
    );
}

#[test]
fn array_lines_are_structural() {
    let lines = arrays();
    assert_eq!(lines[0], "Values in the array of integer 8: [1, 2, 3, 4, 5]");
    assert_eq!(
        lines[1],
        "Values in the array of string slices: [\"Apple\", \"Banana\", \"Pineapple\"]"
    );
    assert_eq!(lines.len(), 2);
}

#[test]
fn tuple_line_is_structural() {
    assert_eq!(tuples(), vec!["Values in tuple: (\"Shashank\", 25, true)"]);
}

#[test]
fn slice_lines_are_structural() {
    assert_eq!(
        slices(),
        vec![
            "Values in number slice: [1, 2]",
            "Values in strings slice: [\"Elephant\", \"Lion\"]",
        ]
    );
}

#[test]
fn types_concatenates_its_parts() {
    let mut expected = primitive_data_type("2.5");
    expected.extend(arrays());
    expected.extend(tuples());
    expected.extend(slices());
    assert_eq!(types("2.5"), expected);
}

#[test]
fn mutability_lines_in_order() {
    assert_eq!(
        mutability(),
        vec!["I am ", "Now, I am not good, meh!", "Value of string slice is not "]
    );
}

#[test]
fn human_block_has_four_lines() {
    let text = human("Shashank", 25, &height_text());
    assert_eq!(text, "Human details are:\n Name: Shashank\n Age: 25\n Height: 5.11\n");
    assert_eq!(text.lines().count(), 4);
}

#[test]
fn human_accepts_any_values() {
    assert_eq!(human("", 0, "0"), "Human details are:\n Name: \n Age: 0\n Height: 0\n");
    assert_eq!(
        human("Ann", 255, "-1.5"),
        "Human details are:\n Name: Ann\n Age: 255\n Height: -1.5\n"
    );
}
