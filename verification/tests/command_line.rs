use yearsplit::cli::{error_line, input_path, usage_line, UsageError};

fn args(words: &[&str]) -> Vec<String> {
    words.iter().map(|word| word.to_string()).collect()
}

#[test]
fn one_argument_is_the_input_path() {
    let line = args(&["prog", "grades.csv"]);
    assert_eq!(input_path(&line), Ok(&"grades.csv".to_string()));
}

#[test]
fn no_argument_is_refused() {
    assert_eq!(input_path(&args(&["prog"])), Err(UsageError));
}

#[test]
fn two_or_more_arguments_are_refused() {
    assert_eq!(input_path(&args(&["prog", "a.csv", "b.csv"])), Err(UsageError));
    assert_eq!(input_path(&args(&["prog", "a.csv", "b.csv", "c.csv"])), Err(UsageError));
}

#[test]
fn empty_command_line_is_refused() {
    assert_eq!(input_path(&args(&[])), Err(UsageError));
}

#[test]
fn argument_is_taken_as_it_stands() {
    let line = args(&["prog", " --help "]);
    assert_eq!(input_path(&line), Ok(&" --help ".to_string()));
    let line = args(&["prog", ""]);
    assert_eq!(input_path(&line), Ok(&"".to_string()));
}

#[test]
fn usage_line_names_the_program() {
    assert_eq!(usage_line("./split"), "Usage: ./split <CSV file>");
    assert_eq!(usage_line(""), "Usage:  <CSV file>");
}

#[test]
fn error_line_has_its_prefix() {
    assert_eq!(error_line("missing column: 単位数"), "Error: missing column: 単位数");
    assert_eq!(error_line(""), "Error: ");
}
