use kodiak::input_processor::{InputError, InputProcessor};
use kodiak::input_reader::InputReader;
use kodiak::mpc_metric_dtype::MPCMetricDType;
use kodiak::row::Row;
use kodiak::sample_columns::TestEnum;
use kodiak::tokenizer::{CSVTokenizer, Tokenizer};

struct TestInputReader;

impl InputReader for TestInputReader {
    fn next_line(&mut self) -> String {
        String::new()
    }

    fn read_all(&self) -> Vec<String> {
        vec![
            "Variant1,Variant2,Variant3".to_string(),
            "1,2,3".to_string(),
        ]
    }
}

struct FixedReader {
    lines: Vec<String>,
}

impl InputReader for FixedReader {
    fn next_line(&mut self) -> String {
        String::new()
    }

    fn read_all(&self) -> Vec<String> {
        self.lines.clone()
    }
}

fn get_expected_row() -> Row<TestEnum> {
    let mut row = Row::new();
    row.insert(TestEnum::Variant1, MPCMetricDType::MPCInt64(1));
    row.insert(TestEnum::Variant2, MPCMetricDType::MPCInt64(2));
    row
}

fn get_expected_header() -> Vec<Option<TestEnum>> {
    vec![Some(TestEnum::Variant1), Some(TestEnum::Variant2), None]
}

fn get_expected_columns() -> Vec<TestEnum> {
    vec![TestEnum::Variant1, TestEnum::Variant2]
}

fn get_test_processor() -> InputProcessor<TestEnum, CSVTokenizer, TestInputReader> {
    InputProcessor::new(get_expected_columns(), CSVTokenizer, TestInputReader)
}

#[test]
fn test_to_header() {
    let processor = get_test_processor();
    let tokens = vec![
        "Variant1".to_string(),
        "Variant2".to_string(),
        "Variant3".to_string(),
    ];
    let actual_header = processor.to_header(&tokens);
    let expected_header = get_expected_header();
    assert_eq!(expected_header, actual_header);
}

#[test]
fn test_to_row() {
    let processor = get_test_processor();
    let tokens = vec!["1".to_string(), "2".to_string(), "3".to_string()];
    let actual_row = processor.to_row(&tokens, &get_expected_header()).unwrap();
    let expected_row = get_expected_row();
    assert_eq!(expected_row, actual_row);
}

#[test]
fn test_process_input() {
    let processor = get_test_processor();
    let expected_rows = vec![get_expected_row()];
    let actual_rows = processor.process_input().unwrap();
    assert_eq!(expected_rows, actual_rows);
}

#[test]
fn csv_parse_header() {
    let tokenizer = CSVTokenizer;
    let line = "id_,values,event_timestamps";
    let expected_tokens = vec!["id_", "values", "event_timestamps"];
    let actual_tokens = tokenizer.tokenize(line);
    assert_eq!(expected_tokens, actual_tokens);
}

#[test]
fn csv_parse_row() {
    let tokenizer = CSVTokenizer;
    let line = "14,[0,0,0],[0,0,0]";
    let expected_tokens = vec!["14", "[0,0,0]", "[0,0,0]"];
    let actual_tokens = tokenizer.tokenize(line);
    assert_eq!(expected_tokens, actual_tokens);
}

#[test]
fn tokenizer_edge_cases() {
    let tokenizer = CSVTokenizer;
    // Empty fields are dropped.
    assert_eq!(vec!["a", "b"], tokenizer.tokenize("a,,b"));
    assert_eq!(Vec::<String>::new(), tokenizer.tokenize(""));
    assert_eq!(Vec::<String>::new(), tokenizer.tokenize(",,"));
    // A bracket without a closing partner falls back to plain fields.
    assert_eq!(vec!["[1", "2"], tokenizer.tokenize("[1,2"));
    // Brackets are atomic only at a field's start.
    assert_eq!(vec!["[a]", "b", "c"], tokenizer.tokenize("[a]b,c"));
}

#[test]
fn unknown_header_names_are_ignored() {
    let processor = get_test_processor();
    let tokens = vec!["id_".to_string(), "Variant2".to_string()];
    assert_eq!(
        processor.to_header(&tokens),
        vec![None, Some(TestEnum::Variant2)]
    );
}

#[test]
fn empty_input_has_no_header() {
    let processor = InputProcessor::new(
        get_expected_columns(),
        CSVTokenizer,
        FixedReader { lines: vec![] },
    );
    assert_eq!(processor.process_input().unwrap_err(), InputError::NoHeader);
}

#[test]
fn short_record_is_malformed() {
    let processor = InputProcessor::new(
        get_expected_columns(),
        CSVTokenizer,
        FixedReader {
            lines: vec![
                "Variant1,Variant2,Variant3".to_string(),
                "1,2".to_string(),
            ],
        },
    );
    assert_eq!(
        processor.process_input().unwrap_err(),
        InputError::MalformedInput
    );
}

#[test]
fn bad_token_is_reported() {
    let processor = InputProcessor::new(
        get_expected_columns(),
        CSVTokenizer,
        FixedReader {
            lines: vec![
                "Variant1,Variant2,Variant3".to_string(),
                "x,2,3".to_string(),
            ],
        },
    );
    assert_eq!(
        processor.process_input().unwrap_err(),
        InputError::UnparseableToken
    );
}
