use yearsplit::error::ParseError;
use yearsplit::reader::{columns_from, parse_rows, row_from};
use yearsplit::record::InputRow;
use yearsplit::schema::{Column, Columns};

const HEADER: &str = "開講年度,科目番号,科目名 ,開講区分,科目区分,単位数,総合評価";

fn table(lines: &[&str]) -> Vec<u8> {
    let mut text = String::from(HEADER);
    text.push('\n');
    for line in lines {
        text.push_str(line);
        text.push('\n');
    }
    text.into_bytes()
}

fn row(fields: [&str; 7]) -> InputRow {
    InputRow {
        year: fields[0].to_string(),
        subject_id: fields[1].to_string(),
        subject_name: fields[2].to_string(),
        subject_type: fields[3].to_string(),
        subject_category: fields[4].to_string(),
        credits: fields[5].to_string(),
        grade: fields[6].to_string(),
    }
}

fn strings(cells: &[&str]) -> Vec<String> {
    cells.iter().map(|cell| cell.to_string()).collect()
}

#[test]
fn rows_come_in_file_order() {
    let input = table(&["2021,CS101,Intro,A,Core,2,90", "2022,CS102,Data,B,Elective,3,85"]);
    let rows = parse_rows(&input).unwrap();
    assert_eq!(
        rows,
        vec![
            row(["2021", "CS101", "Intro", "A", "Core", "2", "90"]),
            row(["2022", "CS102", "Data", "B", "Elective", "3", "85"]),
        ]
    );
}

#[test]
fn header_alone_gives_no_rows() {
    let rows = parse_rows(&table(&[])).unwrap();
    assert!(rows.is_empty());
}

#[test]
fn header_without_line_end_gives_no_rows() {
    let rows = parse_rows(HEADER.as_bytes()).unwrap();
    assert!(rows.is_empty());
}

#[test]
fn fields_are_kept_verbatim() {
    let input = table(&[" 2021 ,007,\"Intro, part \"\"one\"\"\",,科目,2.50,  A+"]);
    let rows = parse_rows(&input).unwrap();
    assert_eq!(
        rows,
        vec![row([" 2021 ", "007", "Intro, part \"one\"", "", "科目", "2.50", "  A+"])]
    );
}

#[test]
fn credits_are_not_read_as_a_number() {
    let input = table(&["2021,CS101,Intro,A,Core,02,090", "2021,CS102,Data,A,Core,two,n/a"]);
    let rows = parse_rows(&input).unwrap();
    assert_eq!(rows[0].credits, "02");
    assert_eq!(rows[0].grade, "090");
    assert_eq!(rows[1].credits, "two");
    assert_eq!(rows[1].grade, "n/a");
}

#[test]
fn empty_fields_are_values() {
    let input = table(&["2021,,,,,,"]);
    let rows = parse_rows(&input).unwrap();
    assert_eq!(rows, vec![row(["2021", "", "", "", "", "", ""])]);
}

#[test]
fn columns_are_found_by_name_not_by_place() {
    let input = "総合評価,単位数,科目区分,開講区分,科目名 ,科目番号,開講年度\n\
                 90,2,Core,A,Intro,CS101,2021\n";
    let rows = parse_rows(input.as_bytes()).unwrap();
    assert_eq!(rows, vec![row(["2021", "CS101", "Intro", "A", "Core", "2", "90"])]);
}

#[test]
fn other_columns_are_passed_over() {
    let input = "備考,開講年度,科目番号,科目名 ,担当,開講区分,科目区分,単位数,総合評価\n\
                 x,2021,CS101,Intro,y,A,Core,2,90\n";
    let rows = parse_rows(input.as_bytes()).unwrap();
    assert_eq!(rows, vec![row(["2021", "CS101", "Intro", "A", "Core", "2", "90"])]);
}

#[test]
fn each_missing_column_is_refused() {
    let names = ["開講年度", "科目番号", "科目名 ", "開講区分", "科目区分", "単位数", "総合評価"];
    let columns = [
        Column::Year,
        Column::SubjectId,
        Column::SubjectName,
        Column::SubjectType,
        Column::SubjectCategory,
        Column::Credits,
        Column::Grade,
    ];
    for left_out in 0..7 {
        let kept: Vec<&str> =
            names.iter().enumerate().filter(|(at, _)| *at != left_out).map(|(_, name)| *name).collect();
        let with_row = format!("{}\n1,2,3,4,5,6\n", kept.join(","));
        let without_row = format!("{}\n", kept.join(","));
        let expected = Err(ParseError::MissingColumn { column: columns[left_out] });
        assert_eq!(parse_rows(with_row.as_bytes()), expected);
        assert_eq!(parse_rows(without_row.as_bytes()), expected);
    }
}

#[test]
fn first_missing_column_is_named() {
    let input = "科目番号,開講区分,総合評価\na,b,c\n";
    assert_eq!(
        parse_rows(input.as_bytes()),
        Err(ParseError::MissingColumn { column: Column::Year })
    );
    let input = "開講年度,科目番号,総合評価\na,b,c\n";
    assert_eq!(
        parse_rows(input.as_bytes()),
        Err(ParseError::MissingColumn { column: Column::SubjectName })
    );
}

#[test]
fn column_names_match_exactly() {
    let without_space = "開講年度,科目番号,科目名,開講区分,科目区分,単位数,総合評価\n";
    assert_eq!(
        parse_rows(without_space.as_bytes()),
        Err(ParseError::MissingColumn { column: Column::SubjectName })
    );
    let with_space = "開講年度 ,科目番号,科目名 ,開講区分,科目区分,単位数,総合評価\n";
    assert_eq!(
        parse_rows(with_space.as_bytes()),
        Err(ParseError::MissingColumn { column: Column::Year })
    );
}

#[test]
fn english_column_names_are_not_known() {
    let input = "year,subject_id,subject_name,subject_type,subject_category,credits,grade\n\
                 2021,CS101,Intro,A,Core,2,90\n";
    assert_eq!(
        parse_rows(input.as_bytes()),
        Err(ParseError::MissingColumn { column: Column::Year })
    );
}

#[test]
fn empty_input_has_no_header() {
    assert_eq!(parse_rows(b""), Err(ParseError::MissingColumn { column: Column::Year }));
}

#[test]
fn header_that_is_not_text_is_refused() {
    let mut input = HEADER.as_bytes().to_vec();
    input.extend_from_slice(b",\xff\xfe\n2021,CS101,Intro,A,Core,2,90,x\n");
    assert!(matches!(parse_rows(&input), Err(ParseError::UnreadableHeader { .. })));
}

#[test]
fn row_that_is_not_text_is_refused() {
    let mut input = table(&["2021,CS101,Intro,A,Core,2,90"]);
    input.extend_from_slice(b"2021,CS102,\xff,A,Core,2,90\n");
    assert!(matches!(parse_rows(&input), Err(ParseError::UnreadableRow { row: 1, .. })));
}

#[test]
fn row_with_too_few_fields_is_refused() {
    let input = table(&["2021,CS101,Intro,A,Core,2,90", "2022,CS102,Data,B,Elective,3"]);
    match parse_rows(&input) {
        Err(ParseError::UnreadableRow { row, detail }) => {
            assert_eq!(row, 1);
            assert!(!detail.is_empty());
        }
        other => panic!("{:?}", other),
    }
}

#[test]
fn row_with_too_many_fields_is_refused() {
    let input = table(&["2021,CS101,Intro,A,Core,2,90,extra"]);
    assert!(matches!(parse_rows(&input), Err(ParseError::UnreadableRow { row: 0, .. })));
}

#[test]
fn first_bad_row_ends_the_reading() {
    let input = table(&[
        "2021,CS101,Intro,A,Core,2,90",
        "2021,CS102",
        "2021,CS103,Data,A,Core,2,90,extra",
    ]);
    assert!(matches!(parse_rows(&input), Err(ParseError::UnreadableRow { row: 1, .. })));
}

#[test]
fn repeated_column_makes_rows_ambiguous() {
    let header = "開講年度,科目番号,科目名 ,開講区分,科目区分,単位数,総合評価,科目番号";
    let with_row = format!("{}\n2021,CS101,Intro,A,Core,2,90,CS999\n", header);
    assert_eq!(
        parse_rows(with_row.as_bytes()),
        Err(ParseError::RepeatedColumn { row: 0, column: Column::SubjectId })
    );
    let without_row = format!("{}\n", header);
    assert_eq!(parse_rows(without_row.as_bytes()), Ok(vec![]));
}

#[test]
fn locate_gives_the_place_of_every_column() {
    let header = strings(&[
        "総合評価", "other", "単位数", "科目区分", "開講区分", "科目名 ", "科目番号", "開講年度",
    ]);
    let columns = Columns::locate(&header).unwrap();
    assert_eq!(
        columns,
        Columns {
            year: 7,
            subject_id: 6,
            subject_name: 5,
            subject_type: 4,
            subject_category: 3,
            credits: 2,
            grade: 0,
            repeated: None,
        }
    );
}

#[test]
fn locate_takes_the_first_of_a_repeated_column() {
    let header = strings(&[
        "開講年度", "総合評価", "科目番号", "科目名 ", "開講区分", "科目区分", "単位数", "総合評価",
        "科目区分",
    ]);
    let columns = Columns::locate(&header).unwrap();
    assert_eq!(columns.grade, 1);
    assert_eq!(columns.subject_category, 5);
    assert_eq!(columns.repeated, Some(Column::SubjectCategory));
}

#[test]
fn locate_refuses_an_empty_header() {
    assert_eq!(
        Columns::locate(&Vec::new()),
        Err(ParseError::MissingColumn { column: Column::Year })
    );
}

#[test]
fn read_row_picks_the_cells_under_the_columns() {
    let columns = Columns {
        year: 6,
        subject_id: 5,
        subject_name: 4,
        subject_type: 3,
        subject_category: 2,
        credits: 1,
        grade: 0,
        repeated: None,
    };
    let fields = strings(&["90", "2", "Core", "A", "Intro", "CS101", "2021", "unused"]);
    assert_eq!(
        columns.read_row(&fields, 4),
        Ok(row(["2021", "CS101", "Intro", "A", "Core", "2", "90"]))
    );
}

#[test]
fn read_row_refuses_a_short_row() {
    let columns = Columns {
        year: 0,
        subject_id: 1,
        subject_name: 2,
        subject_type: 3,
        subject_category: 4,
        credits: 5,
        grade: 6,
        repeated: None,
    };
    let fields = strings(&["2021", "CS101", "Intro", "A", "Core", "2"]);
    assert_eq!(columns.read_row(&fields, 9), Err(ParseError::ShortRow { row: 9 }));
    assert_eq!(columns.read_row(&Vec::new(), 0), Err(ParseError::ShortRow { row: 0 }));
}

#[test]
fn read_row_refuses_rows_under_a_repeated_column() {
    let columns = Columns {
        year: 0,
        subject_id: 1,
        subject_name: 2,
        subject_type: 3,
        subject_category: 4,
        credits: 5,
        grade: 6,
        repeated: Some(Column::Grade),
    };
    let fields = strings(&["2021", "CS101", "Intro", "A", "Core", "2", "90", "91"]);
    assert_eq!(
        columns.read_row(&fields, 2),
        Err(ParseError::RepeatedColumn { row: 2, column: Column::Grade })
    );
}

#[test]
fn header_names_are_those_of_the_schema() {
    assert_eq!(Column::Year.header_name(), "開講年度");
    assert_eq!(Column::SubjectId.header_name(), "科目番号");
    assert_eq!(Column::SubjectName.header_name(), "科目名 ");
    assert_eq!(Column::SubjectType.header_name(), "開講区分");
    assert_eq!(Column::SubjectCategory.header_name(), "科目区分");
    assert_eq!(Column::Credits.header_name(), "単位数");
    assert_eq!(Column::Grade.header_name(), "総合評価");
}

#[test]
fn parse_errors_describe_themselves() {
    assert_eq!(
        ParseError::MissingColumn { column: Column::Credits }.message(),
        "missing column: 単位数"
    );
    assert_eq!(
        ParseError::RepeatedColumn { row: 3, column: Column::SubjectName }.message(),
        "repeated column: 科目名 "
    );
    assert_eq!(
        ParseError::ShortRow { row: 0 }.message(),
        "row has no field under a required column"
    );
    assert_eq!(
        ParseError::UnreadableRow { row: 1, detail: "bad row".to_string() }.message(),
        "bad row"
    );
    assert_eq!(
        ParseError::UnreadableHeader { detail: "bad header".to_string() }.message(),
        "bad header"
    );
}

fn reader_error() -> csv::Error {
    let mut reader = csv::Reader::from_reader(&b"a,b\n1\n"[..]);
    reader.records().next().unwrap().unwrap_err()
}

fn schema_order() -> Columns {
    Columns {
        year: 0,
        subject_id: 1,
        subject_name: 2,
        subject_type: 3,
        subject_category: 4,
        credits: 5,
        grade: 6,
        repeated: None,
    }
}

#[test]
fn columns_from_a_header_that_was_read() {
    let header = strings(&[
        "開講年度", "科目番号", "科目名 ", "開講区分", "科目区分", "単位数", "総合評価",
    ]);
    assert_eq!(columns_from(Ok(header)), Ok(schema_order()));
    assert_eq!(
        columns_from(Ok(strings(&["開講年度"]))),
        Err(ParseError::MissingColumn { column: Column::SubjectId })
    );
}

#[test]
fn columns_from_a_header_that_was_not_read() {
    let cause = reader_error();
    let detail = cause.to_string();
    assert_eq!(columns_from(Err(cause)), Err(ParseError::UnreadableHeader { detail }));
}

#[test]
fn row_from_a_record_that_was_read() {
    let fields = strings(&["2021", "CS101", "Intro", "A", "Core", "2", "90"]);
    assert_eq!(
        row_from(&schema_order(), Ok(fields), 5),
        Ok(row(["2021", "CS101", "Intro", "A", "Core", "2", "90"]))
    );
    assert_eq!(
        row_from(&schema_order(), Ok(strings(&["2021"])), 5),
        Err(ParseError::ShortRow { row: 5 })
    );
}

#[test]
fn row_from_a_record_that_was_not_read() {
    let cause = reader_error();
    let detail = cause.to_string();
    assert_eq!(
        row_from(&schema_order(), Err(cause), 7),
        Err(ParseError::UnreadableRow { row: 7, detail })
    );
}
