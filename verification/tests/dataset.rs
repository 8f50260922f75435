use gakumas_screenshot::dataset::{DataSet, RowError, RunData, COLUMNS};
use gakumas_screenshot::queue::OcrWorkItem;
use gakumas_screenshot::store::{
    format_csv_row, format_raw_row, header_is_due, CSV_HEADER, RAW_CSV_FILE_NAME,
};

#[test]
fn test_parse_valid_csv() {
    let csv_content = "iteration,timestamp,screenshot,s1c1,s1c2,s1c3,s2c1,s2c2,s2c3,s3c1,s3c2,s3c3
1,2026-01-15T10:00:00,test1.png,100,200,300,400,500,600,700,800,900
2,2026-01-15T10:01:00,test2.png,110,210,310,410,510,610,710,810,910";

    let dataset = DataSet::from_csv(csv_content);

    assert_eq!(dataset.len(), 2);
    assert_eq!(dataset.runs[0].iteration, 1);
    assert_eq!(dataset.runs[0].scores[0][0], 100); // s1c1
    assert_eq!(dataset.runs[0].scores[2][2], 900); // s3c3
    assert_eq!(dataset.runs[1].iteration, 2);
    assert_eq!(dataset.runs[1].scores[0][0], 110);
}

#[test]
fn test_column_values() {
    let csv_content = "iteration,timestamp,screenshot,s1c1,s1c2,s1c3,s2c1,s2c2,s2c3,s3c1,s3c2,s3c3
1,2026-01-15T10:00:00,test1.png,100,200,300,400,500,600,700,800,900
2,2026-01-15T10:01:00,test2.png,150,250,350,450,550,650,750,850,950";

    let dataset = DataSet::from_csv(csv_content);

    let s1c1_values = dataset.column_values(0, 0);
    assert_eq!(s1c1_values, vec![100, 150]);

    let s3c3_values = dataset.column_values(2, 2);
    assert_eq!(s3c3_values, vec![900, 950]);
}

#[test]
fn test_empty_csv_header_only() {
    let csv_content =
        "iteration,timestamp,screenshot,s1c1,s1c2,s1c3,s2c1,s2c2,s2c3,s3c1,s3c2,s3c3\n";

    let dataset = DataSet::from_csv(csv_content);

    assert!(dataset.is_empty());
}

#[test]
fn test_skip_empty_lines() {
    let csv_content = "iteration,timestamp,screenshot,s1c1,s1c2,s1c3,s2c1,s2c2,s2c3,s3c1,s3c2,s3c3
1,2026-01-15T10:00:00,test1.png,100,200,300,400,500,600,700,800,900

2,2026-01-15T10:01:00,test2.png,110,210,310,410,510,610,710,810,910";

    let dataset = DataSet::from_csv(csv_content);

    assert_eq!(dataset.len(), 2);
}

fn run(iteration: u32, timestamp: &str, path: &str, scores: [[u32; 3]; 3]) -> RunData {
    RunData {
        iteration,
        timestamp: timestamp.to_string(),
        screenshot_path: path.to_string(),
        scores,
    }
}

#[test]
fn parse_line_reads_twelve_columns() {
    assert_eq!(COLUMNS, 12);
    assert_eq!(
        DataSet::parse_line("7,2026-01-15T10:00:00,shots/007.png,1,2,3,4,5,6,7,8,9"),
        Ok(run(
            7,
            "2026-01-15T10:00:00",
            "shots/007.png",
            [[1, 2, 3], [4, 5, 6], [7, 8, 9]]
        ))
    );
    // columns beyond the twelfth are not looked at; a plus sign and leading zeros are fine
    assert_eq!(
        DataSet::parse_line("+07,,,0,00,4294967295,4,5,6,7,8,9,extra,-1"),
        Ok(run(7, "", "", [[0, 0, 4294967295], [4, 5, 6], [7, 8, 9]]))
    );
}

#[test]
fn parse_line_reports_each_error() {
    assert_eq!(DataSet::parse_line(""), Err(RowError::TooFewColumns(1)));
    assert_eq!(
        DataSet::parse_line("1,t,p,1,2,3,4,5,6,7,8"),
        Err(RowError::TooFewColumns(11))
    );
    assert_eq!(
        DataSet::parse_line("x,t,p,1,2,3,4,5,6,7,8,9"),
        Err(RowError::InvalidIteration)
    );
    assert_eq!(
        DataSet::parse_line(" 1,t,p,1,2,3,4,5,6,7,8,9"),
        Err(RowError::InvalidIteration)
    );
    assert_eq!(
        DataSet::parse_line("-1,t,p,1,2,3,4,5,6,7,8,9"),
        Err(RowError::InvalidIteration)
    );
    assert_eq!(
        DataSet::parse_line("4294967296,t,p,1,2,3,4,5,6,7,8,9"),
        Err(RowError::InvalidIteration)
    );
    assert_eq!(
        DataSet::parse_line("+,t,p,1,2,3,4,5,6,7,8,9"),
        Err(RowError::InvalidIteration)
    );
    assert_eq!(
        DataSet::parse_line("1,t,p,,2,3,4,5,6,7,8,9"),
        Err(RowError::InvalidScore(4))
    );
    assert_eq!(
        DataSet::parse_line("1,t,p,1,2,3,4,5.0,6,x,8,9"),
        Err(RowError::InvalidScore(8))
    );
    assert_eq!(
        DataSet::parse_line("1,t,p,1,2,3,4,5,6,7,8,9 "),
        Err(RowError::InvalidScore(12))
    );
    // the iteration is looked at before the scores
    assert_eq!(
        DataSet::parse_line("x,t,p,y,2,3,4,5,6,7,8,9"),
        Err(RowError::InvalidIteration)
    );
}

#[test]
fn from_csv_passes_over_the_header_and_bad_rows() {
    let text = "1,t,p,1,2,3,4,5,6,7,8,9\r\n\
                2,t,p,1,2,3,4,5,6,7,8,9\r\n\
                \u{3000} \t\r\n\
                bad row\n\
                3,t,p,1,2,3,4,5,6,7,8,x\n\
                4,u,q,9,8,7,6,5,4,3,2,1\r";
    let data = DataSet::from_csv(text);
    assert_eq!(
        data.runs,
        vec![
            run(2, "t", "p", [[1, 2, 3], [4, 5, 6], [7, 8, 9]]),
            // the last line has no line feed: its carriage return stays
        ]
    );
    let data = DataSet::from_csv("h\n4,u,q,9,8,7,6,5,4,3,2,1\r\n\n\n5,u,q,9,8,7,6,5,4,3,2,1");
    assert_eq!(
        data.column_values(0, 0),
        vec![9, 9]
    );
    assert_eq!(data.runs[1].iteration, 5);
    assert!(DataSet::from_csv("").is_empty());
    assert!(DataSet::from_csv("1,t,p,1,2,3,4,5,6,7,8,9").is_empty());
    assert_eq!(DataSet::from_csv("\n1,t,p,1,2,3,4,5,6,7,8,9").len(), 1);
}

#[test]
fn rows_are_written_stage_by_stage() {
    let scores = [[100, 200, 300], [400, 500, 600], [700, 800, 900]];
    assert_eq!(format_raw_row(&scores), "100,200,300,400,500,600,700,800,900");
    let item = OcrWorkItem::new(
        "screenshots/001.png".to_string(),
        1,
        "2026-01-15T10:00:00".to_string(),
    );
    assert_eq!(
        format_csv_row(&item, &scores),
        "1,2026-01-15T10:00:00,screenshots/001.png,100,200,300,400,500,600,700,800,900"
    );
    let scores = [[0, 4294967295, 0], [0, 0, 0], [0, 0, 7]];
    assert_eq!(format_raw_row(&scores), "0,4294967295,0,0,0,0,0,0,7");
}

#[test]
fn written_rows_read_back() {
    let scores = [[50339, 50796, 70859], [64997, 168009, 128450], [122130, 105901, 0]];
    let item = OcrWorkItem::new("out/s/012_x.png".to_string(), 12, "2026-01-15T10:00:00".to_string());
    let row = format_csv_row(&item, &scores);
    assert_eq!(
        DataSet::parse_line(&row),
        Ok(run(12, "2026-01-15T10:00:00", "out/s/012_x.png", scores))
    );
    let text = format!("{}\n{}\n{}\n", CSV_HEADER, row, row);
    assert_eq!(DataSet::from_csv(&text).len(), 2);
}

#[test]
fn the_header_is_written_once() {
    assert_eq!(
        CSV_HEADER,
        "iteration,timestamp,screenshot,s1c1,s1c2,s1c3,s2c1,s2c2,s2c3,s3c1,s3c2,s3c3"
    );
    assert_eq!(RAW_CSV_FILE_NAME, "rehearsal_data.csv");
    assert!(header_is_due(None));
    assert!(header_is_due(Some(0)));
    assert!(!header_is_due(Some(1)));
    assert!(!header_is_due(Some(u64::MAX)));
}
