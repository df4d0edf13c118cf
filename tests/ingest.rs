use market_backtest::date::{parse_date, CalendarDate};
use market_backtest::prices::parse_price_table;
use market_backtest::rates::read_maturity_cells;
use market_backtest::table::TableError;

const HEADER: &str = "date,open,high,low,close,volume\n";

#[test]
fn date_iso_encoding() {
    let d = parse_date("2025-09-01").unwrap();
    assert_eq!(d, CalendarDate { year: 2025, month: 9, day: 1 });
}

#[test]
fn date_us_encoding() {
    let d = parse_date("12/31/1999").unwrap();
    assert_eq!(d, CalendarDate { year: 1999, month: 12, day: 31 });
}

#[test]
fn date_rejects_other_text() {
    assert!(parse_date("2025-13-01").is_none());
    assert!(parse_date("02/30/2024").is_none());
    assert!(parse_date("yesterday").is_none());
    assert!(parse_date("").is_none());
}

#[test]
fn both_date_encodings_give_same_day() {
    let text = format!("{HEADER}2025-09-01,1,2,0.5,1.5,100\n09/01/2025,1,2,0.5,1.5,100\n");
    let rows = parse_price_table(text.as_bytes()).unwrap();
    assert_eq!(rows.len(), 2);
    assert_eq!(rows[0].date, rows[1].date);
    assert_eq!(rows[0].date, CalendarDate { year: 2025, month: 9, day: 1 });
}

#[test]
fn price_rows_keep_order_and_fields() {
    let text = format!("{HEADER}2024-01-02,10,12,9,11,500\n2024-01-03,11,13,10.5,12.25,700\n");
    let rows = parse_price_table(text.as_bytes()).unwrap();
    assert_eq!(rows.len(), 2);
    assert_eq!(rows[0].open, "10");
    assert_eq!(rows[0].high, "12");
    assert_eq!(rows[0].low, "9");
    assert_eq!(rows[0].close, "11");
    assert_eq!(rows[0].volume, "500");
    assert_eq!(rows[1].close, "12.25");
    assert_eq!(rows[1].date, CalendarDate { year: 2024, month: 1, day: 3 });
}

#[test]
fn price_columns_found_by_name() {
    let text = "close,volume,extra,date,low,high,open\n7,8,x,2024-02-29,6,9,5\n";
    let rows = parse_price_table(text.as_bytes()).unwrap();
    assert_eq!(rows.len(), 1);
    assert_eq!(rows[0].open, "5");
    assert_eq!(rows[0].close, "7");
    assert_eq!(rows[0].date, CalendarDate { year: 2024, month: 2, day: 29 });
}

#[test]
fn price_table_empty_input() {
    assert!(parse_price_table(b"").unwrap().is_empty());
    assert!(parse_price_table(HEADER.as_bytes()).unwrap().is_empty());
}

#[test]
fn price_table_bad_date_names_record() {
    let text = format!("{HEADER}2024-01-02,1,1,1,1,1\n2024/01/03,1,1,1,1,1\n");
    assert_eq!(
        parse_price_table(text.as_bytes()).unwrap_err(),
        TableError::MalformedRecord { row: 2 }
    );
}

#[test]
fn price_table_missing_field_names_record() {
    let text = "date,open,high,low,close\n2024-01-02,1,1,1,1\n";
    assert_eq!(
        parse_price_table(text.as_bytes()).unwrap_err(),
        TableError::MalformedRecord { row: 1 }
    );
}

#[test]
fn price_table_unequal_rows_unreadable() {
    let text = format!("{HEADER}2024-01-02,1,1,1,1\n");
    assert_eq!(parse_price_table(text.as_bytes()).unwrap_err(), TableError::Unreadable);
}

#[test]
fn price_table_arbitrary_bytes() {
    let inputs: Vec<Vec<u8>> = vec![
        vec![0xff, 0xfe, 0x00, 0x2c, 0x0a],
        vec![0x22, 0x22, 0x22, 0x2c, 0x0a, 0x22],
        vec![0x00; 64],
        b",,,,\n\n,\n\r\r".to_vec(),
    ];
    for bytes in &inputs {
        let _ = parse_price_table(bytes);
    }
    assert_eq!(
        parse_price_table(&[0xff, 0xfe, 0x2c, 0x0a]).unwrap_err(),
        TableError::Unreadable
    );
}

#[test]
fn price_table_non_numeric_field_names_record() {
    let text = format!("{HEADER}2024-01-02,1,1,1,1,1\n2024-01-03,1,1,n/a,1,1\n2024-01-04,1,1,1,1,1\n");
    assert_eq!(
        parse_price_table(text.as_bytes()).unwrap_err(),
        TableError::MalformedRecord { row: 2 }
    );
    let blank = format!("{HEADER}2024-01-02,1,1,1,,1\n");
    assert_eq!(
        parse_price_table(blank.as_bytes()).unwrap_err(),
        TableError::MalformedRecord { row: 1 }
    );
}

#[test]
fn price_table_first_bad_record_reported() {
    let text = format!("{HEADER}2024-01-02,1,x,1,1,1\nnot a date,1,1,1,1,1\n");
    assert_eq!(
        parse_price_table(text.as_bytes()).unwrap_err(),
        TableError::MalformedRecord { row: 1 }
    );
}

#[test]
fn rate_records_without_number_passed_over() {
    let text = "date,1 Mo,3 Mo\n2024-01-02,5.5,5.4\n2024-01-03\n2024-01-04,,5.2\n01/05/2024,N/A,5.1\n2024-01-08,5.25\n";
    let cells = read_maturity_cells(text.as_bytes(), "1 Mo").unwrap();
    assert_eq!(cells, vec!["5.5".to_string(), "5.25".to_string()]);
    let longer = read_maturity_cells(text.as_bytes(), "3 Mo").unwrap();
    assert_eq!(longer, vec!["5.4".to_string(), "5.2".to_string(), "5.1".to_string()]);
}

#[test]
fn rate_unknown_maturity_gives_no_cells() {
    let text = "date,1 Mo\n2024-01-02,5.5\n2024-01-03,5.6,extra\n";
    let cells = read_maturity_cells(text.as_bytes(), "10 Yr").unwrap();
    assert!(cells.is_empty());
}

#[test]
fn rate_bad_date_names_record() {
    let text = "date,1 Mo\n2024-01-02,5.5\nsoon,5.6\n";
    assert_eq!(
        read_maturity_cells(text.as_bytes(), "1 Mo").unwrap_err(),
        TableError::MalformedRecord { row: 2 }
    );
}

#[test]
fn rate_table_empty_input() {
    assert!(read_maturity_cells(b"", "1 Mo").unwrap().is_empty());
    assert!(read_maturity_cells(b"date,1 Mo\n", "1 Mo").unwrap().is_empty());
}
