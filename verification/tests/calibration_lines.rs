use eqforbeginner::calibration::{
    calibration_parse_error, leading_column, parse_serial_number, scan_calibration_text, strip_outer_quotes,
    CalibrationLine, DataRow, UMIK_CALIBRATION_PARSER_VERSION,
};
use eqforbeginner::error::DspError;

fn columns(values: &[&str]) -> DataRow {
    DataRow::Columns(values.iter().map(|value| value.to_string()).collect())
}

#[test]
fn scans_a_typical_umik_header_and_mixed_delimiters() {
    let lines = scan_calibration_text(
        "\u{feff}Sens Factor = -18.435dB, SERNO: 007127277\n\
         # frequency correction phase\n\
         10.0, -2.0, 1.5\n\
         100.0\t0.0\t0.0 ; retained comment\n\
         1000.0 2.0 -1.5\n",
    )
    .unwrap();

    assert_eq!(
        lines,
        vec![
            CalibrationLine::Sensitivity {
                line: 1,
                sens_factor_token: Some("-18.435".to_string()),
                sensitivity_token: None,
                serial_number: Some("007127277".to_string()),
            },
            CalibrationLine::Data { line: 3, data: columns(&["10.0", "-2.0", "1.5"]) },
            CalibrationLine::Data { line: 4, data: columns(&["100.0", "0.0", "0.0"]) },
            CalibrationLine::Data { line: 5, data: columns(&["1000.0", "2.0", "-1.5"]) },
        ]
    );
}

#[test]
fn scans_quoted_metadata_lines() {
    let lines = scan_calibration_text("\"miniDSP UMIK-1 serial 0000000\"\n\"10.054\t-0.5\"\r\n20 0\n").unwrap();
    assert_eq!(
        lines,
        vec![
            CalibrationLine::Quoted {
                line: 1,
                leading_column: Some("miniDSP".to_string()),
                serial_number: Some("0000000".to_string()),
                data: DataRow::Malformed,
            },
            CalibrationLine::Quoted {
                line: 2,
                leading_column: Some("10.054".to_string()),
                serial_number: None,
                data: columns(&["10.054", "-0.5"]),
            },
            CalibrationLine::Data { line: 3, data: columns(&["20", "0"]) },
        ]
    );
}

#[test]
fn rows_keep_their_line_numbers_and_bad_column_counts() {
    let lines = scan_calibration_text("10 0\nbad 1\n\n; note\n1 2 3 4\n").unwrap();
    assert_eq!(
        lines,
        vec![
            CalibrationLine::Data { line: 1, data: columns(&["10", "0"]) },
            CalibrationLine::Data { line: 2, data: columns(&["bad", "1"]) },
            CalibrationLine::Data { line: 5, data: DataRow::Malformed },
        ]
    );
}

#[test]
fn blank_calibration_text_is_rejected_as_empty() {
    assert_eq!(
        scan_calibration_text(" \n").unwrap_err(),
        DspError::EmptyInput("microphone calibration text")
    );
    assert_eq!(
        scan_calibration_text("\u{feff}\t\r\n").unwrap_err(),
        DspError::EmptyInput("microphone calibration text")
    );
    // A comment is content, even though it yields no line.
    assert_eq!(scan_calibration_text("# only a comment\n").unwrap(), vec![]);
}

#[test]
fn sensitivity_headers_are_read_separately() {
    let lines = scan_calibration_text("Sens Factor = nope\nSensitivity: -18dB\n").unwrap();
    assert_eq!(
        lines,
        vec![
            CalibrationLine::Sensitivity {
                line: 1,
                sens_factor_token: None,
                sensitivity_token: None,
                serial_number: None,
            },
            CalibrationLine::Sensitivity {
                line: 2,
                sens_factor_token: None,
                sensitivity_token: Some("-18".to_string()),
                serial_number: None,
            },
        ]
    );
}

#[test]
fn serial_numbers_prefer_serno_and_ignore_case() {
    assert_eq!(parse_serial_number("SERNO: 7127-277_a, more"), Some("7127-277_a".to_string()));
    assert_eq!(parse_serial_number("Serial = X9"), Some("X9".to_string()));
    assert_eq!(parse_serial_number("serno serial 5"), Some("serial".to_string()));
    assert_eq!(parse_serial_number("no number here"), None);
}

#[test]
fn outer_quotes_are_stripped_and_trimmed() {
    assert_eq!(strip_outer_quotes("\" a b \""), ("a b".to_string(), true));
    assert_eq!(strip_outer_quotes("\"unclosed"), ("\"unclosed".to_string(), false));
    assert_eq!(strip_outer_quotes("\""), ("\"".to_string(), false));
}

#[test]
fn the_leading_column_skips_separators() {
    assert_eq!(leading_column(" ,\t12.5, 3"), Some("12.5".to_string()));
    assert_eq!(leading_column(" , "), None);
}

#[test]
fn calibration_errors_name_their_line() {
    let error = calibration_parse_error(2, "frequency must be a number in Hz".to_string());
    assert_eq!(error.to_string(), "microphone calibration line 2: frequency must be a number in Hz");
    assert_eq!(UMIK_CALIBRATION_PARSER_VERSION, "umik-calibration-parser-v2");
}
