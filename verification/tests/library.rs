use azure_email_checker::aggregate::{aggregate, Aggregate, ProbeError};
use azure_email_checker::classify::{classify, Outcome};
use azure_email_checker::probe::{endpoint_url, request_body};
use azure_email_checker::report::{
    classification_line, completion_line, outcome_label, render_csv, render_text, summary_line,
};
use azure_email_checker::text::{contains_substring, u64_to_decimal};

fn ok_valid(address: &str) -> Result<Outcome, ProbeError> {
    Ok(Outcome::Valid(address.to_string()))
}

fn probe_failure(message: &str) -> Result<Outcome, ProbeError> {
    Err(ProbeError { message: message.to_string() })
}

#[test]
fn classify_absent_marker_is_invalid() {
    let o = classify(
        "a@x.com".to_string(),
        "{\"ThrottleStatus\":0,\"IfExistsResult\":1,\"Credentials\":null}",
    );
    assert_eq!(o, Outcome::Invalid);
}

#[test]
fn classify_exists_marker_is_valid() {
    let o = classify("b@x.com".to_string(), "{\"IfExistsResult\":0}");
    assert_eq!(o, Outcome::Valid("b@x.com".to_string()));
}

#[test]
fn classify_both_markers_prefers_invalid() {
    let o = classify(
        "a@x.com".to_string(),
        "{\"IfExistsResult\":0,\"IfExistsResult\":1}",
    );
    assert_eq!(o, Outcome::Invalid);
}

#[test]
fn classify_neither_marker_is_unknown() {
    assert_eq!(classify("a@x.com".to_string(), ""), Outcome::Unknown);
    assert_eq!(classify("a@x.com".to_string(), "garbage body"), Outcome::Unknown);
    assert_eq!(
        classify("a@x.com".to_string(), "{\"IfExistsResult\":2}"),
        Outcome::Unknown
    );
}

#[test]
fn substring_search_finds_and_rejects() {
    assert!(contains_substring("abcdef", "cde"));
    assert!(contains_substring("abcdef", ""));
    assert!(contains_substring("abcdef", "abcdef"));
    assert!(!contains_substring("abcdef", "abcdefg"));
    assert!(!contains_substring("abcdef", "xyz"));
    assert!(!contains_substring("", "a"));
}

#[test]
fn decimal_rendering_is_exact() {
    assert_eq!(u64_to_decimal(0), "0");
    assert_eq!(u64_to_decimal(7), "7");
    assert_eq!(u64_to_decimal(10), "10");
    assert_eq!(u64_to_decimal(105), "105");
    assert_eq!(u64_to_decimal(18446744073709551615), "18446744073709551615");
}

#[test]
fn aggregate_two_addresses_one_valid() {
    let results = vec![
        Ok(classify("a@x.com".to_string(), "{\"IfExistsResult\":1}")),
        Ok(classify("b@x.com".to_string(), "{\"IfExistsResult\":0}")),
    ];
    let agg: Aggregate = aggregate(&results);
    assert_eq!(agg.total, 2);
    assert_eq!(agg.valid, 1);
    assert_eq!(agg.valid_list, vec!["b@x.com".to_string()]);
    assert_eq!(render_text(&agg.valid_list), "b@x.com\n");
    assert_eq!(render_csv(&agg.valid_list), Some("0,b@x.com\n".to_string()));
}

#[test]
fn aggregate_empty_input() {
    let results: Vec<Result<Outcome, ProbeError>> = vec![];
    let agg = aggregate(&results);
    assert_eq!(agg.total, 0);
    assert_eq!(agg.valid, 0);
    assert!(agg.valid_list.is_empty());
    assert_eq!(render_text(&agg.valid_list), "");
    assert_eq!(render_csv(&agg.valid_list), Some(String::new()));
}

#[test]
fn aggregate_counts_failures_in_total_only() {
    let results = vec![
        probe_failure("connection refused"),
        ok_valid("c@x.com"),
        Ok(Outcome::Unknown),
    ];
    let agg = aggregate(&results);
    assert_eq!(agg.total, 3);
    assert_eq!(agg.valid, 1);
    assert_eq!(agg.valid_list, vec!["c@x.com".to_string()]);
}

#[test]
fn aggregate_never_lists_unknown_or_invalid() {
    let results = vec![Ok(Outcome::Unknown), Ok(Outcome::Invalid), Ok(Outcome::Unknown)];
    let agg = aggregate(&results);
    assert_eq!(agg.total, 3);
    assert_eq!(agg.valid, 0);
    assert!(agg.valid_list.is_empty());
}

#[test]
fn aggregate_is_order_independent() {
    let forward = vec![
        ok_valid("a@x.com"),
        Ok(Outcome::Invalid),
        ok_valid("b@x.com"),
        probe_failure("timeout"),
    ];
    let backward: Vec<Result<Outcome, ProbeError>> =
        forward.iter().cloned().rev().collect();
    let agg_f = aggregate(&forward);
    let agg_b = aggregate(&backward);
    assert_eq!(agg_f.total, agg_b.total);
    assert_eq!(agg_f.valid, agg_b.valid);
    let mut list_f = agg_f.valid_list.clone();
    let mut list_b = agg_b.valid_list.clone();
    list_f.sort();
    list_b.sort();
    assert_eq!(list_f, list_b);
}

#[test]
fn text_and_csv_sinks_agree_row_by_row() {
    let valids = vec![
        "a@x.com".to_string(),
        "b@x.com".to_string(),
        "c@x.com".to_string(),
    ];
    assert_eq!(render_text(&valids), "a@x.com\nb@x.com\nc@x.com\n");
    assert_eq!(
        render_csv(&valids),
        Some("0,a@x.com\n1,b@x.com\n2,c@x.com\n".to_string())
    );
    let csv = render_csv(&valids).unwrap();
    for (i, line) in csv.lines().enumerate() {
        assert_eq!(line, format!("{},{}", i, valids[i]));
        assert!(render_text(&valids).lines().nth(i) == Some(valids[i].as_str()));
    }
}

#[test]
fn csv_quotes_a_field_with_comma() {
    let valids = vec!["a,b@x.com".to_string()];
    assert_eq!(render_csv(&valids), Some("0,\"a,b@x.com\"\n".to_string()));
}

#[test]
fn csv_doubles_quotes_in_a_quoted_field() {
    let valids = vec!["a\"b@x.com".to_string()];
    assert_eq!(render_csv(&valids), Some("0,\"a\"\"b@x.com\"\n".to_string()));
}

#[test]
fn summary_line_matches_format() {
    let out = "valid.txt".to_string();
    assert_eq!(
        summary_line(1, 2, Some(&out)),
        "Validation completed: 1 valid emails out of 2 processed. Results saved to 'valid.txt'"
    );
    assert_eq!(
        summary_line(0, 0, None),
        "Validation completed: 0 valid emails out of 0 processed. Results saved to 'No file specified'"
    );
}

#[test]
fn completion_line_matches_format() {
    assert_eq!(completion_line("a@x.com"), "Checking completed for: a@x.com");
}

#[test]
fn classification_lines_per_outcome() {
    let valid = Outcome::Valid("a@x.com".to_string());
    assert_eq!(
        classification_line("a@x.com", &valid),
        Some("a@x.com - VALID".to_string())
    );
    assert_eq!(
        classification_line("a@x.com", &Outcome::Invalid),
        Some("a@x.com - INVALID".to_string())
    );
    assert_eq!(classification_line("a@x.com", &Outcome::Unknown), None);
    assert_eq!(outcome_label(&valid), Some("VALID"));
    assert_eq!(outcome_label(&Outcome::Invalid), Some("INVALID"));
    assert_eq!(outcome_label(&Outcome::Unknown), None);
}

#[test]
fn request_body_embeds_address_verbatim() {
    assert_eq!(request_body("a@x.com"), "{\"Username\":\"a@x.com\"}");
    assert_eq!(request_body("a\"b"), "{\"Username\":\"a\"b\"}");
    assert_eq!(request_body(""), "{\"Username\":\"\"}");
}

#[test]
fn endpoint_is_the_fixed_url() {
    assert_eq!(
        endpoint_url(),
        "https://login.microsoftonline.com/common/GetCredentialType"
    );
}
