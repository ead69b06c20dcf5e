use auto_size::auto_size::build_instance_url;
use auto_size::auto_size::classify_response;
use auto_size::auto_size::complete_lookup;
use auto_size::auto_size::derive_model_name;
use auto_size::auto_size::extract_variable_count;
use auto_size::auto_size::get_model_size;
use auto_size::auto_size::get_model_size_from_html;
use auto_size::auto_size::get_path_name;
use auto_size::auto_size::parse_cell_value;
use auto_size::auto_size::prepare_lookup;
use auto_size::auto_size::FetchOutcome;
use auto_size::error::AutoGetSizeError;
use auto_size::error::ParseError;

#[test]
fn derive_strips_suffix() {
    assert_eq!(
        derive_model_name("miplib_a-init.csv"),
        Some("miplib_a".to_string())
    );
}

#[test]
fn derive_rejects_wrong_suffix() {
    assert_eq!(derive_model_name("foo.csv"), None);
    assert_eq!(derive_model_name("markshare-init.CSV"), None);
    assert_eq!(derive_model_name("markshare-init-csv"), None);
}

#[test]
fn derive_exact_suffix_gives_empty_name() {
    assert_eq!(derive_model_name("-init.csv"), Some("".to_string()));
}

#[test]
fn derive_short_inputs() {
    assert_eq!(derive_model_name(""), None);
    assert_eq!(derive_model_name("init.csv"), None);
}

#[test]
fn path_name_of_absolute_path() {
    let r = get_path_name("/data/logs/markshare-init.csv");
    assert_eq!(r.unwrap(), "markshare-init.csv".to_string());
}

#[test]
fn path_name_of_bare_file_name() {
    assert_eq!(get_path_name("markshare-init.csv").unwrap(), "markshare-init.csv");
}

#[test]
fn path_name_ignores_trailing_separators() {
    assert_eq!(get_path_name("/usr/bin/").unwrap(), "bin");
    assert_eq!(get_path_name("/usr/bin///").unwrap(), "bin");
}

#[test]
fn path_name_skips_current_dir_component() {
    assert_eq!(get_path_name("foo/.").unwrap(), "foo");
    assert_eq!(get_path_name("./a").unwrap(), "a");
}

#[test]
fn path_name_of_root_fails() {
    match get_path_name("/") {
        Err(ParseError::PathExtraction(p)) => assert_eq!(p, "/"),
        other => panic!("expected a path-extraction failure, got {:?}", other),
    }
}

#[test]
fn path_name_of_empty_fails() {
    assert!(matches!(
        get_path_name(""),
        Err(ParseError::PathExtraction(_))
    ));
}

#[test]
fn path_name_of_parent_dir_fails() {
    assert!(matches!(
        get_path_name("a/.."),
        Err(ParseError::PathExtraction(_))
    ));
    assert!(matches!(
        get_path_name(".."),
        Err(ParseError::PathExtraction(_))
    ));
}

#[test]
fn parse_plain_number() {
    assert_eq!(parse_cell_value("42"), Some(42));
    assert_eq!(parse_cell_value("0"), Some(0));
    assert_eq!(parse_cell_value("042"), Some(42));
}

#[test]
fn parse_accepts_leading_plus() {
    assert_eq!(parse_cell_value("+42"), Some(42));
}

#[test]
fn parse_rejects_non_numbers() {
    assert_eq!(parse_cell_value("abc"), None);
    assert_eq!(parse_cell_value(""), None);
    assert_eq!(parse_cell_value("+"), None);
    assert_eq!(parse_cell_value("4 2"), None);
    assert_eq!(parse_cell_value(" 42"), None);
    assert_eq!(parse_cell_value("-42"), None);
}

#[test]
fn parse_rejects_overflow() {
    assert_eq!(parse_cell_value("99999999999999999999999999999999"), None);
    assert_eq!(parse_cell_value(&usize::MAX.to_string()), Some(usize::MAX));
}

#[test]
fn cells_value_follows_label() {
    let cells: Vec<String> = ["Name", "markshare", "Variables", "62", "Constraints", "6"]
        .iter()
        .map(|s| s.to_string())
        .collect();
    assert_eq!(extract_variable_count(&cells), Some(62));
}

#[test]
fn cells_label_in_last_position() {
    let cells: Vec<String> = vec!["Variables".to_string()];
    assert_eq!(extract_variable_count(&cells), None);
}

#[test]
fn cells_scan_stops_at_first_label() {
    let cells: Vec<String> = ["Variables", "abc", "Variables", "7"]
        .iter()
        .map(|s| s.to_string())
        .collect();
    assert_eq!(extract_variable_count(&cells), None);
}

#[test]
fn cells_label_must_match_exactly() {
    let cells: Vec<String> = [" Variables", "1", "variables", "2"]
        .iter()
        .map(|s| s.to_string())
        .collect();
    assert_eq!(extract_variable_count(&cells), None);
}

#[test]
fn html_value_follows_label() {
    let html = "<html><body><table><tr><td>Variables</td><td>42</td></tr></table></body></html>";
    assert_eq!(get_model_size_from_html(html), Some(42));
}

#[test]
fn html_scan_stops_after_first_label() {
    let html = "<table><tr><td>Variables</td><td>abc</td></tr>\
                <tr><td>Variables</td><td>7</td></tr></table>";
    assert_eq!(get_model_size_from_html(html), None);
}

#[test]
fn html_without_label_yields_nothing() {
    let html = "<table><tr><td>Constraints</td><td>42</td></tr></table>";
    assert_eq!(get_model_size_from_html(html), None);
}

#[test]
fn html_extraction_is_deterministic() {
    let html = "<table><tr><td>Variables</td><td>62</td></tr></table>";
    assert_eq!(get_model_size_from_html(html), get_model_size_from_html(html));
}

#[test]
fn html_label_across_rows() {
    let html = "<table><tr><td>Variables</td></tr><tr><td>13</td></tr></table>";
    assert_eq!(get_model_size_from_html(html), Some(13));
}

#[test]
fn url_is_built_around_the_name() {
    assert_eq!(
        build_instance_url("markshare"),
        "https://miplib.zib.de/instance_details_markshare.html"
    );
}

#[test]
fn classify_passes_success_body_through() {
    let r = classify_response("u".to_string(), 200, None, "body".to_string());
    assert_eq!(r.unwrap(), "body");
    let r = classify_response("u".to_string(), 299, None, "b".to_string());
    assert!(r.is_ok());
}

#[test]
fn classify_reports_failure_status() {
    let r = classify_response(
        "https://example.invalid/x".to_string(),
        500,
        Some("Internal Server Error".to_string()),
        String::new(),
    );
    let e = r.unwrap_err();
    assert_eq!(e.url, "https://example.invalid/x");
    assert_eq!(e.status, 500);
    assert_eq!(e.reason.as_deref(), Some("Internal Server Error"));
}

#[test]
fn end_to_end_resolves_size() {
    let name = prepare_lookup("/data/logs/markshare-init.csv").unwrap();
    assert_eq!(name, "markshare");
    let page = "<html><table><tr><td>Variables</td><td>62</td></tr></table></html>";
    let outcome = FetchOutcome::Response {
        status: 200,
        reason: Some("OK".to_string()),
        body: page.to_string(),
    };
    assert_eq!(complete_lookup(&name, outcome).unwrap(), 62);
}

#[test]
fn end_to_end_wrong_suffix_short_circuits() {
    match prepare_lookup("/data/logs/markshare.csv") {
        Err(ParseError::Size(AutoGetSizeError::WrongFormat(n))) => {
            assert_eq!(n, "markshare.csv");
        }
        other => panic!("expected a wrong-format failure, got {:?}", other),
    }
}

#[test]
fn end_to_end_remote_lookup_failure() {
    let outcome = FetchOutcome::Response {
        status: 404,
        reason: Some("Not Found".to_string()),
        body: String::new(),
    };
    match complete_lookup("markshare", outcome) {
        Err(ParseError::RemoteLookup(e)) => {
            assert_eq!(e.url, "https://miplib.zib.de/instance_details_markshare.html");
            assert_eq!(e.status, 404);
            assert_eq!(e.reason.as_deref(), Some("Not Found"));
        }
        other => panic!("expected a remote-lookup failure, got {:?}", other),
    }
}

#[test]
fn end_to_end_transport_failure() {
    let outcome = FetchOutcome::TransportFailure("connection refused".to_string());
    match complete_lookup("markshare", outcome) {
        Err(ParseError::Transport(m)) => assert_eq!(m, "connection refused"),
        other => panic!("expected a transport failure, got {:?}", other),
    }
}

#[test]
fn end_to_end_size_not_found() {
    let page = "<html><table><tr><td>Rows</td><td>9</td></tr></table></html>";
    let outcome = FetchOutcome::Response {
        status: 200,
        reason: Some("OK".to_string()),
        body: page.to_string(),
    };
    match complete_lookup("markshare", outcome) {
        Err(ParseError::Size(AutoGetSizeError::SizeNotFound(n))) => {
            assert_eq!(n, "markshare");
        }
        other => panic!("expected a size-not-found failure, got {:?}", other),
    }
}

#[test]
fn get_model_size_distinguishes_absence_from_value() {
    let hit = FetchOutcome::Response {
        status: 200,
        reason: None,
        body: "<table><tr><td>Variables</td><td>5</td></tr></table>".to_string(),
    };
    assert_eq!(get_model_size("m", hit).unwrap(), Some(5));
    let miss = FetchOutcome::Response {
        status: 200,
        reason: None,
        body: "<table><tr><td>nothing here</td></tr></table>".to_string(),
    };
    assert_eq!(get_model_size("m", miss).unwrap(), None);
}
