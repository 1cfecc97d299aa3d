use sub::c99::{Creds, C99Item, C99Result, C99};
use sub::error::SubError;
use sub::hackertarget::{HTResult, HackerTarget};
use sub::threatcrowd::{ThreatCrowd, ThreatCrowdResult};
use sub::threatminer::{ThreatMiner, ThreatminerResult};

#[test]
fn url_builder() {
    let correct_uri = "https://api.threatminer.org/v2/domain.php?q=hackerone.com&api=True&rt=5";
    assert_eq!(
        correct_uri,
        ThreatMiner::default().build_url("hackerone.com")
    );
}

#[test]
fn hackertarget_url_builder() {
    assert_eq!(
        "https://api.hackertarget.com/hostsearch/?q=hackerone.com",
        HackerTarget::default().build_url("hackerone.com")
    );
}

#[test]
fn threatcrowd_url_builder() {
    assert_eq!(
        "https://www.threatcrowd.org/searchApi/v2/domain/report/?domain=hackerone.com",
        ThreatCrowd::default().build_url("hackerone.com")
    );
}

#[test]
fn c99_url_builder() {
    assert_eq!(
        "https://api.c99.nl/subdomainfinder?key=SECRET&domain=hackerone.com&json",
        C99::default().build_url("hackerone.com", "SECRET")
    );
}

#[test]
fn hackertarget_parses_first_field_of_each_line() {
    let payload = "foo.example.com,1.2.3.4\nbar.example.com,5.6.7.8".to_string();
    let got = HTResult::new(payload).subdomains();
    assert_eq!(got, vec!["foo.example.com".to_string(), "bar.example.com".to_string()]);
}

#[test]
fn hackertarget_handles_crlf_and_trailing_newline() {
    let payload = "a.example.com,1.1.1.1\r\nb.example.com,2.2.2.2\r\n".to_string();
    let got = HTResult::new(payload).subdomains();
    assert_eq!(got, vec!["a.example.com".to_string(), "b.example.com".to_string()]);
}

#[test]
fn hackertarget_empty_payload_has_no_names() {
    assert!(HTResult::new(String::new()).subdomains().is_empty());
}

#[test]
fn hackertarget_line_without_comma_is_kept_whole() {
    let got = HTResult::new("plain.example.com".to_string()).subdomains();
    assert_eq!(got, vec!["plain.example.com".to_string()]);
}

#[test]
fn hackertarget_error_marker_is_source_error() {
    let err = HackerTarget::evaluate_response("error check your search parameter".to_string())
        .err()
        .unwrap();
    assert!(matches!(err, SubError::SourceError(n) if n == "HackerTarget"));
}

#[test]
fn hackertarget_data_becomes_a_batch() {
    let got = HackerTarget::evaluate_response("x.example.com,9.9.9.9".to_string()).unwrap();
    assert_eq!(got, vec!["x.example.com".to_string()]);
}

#[test]
fn hackertarget_empty_body_is_source_error() {
    let err = HackerTarget::evaluate_response(String::new()).err().unwrap();
    assert!(matches!(err, SubError::SourceError(n) if n == "HackerTarget"));
}

#[test]
fn threatcrowd_flattens_nullable_list() {
    let some = ThreatCrowdResult { subdomains: Some(vec!["a.b".to_string()]) };
    assert_eq!(some.subdomains(), vec!["a.b".to_string()]);
    let none = ThreatCrowdResult { subdomains: None };
    assert!(none.subdomains().is_empty());
}

#[test]
fn threatcrowd_empty_payload_is_source_error() {
    let err = ThreatCrowd::evaluate_response(ThreatCrowdResult { subdomains: None })
        .err()
        .unwrap();
    assert!(matches!(err, SubError::SourceError(n) if n == "ThreatCrowd"));
}

#[test]
fn threatminer_null_or_empty_is_source_error() {
    let err = ThreatMiner::evaluate_response(None).err().unwrap();
    assert!(matches!(err, SubError::SourceError(n) if n == "ThreatMiner"));
    let err = ThreatMiner::evaluate_response(Some(ThreatminerResult { results: vec![] }))
        .err()
        .unwrap();
    assert!(matches!(err, SubError::SourceError(_)));
}

#[test]
fn threatminer_results_become_a_batch() {
    let got = ThreatMiner::evaluate_response(Some(ThreatminerResult {
        results: vec!["sub.example.com".to_string()],
    }))
    .unwrap();
    assert_eq!(got, vec!["sub.example.com".to_string()]);
}

#[test]
fn c99_collects_item_subdomains() {
    let parsed = C99Result {
        subdomains: Some(vec![
            C99Item { subdomain: "one.example.com".to_string() },
            C99Item { subdomain: "two.example.com".to_string() },
        ]),
    };
    let got = C99::evaluate_response(true, Some(parsed)).unwrap();
    assert_eq!(got, vec!["one.example.com".to_string(), "two.example.com".to_string()]);
}

#[test]
fn c99_failure_paths_are_source_errors() {
    let err = C99::evaluate_response(false, None).err().unwrap();
    assert!(matches!(err, SubError::SourceError(n) if n == "C99"));
    let empty = C99Result { subdomains: None };
    let err = C99::evaluate_response(true, Some(empty)).err().unwrap();
    assert!(matches!(err, SubError::SourceError(_)));
}

#[test]
fn missing_credential_is_recoverable_and_names_the_key() {
    let err = Creds::read_creds(None).err().unwrap();
    assert!(err.is_recoverable());
    assert!(matches!(err, SubError::UnsetKeys(keys) if keys == vec!["C99_KEY".to_string()]));
}

#[test]
fn present_credential_is_read() {
    let creds = Creds::read_creds(Some("abc".to_string())).unwrap();
    assert_eq!(creds.key, "abc");
}
