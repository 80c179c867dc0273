use demand_curve_ui::page::{date_range_given, is_absolute_endpoint, prepare_time_series, request_url, Prepared, RawInput, RequestUrl};
use demand_curve_ui::text::{decimal_text, greeting, power_caption, Status};
use demand_curve_ui::timestamp::Timestamp;

fn raw(timestamp: &str, value: f64) -> RawInput<f64> {
    RawInput { timestamp: timestamp.to_string(), value }
}

#[test]
fn absolute_endpoints_start_with_http() {
    assert!(is_absolute_endpoint("http://example.com"));
    assert!(is_absolute_endpoint("https://example.com"));
    assert!(is_absolute_endpoint("httpfoo"));
    assert!(!is_absolute_endpoint("test_data.json"));
    assert!(!is_absolute_endpoint("htt"));
    assert!(!is_absolute_endpoint(""));
}

#[test]
fn absolute_endpoint_is_parsed() {
    match request_url("http://example.com", "not a url") {
        RequestUrl::Resolved(u) => assert_eq!(u, "http://example.com/"),
        _ => panic!("expected a resolved address"),
    }
    match request_url("https://example.com/data?x=1", "") {
        RequestUrl::Resolved(u) => assert_eq!(u, "https://example.com/data?x=1"),
        _ => panic!("expected a resolved address"),
    }
}

#[test]
fn invalid_absolute_endpoint_is_refused() {
    assert!(matches!(request_url("http://", "https://example.com/"), RequestUrl::InvalidEndpoint));
    assert!(matches!(request_url("http://[::1", "https://example.com/"), RequestUrl::InvalidEndpoint));
}

#[test]
fn relative_endpoint_is_read_against_the_page() {
    match request_url("test_data.json", "https://alwaysgone.github.io/demand-curve-ui/www/index.html") {
        RequestUrl::Resolved(u) => assert_eq!(u, "https://alwaysgone.github.io/demand-curve-ui/www/test_data.json"),
        _ => panic!("expected a resolved address"),
    }
    match request_url("/v1/meta", "https://alice.com/a") {
        RequestUrl::Resolved(u) => assert_eq!(u, "https://alice.com/v1/meta"),
        _ => panic!("expected a resolved address"),
    }
}

#[test]
fn relative_endpoint_against_an_invalid_page_address() {
    assert!(matches!(request_url("test_data.json", "no address"), RequestUrl::InvalidDocumentUrl));
}

#[test]
fn relative_endpoint_that_does_not_join() {
    assert!(matches!(request_url("//[::1", "https://example.com/"), RequestUrl::InvalidEndpoint));
}

#[test]
fn date_range_needs_both_ends() {
    assert!(date_range_given("2022-09-13T12:00:00Z", "2022-09-13T13:00:00Z"));
    assert!(!date_range_given("", "2022-09-13T13:00:00Z"));
    assert!(!date_range_given("2022-09-13T12:00:00Z", ""));
    assert!(!date_range_given("", ""));
}

#[test]
fn prepare_refuses_data_that_is_not_an_array() {
    assert!(matches!(prepare_time_series::<f64>(None, "a", "b"), Prepared::NotAnArray));
}

#[test]
fn prepare_refuses_the_first_invalid_reading() {
    let items = vec![raw("2022-09-13T12:00:00Z", 1.0), raw("yesterday", 2.0), raw("never", 3.0)];
    assert!(matches!(
        prepare_time_series(Some(items), "2022-09-13T12:00:00Z", "2022-09-13T13:00:00Z"),
        Prepared::InvalidInputTimestamp(1)
    ));
}

#[test]
fn prepare_refuses_an_invalid_range() {
    let items = vec![raw("2022-09-13T12:00:00Z", 1.0)];
    assert!(matches!(prepare_time_series(Some(items.clone()), "", "2022-09-13T13:00:00Z"), Prepared::InvalidFrom));
    assert!(matches!(prepare_time_series(Some(items.clone()), "2022-09-13T12:00:00Z", "13:00"), Prepared::InvalidTo));
    assert!(matches!(
        prepare_time_series(Some(items.clone()), "2022-09-13T13:00:00Z", "2022-09-13T13:00:00Z"),
        Prepared::FromNotBeforeTo
    ));
    assert!(matches!(
        prepare_time_series(Some(items), "2022-09-13T14:00:00Z", "2022-09-13T13:00:00+00:00"),
        Prepared::FromNotBeforeTo
    ));
}

#[test]
fn prepare_parses_readings_and_range() {
    let items = vec![raw("2022-09-13T12:15:00Z", 10.0), raw("2022-09-13T14:00:00+02:00", 20.0)];
    match prepare_time_series(Some(items), "2022-09-13T12:00:00Z", "2022-09-13T13:00:00Z") {
        Prepared::Ready { from, to, inputs } => {
            assert_eq!(from, Timestamp { seconds: 1_663_070_400, nanos: 0 });
            assert_eq!(to, Timestamp { seconds: 1_663_074_000, nanos: 0 });
            assert_eq!(inputs.len(), 2);
            assert_eq!(inputs[0].timestamp, Timestamp { seconds: 1_663_071_300, nanos: 0 });
            assert_eq!(inputs[0].value, 10.0);
            assert_eq!(inputs[1].timestamp, Timestamp { seconds: 1_663_070_400, nanos: 0 });
            assert_eq!(inputs[1].value, 20.0);
        }
        _ => panic!("expected readings to draw"),
    }
}

#[test]
fn prepare_accepts_an_empty_array() {
    match prepare_time_series::<f64>(Some(Vec::new()), "2022-09-13T12:00:00Z", "2022-09-13T13:00:00Z") {
        Prepared::Ready { inputs, .. } => assert!(inputs.is_empty()),
        _ => panic!("expected readings to draw"),
    }
}

#[test]
fn decimal_texts() {
    assert_eq!(decimal_text(0), "0");
    assert_eq!(decimal_text(7), "7");
    assert_eq!(decimal_text(10), "10");
    assert_eq!(decimal_text(1234567890), "1234567890");
    assert_eq!(decimal_text(u64::MAX), "18446744073709551615");
}

#[test]
fn greeting_text() {
    assert_eq!(greeting("World"), "Hello, World!");
    assert_eq!(greeting(""), "Hello, !");
}

#[test]
fn power_captions() {
    assert_eq!(power_caption(2), "y=x^2");
    assert_eq!(power_caption(0), "y=x^0");
    assert_eq!(power_caption(-3), "y=x^-3");
    assert_eq!(power_caption(i32::MIN), "y=x^-2147483648");
    assert_eq!(power_caption(i32::MAX), "y=x^2147483647");
}

#[test]
fn status_messages() {
    assert_eq!(Status::Waiting.message(), "nothing");
    assert_eq!(Status::InvalidUrl("ht tp".to_string()).message(), "Could not parse url ht tp");
    assert_eq!(Status::MissingDateRange.message(), "Set date range parameter");
    assert_eq!(
        Status::RequestFailed { url: "http://x/".to_string(), reason: "timeout".to_string() }.message(),
        "An error occurred while requesting http://x/: timeout"
    );
    assert_eq!(Status::NotJson("EOF".to_string()).message(), "Response is not a JSON: EOF");
    assert_eq!(Status::NotAnArray.message(), "JSON is not an array");
    assert_eq!(Status::FromNotBeforeTo.message(), "From parameter needs to be before To parameter");
    assert_eq!(Status::Drawn(42).message(), "Found JSON array with size 42");
    assert_eq!(Status::Drawn(0).message(), "Found JSON array with size 0");
}
