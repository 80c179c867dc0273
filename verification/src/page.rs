//! The decisions of the demand-curve page: where its data comes from,
//! whether a date range is set, and what becomes of the data that came back.

use crate::fit::DemandCurveInput;
use crate::timestamp::{instant_of, rfc3339_instant, Timestamp};
use vstd::prelude::*;

verus! {

/// What `url::Url::parse` gives for a text: the serialization of the URL,
/// or `None` for an error.
pub uninterp spec fn parsed_url(text: Seq<char>) -> Option<Seq<char>>;

/// What `url::Url::join` gives for `input` against the URL that `base`
/// parses to: the serialization of the joined URL, or `None` for an error.
pub uninterp spec fn joined_url(base: Seq<char>, input: Seq<char>) -> Option<Seq<char>>;

/// The text that an optional string holds.
pub open spec fn text_of(s: Option<String>) -> Option<Seq<char>> {
    match s {
        Some(t) => Some(t@),
        None => None,
    }
}

/// Calls `url::Url::parse` and hands back the serialization of the URL
/// (`String::from`). The contract claims only that the result is a function
/// of the text, named `parsed_url`.
#[verifier::external_body]
fn url_parse(text: &str) -> (res: Option<String>)
    ensures
        text_of(res) == parsed_url(text@),
{
    match url::Url::parse(text) {
        Ok(u) => Some(String::from(u)),
        Err(_) => None,
    }
}

/// Calls `url::Url::join` on the URL that `base` parses to (it turns `base`
/// back into a `url::Url` with `url::Url::parse`) and hands back the
/// serialization of the result. The contract claims only that the result is
/// a function of the two texts, named `joined_url`.
#[verifier::external_body]
fn url_join(base: &str, input: &str) -> (res: Option<String>)
    ensures
        text_of(res) == joined_url(base@, input@),
{
    match url::Url::parse(base) {
        Ok(b) => match b.join(input) {
            Ok(u) => Some(String::from(u)),
            Err(_) => None,
        },
        Err(_) => None,
    }
}

/// The text starts with "http".
pub open spec fn starts_with_http(text: Seq<char>) -> bool {
    &&& text.len() >= 4
    &&& text[0] == 'h'
    &&& text[1] == 't'
    &&& text[2] == 't'
    &&& text[3] == 'p'
}

/// Whether the text starts with "http".
pub fn is_absolute_endpoint(text: &str) -> (res: bool)
    ensures
        res == starts_with_http(text@),
{
    let n: usize = text.unicode_len();
    n >= 4 && text.get_char(0) == 'h' && text.get_char(1) == 't' && text.get_char(2) == 't'
        && text.get_char(3) == 'p'
}

/// Where the data of the demand-curve page is asked for.
#[derive(Debug)]
pub enum RequestUrl {
    /// The serialization of the address to ask.
    Resolved(String),
    /// The data source's address does not parse.
    InvalidEndpoint,
    /// The page's own address, which a relative data source is read against,
    /// does not parse.
    InvalidDocumentUrl,
}

/// The address that the data source `endpoint` stands for: where it starts
/// with "http", the URL that it parses to; else the URL that it names
/// relative to the page's address `document_url`.
pub fn request_url(endpoint: &str, document_url: &str) -> (res: RequestUrl)
    ensures
        starts_with_http(endpoint@) ==> match res {
            RequestUrl::Resolved(u) => parsed_url(endpoint@) == Some(u@),
            RequestUrl::InvalidEndpoint => parsed_url(endpoint@) is None,
            RequestUrl::InvalidDocumentUrl => false,
        },
        !starts_with_http(endpoint@) ==> match parsed_url(document_url@) {
            None => res is InvalidDocumentUrl,
            Some(base) => match res {
                RequestUrl::Resolved(u) => joined_url(base, endpoint@) == Some(u@),
                RequestUrl::InvalidEndpoint => joined_url(base, endpoint@) is None,
                RequestUrl::InvalidDocumentUrl => false,
            },
        },
{
    if is_absolute_endpoint(endpoint) {
        match url_parse(endpoint) {
            Some(u) => RequestUrl::Resolved(u),
            None => RequestUrl::InvalidEndpoint,
        }
    } else {
        match url_parse(document_url) {
            Some(base) => match url_join(base.as_str(), endpoint) {
                Some(u) => RequestUrl::Resolved(u),
                None => RequestUrl::InvalidEndpoint,
            },
            None => RequestUrl::InvalidDocumentUrl,
        }
    }
}

/// Whether both ends of the date range are set (neither text is empty).
pub fn date_range_given(from: &str, to: &str) -> (res: bool)
    ensures
        res == (from@.len() > 0 && to@.len() > 0),
{
    !from.is_empty() && !to.is_empty()
}

/// A reading as it comes from the data source: its timestamp in RFC 3339
/// and its value.
#[derive(Clone, Debug)]
pub struct RawInput<V> {
    pub timestamp: String,
    pub value: V,
}

/// What becomes of the data that came back.
#[derive(Debug)]
pub enum Prepared<V> {
    /// Draw `inputs` over `[from, to)`.
    Ready { from: Timestamp, to: Timestamp, inputs: Vec<DemandCurveInput<V>> },
    /// The data is not an array.
    NotAnArray,
    /// The reading at this index has no valid timestamp (the first such).
    InvalidInputTimestamp(usize),
    /// The range's start is not a valid timestamp.
    InvalidFrom,
    /// The range's end is not a valid timestamp.
    InvalidTo,
    /// The range's start does not lie before its end.
    FromNotBeforeTo,
}

/// The reading's timestamp is valid RFC 3339.
pub open spec fn has_valid_timestamp<V>(item: RawInput<V>) -> bool {
    rfc3339_instant(item.timestamp@) is Some
}

/// The reading with its timestamp parsed.
pub open spec fn parsed_input<V>(item: RawInput<V>) -> DemandCurveInput<V> {
    DemandCurveInput { timestamp: instant_of(rfc3339_instant(item.timestamp@))->0, value: item.value }
}

/// Parses the readings that came back (`None` where the data is not an
/// array) and the range from `from` to `to`: refuses, in this order, data
/// that is not an array, the first reading whose timestamp is not valid
/// RFC 3339, a range start or end that is not, and a start that does not lie
/// before the end; else the parsed range and readings, in their order.
pub fn prepare_time_series<V: Copy>(items: Option<Vec<RawInput<V>>>, from: &str, to: &str) -> (res:
    Prepared<V>)
    ensures
        items is None ==> res is NotAnArray,
        items matches Some(v) ==> match res {
            Prepared::InvalidInputTimestamp(k) => {
                &&& k < v@.len()
                &&& !has_valid_timestamp(v@[k as int])
                &&& forall|j: int| 0 <= j < k ==> has_valid_timestamp(#[trigger] v@[j])
            },
            Prepared::InvalidFrom => {
                &&& forall|j: int| 0 <= j < v@.len() ==> has_valid_timestamp(#[trigger] v@[j])
                &&& rfc3339_instant(from@) is None
            },
            Prepared::InvalidTo => {
                &&& forall|j: int| 0 <= j < v@.len() ==> has_valid_timestamp(#[trigger] v@[j])
                &&& rfc3339_instant(from@) is Some
                &&& rfc3339_instant(to@) is None
            },
            Prepared::FromNotBeforeTo => {
                &&& forall|j: int| 0 <= j < v@.len() ==> has_valid_timestamp(#[trigger] v@[j])
                &&& instant_of(rfc3339_instant(from@)) matches Some(f)
                &&& instant_of(rfc3339_instant(to@)) matches Some(t)
                &&& !f.precedes(t)
            },
            Prepared::Ready { from: f, to: t, inputs } => {
                &&& forall|j: int| 0 <= j < v@.len() ==> has_valid_timestamp(#[trigger] v@[j])
                &&& instant_of(rfc3339_instant(from@)) == Some(f)
                &&& instant_of(rfc3339_instant(to@)) == Some(t)
                &&& f.precedes(t)
                &&& inputs@ == v@.map_values(|x: RawInput<V>| parsed_input(x))
            },
            Prepared::NotAnArray => false,
        },
{
    let readings = match items {
        Some(v) => v,
        None => return Prepared::NotAnArray,
    };
    let ghost s = readings@;
    let mut inputs: Vec<DemandCurveInput<V>> = Vec::new();
    let n: usize = readings.len();
    for i in 0..n
        invariant
            n == s.len(),
            s == readings@,
            items == Some(readings),
            forall|j: int| 0 <= j < i ==> has_valid_timestamp(#[trigger] s[j]),
            inputs@ =~= s.take(i as int).map_values(|x: RawInput<V>| parsed_input(x)),
    {
        let item = &readings[i];
        match Timestamp::parse_rfc3339(item.timestamp.as_str()) {
            Some(t) => {
                inputs.push(DemandCurveInput { timestamp: t, value: item.value });
                assert(s.take(i + 1) =~= s.take(i as int).push(s[i as int]));
            },
            None => return Prepared::InvalidInputTimestamp(i),
        }
    }
    assert(s.take(n as int) =~= s);
    let from_instant = match Timestamp::parse_rfc3339(from) {
        Some(t) => t,
        None => return Prepared::InvalidFrom,
    };
    let to_instant = match Timestamp::parse_rfc3339(to) {
        Some(t) => t,
        None => return Prepared::InvalidTo,
    };
    if from_instant.is_before(&to_instant) {
        Prepared::Ready { from: from_instant, to: to_instant, inputs }
    } else {
        Prepared::FromNotBeforeTo
    }
}

} // verus!
