//! Reading the two remote services' JSON.  serde_json parses the bodies and
//! reads the fields; each whole chain from response text to plain values is
//! one trusted call whose result is named, so the contracts here tie what
//! the callers receive to the text that arrived and to nothing else.

use vstd::prelude::*;
use crate::opt_str_view;
use crate::rates::raw_view;

verus! {

/// Whether `serde_json::from_str` accepts the text as a JSON document.  The
/// answer depends on the text alone.
pub uninterp spec fn json_parse_ok(s: Seq<char>) -> bool;

/// The `count` member of the document the text parses to, read as a 64-bit
/// integer; meaningful where the text is valid JSON.  The result depends on
/// the text alone.
pub uninterp spec fn count_field_of(s: Seq<char>) -> Option<int>;

/// The date text (position 6) and price text (position 3) of each element
/// of the `data` array of the document the text parses to, where they are
/// strings; an absent or non-array `data` member gives the empty sequence.
/// Meaningful where the text is valid JSON; the result depends on the text
/// alone.
pub uninterp spec fn rate_fields_of(s: Seq<char>) -> Seq<(Option<Seq<char>>, Option<Seq<char>>)>;

/// The view of an optional 64-bit integer.
pub open spec fn opt_i64_view(f: Option<i64>) -> Option<int> {
    match f {
        None => None,
        Some(v) => Some(v as int),
    }
}

/// Relies on `serde_json::from_str::<Value>`, `Value::get` with a string
/// key, and `Value::as_i64`: parses the body and reads its `count` member
/// as an integer.  `from_str` succeeds exactly on valid JSON, and the whole
/// chain is a function of the text alone.
#[verifier::external_body]
fn read_count_field(body: &str) -> (r: Option<Option<i64>>)
    ensures
        r is Some == json_parse_ok(body@),
        r matches Some(f) ==> opt_i64_view(f) == count_field_of(body@),
{
    let v: serde_json::Value = match serde_json::from_str(body) {
        Ok(v) => v,
        Err(_) => return None,
    };
    Some(v.get("count").and_then(serde_json::Value::as_i64))
}

/// Relies on `serde_json::from_str::<Value>`, `Value::get` with a string
/// key and with an index, `Value::as_array` and `Value::as_str`: parses the
/// body and reads, for each element of its `data` array, the strings at
/// positions 6 and 3.  `from_str` succeeds exactly on valid JSON, and the
/// whole chain is a function of the text alone.
#[verifier::external_body]
fn read_rate_fields(body: &str) -> (r: Option<Vec<(Option<String>, Option<String>)>>)
    ensures
        r is Some == json_parse_ok(body@),
        r matches Some(v) ==> raw_view(v@) == rate_fields_of(body@),
{
    let v: serde_json::Value = match serde_json::from_str(body) {
        Ok(v) => v,
        Err(_) => return None,
    };
    let mut out = Vec::new();
    if let Some(records) = v.get("data").and_then(serde_json::Value::as_array) {
        for rec in records {
            let date = rec.get(6).and_then(serde_json::Value::as_str).map(str::to_owned);
            let price = rec.get(3).and_then(serde_json::Value::as_str).map(str::to_owned);
            out.push((date, price));
        }
    }
    Some(out)
}

/// What a fetched count field stores: the integer if present and storable,
/// else zero rather than a failure.
pub open spec fn count_from_field(f: Option<int>) -> int {
    match f {
        None => 0,
        Some(v) => if 0 <= v <= i32::MAX {
            v
        } else {
            0
        },
    }
}

/// The stored count for a count field: missing, non-integer and unstorable
/// values all count as zero.
pub fn count_or_zero(f: Option<i64>) -> (r: i32)
    ensures
        r as int == count_from_field(opt_i64_view(f)),
{
    match f {
        None => 0,
        Some(v) => {
            if 0 <= v && v <= i32::MAX as i64 {
                v as i32
            } else {
                0
            }
        },
    }
}

/// Extracts the stored count from a listings-count response body.  `None`
/// exactly when the body is not JSON — the one recoverable per-combination
/// failure this library reports; within a JSON body, the result is the
/// body's `count` member, with missing, non-integer and unstorable values
/// counting as zero.
pub fn extract_count(body: &str) -> (r: Option<i32>)
    ensures
        r is Some == json_parse_ok(body@),
        r matches Some(c) ==> c as int == count_from_field(count_field_of(body@)),
{
    match read_count_field(body) {
        None => None,
        Some(f) => Some(count_or_zero(f)),
    }
}

/// Pulls the raw exchange-rate records out of a response body: for each
/// element of the `data` array, its date text (position 6) and its price
/// text (position 3), where they are strings.  `None` exactly when the body
/// is not JSON; a missing or non-array `data` member yields no records.
pub fn extract_rate_fields(body: &str) -> (r: Option<Vec<(Option<String>, Option<String>)>>)
    ensures
        r is Some == json_parse_ok(body@),
        r matches Some(v) ==> raw_view(v@) == rate_fields_of(body@),
{
    read_rate_fields(body)
}

/// Why one combination of the sweep is skipped.
#[derive(Clone, Copy, Debug, PartialEq, Eq, Structural)]
pub enum SkipReason {
    /// The request produced no body: a network error or the timeout.
    NoResponse,
    /// The request produced a body that is not JSON.
    BodyNotJson,
}

impl SkipReason {
    /// A human-readable description for the per-combination log line.
    pub fn message(&self) -> (r: &'static str)
        ensures
            r@ == self.message_spec(),
    {
        match self {
            SkipReason::NoResponse => "no response before the timeout",
            SkipReason::BodyNotJson => "response body was not JSON",
        }
    }

    pub open spec fn message_spec(self) -> Seq<char> {
        match self {
            SkipReason::NoResponse => "no response before the timeout"@,
            SkipReason::BodyNotJson => "response body was not JSON"@,
        }
    }
}

/// The driver's decision for one combination, given what its fetch
/// produced: the count to store, or the reason this one combination — and
/// no other — is skipped.
pub open spec fn combination_outcome_spec(fetch: Option<Seq<char>>) -> Result<int, SkipReason> {
    match fetch {
        None => Err(SkipReason::NoResponse),
        Some(b) => if json_parse_ok(b) {
            Ok(count_from_field(count_field_of(b)))
        } else {
            Err(SkipReason::BodyNotJson)
        },
    }
}

/// Decides one combination of the sweep from its fetch result (`None` for a
/// transport failure).  Every failure is a value here, never a panic, so no
/// single combination can take the run down.
pub fn combination_outcome(fetch: &Option<String>) -> (r: Result<i32, SkipReason>)
    ensures
        r matches Ok(c) ==> combination_outcome_spec(opt_str_view(*fetch)) == Ok::<
            int,
            SkipReason,
        >(c as int),
        r matches Err(e) ==> combination_outcome_spec(opt_str_view(*fetch)) == Err::<
            int,
            SkipReason,
        >(e),
{
    match fetch {
        None => Err(SkipReason::NoResponse),
        Some(b) => match extract_count(b.as_str()) {
            None => Err(SkipReason::BodyNotJson),
            Some(c) => Ok(c),
        },
    }
}

/// A failing fetch is skipped alone: in any sweep of fetch results, each
/// position's outcome depends on that position's fetch and on nothing else,
/// so a timed-out request or a non-JSON body at one position leaves every
/// other position's outcome exactly as it was.
pub proof fn lemma_sweep_outcomes_independent(
    a: Seq<Option<Seq<char>>>,
    b: Seq<Option<Seq<char>>>,
    i: int,
)
    requires
        a.len() == b.len(),
        forall|j: int| 0 <= j < a.len() && j != i ==> a[j] == b[j],
    ensures
        forall|j: int|
            0 <= j < a.len() && j != i ==> combination_outcome_spec(a[j])
                == combination_outcome_spec(b[j]),
{
}

} // verus!
