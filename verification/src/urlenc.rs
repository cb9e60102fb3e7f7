//! Building the listings-count URL.  The url crate does the parsing and the
//! form-urlencoding; what it produces for a given base and parameter list is
//! a fixed text, named here so that callers' contracts can speak of it.  The
//! cosmetic unescaping of `=` inside filter values is this crate's own code
//! and proved exactly.

use vstd::prelude::*;
use crate::query::pairs_view;
use crate::query::query_pairs;
use crate::query::ListingQuery;

verus! {

/// Whether `url::Url::parse` accepts the text.  The result depends on the
/// text alone.
pub uninterp spec fn url_parse_ok(s: Seq<char>) -> bool;

/// The URL text that results from parsing `base` and appending each of
/// `pairs` form-urlencoded to its query.  The result depends on `base` and
/// `pairs` alone.
pub uninterp spec fn encoded_url(base: Seq<char>, pairs: Seq<(Seq<char>, Seq<char>)>) -> Seq<
    char,
>;

/// Relies on `url::Url::parse`, `Url::query_pairs_mut` with
/// `form_urlencoded::Serializer::append_pair`, and `Url::as_str`: parses the
/// base, appends every pair to its query in order, and serializes the
/// result, which is a function of the base and the pairs alone.
#[verifier::external_body]
fn encode_url_with_pairs(base: &str, pairs: &Vec<(String, String)>) -> (r: Option<String>)
    ensures
        r is Some == url_parse_ok(base@),
        r matches Some(u) ==> u@ == encoded_url(base@, pairs_view(pairs@)),
{
    let mut parsed = match url::Url::parse(base) {
        Ok(p) => p,
        Err(_) => return None,
    };
    {
        let mut ser = parsed.query_pairs_mut();
        for (k, v) in pairs.iter() {
            ser.append_pair(k, v);
        }
    }
    Some(parsed.as_str().to_string())
}

/// `s` with every occurrence of `%3D` replaced by `=`, scanning left to
/// right without overlap, as `str::replace("%3D", "=")` does.
pub open spec fn unescape_eq(s: Seq<char>) -> Seq<char>
    decreases s.len(),
{
    if s.len() < 3 {
        s
    } else if s[0] == '%' && s[1] == '3' && s[2] == 'D' {
        seq!['='] + unescape_eq(s.skip(3))
    } else {
        seq![s[0]] + unescape_eq(s.skip(1))
    }
}

/// Replaces every `%3D` escape with a literal `=`, as the query builder
/// sends its filter values.
pub fn unescape_eq_exec(s: &String) -> (r: String)
    ensures
        r@ == unescape_eq(s@),
{
    let st = s.as_str();
    let n = st.unicode_len();
    let mut out = String::new();
    let mut i: usize = 0;
    proof {
        assert(s@.skip(0) =~= s@);
        assert(out@ + unescape_eq(s@) =~= unescape_eq(s@));
    }
    while i < n
        invariant
            i <= n,
            n == s@.len(),
            st@ == s@,
            out@ + unescape_eq(s@.skip(i as int)) == unescape_eq(s@),
        decreases n - i,
    {
        let ghost rest = s@.skip(i as int);
        let ghost old_out = out@;
        if n - i > 2 && st.get_char(i) == '%' && st.get_char(i + 1) == '3' && st.get_char(i + 2)
            == 'D' {
            crate::numbers::push_char(&mut out, '=');
            proof {
                assert(rest.len() >= 3);
                assert(rest[0] == '%' && rest[1] == '3' && rest[2] == 'D');
                assert(rest.skip(3) =~= s@.skip(i + 3));
                assert(unescape_eq(rest) == seq!['='] + unescape_eq(s@.skip(i + 3)));
                assert(out@ =~= old_out + seq!['=']);
                assert((old_out + seq!['=']) + unescape_eq(s@.skip(i + 3)) =~= old_out + (
                seq!['='] + unescape_eq(s@.skip(i + 3))));
            }
            i += 3;
        } else {
            let c = st.get_char(i);
            crate::numbers::push_char(&mut out, c);
            proof {
                assert(rest[0] == c);
                assert(rest.skip(1) =~= s@.skip(i + 1));
                if rest.len() < 3 {
                    assert(unescape_eq(rest) == rest);
                    assert(unescape_eq(rest.skip(1)) == rest.skip(1));
                    assert(rest =~= seq![c] + rest.skip(1));
                } else {
                    assert(!(rest[0] == '%' && rest[1] == '3' && rest[2] == 'D'));
                }
                assert(unescape_eq(rest) == seq![c] + unescape_eq(s@.skip(i + 1)));
                assert(out@ =~= old_out + seq![c]);
                assert((old_out + seq![c]) + unescape_eq(s@.skip(i + 1)) =~= old_out + (seq![c]
                    + unescape_eq(s@.skip(i + 1))));
            }
            i += 1;
        }
    }
    proof {
        assert(s@.skip(n as int) =~= Seq::<char>::empty());
        assert(out@ + Seq::<char>::empty() =~= out@);
    }
    out
}

/// The base of the listings-count endpoint.
pub open spec fn count_endpoint_base() -> Seq<char> {
    "https://api.divar.ir/v8/map-discovery/bbox/posts/count?"@
}

/// The full URL a query is sent to: the fixed endpoint with the query's
/// parameters appended, and the `=` inside filter values left unescaped.
pub open spec fn divar_url(q: crate::query::QueryView) -> Seq<char> {
    unescape_eq(encoded_url(count_endpoint_base(), query_pairs(q)))
}

/// Builds the listings-count URL for one query.  `None` only if the fixed
/// endpoint text were not a well-formed URL, which a single run of the
/// sweep refutes at its first request.
pub fn create_divar_url(q: &ListingQuery) -> (r: Option<String>)
    ensures
        r is Some == url_parse_ok(count_endpoint_base()),
        r matches Some(u) ==> u@ == divar_url(q@),
{
    let pairs = q.pairs();
    let encoded = encode_url_with_pairs(
        "https://api.divar.ir/v8/map-discovery/bbox/posts/count?",
        &pairs,
    );
    match encoded {
        None => None,
        Some(u) => Some(unescape_eq_exec(&u)),
    }
}

} // verus!
