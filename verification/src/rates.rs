//! The exchange-rate batch: each raw record carries a slash-separated date
//! and a comma-separated price, both as optional strings straight out of the
//! feed's JSON.  A record either yields an integer pair or aborts the whole
//! batch; nothing is skipped and nothing partial survives.

use vstd::prelude::*;
use crate::numbers::parse_i64;
use crate::numbers::parse_i64_spec;
use crate::numbers::strip_char;
use crate::numbers::without;
use crate::opt_str_view;
use crate::RateError;

verus! {

/// The integer form of a date field: separators stripped, then parsed.
pub open spec fn date_value(s: Seq<char>) -> Option<int> {
    parse_i64_spec(without(s, '/'))
}

/// The integer form of a price field: thousands separators stripped, then
/// parsed.
pub open spec fn price_value(s: Seq<char>) -> Option<int> {
    parse_i64_spec(without(s, ','))
}

pub fn parse_date(s: &String) -> (r: Option<i64>)
    ensures
        r is Some == date_value(s@) is Some,
        r matches Some(v) ==> date_value(s@) == Some(v as int),
{
    let stripped = strip_char(s, '/');
    parse_i64(&stripped)
}

pub fn parse_price(s: &String) -> (r: Option<i64>)
    ensures
        r is Some == price_value(s@) is Some,
        r matches Some(v) ==> price_value(s@) == Some(v as int),
{
    let stripped = strip_char(s, ',');
    parse_i64(&stripped)
}

/// What one raw record contributes: an integer pair, or the error that
/// condemns the batch.
pub open spec fn record_outcome(d: Option<Seq<char>>, p: Option<Seq<char>>) -> Result<
    (int, int),
    RateError,
> {
    match d {
        None => Err(RateError::DateMissing),
        Some(ds) => match date_value(ds) {
            None => Err(RateError::DateInvalid),
            Some(dv) => match p {
                None => Err(RateError::PriceMissing),
                Some(ps) => match price_value(ps) {
                    None => Err(RateError::PriceInvalid),
                    Some(pv) => Ok((dv, pv)),
                },
            },
        },
    }
}

/// The whole batch: every record in order, stopping at the first bad one.
pub open spec fn batch_outcome(rs: Seq<(Option<Seq<char>>, Option<Seq<char>>)>) -> Result<
    Seq<(int, int)>,
    RateError,
>
    decreases rs.len(),
{
    if rs.len() == 0 {
        Ok(Seq::<(int, int)>::empty())
    } else {
        match batch_outcome(rs.drop_last()) {
            Err(e) => Err(e),
            Ok(v) => match record_outcome(rs.last().0, rs.last().1) {
                Err(e) => Err(e),
                Ok(row) => Ok(v.push(row)),
            },
        }
    }
}

pub open spec fn raw_view(r: Seq<(Option<String>, Option<String>)>) -> Seq<
    (Option<Seq<char>>, Option<Seq<char>>),
> {
    r.map_values(|p: (Option<String>, Option<String>)| (opt_str_view(p.0), opt_str_view(p.1)))
}

pub open spec fn rows_view(v: Seq<(i64, i64)>) -> Seq<(int, int)> {
    v.map_values(|p: (i64, i64)| (p.0 as int, p.1 as int))
}

/// Once a prefix has condemned the batch, no later record changes that.
proof fn lemma_batch_err_extends(rs: Seq<(Option<Seq<char>>, Option<Seq<char>>)>, i: int)
    requires
        0 <= i <= rs.len(),
        batch_outcome(rs.take(i)) is Err,
    ensures
        batch_outcome(rs) == batch_outcome(rs.take(i)),
    decreases rs.len() - i,
{
    if i == rs.len() {
        assert(rs.take(i) =~= rs);
    } else {
        assert(rs.take(i + 1).drop_last() =~= rs.take(i));
        lemma_batch_err_extends(rs, i + 1);
    }
}

/// Converts a batch of raw records, all or nothing: the integer rows if every
/// record parses, else the first bad record's error with no rows at all.
pub fn convert_records(raw: &Vec<(Option<String>, Option<String>)>) -> (r: Result<
    Vec<(i64, i64)>,
    RateError,
>)
    ensures
        r matches Ok(v) ==> batch_outcome(raw_view(raw@)) == Ok::<Seq<(int, int)>, RateError>(rows_view(v@)),
        r matches Err(e) ==> batch_outcome(raw_view(raw@)) == Err::<Seq<(int, int)>, RateError>(e),
{
    let ghost rs = raw_view(raw@);
    let mut out: Vec<(i64, i64)> = Vec::new();
    let mut i: usize = 0;
    assert(rows_view(out@) =~= Seq::<(int, int)>::empty());
    while i < raw.len()
        invariant
            i <= raw.len(),
            rs == raw_view(raw@),
            batch_outcome(rs.take(i as int)) == Ok::<Seq<(int, int)>, RateError>(rows_view(out@)),
        decreases raw.len() - i,
    {
        let pair = &raw[i];
        proof {
            assert(rs[i as int] == (opt_str_view(raw@[i as int].0), opt_str_view(
                raw@[i as int].1,
            )));
            assert(rs.take(i + 1).drop_last() =~= rs.take(i as int));
            assert(rs.take(i + 1).last() == rs[i as int]);
        }
        let row: (i64, i64) = match &pair.0 {
            None => {
                proof {
                    lemma_batch_err_extends(rs, i + 1);
                }
                return Err(RateError::DateMissing);
            },
            Some(ds) => {
                match parse_date(ds) {
                    None => {
                        proof {
                            lemma_batch_err_extends(rs, i + 1);
                        }
                        return Err(RateError::DateInvalid);
                    },
                    Some(dv) => {
                        match &pair.1 {
                            None => {
                                proof {
                                    lemma_batch_err_extends(rs, i + 1);
                                }
                                return Err(RateError::PriceMissing);
                            },
                            Some(ps) => {
                                match parse_price(ps) {
                                    None => {
                                        proof {
                                            lemma_batch_err_extends(rs, i + 1);
                                        }
                                        return Err(RateError::PriceInvalid);
                                    },
                                    Some(pv) => (dv, pv),
                                }
                            },
                        }
                    },
                }
            },
        };
        let ghost old_out = out@;
        out.push(row);
        proof {
            assert(rows_view(out@) =~= rows_view(old_out).push((row.0 as int, row.1 as int)));
        }
        i += 1;
    }
    proof {
        assert(rs.take(raw@.len() as int) =~= rs);
    }
    Ok(out)
}

/// A batch converts exactly when every record is well-formed; one bad record
/// leaves no rows at all, and the error reported is the first bad record's.
pub proof fn lemma_batch_all_or_nothing(rs: Seq<(Option<Seq<char>>, Option<Seq<char>>)>)
    ensures
        batch_outcome(rs) is Ok <==> (forall|i: int|
            0 <= i < rs.len() ==> record_outcome(rs[i].0, rs[i].1) is Ok),
        batch_outcome(rs) is Ok ==> batch_outcome(rs)->Ok_0.len() == rs.len(),
        batch_outcome(rs) is Ok ==> forall|i: int|
            0 <= i < rs.len() ==> #[trigger] batch_outcome(rs)->Ok_0[i] == record_outcome(
                rs[i].0,
                rs[i].1,
            )->Ok_0,
        forall|i: int|
            0 <= i < rs.len() && record_outcome(rs[i].0, rs[i].1) is Err && (forall|j: int|
                0 <= j < i ==> record_outcome(rs[j].0, rs[j].1) is Ok) ==> batch_outcome(rs)
                == Err::<Seq<(int, int)>, RateError>(record_outcome(rs[i].0, rs[i].1)->Err_0),
    decreases rs.len(),
{
    if rs.len() > 0 {
        let head = rs.drop_last();
        lemma_batch_all_or_nothing(head);
        assert(forall|i: int| 0 <= i < head.len() ==> head[i] == rs[i]);
        if batch_outcome(rs) is Ok {
            assert(forall|i: int|
                0 <= i < rs.len() ==> record_outcome(rs[i].0, rs[i].1) is Ok) by {
                assert(batch_outcome(head) is Ok);
            }
        }
        assert forall|i: int|
            0 <= i < rs.len() && record_outcome(rs[i].0, rs[i].1) is Err && (forall|j: int|
                0 <= j < i ==> record_outcome(rs[j].0, rs[j].1) is Ok) implies batch_outcome(rs)
            == Err::<Seq<(int, int)>, RateError>(record_outcome(rs[i].0, rs[i].1)->Err_0) by {
            if i < rs.len() - 1 {
                assert(batch_outcome(head) == Err::<Seq<(int, int)>, RateError>(record_outcome(rs[i].0, rs[i].1)->Err_0));
            } else {
                assert(forall|j: int|
                    0 <= j < head.len() ==> record_outcome(head[j].0, head[j].1) is Ok);
                assert(batch_outcome(head) is Ok);
            }
        }
    }
}

} // verus!
