//! Every piece of SQL the collector sends, produced as exact text: the
//! idempotent schema, the parameterized listings insert with its duplicate
//! policy, the two materialized-view rebuilds, the bulk exchange-rate
//! insert, and the connection string.

use vstd::prelude::*;
use crate::numbers::i64_dec;
use crate::numbers::i64_to_string;
use crate::rates::rows_view;

verus! {

/// The connection string for the given parameters, in libpq keyword form.
pub open spec fn conn_str_spec(
    host: Seq<char>,
    user: Seq<char>,
    password: Seq<char>,
    db: Seq<char>,
) -> Seq<char> {
    "host="@ + host + " user="@ + user + " password="@ + password + " dbname="@ + db
}

/// Formats the database connection string from its four parameters.
pub fn build_conn_str(host: &String, user: &String, password: &String, db: &String) -> (r:
    String)
    ensures
        r@ == conn_str_spec(host@, user@, password@, db@),
{
    let mut s = String::from_str("host=");
    s.append(host.as_str());
    s.append(" user=");
    s.append(user.as_str());
    s.append(" password=");
    s.append(password.as_str());
    s.append(" dbname=");
    s.append(db.as_str());
    s
}

/// The idempotent DDL that creates both tables with their composite and
/// simple primary keys.
pub open spec fn create_tables_spec() -> Seq<char> {
    "CREATE TABLE IF NOT EXISTS divar_data (date DATE DEFAULT CURRENT_DATE, lon1 DOUBLE PRECISION, lat1 DOUBLE PRECISION, lon2 DOUBLE PRECISION, lat2 DOUBLE PRECISION, category TEXT, price BIGINT, recent_ads TEXT, count INTEGER, PRIMARY KEY (date, lon1, lat1, lon2, lat2, category, price, recent_ads)); CREATE TABLE IF NOT EXISTS dollar (date BIGINT PRIMARY KEY, dollar_price INTEGER);"@
}

pub fn create_tables_sql() -> (r: String)
    ensures
        r@ == create_tables_spec(),
{
    String::from_str(
        "CREATE TABLE IF NOT EXISTS divar_data (date DATE DEFAULT CURRENT_DATE, lon1 DOUBLE PRECISION, lat1 DOUBLE PRECISION, lon2 DOUBLE PRECISION, lat2 DOUBLE PRECISION, category TEXT, price BIGINT, recent_ads TEXT, count INTEGER, PRIMARY KEY (date, lon1, lat1, lon2, lat2, category, price, recent_ads)); CREATE TABLE IF NOT EXISTS dollar (date BIGINT PRIMARY KEY, dollar_price INTEGER);",
    )
}

/// The parameterized listings insert.  The explicit conflict clause is what
/// keeps a same-day rerun from violating the composite primary key: a row
/// whose key already exists is left exactly as it was.
pub open spec fn listings_insert_spec() -> Seq<char> {
    "INSERT INTO divar_data (lon1, lat1, lon2, lat2, category, price, recent_ads, count) VALUES ($1, $2, $3, $4, $5, $6, $7, $8) ON CONFLICT DO NOTHING"@
}

pub fn listings_insert_sql() -> (r: String)
    ensures
        r@ == listings_insert_spec(),
{
    String::from_str(
        "INSERT INTO divar_data (lon1, lat1, lon2, lat2, category, price, recent_ads, count) VALUES ($1, $2, $3, $4, $5, $6, $7, $8) ON CONFLICT DO NOTHING",
    )
}

/// The statements that rebuild the two materialized views, in execution
/// order: drop each if present, then recreate each as the per-date sum of
/// counts for one fixed (category, price, recency) slice, ordered by date.
pub open spec fn view_statements_spec() -> Seq<Seq<char>> {
    seq![
        "DROP MATERIALIZED VIEW IF EXISTS mv_divar_apartment;"@,
        "DROP MATERIALIZED VIEW IF EXISTS mv_divar_plotold;"@,
        "CREATE MATERIALIZED VIEW IF NOT EXISTS mv_divar_apartment AS select date,sum(count) from divar_data where price = 8000000000 and recent_ads = '7d' and category = 'apartment-sell' group by date order by date;"@,
        "CREATE MATERIALIZED VIEW IF NOT EXISTS mv_divar_plotold AS select date,sum(count) from divar_data where price = 8000000000 and recent_ads = '7d' and category = 'plot-old' group by date order by date;"@,
    ]
}

pub fn view_statements() -> (r: Vec<String>)
    ensures
        r@.len() == 4,
        forall|i: int| 0 <= i < 4 ==> (#[trigger] r@[i])@ == view_statements_spec()[i],
{
    let mut v: Vec<String> = Vec::new();
    v.push(String::from_str("DROP MATERIALIZED VIEW IF EXISTS mv_divar_apartment;"));
    v.push(String::from_str("DROP MATERIALIZED VIEW IF EXISTS mv_divar_plotold;"));
    v.push(String::from_str(
        "CREATE MATERIALIZED VIEW IF NOT EXISTS mv_divar_apartment AS select date,sum(count) from divar_data where price = 8000000000 and recent_ads = '7d' and category = 'apartment-sell' group by date order by date;",
    ));
    v.push(String::from_str(
        "CREATE MATERIALIZED VIEW IF NOT EXISTS mv_divar_plotold AS select date,sum(count) from divar_data where price = 8000000000 and recent_ads = '7d' and category = 'plot-old' group by date order by date;",
    ));
    v
}

/// One `(date, price)` tuple of the bulk insert.
pub open spec fn pair_text(p: (int, int)) -> Seq<char> {
    "("@ + i64_dec(p.0) + ", "@ + i64_dec(p.1) + ")"@
}

/// The tuples of the bulk insert, joined by commas.
pub open spec fn values_text(rows: Seq<(int, int)>) -> Seq<char>
    decreases rows.len(),
{
    if rows.len() == 0 {
        Seq::<char>::empty()
    } else if rows.len() == 1 {
        pair_text(rows[0])
    } else {
        values_text(rows.drop_last()) + ", "@ + pair_text(rows.last())
    }
}

/// The whole bulk exchange-rate insert: every row in one statement, with
/// the conflict clause that keeps the first-seen price for every date.
pub open spec fn bulk_insert_spec(rows: Seq<(int, int)>) -> Seq<char> {
    "INSERT INTO dollar (date, dollar_price) VALUES "@ + values_text(rows)
        + " ON CONFLICT (date) DO NOTHING;"@
}

/// Builds the bulk insert for the given rows; `None` exactly when there is
/// no row, since SQL admits no empty VALUES list.
pub fn bulk_insert_sql(rows: &Vec<(i64, i64)>) -> (r: Option<String>)
    ensures
        r is Some == (rows@.len() > 0),
        r matches Some(s) ==> s@ == bulk_insert_spec(rows_view(rows@)),
{
    if rows.len() == 0 {
        return None;
    }
    let ghost rv = rows_view(rows@);
    let mut s = String::from_str("INSERT INTO dollar (date, dollar_price) VALUES ");
    let ghost head: Seq<char> = s@;
    let mut i: usize = 0;
    proof {
        assert(rv.take(0) =~= Seq::<(int, int)>::empty());
        assert(s@ =~= head + values_text(rv.take(0)));
    }
    while i < rows.len()
        invariant
            i <= rows.len(),
            rv == rows_view(rows@),
            head == "INSERT INTO dollar (date, dollar_price) VALUES "@,
            s@ == head + values_text(rv.take(i as int)),
        decreases rows.len() - i,
    {
        let ghost pre = rv.take(i as int);
        let ghost cur = rv.take(i + 1);
        proof {
            assert(cur.drop_last() =~= pre);
            assert(cur.last() == rv[i as int]);
            assert(rv[i as int] == (rows@[i as int].0 as int, rows@[i as int].1 as int));
        }
        if i > 0 {
            s.append(", ");
        }
        s.append("(");
        let d = i64_to_string(rows[i].0);
        s.append(d.as_str());
        s.append(", ");
        let p = i64_to_string(rows[i].1);
        s.append(p.as_str());
        s.append(")");
        proof {
            assert(pair_text(rv[i as int]) =~= "("@ + i64_dec(rows@[i as int].0 as int) + ", "@
                + i64_dec(rows@[i as int].1 as int) + ")"@);
            if i == 0 {
                assert(values_text(cur) == pair_text(cur[0]));
                assert(s@ =~= head + values_text(cur));
            } else {
                assert(values_text(cur) == values_text(pre) + ", "@ + pair_text(cur.last()));
                assert(s@ =~= head + values_text(cur));
            }
        }
        i += 1;
    }
    proof {
        assert(rv.take(rows@.len() as int) =~= rv);
    }
    s.append(" ON CONFLICT (date) DO NOTHING;");
    proof {
        assert(s@ =~= bulk_insert_spec(rv));
    }
    Some(s)
}

} // verus!
