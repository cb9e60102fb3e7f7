//! Listings-count queries: the six logical parameters of one request, the
//! exact list of URL query parameters each query carries, and the fixed
//! sweep over every combination of the declared dimension values.

use vstd::prelude::*;
use crate::numbers::i64_dec;
use crate::numbers::i64_to_string;
use crate::opt_str_view;

verus! {

/// One listings-count query: a bounding box held as the decimal text the
/// remote API receives, a category token, a price ceiling where `-1` means
/// no ceiling, and an optional recency window token.
pub struct ListingQuery {
    pub lon1: String,
    pub lat1: String,
    pub lon2: String,
    pub lat2: String,
    pub category: String,
    pub price: i64,
    pub recency: Option<String>,
}

/// The mathematical shape of a query.
pub struct QueryView {
    pub lon1: Seq<char>,
    pub lat1: Seq<char>,
    pub lon2: Seq<char>,
    pub lat2: Seq<char>,
    pub category: Seq<char>,
    pub price: int,
    pub recency: Option<Seq<char>>,
}

impl View for ListingQuery {
    type V = QueryView;

    open spec fn view(&self) -> QueryView {
        QueryView {
            lon1: self.lon1@,
            lat1: self.lat1@,
            lon2: self.lon2@,
            lat2: self.lat2@,
            category: self.category@,
            price: self.price as int,
            recency: opt_str_view(self.recency),
        }
    }
}

/// The key/value parameters of a query, in the order they are sent: the four
/// coordinates, a category filter, a price filter exactly when a ceiling is
/// given, and a recency filter exactly when a window is given.
pub open spec fn query_pairs(q: QueryView) -> Seq<(Seq<char>, Seq<char>)> {
    seq![
        ("lon1"@, q.lon1),
        ("lat1"@, q.lat1),
        ("lon2"@, q.lon2),
        ("lat2"@, q.lat2),
        ("filters"@, "category="@ + q.category),
    ] + (if q.price != -1 {
        seq![("filters"@, "price=-"@ + i64_dec(q.price))]
    } else {
        Seq::<(Seq<char>, Seq<char>)>::empty()
    }) + (match q.recency {
        Some(r) => seq![("filters"@, "recency_ads="@ + r)],
        None => Seq::<(Seq<char>, Seq<char>)>::empty(),
    })
}

/// The views of a list of key/value strings.
pub open spec fn pairs_view(ps: Seq<(String, String)>) -> Seq<(Seq<char>, Seq<char>)> {
    ps.map_values(|p: (String, String)| (p.0@, p.1@))
}

impl ListingQuery {
    /// The parameter list this query sends, as concrete strings.
    pub fn pairs(&self) -> (r: Vec<(String, String)>)
        ensures
            pairs_view(r@) == query_pairs(self@),
    {
        let mut v: Vec<(String, String)> = Vec::new();
        v.push((String::from_str("lon1"), self.lon1.clone()));
        v.push((String::from_str("lat1"), self.lat1.clone()));
        v.push((String::from_str("lon2"), self.lon2.clone()));
        v.push((String::from_str("lat2"), self.lat2.clone()));
        v.push((String::from_str("filters"), String::from_str("category=").concat(
            self.category.as_str(),
        )));
        if self.price != -1 {
            let num = i64_to_string(self.price);
            v.push((String::from_str("filters"), String::from_str("price=-").concat(
                num.as_str(),
            )));
        }
        match &self.recency {
            Some(r) => {
                v.push((String::from_str("filters"), String::from_str("recency_ads=").concat(
                    r.as_str(),
                )));
            },
            None => {},
        }
        proof {
            assert(pairs_view(v@) =~= query_pairs(self@));
        }
        v
    }
}

/// The two bounding boxes the sweep covers, as (lon1, lat1, lon2, lat2).
pub open spec fn boxes_view() -> Seq<(Seq<char>, Seq<char>, Seq<char>, Seq<char>)> {
    seq![
        ("51.12108541489556"@, "35.53440416028046"@, "51.624314585103065"@, "35.88361336225029"@),
        ("51.48855091343077"@, "32.519298780640995"@, "51.80264908656426"@, "32.745358440861224"@),
    ]
}

/// The categories the sweep covers.
pub open spec fn categories_view() -> Seq<Seq<char>> {
    seq!["apartment-sell"@, "plot-old"@]
}

/// The price ceilings the sweep covers; `-1` means no ceiling.
pub open spec fn prices_view() -> Seq<int> {
    seq![12000000000, 8000000000, 4000000000, -1]
}

/// The recency windows the sweep covers; `None` means no recency filter.
pub open spec fn recency_view() -> Seq<Option<Seq<char>>> {
    seq![Some("1d"@), Some("7d"@), None]
}

/// The query at position `i` of the sweep, in the fixed nested order
/// bounding box, then category, then price, then recency.
pub open spec fn combo_at(i: int) -> QueryView {
    let b = boxes_view()[i / 24];
    QueryView {
        lon1: b.0,
        lat1: b.1,
        lon2: b.2,
        lat2: b.3,
        category: categories_view()[(i / 12) % 2],
        price: prices_view()[(i / 3) % 4],
        recency: recency_view()[i % 3],
    }
}

fn bbox_at(bi: usize) -> (r: (String, String, String, String))
    requires
        bi < 2,
    ensures
        (r.0@, r.1@, r.2@, r.3@) == boxes_view()[bi as int],
{
    if bi == 0 {
        (
            String::from_str("51.12108541489556"),
            String::from_str("35.53440416028046"),
            String::from_str("51.624314585103065"),
            String::from_str("35.88361336225029"),
        )
    } else {
        (
            String::from_str("51.48855091343077"),
            String::from_str("32.519298780640995"),
            String::from_str("51.80264908656426"),
            String::from_str("32.745358440861224"),
        )
    }
}

fn category_at(ci: usize) -> (r: String)
    requires
        ci < 2,
    ensures
        r@ == categories_view()[ci as int],
{
    if ci == 0 {
        String::from_str("apartment-sell")
    } else {
        String::from_str("plot-old")
    }
}

fn price_at(pi: usize) -> (r: i64)
    requires
        pi < 4,
    ensures
        r as int == prices_view()[pi as int],
{
    match pi {
        0 => 12000000000,
        1 => 8000000000,
        2 => 4000000000,
        _ => -1,
    }
}

fn recency_at(ri: usize) -> (r: Option<String>)
    requires
        ri < 3,
    ensures
        opt_str_view(r) == recency_view()[ri as int],
{
    match ri {
        0 => Some(String::from_str("1d")),
        1 => Some(String::from_str("7d")),
        _ => None,
    }
}

/// Every query of the sweep, in the fixed nested order: 2 bounding boxes by
/// 2 categories by 4 price ceilings by 3 recency options, 48 in all.
pub fn combinations() -> (r: Vec<ListingQuery>)
    ensures
        r@.len() == 48,
        forall|i: int| 0 <= i < 48 ==> (#[trigger] r@[i])@ == combo_at(i),
{
    let mut v: Vec<ListingQuery> = Vec::new();
    let mut i: usize = 0;
    while i < 48
        invariant
            i <= 48,
            v@.len() == i,
            forall|k: int| 0 <= k < i ==> (#[trigger] v@[k])@ == combo_at(k),
        decreases 48 - i,
    {
        let b = bbox_at(i / 24);
        let q = ListingQuery {
            lon1: b.0,
            lat1: b.1,
            lon2: b.2,
            lat2: b.3,
            category: category_at((i / 12) % 2),
            price: price_at((i / 3) % 4),
            recency: recency_at(i % 3),
        };
        assert(q@ == combo_at(i as int));
        v.push(q);
        i += 1;
    }
    v
}

/// How many of the pairs carry the given key.
pub open spec fn key_count(ps: Seq<(Seq<char>, Seq<char>)>, k: Seq<char>) -> int
    decreases ps.len(),
{
    if ps.len() == 0 {
        0
    } else {
        key_count(ps.drop_last(), k) + (if ps.last().0 == k {
            1int
        } else {
            0
        })
    }
}

/// The parameter list of any query holds exactly one of each coordinate key
/// and a category filter, a price filter exactly when the ceiling is not
/// `-1`, a recency filter exactly when a window is supplied, and no other
/// parameter at all.
pub proof fn lemma_query_pairs_shape(q: QueryView)
    ensures
        key_count(query_pairs(q), "lon1"@) == 1,
        key_count(query_pairs(q), "lat1"@) == 1,
        key_count(query_pairs(q), "lon2"@) == 1,
        key_count(query_pairs(q), "lat2"@) == 1,
        key_count(query_pairs(q), "filters"@) == 1 + (if q.price != -1 {
            1int
        } else {
            0
        }) + (if q.recency is Some {
            1int
        } else {
            0
        }),
        query_pairs(q).len() == 4 + key_count(query_pairs(q), "filters"@),
        query_pairs(q)[0] == ("lon1"@, q.lon1),
        query_pairs(q)[1] == ("lat1"@, q.lat1),
        query_pairs(q)[2] == ("lon2"@, q.lon2),
        query_pairs(q)[3] == ("lat2"@, q.lat2),
        query_pairs(q)[4] == ("filters"@, "category="@ + q.category),
        q.price != -1 ==> query_pairs(q)[5] == ("filters"@, "price=-"@ + i64_dec(q.price)),
        forall|rr: Seq<char>|
            q.recency == Some(rr) ==> query_pairs(q).last() == ("filters"@, "recency_ads="@
                + rr),
        forall|i: int|
            4 <= i < query_pairs(q).len() ==> (#[trigger] query_pairs(q)[i]).0 == "filters"@,
{
    reveal_strlit("lon1");
    reveal_strlit("lat1");
    reveal_strlit("lon2");
    reveal_strlit("lat2");
    reveal_strlit("filters");
    let ps = query_pairs(q);
    assert("lon1"@.len() == 4);
    assert("lat1"@.len() == 4);
    assert("lon2"@.len() == 4);
    assert("lat2"@.len() == 4);
    assert("filters"@.len() == 7);
    assert("lon1"@[1] == 'o' && "lat1"@[1] == 'a');
    assert("lon1"@[3] == '1' && "lon2"@[3] == '2');
    assert("lat1"@[3] == '1' && "lat2"@[3] == '2');
    assert("lon2"@[1] == 'o' && "lat2"@[1] == 'a');
    assert(!("lon1"@ == "filters"@));
    assert(!("lat1"@ == "filters"@));
    assert(!("lon2"@ == "filters"@));
    assert(!("lat2"@ == "filters"@));
    assert(!("lon1"@ == "lat1"@));
    assert(!("lon1"@ == "lon2"@));
    assert(!("lon1"@ == "lat2"@));
    assert(!("lat1"@ == "lon2"@));
    assert(!("lat1"@ == "lat2"@));
    assert(!("lon2"@ == "lat2"@));
    if q.price != -1 {
        match q.recency {
            Some(rr) => {
                let whole = seq![
                    ("lon1"@, q.lon1),
                    ("lat1"@, q.lat1),
                    ("lon2"@, q.lon2),
                    ("lat2"@, q.lat2),
                    ("filters"@, "category="@ + q.category),
                    ("filters"@, "price=-"@ + i64_dec(q.price)),
                    ("filters"@, "recency_ads="@ + rr),
                ];
                assert(ps =~= whole);
                reveal_with_fuel(key_count, 9);
                assert(whole.drop_last() =~= whole.take(6));
                assert(whole.take(6).drop_last() =~= whole.take(5));
                assert(whole.take(5).drop_last() =~= whole.take(4));
                assert(whole.take(4).drop_last() =~= whole.take(3));
                assert(whole.take(3).drop_last() =~= whole.take(2));
                assert(whole.take(2).drop_last() =~= whole.take(1));
                assert(whole.take(1).drop_last() =~= whole.take(0));
                assert(whole.take(0) =~= Seq::<(Seq<char>, Seq<char>)>::empty());
            },
            None => {
                let whole = seq![
                    ("lon1"@, q.lon1),
                    ("lat1"@, q.lat1),
                    ("lon2"@, q.lon2),
                    ("lat2"@, q.lat2),
                    ("filters"@, "category="@ + q.category),
                    ("filters"@, "price=-"@ + i64_dec(q.price)),
                ];
                assert(ps =~= whole);
                reveal_with_fuel(key_count, 9);
                assert(whole.drop_last() =~= whole.take(5));
                assert(whole.take(5).drop_last() =~= whole.take(4));
                assert(whole.take(4).drop_last() =~= whole.take(3));
                assert(whole.take(3).drop_last() =~= whole.take(2));
                assert(whole.take(2).drop_last() =~= whole.take(1));
                assert(whole.take(1).drop_last() =~= whole.take(0));
                assert(whole.take(0) =~= Seq::<(Seq<char>, Seq<char>)>::empty());
            },
        }
    } else {
        match q.recency {
            Some(rr) => {
                let whole = seq![
                    ("lon1"@, q.lon1),
                    ("lat1"@, q.lat1),
                    ("lon2"@, q.lon2),
                    ("lat2"@, q.lat2),
                    ("filters"@, "category="@ + q.category),
                    ("filters"@, "recency_ads="@ + rr),
                ];
                assert(ps =~= whole);
                reveal_with_fuel(key_count, 9);
                assert(whole.drop_last() =~= whole.take(5));
                assert(whole.take(5).drop_last() =~= whole.take(4));
                assert(whole.take(4).drop_last() =~= whole.take(3));
                assert(whole.take(3).drop_last() =~= whole.take(2));
                assert(whole.take(2).drop_last() =~= whole.take(1));
                assert(whole.take(1).drop_last() =~= whole.take(0));
                assert(whole.take(0) =~= Seq::<(Seq<char>, Seq<char>)>::empty());
            },
            None => {
                let whole = seq![
                    ("lon1"@, q.lon1),
                    ("lat1"@, q.lat1),
                    ("lon2"@, q.lon2),
                    ("lat2"@, q.lat2),
                    ("filters"@, "category="@ + q.category),
                ];
                assert(ps =~= whole);
                reveal_with_fuel(key_count, 9);
                assert(whole.drop_last() =~= whole.take(4));
                assert(whole.take(4).drop_last() =~= whole.take(3));
                assert(whole.take(3).drop_last() =~= whole.take(2));
                assert(whole.take(2).drop_last() =~= whole.take(1));
                assert(whole.take(1).drop_last() =~= whole.take(0));
                assert(whole.take(0) =~= Seq::<(Seq<char>, Seq<char>)>::empty());
            },
        }
    }
}

} // verus!
