use divar_sweep::query::combinations;
use divar_sweep::query::ListingQuery;
use divar_sweep::urlenc::create_divar_url;
use divar_sweep::urlenc::unescape_eq_exec;

fn example_query(price: i64, recency: Option<&str>) -> ListingQuery {
    ListingQuery {
        lon1: "51.12".to_string(),
        lat1: "35.53".to_string(),
        lon2: "51.62".to_string(),
        lat2: "35.88".to_string(),
        category: "apartment-sell".to_string(),
        price,
        recency: recency.map(|r| r.to_string()),
    }
}

#[test]
fn pairs_full_query() {
    let q = example_query(8000000000, Some("7d"));
    let ps = q.pairs();
    assert_eq!(ps.len(), 7);
    assert_eq!(ps[0], ("lon1".to_string(), "51.12".to_string()));
    assert_eq!(ps[1], ("lat1".to_string(), "35.53".to_string()));
    assert_eq!(ps[2], ("lon2".to_string(), "51.62".to_string()));
    assert_eq!(ps[3], ("lat2".to_string(), "35.88".to_string()));
    assert_eq!(ps[4], ("filters".to_string(), "category=apartment-sell".to_string()));
    assert_eq!(ps[5], ("filters".to_string(), "price=-8000000000".to_string()));
    assert_eq!(ps[6], ("filters".to_string(), "recency_ads=7d".to_string()));
}

#[test]
fn pairs_without_price_ceiling() {
    let q = example_query(-1, Some("1d"));
    let ps = q.pairs();
    assert_eq!(ps.len(), 6);
    assert!(ps.iter().all(|p| !p.1.starts_with("price=")));
    assert_eq!(ps[5], ("filters".to_string(), "recency_ads=1d".to_string()));
}

#[test]
fn pairs_without_recency() {
    let q = example_query(4000000000, None);
    let ps = q.pairs();
    assert_eq!(ps.len(), 6);
    assert!(ps.iter().all(|p| !p.1.starts_with("recency_ads=")));
    assert_eq!(ps[5], ("filters".to_string(), "price=-4000000000".to_string()));
}

#[test]
fn pairs_minimal() {
    let q = example_query(-1, None);
    let ps = q.pairs();
    assert_eq!(ps.len(), 5);
    let filters: Vec<&(String, String)> = ps.iter().filter(|p| p.0 == "filters").collect();
    assert_eq!(filters.len(), 1);
    assert_eq!(filters[0].1, "category=apartment-sell");
}

#[test]
fn sweep_has_48_distinct_combinations() {
    let all = combinations();
    assert_eq!(all.len(), 48);
    for i in 0..all.len() {
        for j in 0..i {
            let a = &all[i];
            let b = &all[j];
            let same = a.lon1 == b.lon1 && a.category == b.category && a.price == b.price
                && a.recency == b.recency;
            assert!(!same, "combinations {} and {} coincide", j, i);
        }
    }
}

#[test]
fn sweep_order_is_box_category_price_recency() {
    let all = combinations();
    let first = &all[0];
    assert_eq!(first.lon1, "51.12108541489556");
    assert_eq!(first.category, "apartment-sell");
    assert_eq!(first.price, 12000000000);
    assert_eq!(first.recency.as_deref(), Some("1d"));
    assert_eq!(all[1].recency.as_deref(), Some("7d"));
    assert_eq!(all[2].recency.as_deref(), None);
    assert_eq!(all[3].price, 8000000000);
    assert_eq!(all[12].category, "plot-old");
    assert_eq!(all[24].lon1, "51.48855091343077");
    assert_eq!(all[47].price, -1);
    assert_eq!(all[47].recency, None);
    assert_eq!(all[47].category, "plot-old");
}

#[test]
fn url_decodes_to_declared_parameters() {
    let q = ListingQuery {
        lon1: "51.12".to_string(),
        lat1: "35.53".to_string(),
        lon2: "51.62".to_string(),
        lat2: "35.88".to_string(),
        category: "apartment-sell".to_string(),
        price: 8000000000,
        recency: Some("7d".to_string()),
    };
    let url_text = create_divar_url(&q).expect("the fixed endpoint base must parse");
    assert!(url_text.starts_with("https://api.divar.ir/v8/map-discovery/bbox/posts/count?"));
    let parsed = url::Url::parse(&url_text).expect("built URL must stay well-formed");
    let pairs: Vec<(String, String)> = parsed
        .query_pairs()
        .map(|(k, v)| (k.into_owned(), v.into_owned()))
        .collect();
    assert!(pairs.contains(&("lon1".to_string(), "51.12".to_string())));
    assert!(pairs.contains(&("lat1".to_string(), "35.53".to_string())));
    assert!(pairs.contains(&("lon2".to_string(), "51.62".to_string())));
    assert!(pairs.contains(&("lat2".to_string(), "35.88".to_string())));
    let filters: Vec<String> = pairs
        .iter()
        .filter(|p| p.0 == "filters")
        .map(|p| p.1.clone())
        .collect();
    assert_eq!(
        filters,
        vec![
            "category=apartment-sell".to_string(),
            "price=-8000000000".to_string(),
            "recency_ads=7d".to_string(),
        ]
    );
}

#[test]
fn url_keeps_equals_sign_readable() {
    let q = example_query(-1, None);
    let url_text = create_divar_url(&q).expect("the fixed endpoint base must parse");
    assert!(url_text.contains("filters=category=apartment-sell"));
    assert!(!url_text.contains("%3D"));
}

#[test]
fn unescape_rewrites_each_escape_once() {
    assert_eq!(unescape_eq_exec(&"a%3Db".to_string()), "a=b");
    assert_eq!(unescape_eq_exec(&"%3D%3D".to_string()), "==");
    assert_eq!(unescape_eq_exec(&"%3".to_string()), "%3");
    assert_eq!(unescape_eq_exec(&"plain".to_string()), "plain");
    assert_eq!(unescape_eq_exec(&"%%3D".to_string()), "%=");
}
