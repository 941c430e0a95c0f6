use review::database::query::GetQuery;

fn query(select: &[&str], where_clause: Option<&str>, page: Option<i64>, orderby: Option<&str>, order: Option<&str>) -> GetQuery {
    GetQuery::new(
        select.iter().map(|s| s.to_string()).collect(),
        "cluster".to_string(),
        where_clause.map(|s| s.to_string()),
        page,
        10,
        orderby.map(|s| s.to_string()),
        order.map(|s| s.to_string()),
    )
}

#[test]
fn get_order_accepts_desc_in_any_case() {
    assert_eq!(GetQuery::get_order(Some("desc")), Some("desc"));
    assert_eq!(GetQuery::get_order(Some("DeSc")), Some("desc"));
    assert_eq!(GetQuery::get_order(Some("asc")), None);
    assert_eq!(GetQuery::get_order(None), None);
}

#[test]
fn get_page_takes_positive_integers() {
    assert_eq!(GetQuery::get_page(Some("3")), Some(3));
    assert_eq!(GetQuery::get_page(Some("+3")), Some(3));
    assert_eq!(GetQuery::get_page(Some("0")), None);
    assert_eq!(GetQuery::get_page(Some("-2")), None);
    assert_eq!(GetQuery::get_page(Some("x")), None);
    assert_eq!(GetQuery::get_page(Some("")), None);
    assert_eq!(GetQuery::get_page(Some("9223372036854775808")), None);
    assert_eq!(GetQuery::get_page(None), None);
}

#[test]
fn get_per_page_is_clamped_to_the_maximum() {
    assert_eq!(GetQuery::get_per_page(Some("20"), 100), Some(20));
    assert_eq!(GetQuery::get_per_page(Some("500"), 100), Some(100));
    assert_eq!(GetQuery::get_per_page(Some("0"), 100), None);
    assert_eq!(GetQuery::get_per_page(None, 100), None);
}

#[test]
fn sql_head_with_every_part() {
    let q = query(&["a", "b"], Some("x = 1"), Some(2), Some("a"), Some("desc"));
    assert_eq!(
        q.sql_head(),
        "SELECT to_jsonb(a) as data FROM ( SELECT a, b FROM cluster WHERE x = 1 ORDER BY a desc LIMIT "
    );
}

#[test]
fn sql_head_with_no_optional_part() {
    let q = query(&["a"], None, None, None, None);
    assert_eq!(q.sql_head(), "SELECT to_jsonb(a) as data FROM ( SELECT a FROM cluster LIMIT ");
}

#[test]
fn offset_of_a_page() {
    assert_eq!(query(&["a"], None, Some(3), None, None).offset(), Some(20));
    assert_eq!(query(&["a"], None, Some(1), None, None).offset(), Some(0));
    assert_eq!(query(&["a"], None, None, None, None).offset(), None);
}

#[test]
fn count_query_with_and_without_clause() {
    assert_eq!(GetQuery::count_query("cluster", &None), "SELECT COUNT(*) FROM (cluster) LIMIT 1");
    assert_eq!(
        GetQuery::count_query("cluster", &Some("id = 3".to_string())),
        "SELECT COUNT(*) FROM (cluster) WHERE (id = 3) LIMIT 1"
    );
}

#[test]
fn pagination_rounds_pages_up() {
    assert_eq!(GetQuery::pagination(0, 10), None);
    assert_eq!(GetQuery::pagination(1, 10), Some((1, 1)));
    assert_eq!(GetQuery::pagination(10, 10), Some((10, 1)));
    assert_eq!(GetQuery::pagination(11, 10), Some((11, 2)));
}

#[test]
fn per_page_stays_within_bounds() {
    for p in ["1", "99", "100", "101", "100000"] {
        let v = GetQuery::get_per_page(Some(p), 100).unwrap();
        assert!(1 <= v && v <= 100);
    }
}

#[test]
fn sql_text_is_the_whole_query() {
    let w = Some("x = 1");
    let mut q = query(&["a", "b"], w, Some(3), Some("a"), Some("desc"));
    q.schema = "t".to_string();
    let (text, binds) = q.sql_text();
    assert_eq!(text, "SELECT to_jsonb(a) as data FROM ( SELECT a, b FROM t WHERE x = 1 ORDER BY a desc LIMIT $1 OFFSET $2) as a");
    assert_eq!(binds, vec![10, 20]);
    let (text, binds) = query(&["a"], None, None, None, None).sql_text();
    assert_eq!(text, "SELECT to_jsonb(a) as data FROM ( SELECT a FROM cluster LIMIT $1) as a");
    assert_eq!(binds, vec![10]);
}

use review::database::cluster::{clusters_get_query, Layout};
use review::filter::Filter;

#[test]
fn cluster_listing_query_defaults() {
    let q = clusters_get_query(Layout::Review, &None, &None, None, None, None, Some("desc"));
    assert_eq!(q.select.len(), 11);
    assert_eq!(q.per_page, 10);
    assert_eq!(q.where_clause, None);
    assert_eq!(q.orderby, None);
    assert_eq!(q.order, None);
    assert_eq!(q.page, None);
    let q = clusters_get_query(Layout::Review, &None, &None, Some("2"), Some("500"), Some("SIZE"), Some("DESC"));
    assert_eq!((q.page, q.per_page), (Some(2), 100));
    assert_eq!(q.orderby.as_deref(), Some("cluster.size"));
    assert_eq!(q.order.as_deref(), Some("desc"));
    let q = clusters_get_query(Layout::Review, &None, &None, None, Some("7"), Some("nope"), Some("desc"));
    assert_eq!((q.per_page, q.orderby, q.order), (7, None, None));
}

#[test]
fn cluster_listing_query_filter_and_columns() {
    let f = Filter { category: None, data_source: None, status: None, qualifier: None, cluster_id: Some(vec!["c1".to_string()]), detector_id: None };
    let requested = Some(vec![("Size".to_string(), true), ("signature".to_string(), false)]);
    let q = clusters_get_query(Layout::Review, &requested, &Some(f), None, None, None, None);
    assert_eq!(q.select, vec!["cluster.size".to_string()]);
    assert_eq!(q.where_clause.as_deref(), Some("cluster_id='c1'"));
    let empty = Filter { category: None, data_source: None, status: None, qualifier: None, cluster_id: None, detector_id: None };
    assert_eq!(clusters_get_query(Layout::Review, &None, &Some(empty), None, None, None, None).where_clause, None);
}
