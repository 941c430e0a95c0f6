use review::filter::{build_where_clause, concat3, get_where_clause_of, prefix, suffix, wrap_each, wrap_each_number, Field, Filter, Schema};

fn strings(v: &[&str]) -> Vec<String> {
    v.iter().map(|s| s.to_string()).collect()
}

#[test]
fn concat3_joins_in_order() {
    assert_eq!(concat3("a", "bc", "d"), "abcd");
    assert_eq!(concat3("", "", ""), "");
}

#[test]
fn wrap_each_puts_values_between_prefix_and_suffix() {
    let r = wrap_each(&strings(&["x", "y"]), "<", ">");
    assert_eq!(r, strings(&["<x>", "<y>"]));
    assert!(wrap_each(&Vec::new(), "<", ">").is_empty());
}

#[test]
fn wrap_each_number_writes_decimals() {
    let r = wrap_each_number(&vec![0, 42, 18446744073709551615], "detector_id='", "'");
    assert_eq!(r, strings(&["detector_id='0'", "detector_id='42'", "detector_id='18446744073709551615'"]));
}

#[test]
fn build_where_clause_without_earlier_conditions_keeps_new_ones() {
    let r = build_where_clause(&Vec::new(), &strings(&["a", "b"]));
    assert_eq!(r, strings(&["a", "b"]));
}

#[test]
fn build_where_clause_crosses_every_pair() {
    let r = build_where_clause(&strings(&["a", "b"]), &strings(&["x", "y", "z"]));
    assert_eq!(r, strings(&["a and x", "a and y", "a and z", "b and x", "b and y", "b and z"]));
    assert_eq!(r.len(), 2 * 3);
}

#[test]
fn build_where_clause_with_no_new_conditions_is_empty() {
    let r = build_where_clause(&strings(&["a"]), &Vec::new());
    assert!(r.is_empty());
}

#[test]
fn get_where_clause_of_joins_with_or() {
    assert_eq!(get_where_clause_of(&Vec::new()), "");
    assert_eq!(get_where_clause_of(&strings(&["a"])), "a");
    assert_eq!(get_where_clause_of(&strings(&["a", "b", "c"])), "a or b or c");
}

#[test]
fn prefixes_and_suffixes_of_fields() {
    assert_eq!(prefix(Schema::Clusters, Field::ClusterId), "cluster_id='");
    assert_eq!(suffix(Field::ClusterId), "'");
    assert_eq!(suffix(Field::Category), "')");
    assert_eq!(
        prefix(Schema::Cluster, Field::DataSource),
        "Cluster.data_source_id = (SELECT id FROM data_source WHERE topic_name = '"
    );
}

fn empty_filter() -> Filter {
    Filter { category: None, data_source: None, status: None, qualifier: None, cluster_id: None, detector_id: None }
}

#[test]
fn empty_filter_has_no_clause() {
    let f = empty_filter();
    assert!(f.query_builder(Schema::Cluster).is_empty());
    assert_eq!(f.get_where_clause(Schema::Cluster), "");
}

#[test]
fn filter_combines_fields_with_and_and_values_with_or() {
    let mut f = empty_filter();
    f.cluster_id = Some(strings(&["c1", "c2"]));
    f.detector_id = Some(vec![7]);
    let q = f.query_builder(Schema::Clusters);
    assert_eq!(q, strings(&["cluster_id='c1' and detector_id='7'", "cluster_id='c2' and detector_id='7'"]));
    assert_eq!(
        f.get_where_clause(Schema::Clusters),
        "cluster_id='c1' and detector_id='7' or cluster_id='c2' and detector_id='7'"
    );
}

#[test]
fn filter_category_and_qualifier_in_cluster_schema() {
    let mut f = empty_filter();
    f.category = Some(strings(&["cat"]));
    f.qualifier = Some(strings(&["benign"]));
    assert_eq!(
        f.get_where_clause(Schema::Cluster),
        "Cluster.category_id = (SELECT id FROM category WHERE name = 'cat') and Cluster.qualifier_id = (SELECT id FROM qualifier WHERE description = 'benign')"
    );
}

#[test]
fn filter_field_with_no_values_leaves_nothing() {
    let mut f = empty_filter();
    f.category = Some(strings(&["cat"]));
    f.status = Some(Vec::new());
    assert!(f.query_builder(Schema::Clusters).is_empty());
}

#[test]
fn filter_alternatives_are_the_product_of_the_value_counts() {
    let mut f = empty_filter();
    f.category = Some(strings(&["a", "b"]));
    f.status = Some(strings(&["s1", "s2", "s3"]));
    f.detector_id = Some(vec![1, 2]);
    let q = f.query_builder(Schema::Clusters);
    assert_eq!(q.len(), 12);
    assert!(q[0].starts_with("Clusters.category_id = (SELECT category_id FROM category WHERE category = 'a') and detector_id='1' and "));
    assert!(q[11].starts_with("Clusters.category_id = (SELECT category_id FROM category WHERE category = 'b') and detector_id='2' and "));
    let mut g = empty_filter();
    g.qualifier = Some(strings(&["x", "y"]));
    assert_eq!(g.query_builder(Schema::Cluster).len(), 2);
}
