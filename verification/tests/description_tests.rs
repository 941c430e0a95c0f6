use review::database::description::{
    column_description_rows, db_description_id, kind_of_type_id, loaded_count, reviewd_type_id, safe_cast_usize_to_i64, top_n_rankings, type_id,
    ClusterDescriptions, ColumnDescriptionRow, ColumnSummary, ElementKind,
};

fn column(mode: Option<ElementKind>, count: usize) -> ColumnSummary {
    ColumnSummary { mode, count, unique_count: count / 2 }
}

#[test]
fn safe_cast_caps_at_i64_max() {
    assert_eq!(safe_cast_usize_to_i64(0), 0);
    assert_eq!(safe_cast_usize_to_i64(12345), 12345);
    assert_eq!(safe_cast_usize_to_i64(usize::MAX), i64::MAX);
    assert_eq!(safe_cast_usize_to_i64(i64::MAX as usize), i64::MAX);
}

#[test]
fn type_ids_of_kinds() {
    assert_eq!(type_id(Some(ElementKind::Int)), Some(1));
    assert_eq!(type_id(Some(ElementKind::Enum)), Some(2));
    assert_eq!(type_id(Some(ElementKind::FloatRange)), Some(3));
    assert_eq!(type_id(Some(ElementKind::Text)), Some(4));
    assert_eq!(type_id(Some(ElementKind::IpAddr)), Some(5));
    assert_eq!(type_id(Some(ElementKind::DateTime)), Some(6));
    assert_eq!(type_id(Some(ElementKind::Float)), None);
    assert_eq!(type_id(None), None);
    assert_eq!(type_id(Some(ElementKind::UInt)), None);
    assert_eq!(reviewd_type_id(Some(ElementKind::UInt)), Some(2));
    assert_eq!(reviewd_type_id(Some(ElementKind::Enum)), None);
    assert_eq!(reviewd_type_id(Some(ElementKind::DateTime)), Some(6));
}

#[test]
fn serial_ids_are_distinct_and_increasing() {
    let clusters: Vec<ClusterDescriptions> = (0..4)
        .map(|i| ClusterDescriptions {
            cluster_id: if i == 1 { None } else { Some(i) },
            first_event_id: Some(1),
            last_event_id: if i == 2 { None } else { Some(2) },
            columns: vec![column(Some(ElementKind::Int), 1), column(Some(ElementKind::Text), 1)],
        })
        .collect();
    let rows = column_description_rows(&clusters);
    assert!(rows.windows(2).all(|w| w[0].id < w[1].id));
    assert!(rows.iter().all(|r| r.id >= 1));
    assert_eq!(rows.iter().map(|r| r.id).collect::<Vec<_>>(), vec![1, 2, 5, 6]);
}

#[test]
fn stored_kinds_read_back() {
    for k in [ElementKind::Int, ElementKind::Enum, ElementKind::FloatRange, ElementKind::Text, ElementKind::IpAddr, ElementKind::DateTime] {
        assert_eq!(kind_of_type_id(type_id(Some(k)).unwrap()), Some(k));
    }
    assert_eq!(kind_of_type_id(0), None);
    assert_eq!(kind_of_type_id(7), None);
}

#[test]
fn loaded_counts() {
    assert_eq!(loaded_count(Some(5)), 5);
    assert_eq!(loaded_count(Some(-1)), 0);
    assert_eq!(loaded_count(None), 0);
    for v in [0usize, 7, 1 << 40] {
        assert_eq!(loaded_count(Some(safe_cast_usize_to_i64(v))), v);
    }
}

#[test]
fn rows_take_consecutive_serial_ids() {
    let clusters = vec![
        ClusterDescriptions {
            cluster_id: Some(10),
            first_event_id: Some(100),
            last_event_id: Some(200),
            columns: vec![column(Some(ElementKind::Int), 4), column(None, 1), column(Some(ElementKind::Text), 6)],
        },
        ClusterDescriptions { cluster_id: None, first_event_id: Some(1), last_event_id: Some(2), columns: vec![column(Some(ElementKind::Int), 1)] },
        ClusterDescriptions { cluster_id: Some(11), first_event_id: None, last_event_id: Some(2), columns: vec![column(Some(ElementKind::Enum), 1)] },
        ClusterDescriptions {
            cluster_id: Some(12),
            first_event_id: Some(5),
            last_event_id: Some(9),
            columns: vec![column(Some(ElementKind::Float), 3), column(Some(ElementKind::DateTime), 3)],
        },
    ];
    let rows = column_description_rows(&clusters);
    let view: Vec<(i32, i32, String, String, i32, i32, i64, i64)> = rows
        .iter()
        .map(|r| (r.id, r.cluster_id, r.first_event_id.clone(), r.last_event_id.clone(), r.column_index, r.type_id, r.count, r.unique_count))
        .collect();
    assert_eq!(
        view,
        vec![
            (1, 10, "100".to_string(), "200".to_string(), 0, 1, 4, 2),
            (2, 10, "100".to_string(), "200".to_string(), 2, 4, 6, 3),
            (4, 12, "5".to_string(), "9".to_string(), 1, 6, 3, 1),
        ]
    );
}

fn row(id: i32, cluster_id: i32, column_index: i32) -> ColumnDescriptionRow {
    ColumnDescriptionRow {
        id,
        cluster_id,
        first_event_id: "1".to_string(),
        last_event_id: "2".to_string(),
        column_index,
        type_id: 1,
        count: 0,
        unique_count: 0,
    }
}

#[test]
fn serial_ids_map_to_database_ids() {
    let rows = vec![row(1, 10, 0), row(2, 10, 1)];
    let stored = vec![row(501, 10, 1), row(500, 10, 0), row(502, 10, 0)];
    assert_eq!(db_description_id(&rows, &stored, 1), Some(502));
    assert_eq!(db_description_id(&rows, &stored, 2), Some(501));
    assert_eq!(db_description_id(&rows, &stored, 3), None);
    assert_eq!(db_description_id(&rows, &vec![row(9, 11, 0)], 1), None);
}

#[test]
fn top_n_rankings_start_at_one() {
    assert_eq!(top_n_rankings(&vec![9, 4, usize::MAX]), vec![(1, 9), (2, 4), (3, i64::MAX)]);
    assert!(top_n_rankings(&Vec::new()).is_empty());
}

use review::database::description::{Element, GetValueByType, MISSING_TIME};

#[test]
fn values_read_back() {
    assert_eq!(GetValueByType::top_n_enum(&Some("x".to_string())), Element::Enum("x".to_string()));
    assert_eq!(GetValueByType::top_n_enum(&None), Element::Enum("N/A".to_string()));
    assert_eq!(GetValueByType::top_n_text(&None), Element::Text("N/A".to_string()));
    assert_eq!(GetValueByType::top_n_ipaddr(&Some("10.0.0.1".to_string())), Element::IpAddr(0x0a00_0001));
    assert_eq!(GetValueByType::top_n_ipaddr(&Some("not an ip".to_string())), Element::IpAddr(0));
    assert_eq!(GetValueByType::top_n_ipaddr(&None), Element::IpAddr(0));
    assert_eq!(GetValueByType::top_n_datetime(&None), Element::DateTime(MISSING_TIME));
    assert_eq!(GetValueByType::top_n_datetime(&Some(5)), Element::DateTime(5));
    assert_eq!(GetValueByType::mode_enum(Some("m".to_string())), Some(Element::Enum("m".to_string())));
    assert_eq!(GetValueByType::mode_text(None), None);
    assert_eq!(GetValueByType::mode_ipaddr(Some("1.2.3.4".to_string())), Some(Element::IpAddr(0x0102_0304)));
    assert_eq!(GetValueByType::mode_ipaddr(Some("1.2.3".to_string())), Some(Element::IpAddr(0)));
    assert_eq!(GetValueByType::mode_datetime(Some(-1)), Some(Element::DateTime(-1)));
    let t = chrono::NaiveDate::from_ymd_opt(1, 1, 1).unwrap().and_hms_opt(1, 1, 1).unwrap();
    assert_eq!(t.and_utc().timestamp(), MISSING_TIME);
}

#[test]
fn stored_descriptions_read_back() {
    let clusters = vec![
        ClusterDescriptions {
            cluster_id: Some(8),
            first_event_id: Some(10),
            last_event_id: Some(20),
            columns: vec![column(Some(ElementKind::Text), 7), column(Some(ElementKind::Float), 3), column(Some(ElementKind::DateTime), 9)],
        },
        ClusterDescriptions { cluster_id: None, first_event_id: Some(1), last_event_id: Some(2), columns: vec![column(Some(ElementKind::Int), 1)] },
    ];
    let rows: Vec<ColumnDescriptionRow> = column_description_rows(&clusters);
    assert_eq!(rows.len(), 2);
    for (row, j) in rows.iter().zip([0usize, 2]) {
        let col = &clusters[0].columns[j];
        assert_eq!(row.cluster_id, 8);
        assert_eq!(row.column_index as usize, j);
        assert_eq!(kind_of_type_id(row.type_id), col.mode);
        assert_eq!(loaded_count(Some(row.count)), col.count);
        assert_eq!(loaded_count(Some(row.unique_count)), col.unique_count);
        assert_eq!((row.first_event_id.as_str(), row.last_event_id.as_str()), ("10", "20"));
    }
}

use review::database::description::{read_value, store_value, StoredValue};

#[test]
fn stored_values_read_back() {
    for e in [Element::Enum("a".to_string()), Element::Text("t x".to_string()), Element::DateTime(-5)] {
        let kind = match &e {
            Element::Enum(_) => ElementKind::Enum,
            Element::Text(_) => ElementKind::Text,
            _ => ElementKind::DateTime,
        };
        let stored = store_value(e.clone()).unwrap();
        assert_eq!(read_value(kind, stored), Some(e));
    }
    let ip = 0x0a00_0001u32;
    match store_value(Element::IpAddr(ip)) {
        Some(StoredValue::Text(t)) => {
            assert_eq!(t, "10.0.0.1");
            assert_eq!(read_value(ElementKind::IpAddr, StoredValue::Text(t)), Some(Element::IpAddr(ip)));
        }
        _ => panic!("an address is stored as text"),
    }
    assert!(store_value(Element::Float).is_none());
    assert_eq!(read_value(ElementKind::Text, StoredValue::Time(1)), None);
}
