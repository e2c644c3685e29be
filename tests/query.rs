use entity_pipeline::confidence::Confidence;
use entity_pipeline::pagination::{encode_cursor, PageError, PageRequest};
use entity_pipeline::query::{object_path, Monitor, MutationRoot, QueryRoot};
use entity_pipeline::store::{EntityRecord, EntityTable, MonitorTable};
use entity_pipeline::timestamp::Timestamp;

fn record(monitor: Option<&str>) -> EntityRecord {
    EntityRecord {
        image_id: "img.webp".to_string(),
        label: "person".to_string(),
        confidence: Confidence::from_rounded(Some(5000)),
        monitor_id: monitor.map(|m| m.to_string()),
        created_at: Timestamp { unix_seconds: 0, nanos: 0, offset_seconds: 0 },
    }
}

fn table_of_a(n: i32) -> EntityTable {
    let mut t = EntityTable::new();
    for i in 1..=n {
        assert_eq!(t.insert(record(Some("A"))), Some(i));
    }
    t
}

fn ids(c: &entity_pipeline::pagination::Connection) -> Vec<i32> {
    c.edges.iter().map(|e| e.id).collect()
}

fn a() -> Monitor {
    Monitor { id: Some("A".to_string()) }
}

#[test]
fn forward_pagination() {
    let t = table_of_a(25);
    let c = a().entities(&t, None, None, Some(10), None).unwrap();
    assert_eq!(ids(&c), (1..=10).collect::<Vec<_>>());
    assert!(c.has_next_page);
    assert!(!c.has_previous_page);
    let c = a().entities(&t, Some("10".to_string()), None, Some(10), None).unwrap();
    assert_eq!(ids(&c), (11..=20).collect::<Vec<_>>());
    assert!(c.has_next_page);
    assert!(c.has_previous_page);
    let c = a().entities(&t, Some("20".to_string()), None, Some(10), None).unwrap();
    assert_eq!(ids(&c), (21..=25).collect::<Vec<_>>());
    assert!(!c.has_next_page);
}

#[test]
fn backward_pagination_default() {
    let t = table_of_a(25);
    let c = a().entities(&t, None, None, None, None).unwrap();
    assert_eq!(ids(&c), (16..=25).rev().collect::<Vec<_>>());
    assert!(!c.has_previous_page);
    assert!(c.has_next_page);
    let c = a().entities(&t, None, Some("16".to_string()), None, Some(10)).unwrap();
    assert_eq!(ids(&c), (6..=15).rev().collect::<Vec<_>>());
    assert!(c.has_previous_page);
    assert!(c.has_next_page);
    let info = c.page_info();
    assert_eq!(info.start_cursor, Some(15));
    assert_eq!(info.end_cursor, Some(6));
}

#[test]
fn zero_size_pages_are_empty() {
    let empty = EntityTable::new();
    let c = a().entities(&empty, None, None, Some(0), None).unwrap();
    assert!(c.edges.is_empty());
    assert!(!c.has_next_page);
    let c = a().entities(&empty, None, None, None, Some(0)).unwrap();
    assert!(c.edges.is_empty());
    assert!(!c.has_next_page);
    let t = table_of_a(3);
    let c = a().entities(&t, None, None, Some(0), None).unwrap();
    assert!(c.edges.is_empty());
    assert!(!c.has_next_page);
    let c = a().entities(&t, None, None, None, Some(0)).unwrap();
    assert!(c.edges.is_empty());
    assert!(!c.has_next_page);
    assert_eq!(c.page_info().start_cursor, None);
}

#[test]
fn unattributed_bucket_is_separate() {
    let mut t = table_of_a(2);
    assert_eq!(t.insert(record(None)), Some(3));
    let none = Monitor { id: None };
    let c = none.entities(&t, None, None, Some(10), None).unwrap();
    assert_eq!(ids(&c), vec![3]);
    let c = a().entities(&t, None, None, Some(10), None).unwrap();
    assert_eq!(ids(&c), vec![1, 2]);
    let b = Monitor { id: Some("B".to_string()) };
    assert!(b.entities(&t, None, None, None, None).unwrap().edges.is_empty());
}

#[test]
fn pagination_argument_errors() {
    let t = table_of_a(1);
    assert_eq!(a().entities(&t, None, None, Some(-1), None).unwrap_err(), PageError::NegativeFirst);
    assert_eq!(a().entities(&t, None, None, None, Some(-1)).unwrap_err(), PageError::NegativeLast);
    assert_eq!(a().entities(&t, Some("x".to_string()), None, Some(1), None).unwrap_err(), PageError::InvalidCursor);
    assert_eq!(a().entities(&t, None, Some("".to_string()), None, None).unwrap_err(), PageError::InvalidCursor);
    assert_eq!(
        PageRequest::from_args(&None, &None, Some(3), Some(4)),
        Ok(PageRequest::Forward { after: 0, first: 3 })
    );
    assert_eq!(
        PageRequest::from_args(&None, &None, None, None),
        Ok(PageRequest::Backward { before: i32::MAX, last: 10 })
    );
}

#[test]
fn monitors_end_with_unattributed() {
    let mut m = MonitorTable::new();
    m.ensure(&"A".to_string());
    m.ensure(&"B".to_string());
    let all = QueryRoot.monitors(&m);
    let got: Vec<Option<String>> = all.into_iter().map(|x| x.id).collect();
    assert_eq!(got, vec![Some("A".to_string()), Some("B".to_string()), None]);
    assert_eq!(QueryRoot.monitor(&m, Some("Z".to_string())).id.as_deref(), Some("Z"));
    assert_eq!(QueryRoot.monitor(&m, Some("A".to_string())).id.as_deref(), Some("A"));
    assert_eq!(QueryRoot.monitor(&m, None).id, None);
}

#[test]
fn entity_lookup_and_listing() {
    let t = table_of_a(12);
    let e = QueryRoot.entity(&t, 5).unwrap();
    assert_eq!(e.id, 5);
    assert_eq!(e.image_path(), "/img.webp");
    assert_eq!(e.monitor().id.as_deref(), Some("A"));
    assert!(QueryRoot.entity(&t, 13).is_none());
    assert!(QueryRoot.entity(&t, 0).is_none());
    let newest: Vec<i32> = QueryRoot.entities(&t, None, None).unwrap().iter().map(|e| e.id).collect();
    assert_eq!(newest, (3..=12).rev().collect::<Vec<_>>());
    let older: Vec<i32> = QueryRoot.entities(&t, Some(3), Some(5)).unwrap().iter().map(|e| e.id).collect();
    assert_eq!(older, vec![2, 1]);
    assert!(QueryRoot.entities(&t, None, Some(-1)).is_none());
}

#[test]
fn created_entities_get_dense_ids() {
    let mut t = EntityTable::new();
    let ts = Timestamp { unix_seconds: 5, nanos: 0, offset_seconds: 0 };
    let e = MutationRoot
        .create_entity(&mut t, "a.jpg".to_string(), "person".to_string(), Confidence::zero(), ts)
        .unwrap();
    assert_eq!(e.id, 1);
    assert_eq!(e.monitor_id, None);
    let e = MutationRoot
        .create_entity(&mut t, "b.jpg".to_string(), "cat".to_string(), Confidence::zero(), ts)
        .unwrap();
    assert_eq!(e.id, 2);
    assert_eq!(t.len(), 2);
    assert_eq!(t.find(2).unwrap().image_id, "b.jpg");
}


#[test]
fn consecutive_pages_cover_every_row_once() {
    let mut t = EntityTable::new();
    for i in 0..23 {
        let m = if i % 3 == 0 { None } else { Some("A") };
        t.insert(record(m));
    }
    let expected: Vec<i32> = (1..=23).filter(|i| (i - 1) % 3 != 0).collect();
    let mut seen = Vec::new();
    let mut after: Option<String> = None;
    loop {
        let c = a().entities(&t, after.clone(), None, Some(4), None).unwrap();
        seen.extend(ids(&c));
        if !c.has_next_page {
            break;
        }
        after = c.page_info().end_cursor.map(|id| id.to_string());
    }
    assert_eq!(seen, expected);
    let mut back = Vec::new();
    let mut before: Option<String> = None;
    loop {
        let c = a().entities(&t, None, before.clone(), None, Some(5)).unwrap();
        back.extend(ids(&c));
        if !c.has_next_page {
            break;
        }
        before = c.page_info().end_cursor.map(|id| id.to_string());
    }
    back.reverse();
    assert_eq!(back, expected);
}

#[test]
fn pages_stay_stable_across_inserts() {
    let mut t = table_of_a(5);
    let c = a().entities(&t, None, None, Some(3), None).unwrap();
    assert_eq!(ids(&c), vec![1, 2, 3]);
    t.insert(record(Some("A")));
    t.insert(record(None));
    let cursor = c.page_info().end_cursor.map(encode_cursor);
    assert_eq!(cursor.as_deref(), Some("3"));
    let c = a().entities(&t, cursor, None, Some(10), None).unwrap();
    assert_eq!(ids(&c), vec![4, 5, 6]);
    let c = a().entities(&t, None, Some("4".to_string()), None, Some(10)).unwrap();
    assert_eq!(ids(&c), vec![3, 2, 1]);
}

#[test]
fn upload_keys_are_fresh_v4_jpgs() {
    let k1 = MutationRoot.new_upload_key();
    let k2 = MutationRoot.new_upload_key();
    assert_eq!(k1.len(), 40);
    assert!(k1.ends_with(".jpg"));
    assert_eq!(k1.as_bytes()[14], b'4');
    assert_ne!(k1, k2);
    assert_eq!(object_path(&k1), format!("/{k1}"));
}
