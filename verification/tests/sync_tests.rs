use proxy_pulse::sync::{added_source_outcome, sync_answer, sync_record, sync_round};

#[test]
fn one_sync_record() {
    let ok = sync_record(4, &Ok(12));
    assert_eq!((ok.source_id, ok.proxy_count, ok.error), (4, 12, None));
    let err = sync_record(5, &Err("timeout".to_string()));
    assert_eq!((err.source_id, err.proxy_count, err.error), (5, 0, Some("timeout".to_string())));
}

#[test]
fn round_totals_and_follow_up_check() {
    let results = vec![(1, Ok(3)), (2, Err("dns".to_string())), (3, Ok(0)), (4, Ok(7))];
    let (records, total, check) = sync_round(&results);
    assert_eq!(records.len(), 4);
    assert_eq!(records[1].error, Some("dns".to_string()));
    assert_eq!(records[3].proxy_count, 7);
    assert_eq!(total, 10);
    assert!(check);
    let (records, total, check) = sync_round(&vec![(1, Ok(0)), (2, Err("x".to_string()))]);
    assert_eq!((records.len(), total, check), (2, 0, false));
    let (records, total, check) = sync_round(&Vec::new());
    assert_eq!((records.len(), total, check), (0, 0, false));
}

#[test]
fn added_source_and_sync_answers() {
    let (res, rec, check) = added_source_outcome(9, &Some(Ok(5)));
    assert_eq!((res.id, res.synced, check), (9, 5, true));
    assert_eq!(rec.map(|r| (r.source_id, r.proxy_count)), Some((9, 5)));
    let (res, rec, check) = added_source_outcome(9, &Some(Err("bad list".to_string())));
    assert_eq!((res.synced, check), (0, false));
    assert_eq!(rec.and_then(|r| r.error), Some("bad list".to_string()));
    let (res, rec, check) = added_source_outcome(9, &None);
    assert_eq!((res.synced, check), (0, false));
    assert!(rec.is_none());
    let (answer, check) = sync_answer(4);
    assert_eq!((answer.synced, check), (4, true));
    assert!(!sync_answer(0).1);
}
