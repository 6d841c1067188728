use font_library::font::FontData;
use font_library::source::{finish_load, load_step, LoadStep, SourceData, SourceDataStatus};

fn path_source() -> SourceData {
    SourceData::from_path("/fonts/a.ttf".to_string())
}

#[test]
fn memory_source_is_ready_at_once() {
    let source = SourceData::from_data(FontData::new(vec![1, 2, 3]));
    match load_step(&source) {
        LoadStep::Ready(d) => assert_eq!(d.as_bytes(), &[1, 2, 3]),
        _ => panic!("expected bytes"),
    }
}

#[test]
fn unread_file_asks_for_a_read() {
    let source = path_source();
    match load_step(&source) {
        LoadStep::Read(p) => assert_eq!(p, "/fonts/a.ttf"),
        _ => panic!("expected a read"),
    }
}

#[test]
fn second_load_reuses_live_bytes() {
    let mut source = path_source();
    let first = finish_load(&mut source.status, Some(vec![9, 8, 7])).unwrap();
    assert_eq!(first.as_bytes(), &[9, 8, 7]);
    assert!(matches!(source.status, SourceDataStatus::Present(_)));
    match load_step(&source) {
        LoadStep::Ready(second) => assert_eq!(second.as_bytes(), first.as_bytes()),
        _ => panic!("the bytes are alive: no read is needed"),
    }
    // A read handed in while the bytes are alive is dropped.
    let again = finish_load(&mut source.status, Some(vec![0])).unwrap();
    assert_eq!(again.as_bytes(), &[9, 8, 7]);
}

#[test]
fn reclaimed_bytes_are_read_again() {
    let mut source = path_source();
    let first = finish_load(&mut source.status, Some(vec![4, 5])).unwrap();
    drop(first);
    match load_step(&source) {
        LoadStep::Read(p) => assert_eq!(p, "/fonts/a.ttf"),
        _ => panic!("the bytes were reclaimed"),
    }
    let reread = finish_load(&mut source.status, Some(vec![4, 5])).unwrap();
    assert_eq!(reread.as_bytes(), &[4, 5]);
}

#[test]
fn failed_read_is_sticky() {
    let mut source = path_source();
    assert!(finish_load(&mut source.status, None).is_none());
    assert!(matches!(source.status, SourceDataStatus::Error));
    assert!(matches!(load_step(&source), LoadStep::Absent));
    assert!(finish_load(&mut source.status, Some(vec![1])).is_none());
    assert!(matches!(source.status, SourceDataStatus::Error));
    assert!(matches!(load_step(&source), LoadStep::Absent));
}

#[test]
fn weak_reference_upgrades_to_the_same_bytes() {
    let data = FontData::new(vec![1, 1, 2]);
    let weak = data.downgrade();
    assert_eq!(weak.upgrade().unwrap().as_bytes(), &[1, 1, 2]);
    assert_eq!(data.data().data(), &[1, 1, 2]);
    drop(data);
    assert!(weak.upgrade().is_none());
}
