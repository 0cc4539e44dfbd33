use ainukey::reader::Reader;
use ainukey::suggest::Suggestions;

fn table(words: &[(&[u8], u32)], version: u32) -> Vec<u8> {
    let mut b = Vec::new();
    b.extend(b"AKNG");
    b.extend(version.to_le_bytes());
    b.extend((words.len() as u32).to_le_bytes());
    for (w, c) in words {
        b.push(w.len() as u8);
        b.extend(*w);
        b.extend(c.to_le_bytes());
    }
    b
}

#[test]
fn table_rejects_garbage() {
    assert!(Suggestions::load(b"nope").is_none());
    assert!(Suggestions::load(&[]).is_none());
    assert!(Suggestions::load(&table(&[(b"ka", 1)], 1)).is_none()); // wrong version
    let mut t = table(&[(b"ka", 1)], 2);
    t.pop(); // truncated frequency
    assert!(Suggestions::load(&t).is_none());
    assert!(Suggestions::load(&table(&[(&[0xFF, 0xFE], 1)], 2)).is_none()); // not UTF-8
}

#[test]
fn completes_by_frequency_then_table_order() {
    let s = Suggestions::load(&table(
        &[(b"kar", 5), (b"kamuy", 9), ("kánna".as_bytes(), 5), (b"pon", 7), (b"ka", 1)],
        2,
    ))
    .expect("table");
    assert_eq!(s.len(), 5);
    let words: Vec<String> = s.complete("ka", 10).into_iter().map(|(w, _)| w).collect();
    // "kánna" starts with "ká", not "ka".
    assert_eq!(words, vec!["kamuy", "kar", "ka"]);
    let accented: Vec<String> = s.complete("ká", 10).into_iter().map(|(w, _)| w).collect();
    assert_eq!(accented, vec!["kánna"]);
    let top: Vec<(String, u32)> = s.complete("ka", 2);
    assert_eq!(top, vec![("kamuy".to_string(), 9), ("kar".to_string(), 5)]);
    assert!(s.complete("z", 3).is_empty());
    assert_eq!(s.complete("", 1).len(), 1);
}

#[test]
fn reader_reads_little_endian() {
    let data = [1u8, 0x78, 0x56, 0x34, 0x12, 2, b'h', b'i', 9];
    let mut r = Reader::new(&data);
    assert_eq!(r.u8(), Some(1));
    assert_eq!(r.u32(), Some(0x1234_5678));
    assert_eq!(r.string(), Some("hi".to_string()));
    assert_eq!(r.take(2), None);
    assert_eq!(r.take(1), Some(&[9u8][..]));
    assert_eq!(r.u8(), None);
}
