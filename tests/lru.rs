use tinyhttp::lru_cache::LRUCache;

#[test]
fn lru_test_1() {
    let mut test = Vec::new();
    for i in 0..5 {
        test.push(i);
    }

    let mut lru = LRUCache { array: test };

    // Walking the cache reads entries 0, 1, 2, ... in turn; each read moves
    // the entry to the front.
    let mut pos = 0;
    while let Some(i) = lru.get(pos).cloned() {
        pos += 1;
        if i == 3 {
            break;
        }
    }

    assert_eq!(lru.array[0], 3);
    assert_eq!(lru.array[1], 2);
    assert_eq!(lru.array[2], 1);
    assert_eq!(lru.array[3], 0);
    assert_eq!(lru.array[4], 4);

    let mut pos = 0;
    let mut val = None;
    while let Some(i) = lru.get(pos).cloned() {
        pos += 1;
        if i == 4 {
            val = Some(i);
            break;
        }
    }
    let val = val.unwrap();

    assert_eq!(val, lru.array[0]);
}

#[test]
fn lru_touch_out_of_range() {
    let mut lru = LRUCache { array: vec![1, 2, 3] };
    assert!(lru.touch(3).is_none());
    assert_eq!(lru.array, vec![1, 2, 3]);
    assert!(lru.get(7).is_none());
    assert!(!lru.is_empty());
    assert!(LRUCache::<u8> { array: vec![] }.is_empty());
}
