use clewdr_web::string_map::StringMap;

fn sample() -> StringMap<u32> {
    let mut map = StringMap::new();
    map.insert("one".to_string(), 1);
    map.insert("two".to_string(), 2);
    map.insert("three".to_string(), 3);
    map
}

#[test]
fn what_was_put_in_is_found() {
    let mut map = sample();
    assert_eq!(map.get_mut("two"), Some(&mut 2));
    assert_eq!(map.get_mut("four"), None);
    assert_eq!(map.len(), 3);
    assert_eq!(StringMap::<u32>::new().get_mut(""), None);
}

#[test]
fn a_key_stands_for_one_value() {
    let mut map = sample();
    map.insert("two".to_string(), 22);
    assert_eq!(map.get_mut("two"), Some(&mut 22));
    assert_eq!(map.len(), 3);
}

#[test]
fn a_value_can_be_changed_in_place() {
    let mut map = sample();
    *map.get_mut("one").unwrap() += 10;
    assert!(map.get_mut("four").is_none());
    assert_eq!(map.get_mut("one"), Some(&mut 11));
    assert_eq!(map.get_mut("two"), Some(&mut 2));
}

#[test]
fn what_is_taken_out_is_gone() {
    let mut map = sample();
    assert_eq!(map.remove("one"), Some(1));
    assert_eq!(map.remove("one"), None);
    assert_eq!(map.get_mut("one"), None);
    assert_eq!(map.get_mut("three"), Some(&mut 3));
    assert_eq!(map.len(), 2);
}

#[test]
fn entries_can_be_walked() {
    let mut map = sample();
    let mut sum = 0;
    for i in 0..map.len() {
        let (key, value) = map.entry(i);
        let (key, mut value) = (key.clone(), *value);
        sum += value;
        assert_eq!(map.get_mut(&key), Some(&mut value));
    }
    assert_eq!(sum, 6);
}
