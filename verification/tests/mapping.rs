use uribo::mapping::{CommandMap, Entry};
use uribo::names::{compare, same_text, Order};
use uribo::record::{copy_text, copy_texts, Command};

fn record(program: &str) -> Command {
    Command { command: program.to_string(), args: Vec::new(), working_dir: None }
}

fn names(m: &CommandMap) -> Vec<String> {
    m.entries().iter().map(|e| e.name.clone()).collect()
}

#[test]
fn new_mapping_is_empty() {
    let m = CommandMap::new();
    assert!(m.is_empty());
    assert_eq!(m.len(), 0);
    assert_eq!(m.get("x"), None);
    assert!(!m.contains_key("x"));
    assert!(m.entries().is_empty());
}

#[test]
fn insert_binds_a_name() {
    let mut m = CommandMap::new();
    assert_eq!(m.insert("build".to_string(), record("make")), None);
    assert!(!m.is_empty());
    assert_eq!(m.len(), 1);
    assert!(m.contains_key("build"));
    assert_eq!(m.get("build"), Some(&record("make")));
    assert!(!m.contains_key("buil"));
    assert!(!m.contains_key("build2"));
}

#[test]
fn insert_hands_back_the_record_it_replaces() {
    let mut m = CommandMap::new();
    m.insert("build".to_string(), record("make"));
    assert_eq!(m.insert("build".to_string(), record("ninja")), Some(record("make")));
    assert_eq!(m.len(), 1);
    assert_eq!(m.get("build"), Some(&record("ninja")));
}

#[test]
fn entries_come_out_in_the_order_of_their_names() {
    let mut m = CommandMap::new();
    for name in ["test", "build", "zip", "a", "run", "b", "deploy"] {
        m.insert(name.to_string(), record(name));
    }
    assert_eq!(names(&m), vec!["a", "b", "build", "deploy", "run", "test", "zip"]);
    for e in m.entries() {
        assert_eq!(e.command, record(&e.name));
    }
}

#[test]
fn order_does_not_depend_on_the_order_of_insertion() {
    let mut forward = CommandMap::new();
    let mut backward = CommandMap::new();
    let all = ["a", "ab", "abc", "b", "é", "日本", "~", "B", "_x", "10", "9"];
    for name in all {
        forward.insert(name.to_string(), record(name));
    }
    for name in all.iter().rev() {
        backward.insert(name.to_string(), record(name));
    }
    assert_eq!(forward, backward);
    let mut sorted: Vec<String> = all.iter().map(|n| n.to_string()).collect();
    sorted.sort();
    assert_eq!(names(&forward), sorted);
}

#[test]
fn remove_drops_a_name_and_hands_back_its_record() {
    let mut m = CommandMap::new();
    m.insert("a".to_string(), record("1"));
    m.insert("b".to_string(), record("2"));
    m.insert("c".to_string(), record("3"));
    assert_eq!(m.remove("b"), Some(record("2")));
    assert_eq!(names(&m), vec!["a", "c"]);
    assert_eq!(m.get("b"), None);
    assert_eq!(m.get("a"), Some(&record("1")));
    assert_eq!(m.get("c"), Some(&record("3")));
}

#[test]
fn remove_of_an_undefined_name_changes_nothing() {
    let mut m = CommandMap::new();
    m.insert("a".to_string(), record("1"));
    let before = m.clone();
    assert_eq!(m.remove("b"), None);
    assert_eq!(m.remove(""), None);
    assert_eq!(m, before);
}

#[test]
fn clone_is_the_same_mapping() {
    let mut m = CommandMap::new();
    m.insert("b".to_string(), Command {
        command: "make".to_string(),
        args: vec!["-j".to_string(), "4".to_string()],
        working_dir: Some("out".to_string()),
    });
    m.insert("a".to_string(), record("ls"));
    let copy = m.clone();
    assert_eq!(copy, m);
    assert_eq!(copy.entries()[1], Entry {
        name: "b".to_string(),
        command: Command {
            command: "make".to_string(),
            args: vec!["-j".to_string(), "4".to_string()],
            working_dir: Some("out".to_string()),
        },
    });
}

#[test]
fn record_clone_keeps_every_field() {
    let with_all = Command {
        command: "make".to_string(),
        args: vec!["-j".to_string(), "4".to_string()],
        working_dir: Some("out".to_string()),
    };
    assert_eq!(with_all.clone(), with_all);
    let bare = record("ls");
    let copy = bare.clone();
    assert_eq!(copy.working_dir, None);
    assert!(copy.args.is_empty());
    assert_eq!(copy, bare);
}

#[test]
fn empty_name_is_a_name() {
    let mut m = CommandMap::new();
    m.insert(String::new(), record("nothing"));
    m.insert("a".to_string(), record("a"));
    assert_eq!(names(&m), vec!["", "a"]);
    assert_eq!(m.get(""), Some(&record("nothing")));
}

#[test]
fn compare_orders_names_by_their_bytes() {
    assert_eq!(compare("a", "b"), Order::Before);
    assert_eq!(compare("b", "a"), Order::After);
    assert_eq!(compare("a", "a"), Order::Same);
    assert_eq!(compare("", ""), Order::Same);
    assert_eq!(compare("", "a"), Order::Before);
    assert_eq!(compare("a", ""), Order::After);
    assert_eq!(compare("ab", "abc"), Order::Before);
    assert_eq!(compare("abc", "ab"), Order::After);
    assert_eq!(compare("B", "a"), Order::Before);
    assert_eq!(compare("z", "é"), Order::Before);
    assert_eq!(compare("日本", "日本語"), Order::Before);
}

#[test]
fn compare_agrees_with_the_order_of_strings() {
    let samples = ["", "a", "A", "ab", "b", "build", "Build", "é", "e", "日本", "zz", "~", "0"];
    for x in samples {
        for y in samples {
            let expected = match x.cmp(y) {
                std::cmp::Ordering::Less => Order::Before,
                std::cmp::Ordering::Equal => Order::Same,
                std::cmp::Ordering::Greater => Order::After,
            };
            assert_eq!(compare(x, y), expected, "{:?} against {:?}", x, y);
            assert_eq!(same_text(x, y), x == y);
        }
    }
}

#[test]
fn copies_of_texts_are_the_same_texts() {
    let texts = vec!["one".to_string(), String::new(), "three".to_string()];
    assert_eq!(copy_texts(&texts), texts);
    assert_eq!(copy_texts(&Vec::new()), Vec::<String>::new());
    assert_eq!(copy_text(&Some("dir".to_string())), Some("dir".to_string()));
    assert_eq!(copy_text(&None), None);
}
