use uribo::error::Error;
use uribo::mapping::CommandMap;
use uribo::record::Command;
use uribo::store::{delete, document, find_command_from_path, put, Probe};

fn record(program: &str, args: &[&str], working_dir: Option<&str>) -> Command {
    Command {
        command: program.to_string(),
        args: args.iter().map(|a| a.to_string()).collect(),
        working_dir: working_dir.map(|d| d.to_string()),
    }
}

fn mapping(entries: &[(&str, Command)]) -> CommandMap {
    let mut m = CommandMap::new();
    for (name, command) in entries {
        m.insert(name.to_string(), command.clone());
    }
    m
}

#[test]
fn put_without_a_file_starts_from_the_empty_mapping() {
    let saved = put(Probe::Missing, "/proj/.uribo", "build", record("echo", &["hi"], None));
    assert_eq!(saved, Ok(mapping(&[("build", record("echo", &["hi"], None))])));
}

#[test]
fn put_adds_to_the_mapping_that_is_there() {
    let before = mapping(&[("test", record("cargo", &["test"], None))]);
    let saved = put(Probe::Loaded(before), "/proj/.uribo", "build", record("make", &[], None));
    assert_eq!(
        saved,
        Ok(mapping(&[
            ("build", record("make", &[], None)),
            ("test", record("cargo", &["test"], None)),
        ]))
    );
}

#[test]
fn put_overwrites_a_name_that_is_defined() {
    let before = mapping(&[("build", record("make", &[], None))]);
    let saved = put(
        Probe::Loaded(before),
        "/proj/.uribo",
        "build",
        record("ninja", &["-v"], Some("out")),
    );
    assert_eq!(saved, Ok(mapping(&[("build", record("ninja", &["-v"], Some("out")))])));
}

#[test]
fn put_is_idempotent() {
    let once = put(Probe::Missing, "/p/.uribo", "build", record("echo", &["hi"], None)).unwrap();
    let expected = mapping(&[("build", record("echo", &["hi"], None))]);
    let twice = put(Probe::Loaded(once), "/p/.uribo", "build", record("echo", &["hi"], None));
    assert_eq!(twice, Ok(expected));
}

#[test]
fn put_then_lookup_finds_exactly_the_record() {
    let with_dir = record("npm", &["run", "dev"], Some("web"));
    let without_dir = record("npm", &["test"], None);
    let saved = put(Probe::Missing, "/p/.uribo", "dev", with_dir.clone()).unwrap();
    let saved = put(Probe::Loaded(saved), "/p/.uribo", "check", without_dir.clone()).unwrap();
    let probe = Probe::Loaded(saved);
    assert_eq!(find_command_from_path("dev", "/p/.uribo", &probe), Ok(Some(with_dir)));
    let found = find_command_from_path("check", "/p/.uribo", &probe).unwrap().unwrap();
    assert_eq!(found, without_dir);
    assert_eq!(found.working_dir, None);
}

#[test]
fn put_on_a_malformed_file_writes_nothing() {
    let saved = put(
        Probe::Malformed("key must be a string".to_string()),
        "/proj/.uribo",
        "build",
        record("make", &[], None),
    );
    assert_eq!(
        saved,
        Err(Error::Parse {
            path: "/proj/.uribo".to_string(),
            cause: "key must be a string".to_string(),
        })
    );
}

#[test]
fn put_on_an_unreadable_file_writes_nothing() {
    let saved = put(
        Probe::Unreadable("Permission denied".to_string()),
        "/proj/.uribo",
        "build",
        record("make", &[], None),
    );
    assert_eq!(
        saved,
        Err(Error::Io { path: "/proj/.uribo".to_string(), cause: "Permission denied".to_string() })
    );
}

#[test]
fn delete_without_a_file_fails() {
    assert_eq!(delete(Probe::Missing, "/proj/.uribo", "build"), Err(Error::NoConfigFile));
}

#[test]
fn delete_of_an_undefined_name_in_an_empty_mapping_fails() {
    let saved = delete(Probe::Loaded(CommandMap::new()), "/proj/.uribo", "missing");
    assert_eq!(saved, Err(Error::NameNotDefined("missing".to_string())));
    let failure = saved.unwrap_err();
    assert_eq!(failure.exit_code(), 1);
    assert_eq!(failure.message(), "\"missing\" command is not defined");
}

#[test]
fn delete_of_an_undefined_name_beside_others_fails() {
    let before = mapping(&[("build", record("make", &[], None))]);
    let saved = delete(Probe::Loaded(before), "/proj/.uribo", "test");
    assert_eq!(saved, Err(Error::NameNotDefined("test".to_string())));
}

#[test]
fn delete_drops_the_name_and_keeps_the_rest() {
    let before = mapping(&[
        ("build", record("make", &[], None)),
        ("test", record("cargo", &["test"], None)),
    ]);
    let saved = delete(Probe::Loaded(before), "/proj/.uribo", "build");
    assert_eq!(saved, Ok(mapping(&[("test", record("cargo", &["test"], None))])));
}

#[test]
fn delete_of_the_last_name_writes_the_empty_mapping() {
    let before = mapping(&[("build", record("make", &[], None))]);
    let saved = delete(Probe::Loaded(before), "/proj/.uribo", "build").unwrap();
    assert!(saved.is_empty());
    assert_eq!(saved, CommandMap::new());
}

#[test]
fn delete_on_a_malformed_file_writes_nothing() {
    let saved = delete(Probe::Malformed("EOF while parsing".to_string()), "/p/.uribo", "x");
    assert_eq!(
        saved,
        Err(Error::Parse { path: "/p/.uribo".to_string(), cause: "EOF while parsing".to_string() })
    );
}

#[test]
fn delete_after_put_restores_the_mapping() {
    let before = mapping(&[
        ("alpha", record("a", &[], None)),
        ("omega", record("o", &["1", "2"], Some("dir"))),
    ]);
    let expected = before.clone();
    let put_back = put(Probe::Loaded(before), "/p/.uribo", "middle", record("m", &[], None));
    let restored = delete(Probe::Loaded(put_back.unwrap()), "/p/.uribo", "middle").unwrap();
    assert_eq!(restored, expected);
}

#[test]
fn delete_after_put_without_a_file_leaves_the_empty_mapping() {
    let saved = put(Probe::Missing, "/p/.uribo", "build", record("make", &[], None)).unwrap();
    let restored = delete(Probe::Loaded(saved), "/p/.uribo", "build");
    assert_eq!(restored, Ok(CommandMap::new()));
}

#[test]
fn lookup_in_a_missing_file_finds_nothing() {
    assert_eq!(find_command_from_path("x", "/p/.uribo", &Probe::Missing), Ok(None));
}

#[test]
fn lookup_in_a_malformed_file_fails() {
    let probe = Probe::Malformed("expected `:`".to_string());
    assert_eq!(
        find_command_from_path("x", "/p/.uribo", &probe),
        Err(Error::Parse { path: "/p/.uribo".to_string(), cause: "expected `:`".to_string() })
    );
}

#[test]
fn lookup_in_an_unreadable_file_fails() {
    let probe = Probe::Unreadable("Is a directory".to_string());
    assert_eq!(
        find_command_from_path("x", "/p/.uribo", &probe),
        Err(Error::Io { path: "/p/.uribo".to_string(), cause: "Is a directory".to_string() })
    );
}

#[test]
fn document_ends_in_one_line_feed() {
    assert_eq!(document("{}".to_string()), "{}\n");
    assert_eq!(document(String::new()), "\n");
    assert_eq!(document("{\n  \"a\": 1\n}".to_string()), "{\n  \"a\": 1\n}\n");
}
