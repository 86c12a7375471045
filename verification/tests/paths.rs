use std::path::Path;
use uribo::paths::{config_path, join, parent, CONFIG_FILE_NAME, ENV_DEFAULT_CONFIG_PATH};

fn some(text: &str) -> Option<String> {
    Some(text.to_string())
}

#[test]
fn parent_strips_the_last_component() {
    assert_eq!(parent("/proj/sub"), some("/proj"));
    assert_eq!(parent("/proj/sub/.uribo"), some("/proj/sub"));
    assert_eq!(parent("/a/b/c/d"), some("/a/b/c"));
}

#[test]
fn parent_of_a_top_level_directory_is_the_root() {
    assert_eq!(parent("/proj"), some("/"));
    assert_eq!(parent("/.uribo"), some("/"));
}

#[test]
fn root_has_no_parent() {
    assert_eq!(parent("/"), None);
    assert_eq!(parent("//"), None);
}

#[test]
fn empty_path_has_no_parent() {
    assert_eq!(parent(""), None);
}

#[test]
fn parent_of_a_single_relative_component_is_empty() {
    assert_eq!(parent("proj"), some(""));
    assert_eq!(parent("aliases.json"), some(""));
}

#[test]
fn parent_of_a_relative_path() {
    assert_eq!(parent("a/b"), some("a"));
    assert_eq!(parent("a/b/c"), some("a/b"));
}

#[test]
fn parent_ignores_slashes_at_the_end_and_repeated_slashes() {
    assert_eq!(parent("/proj/sub/"), some("/proj"));
    assert_eq!(parent("/proj//sub"), some("/proj"));
    assert_eq!(parent("/proj/sub///"), some("/proj"));
    assert_eq!(parent("//proj"), some("/"));
}

#[test]
fn parent_keeps_characters_beyond_ascii() {
    assert_eq!(parent("/домой/проект"), some("/домой"));
    assert_eq!(parent("/日本/語"), some("/日本"));
}

#[test]
fn join_puts_one_slash_between() {
    assert_eq!(join("/proj", "sub"), "/proj/sub");
    assert_eq!(join("/proj", "a/b"), "/proj/a/b");
    assert_eq!(join("rel", "sub"), "rel/sub");
}

#[test]
fn join_adds_no_second_slash() {
    assert_eq!(join("/proj/", "sub"), "/proj/sub");
    assert_eq!(join("/", "sub"), "/sub");
}

#[test]
fn join_with_an_absolute_path_yields_that_path() {
    assert_eq!(join("/proj", "/etc"), "/etc");
    assert_eq!(join("", "/etc"), "/etc");
}

#[test]
fn join_from_the_empty_path_yields_the_relative_one() {
    assert_eq!(join("", "sub"), "sub");
}

#[test]
fn join_with_the_empty_path_ends_in_a_slash() {
    assert_eq!(join("/proj", ""), "/proj/");
    assert_eq!(join("", ""), "");
}

#[test]
fn configuration_file_lies_in_its_directory() {
    assert_eq!(CONFIG_FILE_NAME, ".uribo");
    assert_eq!(config_path("/proj"), "/proj/.uribo");
    assert_eq!(config_path("/"), "/.uribo");
    assert_eq!(config_path(""), ".uribo");
    for dir in ["/proj", "/proj/sub", "/", "", "rel/dir"] {
        assert_eq!(parent(&config_path(dir)), some(dir));
    }
}

#[test]
fn fallback_variable_name() {
    assert_eq!(ENV_DEFAULT_CONFIG_PATH, "URIBO_DEFAULT_CONFIG_PATH");
}

#[test]
fn parent_passes_over_lone_dots() {
    assert_eq!(parent("/proj/./sub"), some("/proj"));
    assert_eq!(parent("/proj/sub/."), some("/proj"));
    assert_eq!(parent("/proj/sub/./"), some("/proj"));
    assert_eq!(parent("/."), None);
    assert_eq!(parent("./sub"), some("."));
    assert_eq!(parent("."), some(""));
}

#[test]
fn parent_takes_two_dots_for_a_component() {
    assert_eq!(parent("/proj/.."), some("/proj"));
    assert_eq!(parent("/proj/../sub"), some("/proj/.."));
    assert_eq!(parent(".."), some(""));
}

#[test]
fn parent_takes_names_with_dots_for_names() {
    assert_eq!(parent("/proj/.hidden"), some("/proj"));
    assert_eq!(parent("/proj/a."), some("/proj"));
    assert_eq!(parent("/proj/a./b"), some("/proj/a."));
    assert_eq!(parent("/proj/.a/b"), some("/proj/.a"));
}

fn short_paths(max: usize) -> Vec<String> {
    let alphabet = ['/', '.', 'a', 'é'];
    let mut all = vec![String::new()];
    let mut longest = vec![String::new()];
    for _ in 0..max {
        let mut longer = Vec::new();
        for path in &longest {
            for c in alphabet {
                let mut next = path.clone();
                next.push(c);
                longer.push(next);
            }
        }
        all.extend(longer.iter().cloned());
        longest = longer;
    }
    all
}

#[test]
fn parent_agrees_with_the_standard_library_on_every_short_path() {
    for path in short_paths(6) {
        let expected = Path::new(&path).parent().map(|p| p.to_str().unwrap().to_string());
        assert_eq!(parent(&path), expected, "parent of {:?}", path);
    }
}

#[test]
fn join_agrees_with_the_standard_library_on_every_short_path() {
    let paths = short_paths(3);
    for base in &paths {
        for rel in &paths {
            let expected = Path::new(base).join(rel).to_str().unwrap().to_string();
            assert_eq!(join(base, rel), expected, "join of {:?} and {:?}", base, rel);
        }
    }
}

#[test]
fn walk_upwards_agrees_with_the_standard_library() {
    for start in ["/home/me/proj/sub", "/a/b/../c/./d/", "rel/dir//x", "/", ""] {
        let mut expected = Vec::new();
        let mut dir = std::path::PathBuf::from(start);
        loop {
            expected.push(dir.to_str().unwrap().to_string());
            if !dir.pop() {
                break;
            }
        }
        let mut walked = vec![start.to_string()];
        let mut at = start.to_string();
        while let Some(up) = parent(&at) {
            walked.push(up.clone());
            at = up;
        }
        assert_eq!(walked, expected, "walk from {:?}", start);
    }
}
