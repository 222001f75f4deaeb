use macmtp::names::NameCounts;
use macmtp::paths::{child_path_candidate, join_path, split_name, unique_child_path};
use std::path::Path;

fn sample_paths() -> Vec<String> {
    let alphabet = ['a', '.', '/', 'é', ' '];
    let mut paths = vec![String::new()];
    let mut layer = vec![String::new()];
    for _ in 0..6 {
        let mut next = Vec::new();
        for path in &layer {
            for c in alphabet {
                let mut longer = path.clone();
                longer.push(c);
                next.push(longer);
            }
        }
        paths.extend(next.iter().cloned());
        layer = next;
    }
    paths
}

fn std_parts(path: &str) -> (String, Option<String>) {
    let path = Path::new(path);
    let stem = path
        .file_stem()
        .and_then(|stem| stem.to_str())
        .unwrap_or("item");
    let extension = path.extension().and_then(|extension| extension.to_str());
    (stem.to_string(), extension.map(|e| e.to_string()))
}

#[test]
fn names_split_as_the_standard_library_splits_them() {
    for path in sample_paths() {
        assert_eq!(split_name(&path), std_parts(&path), "{path:?}");
    }
}

#[test]
fn paths_join_as_the_standard_library_joins_them() {
    let bases = ["", "/", "/a", "/a/", "a/b", "a//", "."];
    for name in sample_paths() {
        for base in bases {
            let expected = Path::new(base).join(&name);
            assert_eq!(join_path(base, &name), expected.to_str().unwrap());
        }
    }
}

#[test]
fn taken_names_get_a_number_before_the_extension() {
    assert_eq!(
        unique_child_path("/t", "photo.tar.gz", &vec![false]),
        Some("/t/photo.tar.gz".to_string())
    );
    assert_eq!(
        unique_child_path("/t", "photo.tar.gz", &vec![true, true, false]),
        Some("/t/photo.tar 3.gz".to_string())
    );
    assert_eq!(
        unique_child_path("/t", ".nomedia", &vec![true, false]),
        Some("/t/.nomedia 2".to_string())
    );
    assert_eq!(
        unique_child_path("/t", "..", &vec![true, false]),
        Some("/t/item 2".to_string())
    );
    assert_eq!(unique_child_path("/t", "a", &vec![true, true]), None);
}

#[test]
fn places_for_a_child_all_differ() {
    for name in ["a", "a 2", "a 2.txt", "2", ".a", "a.", "..", ""] {
        let places: Vec<String> = (0..50)
            .map(|attempt| child_path_candidate("/t", name, attempt))
            .collect();
        for i in 0..places.len() {
            for j in 0..i {
                assert_ne!(places[i], places[j], "{name:?}");
            }
        }
    }
}

#[test]
fn children_stand_in_their_directory() {
    for attempt in 0..5 {
        for name in ["a", "..", "x.y", ".h"] {
            let path = child_path_candidate("/t/u", name, attempt);
            assert!(path.starts_with("/t/u/"));
            assert!(!path[5..].contains('/'));
        }
    }
}

#[test]
fn repeated_names_get_a_number() {
    let mut counts = NameCounts::new();
    assert_eq!(counts.unique_name("DCIM".to_string()), "DCIM");
    assert_eq!(counts.unique_name("DCIM".to_string()), "DCIM 2");
    assert_eq!(counts.unique_name("Music".to_string()), "Music");
    assert_eq!(counts.unique_name("DCIM".to_string()), "DCIM 3");
    assert_eq!(counts.unique_name(String::new()), "item");
    assert_eq!(counts.unique_name("item".to_string()), "item 2");
}

#[test]
fn a_listed_number_can_clash_with_a_given_one() {
    let mut counts = NameCounts::new();
    assert_eq!(counts.unique_name("a".to_string()), "a");
    assert_eq!(counts.unique_name("a".to_string()), "a 2");
    assert_eq!(counts.unique_name("a 2".to_string()), "a 2");
}

#[test]
fn numbered_places_stand_in_their_directory() {
    for name in [".", "..", "a", "..."] {
        for attempt in 1..5 {
            let place = child_path_candidate("/t", name, attempt);
            assert_eq!(Path::new(&place).parent(), Some(Path::new("/t")));
        }
    }
    assert_eq!(child_path_candidate("/t", ".", 0), "/t/.");
    assert_eq!(child_path_candidate("/t", ".", 1), "/t/item 2");
}
