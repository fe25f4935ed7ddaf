use std::path::Path;

use tuun::paths::{extension_of, file_name_of, join_path};

const PATHS: [&str; 33] = [
    "", "/", "a", "a.mp3", "/a/b.MP3", "/a/b.tar.gz", "a.", ".a", ".a.b", "..", ".", "...", "a..",
    "..a", "a/", "a/.", "a/./", "a/..", "a/../", "/.", "./", "a//b.c", "a/b.c//", "a/b.c/./.",
    "a.b/c", ".mp3", "/x/.mp3", "/x/..mp3", "./.", "a/...", "é.mp3", "a b.c d", "//",
];

#[test]
fn file_names_are_those_of_std() {
    for path in PATHS {
        let expected = Path::new(path).file_name().map(|n| n.to_str().unwrap().to_string());
        assert_eq!(file_name_of(path), expected, "{path:?}");
    }
}

#[test]
fn extensions_are_those_of_std() {
    for path in PATHS {
        let expected = Path::new(path).extension().map(|n| n.to_str().unwrap().to_string());
        assert_eq!(extension_of(path), expected, "{path:?}");
    }
}

#[test]
fn joined_paths_are_those_of_std() {
    for base in PATHS {
        for child in PATHS {
            let expected = Path::new(base).join(child);
            assert_eq!(join_path(base, child), expected.to_str().unwrap(), "{base:?} {child:?}");
        }
    }
}

#[test]
fn every_short_path_is_read_as_std_reads_it() {
    let alphabet = ['a', '.', '/'];
    let mut paths = vec![String::new()];
    for _ in 0..7 {
        let mut longer = vec![];
        for path in &paths {
            for c in alphabet {
                longer.push(format!("{path}{c}"));
            }
        }
        for path in &longer {
            let std_path = Path::new(path);
            let name = std_path.file_name().map(|n| n.to_str().unwrap().to_string());
            let extension = std_path.extension().map(|n| n.to_str().unwrap().to_string());
            assert_eq!(file_name_of(path), name, "{path:?}");
            assert_eq!(extension_of(path), extension, "{path:?}");
        }
        paths = longer;
    }
}
