use std::path::{Path, PathBuf};

use vm_box::paths::{
    extension, file_name, file_stem, join_path, same_path, split_canonical,
};

fn samples() -> Vec<&'static str> {
    vec![
        "", "/", ".", "..", "a", "/a", "a/", "a/b", "/a/b.c", "/a//b/./c.tar.gz", "./a", "a/..",
        "/a/.hidden", "/a/.hidden.txt", "img.ipsw", "/x/img.ipsw/", "no.ext.", "//double", "a/.",
        "./", "/.", "a/./b",
    ]
}

#[test]
fn joining_agrees_with_std() {
    for base in samples() {
        for rest in ["x", "/x", "x/y", ""] {
            let expected = PathBuf::from(base).join(rest);
            assert_eq!(join_path(base, rest), expected.to_str().unwrap(), "{:?} {:?}", base, rest);
        }
    }
}

#[test]
fn names_agree_with_std() {
    for s in samples() {
        let p = Path::new(s);
        assert_eq!(file_name(s).as_deref(), p.file_name().and_then(|x| x.to_str()), "{:?}", s);
        assert_eq!(extension(s).as_deref(), p.extension().and_then(|x| x.to_str()), "{:?}", s);
        assert_eq!(file_stem(s).as_deref(), p.file_stem().and_then(|x| x.to_str()), "{:?}", s);
    }
}

#[test]
fn equality_agrees_with_std() {
    for a in samples() {
        for b in samples() {
            assert_eq!(same_path(a, b), Path::new(a) == Path::new(b), "{:?} {:?}", a, b);
        }
    }
}

#[test]
fn canonical_paths_are_split_at_their_last_separator() {
    let split = |s: &str| {
        split_canonical(&s.as_bytes().to_vec())
            .map(|(d, f)| (String::from_utf8(d).unwrap(), String::from_utf8(f).unwrap()))
    };
    assert_eq!(split("/bin/sh"), Some(("/bin".to_string(), "sh".to_string())));
    assert_eq!(split("/sh"), Some(("/".to_string(), "sh".to_string())));
    assert_eq!(split("/"), None);
}
