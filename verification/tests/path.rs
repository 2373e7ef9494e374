//! Paths and their components.

use std::path::Component;
use std::path::Path;

use tscode::path::components::extension_of_text;
use tscode::path::components::file_name_of_text;
use tscode::path::components::same_text_path;
use tscode::path::FsPath;
use tscode::path::PathPart;
use tscode::path::Platform;

fn unix(text: &str) -> FsPath {
    FsPath::of_bytes(text.as_bytes(), Platform::Unix)
}

fn windows(text: &str) -> FsPath {
    FsPath::of_bytes(text.as_bytes(), Platform::Windows)
}

fn anchor(text: &str) -> PathPart {
    PathPart::Anchor(text.as_bytes().to_vec())
}

fn name(text: &str) -> PathPart {
    PathPart::Normal(text.as_bytes().to_vec())
}

const TEXTS: [&str; 19] = [
    "", "/", "//", ".", "./", "..", "a", "/a", "a/b", "a//b", "a/./b", "./a", "a/.", "/./a/", "/..",
    "a/../b", ".a", "a.b/c.d", "a\\b",
];

#[test]
fn components_are_those_of_the_standard_library() {
    for text in TEXTS {
        let expected: Vec<PathPart> = Path::new(text)
            .components()
            .map(|component| match component {
                Component::Prefix(_) | Component::RootDir => anchor("/"),
                Component::CurDir => PathPart::Current,
                Component::ParentDir => PathPart::Parent,
                Component::Normal(text) => name(text.to_str().unwrap()),
            })
            .collect();
        assert_eq!(unix(text).parts, expected, "{text}");
        let path = Path::new(text);
        let expected = path.file_name().map(|name| name.to_str().unwrap().to_owned());
        assert_eq!(file_name_of_text(text, Platform::Unix), expected, "{text}");
        let expected = path.extension().map(|name| name.to_str().unwrap().to_owned());
        assert_eq!(extension_of_text(text, Platform::Unix), expected, "{text}");
        for other in TEXTS {
            assert_eq!(
                same_text_path(text, other, Platform::Unix),
                Path::new(text) == Path::new(other),
                "{text} {other}"
            );
        }
    }
}

#[test]
fn paths_on_windows_begin_with_drives_shares_and_devices() {
    let root = anchor("\\");
    let parts = |text: &str| windows(text).parts;
    assert_eq!(parts(r"c:\a/b"), [anchor("C:"), root.clone(), name("a"), name("b")]);
    assert_eq!(parts(r"C:a"), [anchor("C:"), name("a")]);
    assert_eq!(parts(r"C:.\a"), [anchor("C:"), name("a")]);
    assert_eq!(parts(r"\a"), [root.clone(), name("a")]);
    assert_eq!(parts(r".\a\."), [PathPart::Current, name("a")]);
    assert_eq!(parts(r"\\s\h"), [anchor("//s/h"), root.clone()]);
    assert_eq!(parts(r"//s/h/a"), [anchor("//s/h"), root.clone(), name("a")]);
    assert_eq!(parts(r"\\s"), [root.clone(), name("s")]);
    assert_eq!(parts(r"\\.\COM1"), [anchor(r"\\.\COM1"), root.clone()]);
    assert_eq!(
        parts(r"\\?\c:\a/b\.\c"),
        [anchor(r"\\?\C:"), root.clone(), name("a/b"), PathPart::Current, name("c")]
    );
    assert_eq!(parts(r"\\?\x\a"), [anchor(r"\\?\x"), root.clone(), name("a")]);
    assert_eq!(parts(r"\\?\UNC\s\h\a"), [anchor(r"\\?\UNC\s\h"), root.clone(), name("a")]);
    assert_eq!(parts(r"\\?\UNC\s"), [anchor(r"\\?\UNC\s")]);
    assert_eq!(parts(r"//?/C:/a"), [anchor("//?/C:"), root.clone(), name("a")]);
    assert!(same_text_path(r"c:\a\.\b", "C:/a//b", Platform::Windows));
    assert!(!same_text_path(r"c:\a", "C:a", Platform::Windows));
    assert!(!same_text_path(r"\\?\C:\a", r"//?/C:/a", Platform::Windows));
    assert_eq!(extension_of_text(r"C:\a.b\c", Platform::Windows), None);
    assert_eq!(extension_of_text(r"C:\a\b.rs", Platform::Windows).as_deref(), Some("rs"));
    assert_eq!(file_name_of_text(r"C:\bin\bash", Platform::Windows).as_deref(), Some("bash"));
}

#[test]
fn what_stands_behind_a_path_is_as_it_is_written() {
    for text in TEXTS {
        for base in TEXTS {
            let below = unix(text).starts_with(&unix(base));
            let expected = Path::new(text).strip_prefix(base);
            assert_eq!(below, expected.is_ok(), "{text} {base}");
            if let Ok(rest) = expected {
                assert_eq!(
                    unix(text).text_after(text, unix(base).parts.len(), Platform::Unix),
                    rest.to_str().unwrap().replace('\\', "/"),
                    "{text} {base}"
                );
            }
        }
    }
    let text = r"\\?\C:\w\a/b\.\c\";
    let path = windows(text);
    assert_eq!(path.text_after(text, 3, Platform::Windows), "a/b/./c");
    assert_eq!(windows(r"w\a\.\b").text_after(r"w\a\.\b", 1, Platform::Windows), "a/./b");
}
