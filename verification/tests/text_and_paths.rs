use ora_core::paths::{extension, file_name, file_stem, join, parent, same_path};
use ora_core::text::{chars_of, is_whitespace, trim};
use std::path::Path;

fn samples() -> Vec<&'static str> {
    vec![
        "", "/", "//", ".", "..", "./", "../", "/.", "/..", "a", "a/", "a//", "a/.", "a/./",
        "a/..", "a/b", "a//b", "a/./b", "a/b/", "a/b/.", "a/b/..", "/a", "//a", "/a/b", "/./a",
        "./a", "./a/b", "../a", ".a", "..a", "a.", "a..", "a.b", "a.b.c", ".a.b", "/x/.hidden",
        "/x/.hidden.md", "/x/note.md", "/x/note.tar.gz", "/x/ spaced name .md", "/x/.md",
        "/x/..md", "/x/...", "x/.../y", "/shelf/Same Title 1.md", "/shelf/Note: Special!.md",
        "/shelf/\u{e9}t\u{e9}.md", "/shelf/\u{65e5}\u{672c}\u{8a9e}.md", "a/b/c/d/e.f", "./.",
        "./..", ".//", "/.//", "a/.//./", "a/.b/", "a/b./", "....", "a/....",
    ]
}

#[test]
fn file_names_agree_with_the_standard_library() {
    for p in samples() {
        assert_eq!(file_name(p), Path::new(p).file_name().map(|s| s.to_string_lossy().into_owned()), "file_name of {:?}", p);
    }
}

#[test]
fn file_stems_agree_with_the_standard_library() {
    for p in samples() {
        assert_eq!(file_stem(p), Path::new(p).file_stem().map(|s| s.to_string_lossy().into_owned()), "file_stem of {:?}", p);
    }
}

#[test]
fn extensions_agree_with_the_standard_library() {
    for p in samples() {
        assert_eq!(extension(p), Path::new(p).extension().map(|s| s.to_string_lossy().into_owned()), "extension of {:?}", p);
    }
}

#[test]
fn parents_agree_with_the_standard_library() {
    for p in samples() {
        let expected = Path::new(p).parent().map(|d| d.to_string_lossy().into_owned());
        assert_eq!(parent(p), expected, "parent of {:?}", p);
    }
}

#[test]
fn joins_agree_with_the_standard_library() {
    for d in samples() {
        for n in ["", "a.md", "/abs.md", "sub/a.md", ".", "..", "Same Title 1.md"] {
            let expected = Path::new(d).join(n).to_string_lossy().into_owned();
            assert_eq!(join(d, n), expected, "join of {:?} and {:?}", d, n);
        }
    }
}

#[test]
fn path_parts_on_given_values() {
    assert_eq!(file_name("/shelf/Note.md"), Some("Note.md".to_string()));
    assert_eq!(file_stem("/shelf/Note.md"), Some("Note".to_string()));
    assert_eq!(extension("/shelf/Note.md"), Some("md".to_string()));
    assert_eq!(parent("/shelf/Note.md"), Some("/shelf".to_string()));
    assert_eq!(parent("/Note.md"), Some("/".to_string()));
    assert_eq!(parent("Note.md"), Some(String::new()));
    assert_eq!(parent("/"), None);
    assert_eq!(file_name("/shelf/.."), None);
    assert_eq!(extension("/shelf/.hidden"), None);
    assert_eq!(join("/shelf", "Note.md"), "/shelf/Note.md");
    assert_eq!(join("/shelf/", "Note.md"), "/shelf/Note.md");
    assert_eq!(join("", "Note.md"), "Note.md");
    assert_eq!(join("/shelf", "/other/Note.md"), "/other/Note.md");
}

#[test]
fn white_space_is_the_unicode_property() {
    let mut code: u32 = 0;
    while code <= 0x10FFFF {
        if let Some(c) = char::from_u32(code) {
            assert_eq!(is_whitespace(c), c.is_whitespace(), "U+{:04X}", code);
        }
        code += 1;
    }
}

#[test]
fn trimming_agrees_with_the_standard_library() {
    for s in [
        "", " ", "   ", "a", " a", "a ", " a ", "\t\n a b \r\n", "\u{a0}x\u{a0}",
        "\u{2003}\u{3000}", "x\u{200b}", "\u{200b}", " \u{feff} ", "  inner  space  ",
        "\u{1680}ogham\u{1680}", "\u{85}next line\u{85}", "\u{65e5}\u{672c} ",
    ] {
        assert_eq!(trim(s), s.trim(), "trim of {:?}", s);
    }
}

#[test]
fn characters_come_out_one_by_one() {
    assert_eq!(chars_of("a\u{e9}\u{65e5}"), vec!['a', '\u{e9}', '\u{65e5}']);
    assert_eq!(chars_of(""), Vec::<char>::new());
}

#[test]
fn path_equality_agrees_with_the_standard_library() {
    let all = samples();
    for a in &all {
        for b in &all {
            assert_eq!(same_path(a, b), Path::new(a) == Path::new(b), "{:?} and {:?}", a, b);
        }
    }
}

#[test]
fn paths_are_equal_by_their_components() {
    assert!(same_path("/shelf//Note.md", "/shelf/Note.md"));
    assert!(same_path("/shelf/./Note.md", "/shelf/Note.md/"));
    assert!(same_path("a/b/.", "a//b"));
    assert!(same_path("", ""));
    assert!(same_path("//", "/"));
    assert!(same_path("./a", "./a/"));
    assert!(!same_path("./a", "a"));
    assert!(!same_path("/a", "a"));
    assert!(!same_path("a/../b", "b"));
    assert!(!same_path("/shelf/Note.md", "/shelf/note.md"));
    assert!(!same_path("/shelf/Note.md", "/shelf/Note 1.md"));
    assert!(!same_path(".", ""));
}
