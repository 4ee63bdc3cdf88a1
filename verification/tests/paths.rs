use qtex::paths::{extension, file_name, forward_slashes, join, portable, relative_name, strip_root};

#[test]
fn file_name_is_last_component() {
    assert_eq!(file_name("/work/proj/main.tex"), "main.tex");
    assert_eq!(file_name("main.tex"), "main.tex");
    assert_eq!(file_name("/work/proj/"), "");
    assert_eq!(file_name(""), "");
}

#[test]
fn extension_follows_last_dot() {
    assert_eq!(extension("/work/proj/main.tex"), "tex");
    assert_eq!(extension("/work/proj/archive.tar.gz"), "gz");
    assert_eq!(extension("/work/proj/.hidden"), "");
    assert_eq!(extension("/work/proj/Makefile"), "");
    assert_eq!(extension("/work/v1.2/notes"), "");
    assert_eq!(extension("/work/proj/trailing."), "");
    assert_eq!(extension("/work/proj/.hidden.tex"), "tex");
    assert_eq!(extension("/work/proj/MAIN.TEX"), "TEX");
}

#[test]
fn join_adds_one_separator() {
    assert_eq!(join("/work", "output.pdf"), "/work/output.pdf");
    assert_eq!(join("/work/", "output.pdf"), "/work/output.pdf");
    assert_eq!(join("", "output.pdf"), "output.pdf");
    assert_eq!(join("/work", "/abs/output.pdf"), "/abs/output.pdf");
    assert_eq!(join(".", "output.pdf"), "./output.pdf");
}

#[test]
fn strip_root_needs_whole_components() {
    assert_eq!(strip_root("/a/b", "/a/b/c/d.tex"), Some("c/d.tex".to_string()));
    assert_eq!(strip_root("/a/b", "/a/bc/d.tex"), None);
    assert_eq!(strip_root("/a/b", "/a/b"), Some(String::new()));
    assert_eq!(strip_root("/", "/x.tex"), Some("x.tex".to_string()));
    assert_eq!(strip_root("/a/b/", "/a/b/x.tex"), Some("x.tex".to_string()));
    assert_eq!(strip_root("", "/x.tex"), None);
    assert_eq!(strip_root("/a/b/c", "/a/b"), None);
}

#[test]
fn forward_slashes_replace_every_backslash() {
    assert_eq!(forward_slashes("figs\\plots\\a.png"), "figs/plots/a.png");
    assert_eq!(forward_slashes("figs/a.png"), "figs/a.png");
    assert_eq!(forward_slashes(""), "");
}

#[test]
fn relative_name_inside_root_is_the_rest() {
    assert_eq!(relative_name("/work/proj", "/work/proj/ch/one.tex", "ch/one.tex"), "ch/one.tex");
    assert_eq!(relative_name("/work/proj", "/work/proj/a\\b.tex", "x"), "a/b.tex");
}

#[test]
fn relative_name_outside_root_is_the_bare_name() {
    assert_eq!(relative_name("/work/proj", "/tmp/other/fig.png", "../../tmp/other/fig.png"), "fig.png");
    assert_eq!(relative_name("/work/proj", "/work/project/x.tex", "/work/project/x.tex"), "x.tex");
}

#[test]
fn portable_turns_the_platforms_separator_into_a_slash() {
    assert_eq!(portable("C:\\work\\proj\\main.tex", '\\'), "C:/work/proj/main.tex");
    assert_eq!(portable("/work/proj/a\\b.tex", '/'), "/work/proj/a\\b.tex");
    assert_eq!(portable("", '\\'), "");
}

#[test]
fn paths_of_a_backslash_platform_are_named_below_their_root() {
    let root = portable("C:\\work\\proj", '\\');
    let file = portable("C:\\work\\proj\\ch\\one.tex", '\\');
    assert_eq!(relative_name(&root, &file, &file), "ch/one.tex");
    assert_eq!(file_name(&portable("C:\\work\\proj\\output.pdf", '\\')), "output.pdf");
}
