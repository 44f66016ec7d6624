use shader_graph::path::{extension, file_name, file_stem};

#[test]
fn file_name_is_the_last_component_that_counts() {
    assert_eq!(file_name("shaders/glow.fs"), Some("glow.fs"));
    assert_eq!(file_name("/a/b/c.tar.gz"), Some("c.tar.gz"));
    assert_eq!(file_name("plain"), Some("plain"));
    assert_eq!(file_name("a/.hidden"), Some(".hidden"));
    assert_eq!(file_name("a/..."), Some("..."));
    assert_eq!(file_name("a/b."), Some("b."));
}

#[test]
fn separators_and_dots_at_the_end_are_passed_over() {
    assert_eq!(file_name("dir/"), Some("dir"));
    assert_eq!(file_name("a.fs/"), Some("a.fs"));
    assert_eq!(file_name("a.fs/."), Some("a.fs"));
    assert_eq!(file_name("a.fs//"), Some("a.fs"));
    assert_eq!(file_name("a/b/./"), Some("b"));
    assert_eq!(file_name("a/././/."), Some("a"));
    assert_eq!(file_name("/x/."), Some("x"));
}

#[test]
fn some_paths_have_no_file_name() {
    assert_eq!(file_name(""), None);
    assert_eq!(file_name("/"), None);
    assert_eq!(file_name("//"), None);
    assert_eq!(file_name("."), None);
    assert_eq!(file_name("./"), None);
    assert_eq!(file_name("./."), None);
    assert_eq!(file_name("/."), None);
    assert_eq!(file_name(".."), None);
    assert_eq!(file_name("a/.."), None);
    assert_eq!(file_name("a/../"), None);
    assert_eq!(file_name("a/../."), None);
}

#[test]
fn file_name_agrees_with_the_standard_library() {
    let paths = [
        "", "/", "//", ".", "./", "./.", "/.", "..", "a/..", "a/../", "a", "a/", "a//", "a/.",
        "a/./", "a.fs/", "a.fs/.", "./a", "./a/.", "../a", "a/b", "a/.b", "a/b.", "a/...", ".a",
        "..a", "a..", "/a/b.c/", "a/./b", "a//b", ".fs", "x/.fs/", "x.tar.gz/./.",
    ];
    for path in paths {
        let std_path = std::path::Path::new(path);
        assert_eq!(file_name(path), std_path.file_name().and_then(|name| name.to_str()), "{path}");
        assert_eq!(
            extension(path),
            std_path.extension().and_then(|name| name.to_str()).map(|name| name.to_string()),
            "{path}"
        );
        assert_eq!(
            file_stem(path),
            std_path.file_stem().and_then(|name| name.to_str()).map(|name| name.to_string()),
            "{path}"
        );
    }
}

#[test]
fn extension_follows_the_last_dot() {
    assert_eq!(extension("shaders/glow.fs"), Some("fs".to_string()));
    assert_eq!(extension("c.tar.gz"), Some("gz".to_string()));
    assert_eq!(extension("trailing."), Some("".to_string()));
    assert_eq!(extension("a.fs/"), Some("fs".to_string()));
    assert_eq!(extension("a.fs/."), Some("fs".to_string()));
    assert_eq!(extension("a.b/c"), None);
}

#[test]
fn extension_is_missing_without_a_separating_dot() {
    assert_eq!(extension("noext"), None);
    assert_eq!(extension(".fs"), None);
    assert_eq!(extension("dir/.hidden"), None);
    assert_eq!(extension("dir/"), None);
    assert_eq!(extension(".."), None);
    assert_eq!(extension("a/.."), None);
    assert_eq!(extension(""), None);
}

#[test]
fn stem_is_the_file_name_without_extension() {
    assert_eq!(file_stem("shaders/glow.fs"), Some("glow".to_string()));
    assert_eq!(file_stem("c.tar.gz"), Some("c.tar".to_string()));
    assert_eq!(file_stem(".hidden"), Some(".hidden".to_string()));
    assert_eq!(file_stem("noext"), Some("noext".to_string()));
    assert_eq!(file_stem("trailing."), Some("trailing".to_string()));
    assert_eq!(file_stem("dir/"), Some("dir".to_string()));
    assert_eq!(file_stem("glow.fs/"), Some("glow".to_string()));
    assert_eq!(file_stem(".."), None);
    assert_eq!(file_stem("/"), None);
}

#[test]
fn paths_may_hold_characters_of_several_bytes() {
    assert_eq!(file_name("schöne/größe.fs"), Some("größe.fs"));
    assert_eq!(extension("schöne/größe.fs"), Some("fs".to_string()));
    assert_eq!(file_stem("schöne/größe.fs"), Some("größe".to_string()));
    assert_eq!(file_stem("schöne/größe.fs/./"), Some("größe".to_string()));
}
