use shader_graph::input::{Input, InputType};
use shader_graph::meta::{
    default_isf_path, has_shader_extension, IsfFile, IsfInfo, IsfReadError, Loaded, ShaderDef,
};

fn image_def() -> ShaderDef {
    ShaderDef {
        description: Some("passes an image on".to_string()),
        inputs: vec![Input { name: "inputImage".to_string(), ty: InputType::Image }],
    }
}

#[test]
fn default_directory_is_shaders() {
    assert_eq!(default_isf_path(), "shaders");
}

#[test]
fn only_fs_is_the_shader_extension() {
    assert!(has_shader_extension("glow.fs"));
    assert!(has_shader_extension("dir/a.b.fs"));
    assert!(!has_shader_extension("glow.FS"));
    assert!(!has_shader_extension("glow.vs"));
    assert!(!has_shader_extension("glow.fss"));
    assert!(!has_shader_extension("glow"));
    assert!(!has_shader_extension(".fs"));
    assert!(!has_shader_extension("fs"));
}

#[test]
fn shader_file_is_named_by_its_stem() {
    let file = IsfFile::new("shaders/glow.fs".to_string()).unwrap();
    assert_eq!(file.name, "glow");
    assert_eq!(file.path, "shaders/glow.fs");
    let same = IsfFile::from("shaders/glow.fs".to_string());
    assert_eq!(same, file);
    let directory = IsfFile::from("glow.fs/".to_string());
    assert_eq!(directory.name, "glow");
    assert_eq!(directory.path, "glow.fs/");
    assert_eq!(IsfFile::new("shaders/".to_string()).unwrap().name, "shaders");
    assert_eq!(IsfFile::new("..".to_string()), None);
    assert_eq!(IsfFile::new("/".to_string()), None);
    assert_eq!(IsfFile::new("".to_string()), None);
}

#[test]
fn shader_files_are_shown_by_their_quoted_name() {
    let file = IsfFile::new("shaders/glow.fs".to_string()).unwrap();
    assert_eq!(file.label(), "\"glow\"");
    let info = IsfInfo::new_from_path("a \"b\".fs".to_string(), Loaded::Parsed(image_def())).unwrap();
    assert_eq!(info.name, "a \"b\"");
    assert_eq!(info.label(), "\"a \\\"b\\\"\"");
    assert_eq!(info.label(), format!("{:?}", info.name));
}

#[test]
fn path_that_ends_in_a_separator_is_judged_by_its_last_component() {
    assert!(has_shader_extension("a.fs/"));
    assert!(has_shader_extension("a.fs/."));
    assert!(!has_shader_extension("a.fs/.."));
    let unreadable =
        IsfInfo::new_from_path("a.fs/".to_string(), Loaded::Unreadable("is a directory".to_string()));
    assert_eq!(unreadable, Err(IsfReadError::IoError("is a directory".to_string())));
    let parsed = IsfInfo::new_from_path("a.fs/.".to_string(), Loaded::Parsed(image_def())).unwrap();
    assert_eq!(parsed.name, "a");
    assert_eq!(parsed.path, "a.fs/.");
}

#[test]
fn description_of_a_parsed_shader_file() {
    let info = IsfInfo::new_from_path("shaders/pass.fs".to_string(), Loaded::Parsed(image_def()))
        .unwrap();
    assert_eq!(info.name, "pass");
    assert_eq!(info.path, "shaders/pass.fs");
    assert_eq!(info.def, image_def());
}

#[test]
fn wrong_extension_is_refused_whatever_was_loaded() {
    let parsed = IsfInfo::new_from_path("pass.glsl".to_string(), Loaded::Parsed(image_def()));
    assert_eq!(parsed, Err(IsfReadError::InvalidExt));
    let unreadable =
        IsfInfo::new_from_path("pass".to_string(), Loaded::Unreadable("gone".to_string()));
    assert_eq!(unreadable, Err(IsfReadError::InvalidExt));
}

#[test]
fn unreadable_and_malformed_files_are_told_apart() {
    let unreadable =
        IsfInfo::new_from_path("a.fs".to_string(), Loaded::Unreadable("denied".to_string()));
    assert_eq!(unreadable, Err(IsfReadError::IoError("denied".to_string())));
    let malformed =
        IsfInfo::new_from_path("a.fs".to_string(), Loaded::Malformed("no comment".to_string()));
    assert_eq!(malformed, Err(IsfReadError::ParseError("no comment".to_string())));
}

#[test]
fn read_errors_are_named_by_their_kind() {
    assert_eq!(IsfReadError::IoError("x".to_string()).name(), "IoError");
    assert_eq!(IsfReadError::InvalidExt.name(), "InvalidExt");
    assert_eq!(IsfReadError::ParseError("x".to_string()).name(), "ParseError");
}
