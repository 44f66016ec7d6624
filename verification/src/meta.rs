//! Shader descriptions and the catalog that is built from a directory of
//! shader files.
//!
//! Reading a file and parsing its text happen outside of this module. What
//! came of them is handed in as a [`Loaded`] value; the rules on what is a
//! shader file, what is skipped and what fails the load are decided here.

use vstd::prelude::*;
use vstd::string::*;
use crate::input::Input;
use crate::path::{extension, extension_of, file_stem, file_stem_of, has_file_name, lemma_stem_and_extension};

verus! {

/// The extension of a shader file.
pub open spec fn shader_extension() -> Seq<char> {
    seq!['f', 's']
}

/// Whether `path` has the extension of a shader file.
pub open spec fn is_shader_path(path: Seq<char>) -> bool {
    extension_of(path) == Some(shader_extension())
}

/// What a shader's text declares: its inputs, in the order of declaration.
#[derive(Clone, Debug, PartialEq)]
pub struct ShaderDef {
    pub description: Option<String>,
    pub inputs: Vec<Input>,
}

/// What came of reading a file and parsing its text.
#[derive(Clone, Debug, PartialEq)]
pub enum Loaded {
    /// The file could not be read.
    Unreadable(String),
    /// The file was read, and its text is no shader description.
    Malformed(String),
    /// The file was read and parsed.
    Parsed(ShaderDef),
}

/// Why a file gave no shader description.
#[derive(Clone, Debug, PartialEq)]
pub enum IsfReadError {
    IoError(String),
    InvalidExt,
    ParseError(String),
}

impl IsfReadError {
    /// The name of the error's kind.
    pub fn name(&self) -> (r: String)
        ensures
            self is IoError ==> r@ == "IoError"@,
            self is InvalidExt ==> r@ == "InvalidExt"@,
            self is ParseError ==> r@ == "ParseError"@,
    {
        match self {
            IsfReadError::IoError(_) => "IoError".to_owned(),
            IsfReadError::InvalidExt => "InvalidExt".to_owned(),
            IsfReadError::ParseError(_) => "ParseError".to_owned(),
        }
    }
}

/// The directory the catalog is loaded from, relative to the place the
/// program is installed at.
pub fn default_isf_path() -> (r: String)
    ensures
        r@ == "shaders"@,
{
    "shaders".to_owned()
}

/// Whether `path` has the extension of a shader file.
pub fn has_shader_extension(path: &str) -> (r: bool)
    ensures
        r == is_shader_path(path@),
{
    match extension(path) {
        Some(e) => {
            proof {
                reveal_strlit("fs");
                assert("fs"@ =~= shader_extension());
            }
            let expected = "fs".to_owned();
            e == expected
        },
        None => false,
    }
}

/// The text that the standard library writes for a text under inspection:
/// the text in double quotes, with what cannot be printed escaped.
pub uninterp spec fn quoted(text: Seq<char>) -> Seq<char>;

/// The text of `text` under inspection.
///
/// Calls `format!` with `{:?}` on a `str`. The result is named, not spelled
/// out: the escapes follow tables of the standard library.
#[verifier::external_body]
fn quote(text: &str) -> (r: String)
    ensures
        r@ == quoted(text@),
{
    format!("{:?}", text)
}

/// A shader file by name and path.
#[derive(Clone, Debug, PartialEq)]
pub struct IsfFile {
    pub name: String,
    pub path: String,
}

impl IsfFile {
    /// How the file is shown: its name in quotes.
    pub fn label(&self) -> (r: String)
        ensures
            r@ == quoted(self.name@),
    {
        quote(self.name.as_str())
    }

    /// The file at `path`, named by the stem of the path.
    pub fn from(path: String) -> (r: Self)
        requires
            has_file_name(path@),
        ensures
            r.path == path,
            file_stem_of(path@) == Some(r.name@),
    {
        proof {
            lemma_stem_and_extension(path@);
        }
        let name = file_stem(path.as_str()).unwrap();
        IsfFile { name, path }
    }

    /// The file at `path`, if the path names a file.
    pub fn new(path: String) -> (r: Option<Self>)
        ensures
            r is Some <==> has_file_name(path@),
            r matches Some(file) ==> file.path == path && file_stem_of(path@) == Some(file.name@),
    {
        proof {
            lemma_stem_and_extension(path@);
        }
        match file_stem(path.as_str()) {
            Some(name) => Some(IsfFile { name, path }),
            None => None,
        }
    }
}

/// A shader description: the name of the shader, the file it came from and
/// what that file declares.
#[derive(Clone, Debug, PartialEq)]
pub struct IsfInfo {
    pub name: String,
    pub path: String,
    pub def: ShaderDef,
}

impl IsfInfo {
    /// How the description is shown: the name of the shader in quotes.
    pub fn label(&self) -> (r: String)
        ensures
            r@ == quoted(self.name@),
    {
        quote(self.name.as_str())
    }

    /// Whether this is the description of the shader at `path` that declares
    /// `def`: it is named by the stem of the path.
    pub open spec fn describes(self, path: String, def: ShaderDef) -> bool {
        self.path == path && self.def == def && file_stem_of(path@) == Some(self.name@)
    }

    /// The outcome for the file at `path`, given what came of reading and
    /// parsing it.
    ///
    /// A path without the shader extension is refused whatever `loaded`
    /// holds. Otherwise an unreadable file and malformed text are reported
    /// with their messages, and parsed text gives the description.
    pub fn new_from_path(path: String, loaded: Loaded) -> (r: Result<IsfInfo, IsfReadError>)
        ensures
            !is_shader_path(path@) ==> r matches Err(IsfReadError::InvalidExt),
            is_shader_path(path@) ==> match loaded {
                Loaded::Unreadable(m) => r matches Err(IsfReadError::IoError(e)) && e == m,
                Loaded::Malformed(m) => r matches Err(IsfReadError::ParseError(e)) && e == m,
                Loaded::Parsed(def) => r matches Ok(info) && info.describes(path, def),
            },
    {
        if !has_shader_extension(path.as_str()) {
            return Err(IsfReadError::InvalidExt);
        }
        match loaded {
            Loaded::Unreadable(m) => Err(IsfReadError::IoError(m)),
            Loaded::Malformed(m) => Err(IsfReadError::ParseError(m)),
            Loaded::Parsed(def) => {
                proof {
                    lemma_stem_and_extension(path@);
                }
                let name = file_stem(path.as_str()).unwrap();
                Ok(IsfInfo { name, path, def })
            },
        }
    }
}

} // verus!
