//! The catalog of shader descriptions that a directory of files gives.

use vstd::prelude::*;
use crate::meta::{is_shader_path, IsfInfo, IsfReadError, Loaded};

verus! {

/// An entry of the catalog directory, with what came of reading and parsing
/// it. For an entry without the shader extension `loaded` is not looked at.
#[derive(Clone, Debug, PartialEq)]
pub struct SourceFile {
    pub path: String,
    pub loaded: Loaded,
}

/// A shader file that was left out of the catalog because its text is
/// malformed. It is meant for the operator, not for the user interface.
#[derive(Clone, Debug, PartialEq)]
pub struct Diagnostic {
    pub path: String,
    pub message: String,
}

/// The shader descriptions of a directory, and the files that were left out.
#[derive(Clone, Debug, PartialEq)]
pub struct Catalog {
    pub shaders: Vec<IsfInfo>,
    pub diagnostics: Vec<Diagnostic>,
}

/// What an entry of the catalog directory counts as.
#[derive(Clone, Copy, Debug, PartialEq, Eq, Structural)]
pub enum EntryKind {
    /// No shader file: left out without a word.
    Skipped,
    /// A shader file that could not be read: the load fails.
    Unreadable,
    /// A shader file with malformed text: left out with a diagnostic.
    Malformed,
    /// A shader file with a description.
    Parsed,
}

/// What `entry` counts as.
pub open spec fn entry_kind(entry: SourceFile) -> EntryKind {
    if !is_shader_path(entry.path@) {
        EntryKind::Skipped
    } else {
        match entry.loaded {
            Loaded::Unreadable(_) => EntryKind::Unreadable,
            Loaded::Malformed(_) => EntryKind::Malformed,
            Loaded::Parsed(_) => EntryKind::Parsed,
        }
    }
}

/// The entries of one kind, in the order of `entries`.
pub open spec fn entries_of_kind(entries: Seq<SourceFile>, kind: EntryKind) -> Seq<SourceFile>
    decreases entries.len(),
{
    if entries.len() == 0 {
        Seq::empty()
    } else {
        let front = entries_of_kind(entries.drop_last(), kind);
        if entry_kind(entries.last()) == kind {
            front.push(entries.last())
        } else {
            front
        }
    }
}

/// Whether `shaders` holds the descriptions of `parsed`, one for one.
pub open spec fn describes_all(shaders: Seq<IsfInfo>, parsed: Seq<SourceFile>) -> bool {
    shaders.len() == parsed.len() && forall|k: int|
        0 <= k < shaders.len() ==> (#[trigger] shaders[k]).describes(
            parsed[k].path,
            parsed[k].loaded->Parsed_0,
        )
}

/// Whether `diagnostics` reports the files of `malformed`, one for one.
pub open spec fn reports_all(diagnostics: Seq<Diagnostic>, malformed: Seq<SourceFile>) -> bool {
    diagnostics.len() == malformed.len() && forall|k: int|
        0 <= k < diagnostics.len() ==> (#[trigger] diagnostics[k]).path == malformed[k].path
            && diagnostics[k].message == malformed[k].loaded->Malformed_0
}

/// The entries of one kind among the first `n` entries are the first of that
/// kind among all entries.
pub proof fn lemma_kind_prefix(entries: Seq<SourceFile>, n: int, kind: EntryKind)
    requires
        0 <= n <= entries.len(),
    ensures
        entries_of_kind(entries.take(n), kind).len() <= entries_of_kind(entries, kind).len(),
        forall|k: int|
            0 <= k < entries_of_kind(entries.take(n), kind).len() ==> entries_of_kind(
                entries.take(n),
                kind,
            )[k] == entries_of_kind(entries, kind)[k],
    decreases entries.len(),
{
    if n == entries.len() {
        assert(entries.take(n) =~= entries);
    } else {
        let front = entries.drop_last();
        assert(front.take(n) =~= entries.take(n));
        lemma_kind_prefix(front, n, kind);
    }
}

/// Taking one entry more adds it to the entries of its kind, and to no other.
pub proof fn lemma_kind_step(entries: Seq<SourceFile>, n: int, kind: EntryKind)
    requires
        0 <= n < entries.len(),
    ensures
        entries_of_kind(entries.take(n + 1), kind) == if entry_kind(entries[n]) == kind {
            entries_of_kind(entries.take(n), kind).push(entries[n])
        } else {
            entries_of_kind(entries.take(n), kind)
        },
{
    assert(entries.take(n + 1).drop_last() =~= entries.take(n));
}

/// Builds the catalog from the entries of a directory.
///
/// An entry without the shader extension is left out. A shader file with
/// malformed text is left out and reported in the diagnostics. A shader file
/// that could not be read fails the whole load, with the message of the first
/// such file. Every other shader file gives a description; descriptions and
/// diagnostics keep the order of the entries.
pub fn parse_isf_shaders(entries: Vec<SourceFile>) -> (r: Result<Catalog, IsfReadError>)
    ensures
        match r {
            Ok(catalog) => entries_of_kind(entries@, EntryKind::Unreadable).len() == 0
                && describes_all(catalog.shaders@, entries_of_kind(entries@, EntryKind::Parsed))
                && reports_all(
                catalog.diagnostics@,
                entries_of_kind(entries@, EntryKind::Malformed),
            ),
            Err(e) => entries_of_kind(entries@, EntryKind::Unreadable).len() > 0 && (e matches IsfReadError::IoError(
                m,
            ) && entries_of_kind(entries@, EntryKind::Unreadable)[0].loaded == Loaded::Unreadable(m)),
        },
{
    let mut shaders: Vec<IsfInfo> = Vec::new();
    let mut diagnostics: Vec<Diagnostic> = Vec::new();
    let ghost all = entries@;
    for entry in it: entries
        invariant
            it.seq() == all,
            entries_of_kind(all.take(it.index() as int), EntryKind::Unreadable).len() == 0,
            describes_all(shaders@, entries_of_kind(all.take(it.index() as int), EntryKind::Parsed)),
            reports_all(
                diagnostics@,
                entries_of_kind(all.take(it.index() as int), EntryKind::Malformed),
            ),
    {
        let ghost n = it.index() as int;
        proof {
            lemma_kind_step(all, n, EntryKind::Unreadable);
            lemma_kind_step(all, n, EntryKind::Parsed);
            lemma_kind_step(all, n, EntryKind::Malformed);
        }
        let SourceFile { path, loaded } = entry;
        let shown = path.clone();
        match IsfInfo::new_from_path(path, loaded) {
            Ok(info) => {
                shaders.push(info);
            },
            Err(IsfReadError::ParseError(message)) => {
                diagnostics.push(Diagnostic { path: shown, message });
            },
            Err(IsfReadError::IoError(message)) => {
                proof {
                    lemma_kind_prefix(all, n + 1, EntryKind::Unreadable);
                }
                return Err(IsfReadError::IoError(message));
            },
            Err(IsfReadError::InvalidExt) => {},
        }
    }
    proof {
        assert(all.take(all.len() as int) =~= all);
    }
    Ok(Catalog { shaders, diagnostics })
}

} // verus!
