//! The decisions of the `cargo vsql` tool: which files hold a built extension,
//! what the packaged archive is called, and what a `Cargo.toml` declares.
use vstd::prelude::*;
use vstd::string::StringExecFns;
use crate::text::push_char;

verus! {

#[verifier::external_type_specification]
#[verifier::external_body]
#[verifier::reject_recursive_types(K)]
#[verifier::reject_recursive_types(V)]
pub struct ExTomlMap<K, V>(toml::map::Map<K, V>);

#[verifier::external_type_specification]
#[verifier::external_body]
pub struct ExTomlValue(toml::Value);

#[verifier::external_type_specification]
#[verifier::external_body]
pub struct ExTomlError(toml::de::Error);

/// The top-level keys of a TOML document, or `None` when it is not valid TOML.
pub uninterp spec fn toml_document_keys(content: Seq<char>) -> Option<Set<Seq<char>>>;

/// The keys a TOML table holds.
pub uninterp spec fn toml_table_keys(t: toml::map::Map<String, toml::Value>) -> Set<Seq<char>>;

/// Parses a TOML document into its top-level table (`toml::from_str`).
#[verifier::external_body]
fn parse_toml_table(content: &str) -> (r: Result<toml::map::Map<String, toml::Value>, toml::de::Error>)
    ensures
        r is Ok <==> toml_document_keys(content@) is Some,
        r matches Ok(t) ==> toml_document_keys(content@) == Some(toml_table_keys(t)),
{
    toml::from_str::<toml::map::Map<String, toml::Value>>(content)
}

/// Whether a TOML table holds `key` (`toml::map::Map::contains_key`).
#[verifier::external_body]
fn table_contains_key(t: &toml::map::Map<String, toml::Value>, key: &str) -> (r: bool)
    ensures
        r == toml_table_keys(*t).contains(key@),
{
    t.contains_key(key)
}

/// Why a `Cargo.toml` cannot serve as an extension's manifest.
#[derive(Debug, Clone, Copy, PartialEq, Eq, Structural)]
pub enum ManifestError {
    /// The file is not valid TOML.
    Unparsable,
    /// The file declares a workspace and no package: it is a workspace root.
    WorkspaceRoot,
}

/// What a manifest's text makes of the extension check.
pub open spec fn extension_manifest_check(content: Seq<char>) -> Result<(), ManifestError> {
    match toml_document_keys(content) {
        None => Err(ManifestError::Unparsable),
        Some(keys) => if keys.contains("workspace"@) && !keys.contains("package"@) {
            Err(ManifestError::WorkspaceRoot)
        } else {
            Ok(())
        },
    }
}

/// A parsable manifest with a `[package]` always passes the extension check,
/// and one without `[workspace]` too; only a workspace without a package is
/// refused as a root.
pub proof fn law_extension_manifest(content: Seq<char>)
    ensures
        toml_document_keys(content) matches Some(keys) && keys.contains("package"@) ==> extension_manifest_check(content) is Ok,
        toml_document_keys(content) matches Some(keys) && !keys.contains("workspace"@) ==> extension_manifest_check(content) is Ok,
        extension_manifest_check(content) == Err::<(), ManifestError>(ManifestError::WorkspaceRoot)
            ==> (toml_document_keys(content) matches Some(keys) && keys.contains("workspace"@) && !keys.contains("package"@)),
        toml_document_keys(content) is None <==> extension_manifest_check(content) == Err::<(), ManifestError>(ManifestError::Unparsable),
{
}

/// Checks that a `Cargo.toml` can be an extension's manifest: valid TOML, and
/// not a workspace root (a `[workspace]` without a `[package]`).
pub fn check_extension_manifest(content: &str) -> (r: Result<(), ManifestError>)
    ensures
        r == extension_manifest_check(content@),
{
    match parse_toml_table(content) {
        Err(_) => Err(ManifestError::Unparsable),
        Ok(t) => {
            if table_contains_key(&t, "workspace") && !table_contains_key(&t, "package") {
                Err(ManifestError::WorkspaceRoot)
            } else {
                Ok(())
            }
        },
    }
}

/// Whether a `Cargo.toml` declares a workspace.
pub fn is_workspace_manifest(content: &str) -> (r: Result<bool, ManifestError>)
    ensures
        match toml_document_keys(content@) {
            None => r == Err::<bool, ManifestError>(ManifestError::Unparsable),
            Some(keys) => r == Ok::<bool, ManifestError>(keys.contains("workspace"@)),
        },
{
    match parse_toml_table(content) {
        Err(_) => Err(ManifestError::Unparsable),
        Ok(t) => Ok(table_contains_key(&t, "workspace")),
    }
}

/// What the search for the workspace root found, walking up from the start
/// directory (ancestor `0`).
pub enum RootSearch<E> {
    /// The nearest ancestor whose manifest declares a workspace.
    Found(usize),
    /// No ancestor's manifest declares a workspace.
    NotFound,
    /// This ancestor's manifest is not valid TOML.
    Unparsable(usize),
    /// Reading this ancestor's manifest failed with this error.
    Unreadable(usize, E),
}

/// What ancestor `i`'s manifest (`None` when it has none) decides: `None` to
/// go on to the next ancestor.
pub open spec fn root_step<E>(read: Result<Option<String>, E>, i: usize) -> Option<RootSearch<E>> {
    match read {
        Err(e) => Some(RootSearch::Unreadable(i, e)),
        Ok(None) => None,
        Ok(Some(t)) => match toml_document_keys(t@) {
            None => Some(RootSearch::Unparsable(i)),
            Some(keys) => if keys.contains("workspace"@) {
                Some(RootSearch::Found(i))
            } else {
                None
            },
        },
    }
}

/// A directory without a manifest, or with one that declares no workspace,
/// never ends the walk; the walk ends at a directory only with the error of
/// reading it, the error of parsing it, or because its manifest declares a
/// workspace, and names that directory.
pub proof fn law_root_step<E>(read: Result<Option<String>, E>, i: usize)
    ensures
        read matches Ok(None) ==> root_step(read, i) is None,
        read matches Err(e) ==> root_step(read, i) == Some(RootSearch::Unreadable(i, e)),
        root_step(read, i) matches Some(RootSearch::Found(j)) ==> (read matches Ok(Some(t))
            && (j == i && (toml_document_keys(t@) matches Some(keys) && keys.contains("workspace"@)))),
        root_step(read, i) matches Some(RootSearch::Unparsable(j)) ==> (read matches Ok(Some(t))
            && j == i && toml_document_keys(t@) is None),
        !(root_step(read, i) matches Some(RootSearch::NotFound)),
{
}

/// `reads` are what `manifest_at` gave for ancestors `0, 1, ...` in turn.
pub open spec fn read_in_order<E, F: Fn(usize) -> Result<Option<String>, E>>(
    manifest_at: F,
    reads: Seq<Result<Option<String>, E>>,
) -> bool {
    forall|i: int| 0 <= i < reads.len() ==> call_ensures(manifest_at, (i as usize,), #[trigger] reads[i])
}

/// The workspace root above a directory: the nearest of its `levels`
/// ancestors (itself first) whose `Cargo.toml` declares a workspace.
/// `manifest_at(i)` reads ancestor `i`'s manifest (`None` when it has none);
/// the walk stops at the first manifest that decides.
pub fn find_workspace_root<E, F>(levels: usize, manifest_at: F) -> (r: RootSearch<E>) where
    F: Fn(usize) -> Result<Option<String>, E>,

    requires
        forall|i: usize| call_requires(manifest_at, (i,)),
    ensures
        exists|reads: Seq<Result<Option<String>, E>>|
            {
                &&& reads.len() <= levels
                &&& read_in_order(manifest_at, reads)
                &&& r is NotFound ==> reads.len() == levels && forall|i: int|
                    0 <= i < reads.len() ==> root_step(#[trigger] reads[i], i as usize) is None
                &&& !(r is NotFound) ==> reads.len() >= 1 && root_step(reads.last(), (reads.len() - 1) as usize)
                    == Some(r) && forall|i: int|
                    0 <= i < reads.len() - 1 ==> root_step(#[trigger] reads[i], i as usize) is None
            },
{
    let ghost mut reads: Seq<Result<Option<String>, E>> = Seq::empty();
    let mut i: usize = 0;
    while i < levels
        invariant
            i <= levels,
            reads.len() == i,
            forall|i: usize| call_requires(manifest_at, (i,)),
            read_in_order(manifest_at, reads),
            forall|j: int| 0 <= j < reads.len() ==> root_step(#[trigger] reads[j], j as usize) is None,
        decreases levels - i,
    {
        let got = manifest_at(i);
        let ghost g = got;
        let ghost before = reads;
        proof {
            reads = reads.push(g);
            assert forall|j: int| 0 <= j < reads.len() implies call_ensures(manifest_at, (j as usize,), #[trigger] reads[j]) by {
                if j < i {
                    assert(reads[j] == before[j]);
                }
            }
            assert forall|j: int| 0 <= j < reads.len() - 1 implies root_step(#[trigger] reads[j], j as usize) is None by {
                assert(reads[j] == before[j]);
            }
        }
        match got {
            Err(e) => {
                let r = RootSearch::Unreadable(i, e);
                assert(reads.last() == g && root_step(g, i) == Some(r));
                return r;
            },
            Ok(None) => {},
            Ok(Some(t)) => {
                match is_workspace_manifest(t.as_str()) {
                    Err(_) => {
                        let r = RootSearch::Unparsable(i);
                        assert(reads.last() == g && root_step(g, i) == Some(r));
                        return r;
                    },
                    Ok(true) => {
                        return RootSearch::Found(i);
                    },
                    Ok(false) => {},
                }
            },
        }
        i = i + 1;
    }
    RootSearch::NotFound
}

/// A package name as a library file stem: `-` becomes `_`.
pub open spec fn lib_stem_of(name: Seq<char>) -> Seq<char> {
    name.map_values(|c: char| if c == '-' { '_' } else { c })
}

/// The stem differs from the package name only where the name has `-`,
/// which becomes `_`; every other character, `_` included, is kept, so a name
/// without `-` is its own stem.
pub proof fn law_lib_stem(name: Seq<char>)
    ensures
        lib_stem_of(name).len() == name.len(),
        forall|i: int| 0 <= i < name.len() && name[i] == '-' ==> #[trigger] lib_stem_of(name)[i] == '_',
        forall|i: int| 0 <= i < name.len() && name[i] != '-' ==> #[trigger] lib_stem_of(name)[i] == name[i],
        (forall|i: int| 0 <= i < name.len() ==> name[i] != '-') ==> lib_stem_of(name) == name,
{
    if forall|i: int| 0 <= i < name.len() ==> name[i] != '-' {
        assert(lib_stem_of(name) =~= name);
    }
}

/// The library file stem of package `name` (`-` replaced by `_`).
pub fn lib_stem(name: &str) -> (r: String)
    ensures
        r@ == lib_stem_of(name@),
        r@.len() == name@.len(),
        forall|i: int| 0 <= i < name@.len() && name@[i] == '-' ==> #[trigger] r@[i] == '_',
        forall|i: int| 0 <= i < name@.len() && name@[i] != '-' ==> #[trigger] r@[i] == name@[i],
{
    proof {
        law_lib_stem(name@);
    }
    let n = crate::text::char_len(name);
    let mut out = String::new();
    let mut i: usize = 0;
    for c in it: name.chars()
        invariant
            n == name@.len(),
            i == it.index(),
            it.seq() == name@,
            out@ == lib_stem_of(name@.take(i as int)),
    {
        assert(c == name@[i as int]);
        if c == '-' {
            push_char(&mut out, '_');
        } else {
            push_char(&mut out, c);
        }
        assert(lib_stem_of(name@.take(i + 1)) =~= lib_stem_of(name@.take(i as int)).push(
            if c == '-' { '_' } else { c },
        ));
        i = i + 1;
    }
    proof {
        assert(name@.take(i as int) =~= name@);
    }
    out
}

/// The file names a built extension library may have, in the order they are
/// looked for: `lib<stem>.so`, then `lib<stem>.dylib`.
pub fn lib_candidates(name: &str) -> (r: Vec<String>)
    ensures
        r@.len() == 2,
        r@[0]@ == "lib"@ + lib_stem_of(name@) + ".so"@,
        r@[1]@ == "lib"@ + lib_stem_of(name@) + ".dylib"@,
{
    let stem = lib_stem(name);
    let mut so = String::from_str("lib");
    so.append(stem.as_str());
    so.append(".so");
    let mut dylib = String::from_str("lib");
    dylib.append(stem.as_str());
    dylib.append(".dylib");
    let mut out: Vec<String> = Vec::new();
    out.push(so);
    out.push(dylib);
    out
}

/// `is_file` reported `present` for a file named `file`.
pub open spec fn reported<F: Fn(&str) -> bool>(is_file: F, file: Seq<char>, present: bool) -> bool {
    exists|s: &str| s@ == file && call_ensures(is_file, (s,), present)
}

/// The built library of package `name`: the first of [`lib_candidates`]
/// that `is_file` reports present, or `None` when neither is.
pub fn find_lib<F: Fn(&str) -> bool>(name: &str, is_file: F) -> (r: Option<String>)
    requires
        forall|s: &str| call_requires(is_file, (s,)),
    ensures
        ({
            let so = "lib"@ + lib_stem_of(name@) + ".so"@;
            let dylib = "lib"@ + lib_stem_of(name@) + ".dylib"@;
            match r {
                Some(f) => (f@ == so && reported(is_file, so, true)) || (f@ == dylib && reported(is_file, so, false)
                    && reported(is_file, dylib, true)),
                None => reported(is_file, so, false) && reported(is_file, dylib, false),
            }
        }),
{
    let mut candidates = lib_candidates(name);
    let dylib = candidates.pop().unwrap();
    let so = candidates.pop().unwrap();
    if is_file(so.as_str()) {
        return Some(so);
    }
    if is_file(dylib.as_str()) {
        return Some(dylib);
    }
    None
}

/// The archive an extension is packaged into: `<name>.veb`.
pub fn veb_file_name(name: &str) -> (r: String)
    ensures
        r@ == name@ + ".veb"@,
{
    let mut out = String::from_str(name);
    out.append(".veb");
    out
}

/// Where the library goes inside the archive: `lib/<name>.so`, whatever the
/// platform's own suffix (the server expects `.so`).
pub fn archive_lib_path(name: &str) -> (r: String)
    ensures
        r@ == "lib/"@ + name@ + ".so"@,
{
    let mut out = String::from_str("lib/");
    out.append(name);
    out.append(".so");
    out
}

} // verus!
