use villagesql::tooling::{
    archive_lib_path, check_extension_manifest, find_lib, find_workspace_root, is_workspace_manifest, RootSearch, lib_candidates, lib_stem, veb_file_name,
    ManifestError,
};

#[test]
fn library_file_names() {
    assert_eq!(lib_stem("vsql-rot13"), "vsql_rot13");
    assert_eq!(lib_candidates("my-ext"), vec!["libmy_ext.so".to_string(), "libmy_ext.dylib".to_string()]);
    assert_eq!(veb_file_name("my-ext"), "my-ext.veb");
    assert_eq!(archive_lib_path("my-ext"), "lib/my-ext.so");
}

#[test]
fn manifests() {
    let ext = "[package]\nname = \"vsql_rot13\"\nversion = \"0.1.0\"\n";
    assert_eq!(check_extension_manifest(ext), Ok(()));
    assert_eq!(is_workspace_manifest(ext), Ok(false));
    let root = "[workspace]\nmembers = [\".\"]\n";
    assert_eq!(check_extension_manifest(root), Err(ManifestError::WorkspaceRoot));
    assert_eq!(is_workspace_manifest(root), Ok(true));
    let both = "[workspace]\nmembers = [\".\"]\n[package]\nname = \"x\"\n";
    assert_eq!(check_extension_manifest(both), Ok(()));
    assert_eq!(is_workspace_manifest(both), Ok(true));
    assert_eq!(check_extension_manifest("[package"), Err(ManifestError::Unparsable));
    assert_eq!(is_workspace_manifest("= ="), Err(ManifestError::Unparsable));
}

#[test]
fn library_lookup_prefers_so() {
    assert_eq!(find_lib("my-ext", |_| true), Some("libmy_ext.so".to_string()));
    assert_eq!(find_lib("my-ext", |f| f.ends_with(".dylib")), Some("libmy_ext.dylib".to_string()));
    assert_eq!(find_lib("my-ext", |_| false), None);
}

#[test]
fn workspace_root_is_the_nearest_workspace_manifest() {
    let dirs: Vec<Option<&str>> = vec![
        Some("[package]\nname = \"ext\"\n"),
        None,
        Some("[workspace]\nmembers = [\"ext\"]\n"),
        Some("[workspace]\n"),
    ];
    let read = |i: usize| -> Result<Option<String>, String> { Ok(dirs[i].map(|s| s.to_string())) };
    assert!(matches!(find_workspace_root(4, read), RootSearch::Found(2)));
    assert!(matches!(find_workspace_root(2, read), RootSearch::NotFound));
    let broken = |i: usize| -> Result<Option<String>, String> {
        if i == 0 { Ok(Some("[package".to_string())) } else { panic!("must not read further") }
    };
    assert!(matches!(find_workspace_root(3, broken), RootSearch::Unparsable(0)));
    let unreadable = |i: usize| -> Result<Option<String>, String> {
        if i == 0 { Ok(None) } else if i == 1 { Err("denied".to_string()) } else { panic!("must not read further") }
    };
    assert!(matches!(find_workspace_root(3, unreadable), RootSearch::Unreadable(1, ref e) if e == "denied"));
}
