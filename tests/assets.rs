use spa_server::assets::{get_files, path_to_str, AssetError, WalkEntry};
use spa_server::embed::{AssetTable, EmbeddedFile};
use spa_server::release::{parent_dir, release_actions, release_asset, ReleaseAction};

fn walked(is_file: bool, parts: &[&str], canonical: &str) -> WalkEntry {
    WalkEntry {
        is_file,
        rel_components: parts.iter().map(|p| Some(p.to_string())).collect(),
        canonical: Some(canonical.to_string()),
    }
}

fn table(prefix: Option<&str>) -> AssetTable {
    AssetTable {
        files: vec![
            EmbeddedFile { rel_path: "index.html".to_string(), bytes: b"<html>".to_vec() },
            EmbeddedFile { rel_path: "assets/app.js".to_string(), bytes: b"app()".to_vec() },
        ],
        prefix: prefix.map(|p| p.to_string()),
    }
}

#[test]
fn path_to_str_joins_with_forward_slashes() {
    let parts = vec![Some("assets".to_string()), Some("js".to_string()), Some("app.js".to_string())];
    assert_eq!(path_to_str(&parts).unwrap(), "assets/js/app.js");
    assert_eq!(path_to_str(&vec![Some("a".to_string())]).unwrap(), "a");
}

#[test]
fn path_to_str_unnamed_component_fails() {
    let parts = vec![Some("assets".to_string()), None];
    assert_eq!(path_to_str(&parts).err(), Some(AssetError::UnnamedPath));
    assert_eq!(AssetError::UnnamedPath.message(), "Path does not have a string representation");
}

#[test]
fn get_files_keeps_regular_files_in_walk_order() {
    let entries = vec![
        walked(false, &[], "/srv/dist"),
        walked(true, &["index.html"], "/srv/dist/index.html"),
        walked(false, &["assets"], "/srv/dist/assets"),
        walked(true, &["assets", "app.js"], "/srv/dist/assets/app.js"),
    ];
    let files = get_files(&entries).unwrap();
    let rels: Vec<&str> = files.iter().map(|f| f.rel_path.as_str()).collect();
    assert_eq!(rels, vec!["index.html", "assets/app.js"]);
    assert_eq!(files[1].full_canonical_path, "/srv/dist/assets/app.js");
}

#[test]
fn get_files_unnamed_fails() {
    let mut e = walked(true, &["x"], "/x");
    e.rel_components = vec![None];
    assert_eq!(get_files(&vec![e]).err(), Some(AssetError::UnnamedPath));
    let mut c = walked(true, &["x"], "/x");
    c.canonical = None;
    assert_eq!(get_files(&vec![c]).err(), Some(AssetError::NoCanonicalPath));
    assert_eq!(AssetError::NoCanonicalPath.message(), "Could not get canonicalize path");
    let mut d = walked(false, &["x"], "/x");
    d.rel_components = vec![None];
    assert_eq!(get_files(&vec![d]).unwrap().len(), 0);
}

#[test]
fn lookup_round_trip() {
    let t = table(None);
    assert_eq!(t.get("assets/app.js").unwrap(), b"app()".to_vec());
    assert_eq!(t.get("assets\\app.js").unwrap(), b"app()".to_vec());
    assert_eq!(t.get("index.html").unwrap(), b"<html>".to_vec());
    assert!(t.get("/index.html").is_none());
    assert!(t.get("missing.txt").is_none());
}

#[test]
fn lookup_with_prefix() {
    let t = table(Some("static/"));
    assert_eq!(t.get("static/assets/app.js").unwrap(), b"app()".to_vec());
    assert!(t.get("assets/app.js").is_none());
    assert_eq!(t.names(), vec!["static/index.html".to_string(), "static/assets/app.js".to_string()]);
}

#[test]
fn listing_matches_index() {
    let t = table(None);
    assert_eq!(t.names(), vec!["index.html".to_string(), "assets/app.js".to_string()]);
}

#[test]
fn spa_requests() {
    let t = table(None);
    assert_eq!(t.resolve_request("/assets/app.js").unwrap(), b"app()".to_vec());
    assert_eq!(t.resolve_request("/some/client/route").unwrap(), b"<html>".to_vec());
    assert_eq!(t.resolve_request("/").unwrap(), b"<html>".to_vec());
    assert!(t.resolve_request("/missing.css").is_none());
}

#[test]
fn parent_directories() {
    assert_eq!(parent_dir("assets/js/app.js"), "assets/js");
    assert_eq!(parent_dir("index.html"), "");
}

#[test]
fn release_plan_steps() {
    let mut t = table(None);
    t.files.push(EmbeddedFile { rel_path: "index.html".to_string(), bytes: vec![1] });
    let actions = release_actions(&t);
    assert_eq!(actions.len(), 3);
    match &actions[1] {
        ReleaseAction::Write { dir, file, bytes } => {
            assert_eq!(dir, "assets");
            assert_eq!(file, "assets/app.js");
            assert_eq!(bytes, &b"app()".to_vec());
        }
        _ => panic!("expected a write"),
    }
    match &actions[2] {
        ReleaseAction::Write { bytes, .. } => assert_eq!(bytes, &b"<html>".to_vec()),
        _ => panic!("expected a write"),
    }
    let prefixed = release_actions(&AssetTable { files: vec![], prefix: None });
    assert!(prefixed.is_empty());
}

#[test]
fn release_missing_and_unnamed() {
    let t = AssetTable {
        files: vec![EmbeddedFile { rel_path: "".to_string(), bytes: vec![7] }],
        prefix: Some("p/".to_string()),
    };
    let actions = release_actions(&t);
    match &actions[0] {
        ReleaseAction::Write { dir, file, .. } => {
            assert_eq!(dir, "p");
            assert_eq!(file, "p/");
        }
        _ => panic!("expected a write"),
    }
    let empty = AssetTable {
        files: vec![EmbeddedFile { rel_path: "".to_string(), bytes: vec![7] }],
        prefix: None,
    };
    assert!(matches!(&release_actions(&empty)[0], ReleaseAction::NoParent { .. }));
}

#[test]
fn release_dir_name_is_random_alphanumeric() {
    let plan = release_asset(&table(None));
    assert_eq!(plan.dir_name.chars().count(), 8);
    assert!(plan.dir_name.chars().all(|c| c.is_ascii_alphanumeric()));
    assert_eq!(plan.actions.len(), 2);
}
