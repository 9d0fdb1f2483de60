use ipc_chan::search::{probes, resolve, PathParts};
use ipc_chan::{Config, OverwritePolicy};

fn parts(rooted: bool, names: &[&str]) -> PathParts {
    PathParts { rooted, parts: names.iter().map(|s| s.to_string()).collect() }
}

fn same(a: &PathParts, b: &PathParts) -> bool {
    a.rooted == b.rooted && a.parts == b.parts
}

#[test]
fn default_config_values() {
    let cfg = Config::default();
    assert_eq!(cfg.host, "127.0.0.1");
    assert_eq!(cfg.port, 10001);
}

#[test]
fn connect_and_bind_addresses() {
    let cfg = Config { host: "127.0.0.1".to_string(), port: 11001 };
    assert_eq!(cfg.connect_address(), "tcp://127.0.0.1:11001");
    assert_eq!(cfg.bind_address(), "tcp://*:11001");
    let zero = Config { host: "example.org".to_string(), port: 0 };
    assert_eq!(zero.connect_address(), "tcp://example.org:0");
    assert_eq!(zero.bind_address(), "tcp://*:0");
    let big = Config { host: "h".to_string(), port: 65535 };
    assert_eq!(big.bind_address(), "tcp://*:65535");
}

#[test]
fn write_policy() {
    assert!(OverwritePolicy::Overwrite.permits_write(true));
    assert!(OverwritePolicy::Overwrite.permits_write(false));
    assert!(!OverwritePolicy::DontOverwrite.permits_write(true));
    assert!(OverwritePolicy::DontOverwrite.permits_write(false));
}

#[test]
fn file_name_of_paths() {
    assert_eq!(parts(false, &["ipc-chan.toml"]).file_name(), Some("ipc-chan.toml".to_string()));
    assert_eq!(parts(true, &["a", ".."]).file_name(), None);
    assert_eq!(parts(false, &["."]).file_name(), None);
    assert_eq!(parts(true, &[]).file_name(), None);
}

#[test]
fn probes_for_bare_name() {
    let path = parts(false, &["ipc-chan.toml"]);
    let cwd = Some(parts(true, &["a", "b", "c", "d"]));
    let home = Some(parts(true, &["home", "u"]));
    let list = probes(&path, &cwd, &home);
    let expected = [
        parts(false, &["ipc-chan.toml"]),
        parts(true, &["a", "b"]),
        parts(true, &["a", "b", "ipc-chan.toml"]),
        parts(true, &[]),
        parts(true, &["ipc-chan.toml"]),
        parts(true, &["home", "u", "ipc-chan.toml"]),
    ];
    assert_eq!(list.len(), expected.len());
    for (a, b) in list.iter().zip(expected.iter()) {
        assert!(same(a, b));
    }
}

#[test]
fn file_in_current_directory_is_found() {
    let path = parts(false, &["ipc-chan.toml"]);
    let cwd = Some(parts(true, &["a", "b", "c"]));
    let home = None;
    let n = probes(&path, &cwd, &home).len();
    let mut answers = vec![false; n];
    answers[0] = true;
    let found = resolve(&path, &cwd, &home, &answers).unwrap();
    assert!(same(&found, &path));
}

#[test]
fn file_in_grandparent_is_found() {
    let path = parts(false, &["ipc-chan.toml"]);
    let cwd = Some(parts(true, &["a", "b", "c"]));
    let home = Some(parts(true, &["home"]));
    // probes: the name, /a, /a/ipc-chan.toml, /home/ipc-chan.toml
    let answers = vec![false, true, true, false];
    assert_eq!(probes(&path, &cwd, &home).len(), answers.len());
    let found = resolve(&path, &cwd, &home, &answers).unwrap();
    assert!(same(&found, &parts(true, &["a", "ipc-chan.toml"])));
}

#[test]
fn file_in_parent_is_skipped() {
    let path = parts(false, &["ipc-chan.toml"]);
    let cwd = Some(parts(true, &["a", "b"]));
    let home = None;
    // probes: the name, /, /ipc-chan.toml; /a/ipc-chan.toml is never read
    let list = probes(&path, &cwd, &home);
    assert_eq!(list.len(), 3);
    assert!(!list.iter().any(|p| same(p, &parts(true, &["a", "ipc-chan.toml"]))));
    let answers = vec![false, true, false];
    assert!(resolve(&path, &cwd, &home, &answers).is_none());
}

#[test]
fn missing_grandparent_stops_walk_then_home() {
    let path = parts(false, &["x", "y", "z", "cfg.toml"]);
    let cwd = None;
    let home = Some(parts(true, &["home", "u"]));
    // probes: the path, x, x/cfg.toml, home/u/cfg.toml
    let list = probes(&path, &cwd, &home);
    assert_eq!(list.len(), 4);
    assert!(same(&list[1], &parts(false, &["x"])));
    let answers = vec![false, false, true, true];
    let found = resolve(&path, &cwd, &home, &answers).unwrap();
    assert!(same(&found, &parts(true, &["home", "u", "cfg.toml"])));
}

#[test]
fn nothing_found_anywhere() {
    let path = parts(false, &["nonexistent.toml"]);
    let cwd = Some(parts(true, &["a", "b", "c", "d"]));
    let home = Some(parts(true, &["home"]));
    let n = probes(&path, &cwd, &home).len();
    let mut answers = vec![false; n];
    // directories exist, files do not
    answers[1] = true;
    answers[3] = true;
    assert!(resolve(&path, &cwd, &home, &answers).is_none());
}

#[test]
fn bare_name_without_current_directory_goes_home() {
    let path = parts(false, &["cfg.toml"]);
    let cwd = None;
    let home = Some(parts(true, &["home"]));
    let answers = vec![false, true];
    assert_eq!(probes(&path, &cwd, &home).len(), 2);
    let found = resolve(&path, &cwd, &home, &answers).unwrap();
    assert!(same(&found, &parts(true, &["home", "cfg.toml"])));
}

#[test]
fn settings_fall_back_to_default() {
    let cfg = Config::or_default(None);
    assert_eq!(cfg, Config { host: "127.0.0.1".to_string(), port: 10001 });
    let mine = Config { host: "10.0.0.2".to_string(), port: 7 };
    assert_eq!(Config::or_default(Some(mine.clone())), mine);
}
