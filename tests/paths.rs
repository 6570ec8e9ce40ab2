use server_setup::path::{expand_home, expand_home_in, join_path, make_absolute, resolve, PathError, PathProbe, ResolveMode};

#[test]
fn join_adds_one_separator() {
    assert_eq!(join_path("/srv", "mc"), "/srv/mc");
    assert_eq!(join_path("/srv/", "mc"), "/srv/mc");
    assert_eq!(join_path("", "mc"), "mc");
    assert_eq!(join_path("/srv", "/abs"), "/abs");
    assert_eq!(join_path("/srv", ""), "/srv/");
}

#[test]
fn tilde_expands_to_home() {
    assert_eq!(expand_home_in("~/minecraft_server", "/home/alex"), "/home/alex/minecraft_server");
    assert_eq!(expand_home_in("~", "/home/alex"), "/home/alex/");
    assert_eq!(expand_home_in("~~//x", "/home/alex"), "/home/alex/x");
    assert_eq!(expand_home_in("srv/~", "/home/alex"), "srv/~");
}

#[test]
fn expand_home_keeps_other_paths() {
    assert_eq!(expand_home("/var/games"), "/var/games");
    let e = expand_home("~/games");
    assert!(!e.starts_with('~'));
    assert!(e.ends_with("games"));
}

#[test]
fn relative_paths_join_the_working_directory() {
    assert_eq!(make_absolute("srv", "/work"), "/work/srv");
    assert_eq!(make_absolute("/srv", "/work"), "/srv");
}

fn probe(exists: bool, is_dir: bool, canonical: Option<&str>) -> PathProbe {
    PathProbe { exists, is_dir, canonical: canonical.map(|c| c.to_string()) }
}

#[test]
fn strict_mode_refuses_missing_path() {
    assert_eq!(resolve(ResolveMode::Strict, "/nope", probe(false, false, None)), Err(PathError::NotFound));
}

#[test]
fn strict_mode_refuses_file() {
    assert_eq!(
        resolve(ResolveMode::Strict, "/etc/hosts", probe(true, false, Some("/etc/hosts"))),
        Err(PathError::NotADirectory)
    );
}

#[test]
fn strict_mode_returns_canonical_directory() {
    assert_eq!(
        resolve(ResolveMode::Strict, "/srv/../srv", probe(true, true, Some("/srv"))),
        Ok("/srv".to_string())
    );
}

#[test]
fn permissive_mode_falls_back_to_given_path() {
    assert_eq!(
        resolve(ResolveMode::Permissive, "/new/dir", probe(false, false, None)),
        Ok("/new/dir".to_string())
    );
}
