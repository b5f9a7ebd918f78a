use loafer::path::{confined, dot_component, next_component, split_components};
use loafer::{candidate_path, resolve_path, FileDirFetcher, GopherError};
use std::path::Path;

const ROOT: &[u8] = b"/srv/gopher";

fn text(bytes: &[u8]) -> &str {
    std::str::from_utf8(bytes).unwrap()
}

#[test]
fn candidate_joins_selector_to_root() {
    assert_eq!(candidate_path(ROOT, b"index"), b"/srv/gopher/index".to_vec());
    assert_eq!(candidate_path(ROOT, b"docs/about.txt"), b"/srv/gopher/docs/about.txt".to_vec());
}

#[test]
fn candidate_of_empty_selector_is_the_root_with_a_separator() {
    assert_eq!(candidate_path(ROOT, b""), b"/srv/gopher/".to_vec());
}

#[test]
fn candidate_strips_leading_separators() {
    assert_eq!(candidate_path(ROOT, b"/etc/passwd"), b"/srv/gopher/etc/passwd".to_vec());
    assert_eq!(candidate_path(ROOT, b"///etc/passwd"), b"/srv/gopher/etc/passwd".to_vec());
    assert_eq!(candidate_path(ROOT, b"/"), b"/srv/gopher/".to_vec());
}

#[test]
fn candidate_adds_no_second_separator() {
    assert_eq!(candidate_path(b"/srv/gopher/", b"index"), b"/srv/gopher/index".to_vec());
    assert_eq!(candidate_path(b"/", b"index"), b"/index".to_vec());
    assert_eq!(candidate_path(b"/", b"/index"), b"/index".to_vec());
}

#[test]
fn candidate_below_an_empty_root_stays_relative() {
    assert_eq!(candidate_path(b"", b"index"), b"index".to_vec());
    assert_eq!(candidate_path(b"", b"/index"), b"index".to_vec());
}

#[test]
fn candidate_keeps_steps_up_for_the_file_system_to_take() {
    assert_eq!(
        candidate_path(ROOT, b"../../etc/passwd"),
        b"/srv/gopher/../../etc/passwd".to_vec()
    );
}

#[test]
fn candidate_names_what_std_join_names() {
    for selector in ["index", "docs/about.txt", "a/b/c", "../x"] {
        let joined = Path::new(text(ROOT)).join(selector);
        let candidate = candidate_path(ROOT, selector.as_bytes());
        assert_eq!(Path::new(text(&candidate)), joined.as_path());
    }
}

#[test]
fn resolve_keeps_a_path_below_the_root() {
    let canonical = b"/srv/gopher/index".to_vec();
    assert_eq!(resolve_path(ROOT, Ok(canonical.clone())), Ok(canonical));
    let deep = b"/srv/gopher/docs/2024/about.txt".to_vec();
    assert_eq!(resolve_path(ROOT, Ok(deep.clone())), Ok(deep));
}

#[test]
fn resolve_keeps_the_root_itself() {
    assert_eq!(resolve_path(ROOT, Ok(ROOT.to_vec())), Ok(ROOT.to_vec()));
    assert_eq!(resolve_path(ROOT, Ok(b"/srv/gopher/".to_vec())), Ok(b"/srv/gopher/".to_vec()));
}

#[test]
fn resolve_refuses_a_path_outside_the_root() {
    assert_eq!(
        resolve_path(ROOT, Ok(b"/etc/passwd".to_vec())),
        Err(GopherError::PermissionDenied)
    );
    assert_eq!(resolve_path(ROOT, Ok(b"/srv".to_vec())), Err(GopherError::PermissionDenied));
    assert_eq!(resolve_path(ROOT, Ok(b"/".to_vec())), Err(GopherError::PermissionDenied));
}

#[test]
fn resolve_compares_whole_components() {
    assert_eq!(
        resolve_path(ROOT, Ok(b"/srv/gopherhole/index".to_vec())),
        Err(GopherError::PermissionDenied)
    );
    assert_eq!(
        resolve_path(ROOT, Ok(b"/srv/gopher2".to_vec())),
        Err(GopherError::PermissionDenied)
    );
}

#[test]
fn resolve_refuses_a_path_that_still_steps_up() {
    assert_eq!(
        resolve_path(ROOT, Ok(b"/srv/gopher/../../etc/passwd".to_vec())),
        Err(GopherError::PermissionDenied)
    );
    assert_eq!(
        resolve_path(ROOT, Ok(b"/srv/gopher/./index".to_vec())),
        Err(GopherError::PermissionDenied)
    );
    assert_eq!(
        resolve_path(ROOT, Ok(b"/srv/gopher/..hidden".to_vec())),
        Ok(b"/srv/gopher/..hidden".to_vec())
    );
    assert_eq!(
        resolve_path(ROOT, Ok(b"/srv/gopher/...".to_vec())),
        Ok(b"/srv/gopher/...".to_vec())
    );
}

#[test]
fn resolve_tells_relative_from_absolute() {
    assert_eq!(
        resolve_path(ROOT, Ok(b"srv/gopher/index".to_vec())),
        Err(GopherError::PermissionDenied)
    );
    assert_eq!(
        resolve_path(b"srv/gopher", Ok(b"srv/gopher/index".to_vec())),
        Ok(b"srv/gopher/index".to_vec())
    );
}

#[test]
fn resolve_hands_failures_on_unchanged() {
    assert_eq!(resolve_path(ROOT, Err(GopherError::NotFound)), Err(GopherError::NotFound));
    assert_eq!(resolve_path(ROOT, Err(GopherError::Io)), Err(GopherError::Io));
    assert_eq!(
        resolve_path(ROOT, Err(GopherError::PermissionDenied)),
        Err(GopherError::PermissionDenied)
    );
}

#[test]
fn not_found_and_permission_denied_are_told_apart() {
    let missing = resolve_path(ROOT, Err(GopherError::NotFound));
    let outside = resolve_path(ROOT, Ok(b"/etc/passwd".to_vec()));
    assert_ne!(missing, outside);
}

#[test]
fn confined_agrees_with_std_on_canonical_paths() {
    let roots = ["/srv/gopher", "/", "/srv", "/srv/gopher/docs"];
    let paths = [
        "/srv/gopher",
        "/srv/gopher/index",
        "/srv/gopherhole/index",
        "/srv/gopher/docs/about.txt",
        "/srv",
        "/",
        "/etc/passwd",
        "/srv/gopher/docs",
    ];
    for root in roots {
        for path in paths {
            assert_eq!(
                confined(root.as_bytes(), path.as_bytes()),
                Path::new(path).starts_with(root),
                "root {root}, path {path}"
            );
        }
    }
}

#[test]
fn components_are_the_runs_between_separators() {
    assert_eq!(
        split_components(b"/srv/gopher/index"),
        vec![b"srv".to_vec(), b"gopher".to_vec(), b"index".to_vec()]
    );
    assert_eq!(split_components(b"a//b/"), vec![b"a".to_vec(), b"b".to_vec()]);
    assert_eq!(split_components(b""), Vec::<Vec<u8>>::new());
    assert_eq!(split_components(b"///"), Vec::<Vec<u8>>::new());
    assert_eq!(split_components(b"x"), vec![b"x".to_vec()]);
}

#[test]
fn next_component_skips_separators() {
    assert_eq!(next_component(b"//ab/c", 0), Some((2, 4)));
    assert_eq!(next_component(b"//ab/c", 4), Some((5, 6)));
    assert_eq!(next_component(b"//ab/c", 6), None);
    assert_eq!(next_component(b"ab//", 2), None);
    assert_eq!(next_component(b"", 0), None);
}

#[test]
fn dot_components_are_dot_and_dot_dot() {
    assert!(dot_component(b"."));
    assert!(dot_component(b".."));
    assert!(!dot_component(b""));
    assert!(!dot_component(b"..."));
    assert!(!dot_component(b"a"));
    assert!(!dot_component(b".a"));
    assert!(!dot_component(b"a."));
}

#[test]
fn fetcher_keeps_its_two_paths() {
    let fetcher = FileDirFetcher::new(ROOT, b"/srv/gopher/index");
    assert_eq!(fetcher.dir(), ROOT);
    assert_eq!(fetcher.index_file(), b"/srv/gopher/index");
}

#[test]
fn fetcher_confines_selectors_to_its_directory() {
    let fetcher = FileDirFetcher::new(ROOT, b"/var/lib/gopher/home");
    assert_eq!(fetcher.resource_candidate(b"/docs/a"), b"/srv/gopher/docs/a".to_vec());
    assert_eq!(
        fetcher.resource_file(Ok(b"/srv/gopher/docs/a".to_vec())),
        Ok(b"/srv/gopher/docs/a".to_vec())
    );
    assert_eq!(
        fetcher.resource_file(Ok(b"/var/lib/gopher/home".to_vec())),
        Err(GopherError::PermissionDenied)
    );
    assert_eq!(fetcher.resource_file(Err(GopherError::NotFound)), Err(GopherError::NotFound));
}

#[test]
fn round_trip_of_a_file_below_the_root() {
    let file = b"/srv/gopher/docs/about.txt".to_vec();
    let selector = b"docs/about.txt";
    let candidate = candidate_path(ROOT, selector);
    assert_eq!(candidate, file);
    assert_eq!(resolve_path(ROOT, Ok(candidate)), Ok(file));
}
