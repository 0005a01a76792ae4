use afire::{Path, PathPart};

#[test]
fn test_param_pattern_matches_and_captures() {
    let path = Path::new("/greet/{name}");
    let caps = path.match_path("/greet/Sam".to_string()).unwrap();
    assert_eq!(caps, vec![("name".to_string(), "Sam".to_string())]);
    assert_eq!(path.match_path("/greet/Sam/extra".to_string()), None);
}

#[test]
fn test_wildcard_suffix_matches_remainder() {
    let path = Path::new("/files/*");
    assert_eq!(path.match_path("/files/a/b/c".to_string()), Some(vec![]));
    assert_eq!(path.match_path("/files/one".to_string()), Some(vec![]));
    assert_eq!(path.match_path("/other/a".to_string()), None);
}

#[test]
fn test_star_pattern_matches_everything() {
    let path = Path::new("*");
    assert_eq!(path.raw, "/*");
    assert_eq!(path.match_path("/".to_string()), Some(vec![]));
    assert_eq!(path.match_path("/a/b".to_string()), Some(vec![]));
}

#[test]
fn test_literal_pattern_needs_equality() {
    let path = Path::new("/nose");
    assert_eq!(path.match_path("/nose".to_string()), Some(vec![]));
    assert_eq!(path.match_path("/ear".to_string()), None);
    assert_eq!(path.match_path("/nose/more".to_string()), None);
}

#[test]
fn test_path_normalization() {
    assert_eq!(Path::new("nose").raw, "/nose");
    assert_eq!(Path::new("/nose/").raw, "/nose");
    assert_eq!(Path::new("/").raw, "/");
}

#[test]
fn test_path_trailing_slash_configurable() {
    let kept = Path::new_with("/nose/", false);
    assert_eq!(kept.raw, "/nose/");
    assert_eq!(kept.match_path("/nose/".to_string()), Some(vec![]));
    assert_eq!(kept.match_path("/nose".to_string()), None);
    let stripped = Path::new_with("/nose/", true);
    assert_eq!(stripped.raw, "/nose");
}

#[test]
fn test_mid_pattern_wildcard_is_one_segment() {
    let path = Path::new("/a/*/c");
    assert_eq!(path.match_path("/a/b/c".to_string()), Some(vec![]));
    assert_eq!(path.match_path("/a/b/b2/c".to_string()), None);
}

#[test]
fn test_from_segment_kinds() {
    assert_eq!(PathPart::from_segment("*"), PathPart::Any);
    assert_eq!(
        PathPart::from_segment("{id}"),
        PathPart::Pram("id".to_string())
    );
    assert_eq!(
        PathPart::from_segment("plain"),
        PathPart::Normal("plain".to_string())
    );
    assert_eq!(PathPart::from_segment("{"), PathPart::Normal("{".to_string()));
}

#[test]
fn test_two_params_capture_in_order() {
    let path = Path::new("/{a}/{b}");
    let caps = path.match_path("/x/y".to_string()).unwrap();
    assert_eq!(
        caps,
        vec![
            ("a".to_string(), "x".to_string()),
            ("b".to_string(), "y".to_string())
        ]
    );
}
