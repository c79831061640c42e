use webots_proto::resolver::{join_paths, ProtoError, ProtoResolver, ResolveOptions};

#[test]
fn resolve_test_resolve_options_builder() {
    let options = ResolveOptions::new().with_max_depth(5);

    assert_eq!(options.max_depth, 5);
    assert!(options.webots_projects_dir.is_none());
}

#[test]
fn test_resolve_local_path() {
    let resolver = ProtoResolver::new(ResolveOptions::new());
    let base = "/base/path";

    let result = resolver.resolve_url("Child.proto", base).unwrap();
    assert_eq!(result, "/base/path/Child.proto");
}

#[test]
fn test_resolve_webots_url_without_config() {
    let resolver = ProtoResolver::new(ResolveOptions::new());
    let base = "/base/path";

    let result = resolver.resolve_url("webots://projects/robots/Robot.proto", base);
    assert!(result.is_err());
}

#[test]
fn test_resolve_webots_url_with_config() {
    let options = ResolveOptions::new().with_webots_projects_dir("/webots/assets".to_string());
    let resolver = ProtoResolver::new(options);
    let base = "/base/path";

    let result = resolver
        .resolve_url("webots://projects/robots/Robot.proto", base)
        .unwrap();
    assert_eq!(result, "/webots/assets/projects/robots/Robot.proto");
}

#[test]
fn test_reject_network_url_by_default() {
    let resolver = ProtoResolver::new(ResolveOptions::new());
    let base = "/base/path";

    let result = resolver.resolve_url("https://example.com/Robot.proto", base);
    assert!(result.is_err());
}

#[test]
fn test_circular_dependency_detection_documented() {
    let options = ResolveOptions::new().with_max_depth(5);
    assert_eq!(options.max_depth, 5);
}

#[test]
fn resolve_tests_test_resolve_options_builder() {
    let options = ResolveOptions::new()
        .with_max_depth(5)
        .with_webots_projects_dir("/test/path".to_string());

    assert_eq!(options.max_depth, 5);
    assert_eq!(options.webots_projects_dir, Some("/test/path".to_string()));
}

#[test]
fn test_webots_url_requires_config() {
    let options = ResolveOptions::new();
    assert!(
        options.webots_projects_dir.is_none(),
        "Webots projects dir should be None by default"
    );

    let options = options.with_webots_projects_dir("/test".to_string());
    assert!(
        options.webots_projects_dir.is_some(),
        "Webots projects dir should be set"
    );
}

#[test]
fn absolute_paths_are_kept_and_messages_name_the_url() {
    let resolver = ProtoResolver::new(ResolveOptions::new());
    assert_eq!(resolver.resolve_url("/abs/A.proto", "/base").unwrap(), "/abs/A.proto");
    match resolver.resolve_url("http://x/A.proto", "/base") {
        Err(ProtoError::ParseError(m)) => {
            assert_eq!(m, "Network URL 'http://x/A.proto' is not supported by the resolver")
        }
        other => panic!("unexpected {other:?}"),
    }
    match resolver.resolve_url("webots://A.proto", "/base") {
        Err(ProtoError::ParseError(m)) => assert_eq!(
            m,
            "webots:// URL 'webots://A.proto' requires webots_projects_dir to be configured"
        ),
        other => panic!("unexpected {other:?}"),
    }
}

#[test]
fn joining_paths() {
    assert_eq!(join_paths("/a/", "b"), "/a/b");
    assert_eq!(join_paths("", "b"), "b");
    assert_eq!(join_paths("/a", "/b"), "/b");
    assert_eq!(join_paths("a", "b/c"), "a/b/c");
}

#[test]
fn loading_refuses_cycles_and_depth() {
    let mut resolver = ProtoResolver::new(ResolveOptions::new().with_max_depth(1));
    assert!(resolver.begin_load(&"/p/A.proto".to_string()).is_ok());
    match resolver.begin_load(&"/p/A.proto".to_string()) {
        Err(ProtoError::ParseError(m)) => {
            assert_eq!(m, "Circular dependency detected: \"/p/A.proto\"")
        }
        other => panic!("unexpected {other:?}"),
    }
    match resolver.begin_load(&"/p/B.proto".to_string()) {
        Err(ProtoError::ParseError(m)) => assert_eq!(m, "Maximum recursion depth (1) exceeded"),
        other => panic!("unexpected {other:?}"),
    }
    resolver.finish_load();
    assert!(resolver.begin_load(&"/p/B.proto".to_string()).is_ok());
}
