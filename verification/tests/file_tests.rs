use aipack::error::UtilsError;
use aipack::fileops::ensure_exists_next;
use aipack::listing::{base_dir_and_globs, first_entry, select_entries};
use aipack::marshal::{EnsureExistsOptions, ScriptValue, to_vec_of_strings};
use aipack::meta::FileMeta;
use aipack::resolver::{DirContext, PathResolver};

const WKS: &str = "/work/sandbox-01";

fn ctx() -> DirContext {
    DirContext::new(WKS.to_string(), "/work".to_string()).expect("absolute bases")
}

fn str_value(s: &str) -> ScriptValue {
    ScriptValue::Str(s.to_string())
}

fn globs_value(globs: &[&str]) -> ScriptValue {
    ScriptValue::List(globs.iter().map(|g| str_value(g)).collect())
}

fn options_value(pairs: &[(&str, ScriptValue)]) -> ScriptValue {
    ScriptValue::Table(
        pairs
            .iter()
            .map(|(k, v)| (k.to_string(), clone_value(v)))
            .collect(),
    )
}

fn clone_value(v: &ScriptValue) -> ScriptValue {
    match v {
        ScriptValue::Nil => ScriptValue::Nil,
        ScriptValue::Bool(b) => ScriptValue::Bool(*b),
        ScriptValue::Int(i) => ScriptValue::Int(*i),
        ScriptValue::Str(s) => ScriptValue::Str(s.clone()),
        ScriptValue::List(items) => ScriptValue::List(items.iter().map(clone_value).collect()),
        ScriptValue::Table(pairs) => ScriptValue::Table(
            pairs.iter().map(|(k, v)| (k.clone(), clone_value(v))).collect(),
        ),
    }
}

/// The walk of the whole sandbox, absolute paths in the engine's own order.
fn sandbox_walk() -> Vec<String> {
    vec![
        format!("{WKS}/file-01.txt"),
        format!("{WKS}/file-02.txt"),
        format!("{WKS}/agent-script/agent-hello.aip"),
        format!("{WKS}/sub-dir-a/sub-sub-dir/main.aip"),
        format!("{WKS}/sub-dir-a/sub-sub-dir/agent-hello-3.aip"),
        format!("{WKS}/sub-dir-a/agent-hello-2.aip"),
    ]
}

/// The walk of `sub-dir-a`: deepest entries first, as a directory-first
/// walk hands them out.
fn sub_dir_a_walk(base: &str) -> Vec<String> {
    vec![
        format!("{base}/sub-sub-dir/main.aip"),
        format!("{base}/sub-sub-dir/agent-hello-3.aip"),
        format!("{base}/agent-hello-2.aip"),
    ]
}

#[test]
fn test_lua_file_list_glob_with_base_dir_all_nested() {
    let ctx = ctx();
    let globs = globs_value(&["**/*.*"]);
    let options = options_value(&[("base_dir", str_value("sub-dir-a"))]);

    let (base, patterns) =
        base_dir_and_globs(&ctx, &globs, Some(&options)).expect("should marshal");
    assert_eq!(base, format!("{WKS}/sub-dir-a"));

    let walked = sub_dir_a_walk(&base);
    let files = select_entries(&base, &patterns, &walked, false);

    assert_eq!(files.len(), 3, ".files.len() should be 3");
    assert_eq!("main.aip", files[0].meta.name);
    assert_eq!("agent-hello-3.aip", files[1].meta.name);
    assert_eq!("agent-hello-2.aip", files[2].meta.name);
}

#[test]
fn test_lua_file_list_glob_with_base_dir_one_level() {
    let ctx = ctx();
    let globs = globs_value(&["agent-hello-*.aip"]);
    let options = options_value(&[("base_dir", str_value("sub-dir-a"))]);

    let (base, patterns) =
        base_dir_and_globs(&ctx, &globs, Some(&options)).expect("should marshal");
    let walked = sub_dir_a_walk(&base);
    let files = select_entries(&base, &patterns, &walked, false);

    assert_eq!(files.len(), 1, ".files.len() should be 1");
    assert_eq!("agent-hello-2.aip", files[0].meta.name);
}

#[test]
fn test_lua_file_list_glob_direct() {
    let ctx = ctx();
    let globs = str_value("*.*");
    let (base, patterns) = base_dir_and_globs(&ctx, &globs, None).expect("should marshal");
    assert_eq!(base, WKS);

    let walked = sandbox_walk();
    let files = select_entries(&base, &patterns, &walked, false);

    assert_eq!(files.len(), 2, "result length");
    let paths: Vec<&str> = files.iter().map(|f| f.meta.path.as_str()).collect();
    assert!(paths.contains(&"file-01.txt"));
    assert!(paths.contains(&"file-02.txt"));
}

#[test]
fn test_lua_file_list_glob_deep() {
    let ctx = ctx();
    let globs = str_value("sub-dir-a/**/*.*");
    let (base, patterns) = base_dir_and_globs(&ctx, &globs, None).expect("should marshal");

    let walked = sandbox_walk();
    let files = select_entries(&base, &patterns, &walked, false);

    assert_eq!(files.len(), 3, "result length");
    let paths: Vec<&str> = files.iter().map(|f| f.meta.path.as_str()).collect();
    assert!(paths.contains(&"sub-dir-a/sub-sub-dir/agent-hello-3.aip"));
    assert!(paths.contains(&"sub-dir-a/sub-sub-dir/main.aip"));
    assert!(paths.contains(&"sub-dir-a/agent-hello-2.aip"));
}

#[test]
fn test_lua_file_list_glob_abs_with_wild() {
    // an absolute pattern aimed outside the workspace: every result falls
    // back to the absolute form, never a climbing relative path
    let ctx = ctx();
    let dir = "/work/tests-data/config";
    let globs = str_value(&format!("{dir}/*.*"));
    let (base, patterns) = base_dir_and_globs(&ctx, &globs, None).expect("should marshal");
    assert_eq!(base, WKS);

    let mut walked = sandbox_walk();
    walked.push(format!("{dir}/config-alpha.toml"));
    let files = select_entries(&base, &patterns, &walked, false);

    assert_eq!(files.len(), 1);
    assert_eq!(files[0].meta.path, format!("{dir}/config-alpha.toml"));
    assert!(files[0].meta.path.starts_with('/'));
    assert!(!files[0].meta.path.starts_with(".."));
}

#[test]
fn test_lua_file_first_glob_deep() {
    let ctx = ctx();
    let globs = str_value("sub-dir-a/**/*-2.*");
    let (base, patterns) = base_dir_and_globs(&ctx, &globs, None).expect("should marshal");

    let walked = sandbox_walk();
    let first = first_entry(&base, &patterns, &walked, false).expect("should find one");
    assert_eq!(first.meta.name, "agent-hello-2.aip");
    assert_eq!(first.meta.path, "sub-dir-a/agent-hello-2.aip");
}

#[test]
fn test_lua_file_first_not_found() {
    let ctx = ctx();
    let globs = str_value("sub-dir-a/**/*-not-a-thing.*");
    let (base, patterns) = base_dir_and_globs(&ctx, &globs, None).expect("should marshal");

    let walked = sandbox_walk();
    let first = first_entry(&base, &patterns, &walked, false);
    assert!(first.is_none(), "should have returned null");
}

#[test]
fn test_listing_containment_reconstruction() {
    // every non-absolute result, put back onto its base, names the same
    // file the walk found
    let ctx = ctx();
    let globs = str_value("**/*.aip");
    let (base, patterns) = base_dir_and_globs(&ctx, &globs, None).expect("should marshal");

    let walked = sandbox_walk();
    let files = select_entries(&base, &patterns, &walked, false);
    assert_eq!(files.len(), 4);
    for entry in &files {
        assert!(!entry.meta.path.starts_with('/'));
        let reconstructed = format!("{base}/{}", entry.meta.path);
        assert_eq!(reconstructed, entry.source);
    }
}

#[test]
fn test_static_prefix() {
    let static_prefix = aipack::listing::static_prefix;
    // the root a walk must cover for an absolute pattern
    assert_eq!(static_prefix("/work/tests-data/config/*.*"), "/work/tests-data/config");
    assert_eq!(static_prefix("/work/**/*.aip"), "/work");
    // a wildcard right at the root keeps the root
    assert_eq!(static_prefix("/*.txt"), "/");
    // no wildcard: the pattern names its own file
    assert_eq!(static_prefix("/work/file.txt"), "/work");
    // no separator before the wildcard-free part ends: the pattern itself
    assert_eq!(static_prefix("plain.txt"), "plain.txt");
}

#[test]
fn test_ensure_exists_idempotent() {
    let opts = EnsureExistsOptions::default();

    // absent file: created with the given content
    let x = "X".to_string();
    let (state1, wrote1) = ensure_exists_next(None, Some(&x), &opts);
    assert_eq!(state1, "X");
    assert!(wrote1);

    // second call, different content, no content_when_empty: untouched
    let y = "Y".to_string();
    let (state2, wrote2) = ensure_exists_next(Some(&state1), Some(&y), &opts);
    assert_eq!(state2, "X");
    assert!(!wrote2);
}

#[test]
fn test_ensure_exists_content_when_empty() {
    let opts_on = EnsureExistsOptions { content_when_empty: true };
    let opts_off = EnsureExistsOptions::default();

    // whitespace-only file, flag set: overwritten
    let blank = " \t\n".to_string();
    let y = "Y".to_string();
    let (state, wrote) = ensure_exists_next(Some(&blank), Some(&y), &opts_on);
    assert_eq!(state, "Y");
    assert!(wrote);

    // whitespace-only file, flag off: untouched
    let (state, wrote) = ensure_exists_next(Some(&blank), Some(&y), &opts_off);
    assert_eq!(state, " \t\n");
    assert!(!wrote);

    // non-empty file: untouched regardless of the flag
    let data = "data".to_string();
    let (state, wrote) = ensure_exists_next(Some(&data), Some(&y), &opts_on);
    assert_eq!(state, "data");
    assert!(!wrote);

    // absent content argument reads as the empty text
    let (state, wrote) = ensure_exists_next(None, None, &opts_off);
    assert_eq!(state, "");
    assert!(wrote);
}

#[test]
fn test_ensure_exists_options_from_value() {
    let on = options_value(&[("content_when_empty", ScriptValue::Bool(true))]);
    let opts = EnsureExistsOptions::from_value(&on).expect("should parse");
    assert!(opts.content_when_empty);

    let absent = options_value(&[]);
    let opts = EnsureExistsOptions::from_value(&absent).expect("should parse");
    assert!(!opts.content_when_empty);

    let wrong = options_value(&[("content_when_empty", str_value("yes"))]);
    let err = EnsureExistsOptions::from_value(&wrong).expect_err("should fail");
    assert!(matches!(err, UtilsError::ValueShape(_)));

    let not_table = str_value("nope");
    let err = EnsureExistsOptions::from_value(&not_table).expect_err("should fail");
    assert!(matches!(err, UtilsError::ValueShape(_)));
}

#[test]
fn test_to_vec_of_strings_shapes() {
    let single = str_value("one");
    let got = to_vec_of_strings(&single, "utils.test").expect("should coerce");
    assert_eq!(got, vec!["one".to_string()]);

    let list = globs_value(&["a", "b"]);
    let got = to_vec_of_strings(&list, "utils.test").expect("should coerce");
    assert_eq!(got, vec!["a".to_string(), "b".to_string()]);

    let bad = ScriptValue::Int(3);
    let err = to_vec_of_strings(&bad, "utils.test").expect_err("should fail");
    match &err {
        UtilsError::ValueShape(msg) => assert!(msg.starts_with("utils.test")),
        other => panic!("wrong error kind: {:?}", other.message()),
    }

    let mixed = ScriptValue::List(vec![str_value("a"), ScriptValue::Bool(true)]);
    let err = to_vec_of_strings(&mixed, "utils.test").expect_err("should fail");
    assert!(matches!(err, UtilsError::ValueShape(_)));
}

#[test]
fn test_base_dir_override_shapes() {
    let ctx = ctx();
    let globs = str_value("*.*");

    // absolute override used as given
    let options = options_value(&[("base_dir", str_value("/elsewhere/root"))]);
    let (base, _) = base_dir_and_globs(&ctx, &globs, Some(&options)).expect("should marshal");
    assert_eq!(base, "/elsewhere/root");

    // wrong-typed override: a shape error naming the options
    let options = options_value(&[("base_dir", ScriptValue::Bool(true))]);
    let err = base_dir_and_globs(&ctx, &globs, Some(&options)).expect_err("should fail");
    assert!(matches!(err, UtilsError::ValueShape(_)));
}

#[test]
fn test_resolver_composition() {
    let ctx = ctx();
    assert_eq!(
        ctx.resolve_path("sub/file.txt", PathResolver::WorkspaceDir),
        format!("{WKS}/sub/file.txt")
    );
    assert_eq!(
        ctx.resolve_path("/abs/override.txt", PathResolver::WorkspaceDir),
        "/abs/override.txt"
    );
    assert_eq!(ctx.resolve_path("", PathResolver::WorkspaceDir), WKS);
    assert_eq!(ctx.resolve_path("x", PathResolver::ParentDir), "/work/x");

    let err = DirContext::new("relative".to_string(), "/ok".to_string());
    assert!(err.is_err(), "a relative base must be refused");
}

#[test]
fn test_file_meta_fields() {
    let meta = FileMeta::from_path("doc/README.md".to_string());
    assert_eq!(meta.path, "doc/README.md");
    assert_eq!(meta.name, "README.md");
    assert_eq!(meta.stem, "README");
    assert_eq!(meta.ext, "md");

    let meta = FileMeta::from_path("archive.tar.gz".to_string());
    assert_eq!(meta.name, "archive.tar.gz");
    assert_eq!(meta.stem, "archive.tar");
    assert_eq!(meta.ext, "gz");

    let meta = FileMeta::from_path("sub/.gitignore".to_string());
    assert_eq!(meta.name, ".gitignore");
    assert_eq!(meta.stem, ".gitignore");
    assert_eq!(meta.ext, "");

    let meta = FileMeta::from_path("noext".to_string());
    assert_eq!(meta.name, "noext");
    assert_eq!(meta.stem, "noext");
    assert_eq!(meta.ext, "");
}
