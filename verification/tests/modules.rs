use mux_compiler::diagnostic::{DiagnosticCode, Files};
use mux_compiler::module_resolver::{
    determine_file_path, import_kind, relative_moves, EmbeddedImport, FileImport, FileRoute,
    ImportKind, ModuleResolver, PathMove,
};
use mux_compiler::table::Entry;

fn entry(key: &str, value: &str) -> Entry<String> {
    Entry { key: key.to_string(), value: value.to_string() }
}

fn resolver() -> ModuleResolver {
    ModuleResolver::new(
        "project".to_string(),
        vec![
            entry("math", "const int ONE = 1\n"),
            entry("net.http", "auto x = 1\n"),
            entry("net.tcp.raw", "auto y = 1\n"),
            entry("broken", "func main( {\n"),
        ],
    )
}

#[test]
fn resolve_import_path_reports_lex_and_parse_errors() {
    let mut resolver = resolver();
    let mut files = Files::new();

    let lex = "auto s = \"unterminated\n".to_string();
    let err = resolver
        .resolve_import_path("badlex", "dir/badlex.mux", &mut files, Ok(lex))
        .expect_err("lex error module must fail");
    assert!(err.message.contains("Lexer error in module"), "got: {}", err.to_string());

    let parse = "func main( {\n    return\n}\n".to_string();
    let err = resolver
        .resolve_import_path("badparse", "dir/badparse.mux", &mut files, Ok(parse))
        .expect_err("parse error module must fail");
    assert!(err.message.contains("Parse error in module"), "got: {}", err.to_string());
    assert_eq!(err.code, DiagnosticCode::ImportFailure);

    assert!(resolver.take_output().contains("badlex.mux"));
    assert!(resolver.take_output().is_empty());
    assert!(resolver.take_diagnostics().len() >= 2);
    assert!(!resolver.take_recovery_intervals().intervals.is_empty());
}

#[test]
fn built_in_modules_have_a_short_name() {
    let mut resolver = resolver();
    let mut files = Files::new();
    assert!(resolver.has_embedded_module("math"));
    assert!(resolver.has_embedded_module("std.math"));
    assert!(!resolver.has_embedded_module("std"));
    match resolver.resolve_embedded_module_if_any("std.math", &mut files) {
        Ok(EmbeddedImport::Loaded(nodes)) => {
            assert_eq!(nodes.len(), 1);
            resolver.cache_module("std.math", nodes);
        }
        _ => panic!("expected the module"),
    }
    assert_eq!(files.path(files.id_for_path("<embedded>/math.mux").unwrap()), Some("<embedded>/math.mux"));
    assert_eq!(
        resolver.file_id_for_module("std.math"),
        files.id_for_path("<embedded>/math.mux")
    );
    resolver.finish_import("math");
    assert!(matches!(
        resolver.resolve_embedded_module_if_any("math", &mut files),
        Ok(EmbeddedImport::Cached(key)) if key == "math"
    ));
    assert!(resolver.compiled("math").is_some());
    assert!(matches!(
        resolver.resolve_embedded_module_if_any("other", &mut files),
        Ok(EmbeddedImport::NotEmbedded)
    ));
    assert!(resolver.resolve_embedded_module_if_any("net.http", &mut files).is_ok());
    assert!(files.id_for_path("<embedded>/net/http.mux").is_some());
}

#[test]
fn circular_imports_are_refused() {
    let mut resolver = resolver();
    let path = Ok("/p/a.mux".to_string());
    assert!(matches!(resolver.begin_file_import("a", &path), Ok(FileImport::Load)));
    let other = Ok("/p/b.mux".to_string());
    assert!(matches!(resolver.begin_file_import("b", &other), Ok(FileImport::Load)));
    let Err(err) = resolver.begin_file_import("a", &path) else {
        panic!("a is under way");
    };
    assert_eq!(err.message, "Circular import detected: a -> b -> a");
    resolver.finish_import("b");
    resolver.finish_import("a");
    assert!(resolver.import_stack.is_empty());
    assert!(matches!(resolver.begin_file_import("a", &path), Ok(FileImport::Load)));
    let Err(err) = resolver.begin_file_import("c", &Err("no such file".to_string())) else {
        panic!("there is no file");
    };
    assert_eq!(err.message, "Cannot resolve module path c: no such file");
}

#[test]
fn a_built_in_module_cannot_import_itself() {
    let mut resolver = resolver();
    let mut files = Files::new();
    assert!(resolver.resolve_embedded_module_if_any("broken", &mut files).is_err());
    let Err(err) = resolver.resolve_embedded_module_if_any("std.broken", &mut files) else {
        panic!("broken is under way");
    };
    assert_eq!(err.message, "Circular import detected: broken -> broken");
}

#[test]
fn loaded_files_are_kept() {
    let mut resolver = resolver();
    let mut files = Files::new();
    let path = Ok("/p/a.mux".to_string());
    assert!(resolver.begin_file_import("a", &path).is_ok());
    let nodes = resolver
        .resolve_import_path("a", "/p/a.mux", &mut files, Ok("auto x = 1\n".to_string()))
        .unwrap();
    assert_eq!(resolver.file_id_for_module("a"), files.id_for_path("/p/a.mux"));
    resolver.cache_module("a", nodes);
    resolver.finish_import("a");
    assert!(matches!(
        resolver.begin_file_import("alias", &path),
        Ok(FileImport::Cached(key)) if key == "a"
    ));
    let err = resolver
        .resolve_import_path("b", "/p/b.mux", &mut files, Err("denied".to_string()))
        .unwrap_err();
    assert_eq!(err.message, "Failed to open module: denied");
    resolver.set_source_overrides(vec![entry("/p/a.mux", "auto z = 2\n")]);
    assert_eq!(resolver.source_override("/p/a.mux").unwrap(), "auto z = 2\n");
    assert!(resolver.source_override("/p/b.mux").is_none());
}

#[test]
fn directories_are_modules_too() {
    let resolver = resolver();
    assert_eq!(resolver.check_module_path("math", (false, true)), (true, false));
    assert_eq!(resolver.check_module_path("net", (false, false)), (false, true));
    assert_eq!(resolver.check_module_path("mine", (true, false)), (true, false));
    let stems = vec!["zip".to_string(), "http".to_string()];
    assert_eq!(
        resolver.get_submodules("net", &stems).unwrap(),
        vec!["http", "tcp", "zip"]
    );
    assert_eq!(
        resolver.get_submodules("nothing", &Vec::new()).unwrap_err(),
        "Module directory not found: nothing"
    );
}

#[test]
fn imports_say_where_they_lead() {
    assert_eq!(import_kind("./a"), ImportKind::Relative);
    assert_eq!(import_kind("../a"), ImportKind::Relative);
    assert_eq!(import_kind("/a"), ImportKind::Absolute);
    assert_eq!(import_kind("a.b"), ImportKind::Project);
    let moves = relative_moves("././x/../y//z");
    let shown: Vec<String> = moves
        .iter()
        .map(|m| match m {
            PathMove::Up => "^".to_string(),
            PathMove::Into(name) => name.clone(),
        })
        .collect();
    assert_eq!(shown, vec!["x", "^", "y", "z"]);
    assert!(matches!(
        determine_file_path("a.b", false, true, ""),
        Ok(FileRoute::Project(names)) if names == vec!["a", "b"]
    ));
    let Err(err) = determine_file_path("a.b", false, false, "\"project/a/b.mux\"") else {
        panic!("it is not there");
    };
    assert_eq!(err.code, DiagnosticCode::ModuleNotFound);
    assert_eq!(
        err.message,
        "Module not found: a.b (looked for \"project/a/b.mux\")"
    );
    let Err(err) = determine_file_path("./a", false, true, "") else {
        panic!("there is no file to start from");
    };
    assert_eq!(err.message, "Cannot resolve relative import: no current file");
}

#[test]
fn modules_are_cached_by_their_whole_path() {
    let mut resolver = resolver();
    let mut files = Files::in_directory("/p".to_string());
    let path = Ok("/p/a.mux".to_string());
    assert!(matches!(resolver.begin_file_import("a", &path), Ok(FileImport::Load)));
    let nodes = resolver
        .resolve_import_path("a", "/p/a.mux", &mut files, Ok("auto x = 1\n".to_string()))
        .unwrap();
    let id = files.id_for_path("a.mux");
    assert!(id.is_some());
    assert_eq!(resolver.file_id_for_module("a"), id);
    assert_eq!(files.path(id.unwrap()), Some("a.mux"));
    resolver.cache_module("a", nodes);
    resolver.finish_import("a");
    assert!(matches!(
        resolver.begin_file_import("other", &path),
        Ok(FileImport::Cached(key)) if key == "a"
    ));
    let err = resolver
        .resolve_import_path("b", "/p/b.mux", &mut files, Ok("func (\n".to_string()))
        .unwrap_err();
    assert_eq!(err.message, "Parse error in module /p/b.mux");
}

#[test]
fn loading_a_file_leaves_the_imports_under_way() {
    let mut resolver = resolver();
    let mut files = Files::new();
    let path = Ok("/p/a.mux".to_string());
    assert!(matches!(resolver.begin_file_import("a", &path), Ok(FileImport::Load)));
    let nodes = resolver
        .resolve_import_path("a", "/p/a.mux", &mut files, Ok("auto x = 1\n".to_string()))
        .unwrap();
    assert_eq!(resolver.import_stack, vec!["a".to_string()]);
    let Err(err) = resolver.begin_file_import("a", &Ok("/p/other.mux".to_string())) else {
        panic!("a is under way");
    };
    assert_eq!(err.message, "Circular import detected: a -> a");
    resolver.cache_module("a", nodes);
    resolver.finish_import("a");
    assert!(matches!(
        resolver.resolve_embedded_module_if_any("math", &mut files),
        Ok(EmbeddedImport::Loaded(_))
    ));
    assert!(matches!(
        resolver.begin_file_import("again", &path),
        Ok(FileImport::Cached(key)) if key == "a"
    ));
}
