//! Module-resolution tests: the static table, the ordered chain, and the
//! caching filesystem-backed resolver.

use rhai::module::Module;
use rhai::parser::compile_str;
use rhai::position::Position;
use rhai::resolver::{
    FileModuleResolver, ModuleResolver, ModuleResolversCollection, ResolveErrorKind,
    StaticModuleResolver,
};

fn module_of(script: &str) -> Module {
    Module::new(compile_str(script).unwrap())
}

#[test]
fn static_resolver_hit_and_miss() {
    let mut r = StaticModuleResolver::new();
    r.insert("math".to_string(), module_of("let pi = 3.14;"));
    let pos = Position::new(4, 2);
    let m = r.resolve("math", pos).unwrap();
    assert_eq!(m.ast.statements.len(), 1);
    let e = r.resolve("missing", pos).unwrap_err();
    assert_eq!(e.path, "missing");
    assert_eq!(e.pos, pos);
    assert_eq!(e.kind, ResolveErrorKind::NotFound);
}

#[test]
fn static_resolver_later_entry_shadows() {
    let mut r = StaticModuleResolver::new();
    r.insert("m".to_string(), module_of("let a = 1;"));
    r.insert("m".to_string(), module_of("let a = 1; let b = 2;"));
    let m = r.resolve("m", Position::none()).unwrap();
    assert_eq!(m.ast.statements.len(), 2);
}

#[test]
fn collection_first_success_wins_either_order() {
    let failing = StaticModuleResolver::new();
    let mut succeeding = StaticModuleResolver::new();
    succeeding.insert("m".to_string(), module_of("let a = 7;"));
    let expected = module_of("let a = 7;");

    let mut chain = ModuleResolversCollection::new();
    chain.push(failing);
    chain.push(succeeding);
    let got = chain.resolve("m", Position::none()).unwrap();
    assert_eq!(*got, expected);

    let failing2 = StaticModuleResolver::new();
    let mut succeeding2 = StaticModuleResolver::new();
    succeeding2.insert("m".to_string(), module_of("let a = 7;"));
    let mut swapped = ModuleResolversCollection::new();
    swapped.push(succeeding2);
    swapped.push(failing2);
    let got2 = swapped.resolve("m", Position::none()).unwrap();
    assert_eq!(*got2, expected);
}

#[test]
fn collection_failure_is_tagged() {
    let mut chain: ModuleResolversCollection<StaticModuleResolver> =
        ModuleResolversCollection::new();
    chain.push(StaticModuleResolver::new());
    let pos = Position::new(9, 1);
    let e = chain.resolve("nowhere", pos).unwrap_err();
    assert_eq!(e.path, "nowhere");
    assert_eq!(e.pos, pos);
    let empty: ModuleResolversCollection<StaticModuleResolver> = ModuleResolversCollection::new();
    let e2 = empty.resolve("nowhere", pos).unwrap_err();
    assert_eq!(e2.kind, ResolveErrorKind::NotFound);
}

#[test]
fn file_resolver_maps_paths() {
    let r = FileModuleResolver::new("scripts".to_string());
    assert_eq!(r.file_path("util"), "scripts/util.rhai");
}

#[test]
fn file_resolver_caches_and_never_rereads() {
    let mut r = FileModuleResolver::new("scripts".to_string());
    let pos = Position::new(1, 1);
    let k1 = r
        .resolve_source("util", Some("let answer = 42;"), pos)
        .unwrap();
    // The second call hands no source at all: a re-read would be impossible,
    // so success proves the cached module is reused.
    let k2 = r.resolve_source("util", None, pos).unwrap();
    assert_eq!(k1, k2, "the identical cached module is returned");
    assert_eq!(r.module_at(k1), r.module_at(k2));
    // A third call with different source text still returns the original.
    let k3 = r.resolve_source("util", Some("let other = 1;"), pos).unwrap();
    assert_eq!(k1, k3);
    assert_eq!(r.module_at(k3).ast.statements.len(), 1);
}

#[test]
fn file_resolver_read_failure_is_tagged() {
    let mut r = FileModuleResolver::new("scripts".to_string());
    let pos = Position::new(3, 4);
    let e = r.resolve_source("absent", None, pos).unwrap_err();
    assert_eq!(e.path, "absent");
    assert_eq!(e.pos, pos);
    assert_eq!(e.kind, ResolveErrorKind::ReadFailure);
}

#[test]
fn file_resolver_surfaces_nested_parse_failure() {
    let mut r = FileModuleResolver::new("scripts".to_string());
    let pos = Position::new(7, 7);
    let e = r.resolve_source("broken", Some("let $"), pos).unwrap_err();
    assert_eq!(e.path, "broken");
    assert_eq!(e.pos, pos);
    match e.kind {
        ResolveErrorKind::FailedToParse(pe) => {
            assert!(matches!(
                pe.error_type(),
                rhai::error::ParseErrorType::BadInput(_)
            ));
        }
        other => panic!("expected a nested parse failure, got {other:?}"),
    }
    // The failure cached nothing: the same call fails again.
    assert!(r.resolve_source("broken", None, pos).is_err());
}
