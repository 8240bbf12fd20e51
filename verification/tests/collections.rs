use harmony_export::ast::{Ident, ModuleExportName, Str, VarDeclarator};
use harmony_export::bindings::declared_ids;
use harmony_export::dependency::{
    ConstDependency, DependencyId, DependencyType, ExportPresenceMode,
    HarmonyExportExpressionDependency, HarmonyExportHeaderDependency,
    HarmonyExportImportedSpecifierDependency, HarmonyExportSpecifierDependency,
    HarmonyImportSideEffectDependency, RuntimeGlobals, Specifier,
};
use harmony_export::import_map::{ImportMap, ImportReference};
use harmony_export::inner_graph::{InnerGraphMapUsage, InnerGraphMapValue, InnerGraphState};
use harmony_export::name_set::NameSet;
use harmony_export::parser_plugin::harmony_export_dependency_parser_plugin::{
    default_star_js_word, js_default_keyword,
};
use harmony_export::span::{DependencyLocation, ErrorSpan, Span};

fn s(text: &str) -> String {
    text.to_string()
}

fn ident(name: &str, ctxt: u32) -> Ident {
    Ident { span: Span::new(4, 9), ctxt, sym: s(name) }
}

#[test]
fn offsets_of_positions() {
    assert_eq!(Span::new(1, 1).real_lo(), 0);
    assert_eq!(Span::new(1, 1).real_hi(), 0);
    assert_eq!(Span::new(5, 12).real_lo(), 4);
    assert_eq!(Span::new(5, 12).real_hi(), 11);
    assert_eq!(Span::new(5, 0).real_lo(), 4);
    assert_eq!(Span::new(0, 12).real_hi(), 11);
    assert_eq!(Span::new(u32::MAX, u32::MAX).real_hi(), u32::MAX - 1);
    assert_eq!(DependencyLocation::from_span(&Span::new(5, 12)), DependencyLocation::new(4, 11));
    assert!(Span::new(1, 1).is_located());
    assert!(!Span::new(0, 1).is_located());
    assert!(!Span::new(1, 0).is_located());
}

// The offsets of a region for diagnostics are taken of any region: one without a place is empty.
#[test]
fn offsets_for_diagnostics() {
    assert_eq!(ErrorSpan::from(Span::new(5, 12)), ErrorSpan::new(4, 11));
    assert_eq!(ErrorSpan::from(Span::new(1, 1)), ErrorSpan { start: 0, end: 0 });
    assert_eq!(ErrorSpan::from(Span::new(0, 0)), ErrorSpan { start: 0, end: 0 });
    assert_eq!(ErrorSpan::from(Span::new(0, 7)), ErrorSpan { start: 0, end: 6 });
    assert_eq!(ErrorSpan::from(Span::new(u32::MAX, u32::MAX)), ErrorSpan::new(u32::MAX - 1, u32::MAX - 1));
    let converted: ErrorSpan = Span::new(3, 4).into();
    assert_eq!(converted, ErrorSpan::new(2, 3));
}

#[test]
fn name_set_holds_each_name_once() {
    let mut names = NameSet::new();
    assert_eq!(names.len(), 0);
    assert!(!names.contains(&s("a")));
    assert!(names.insert(s("a")));
    assert!(names.insert(s("b")));
    assert!(!names.insert(s("a")));
    assert!(names.insert(s("")));
    assert!(!names.insert(s("")));
    assert_eq!(names.len(), 3);
    assert!(names.contains(&s("a")));
    assert!(names.contains(&s("")));
    assert!(!names.contains(&s("A")));
    assert_eq!(names.to_vec(), vec![s("a"), s("b"), s("")]);
}

#[test]
fn import_map_finds_what_was_recorded_last() {
    let mut map = ImportMap::new();
    assert!(map.get(&(s("x"), 0)).is_none());
    let first = ImportReference::new(s("a"), Specifier::Named(s("x"), None), 1, Some(s("x")));
    let second = ImportReference::new(s("b"), Specifier::Namespace(s("x")), 2, None);
    let other = ImportReference::new(s("c"), Specifier::Default(s("y")), 3, Some(s("default")));
    map.insert((s("x"), 0), first.clone());
    assert_eq!(map.get(&(s("x"), 0)), Some(&first));
    map.insert((s("y"), 0), other.clone());
    map.insert((s("x"), 0), second.clone());
    assert_eq!(map.get(&(s("x"), 0)), Some(&second));
    assert_eq!(map.get(&(s("y"), 0)), Some(&other));
    assert_eq!(map.get(&(s("x"), 1)), None);
    assert_eq!(map.get(&(s("z"), 0)), None);
    assert_eq!(ident("x", 0).to_id(), (s("x"), 0));
    assert_eq!(map.get(&ident("x", 0).to_id()), Some(&second));
    assert_eq!(first.request, "a");
    assert_eq!(first.source_order, 1);
    assert_eq!(first.names, Some(s("x")));
    assert_eq!(first.specifier, Specifier::Named(s("x"), None));
}

fn users(graph: &InnerGraphState, binding: &str) -> Option<Option<Vec<String>>> {
    graph.get(&s(binding)).map(|value| match value {
        InnerGraphMapValue::True => None,
        InnerGraphMapValue::Exports(exports) => Some(exports.to_vec()),
    })
}

#[test]
fn usage_map_gathers_the_exports_that_use_a_binding() {
    let mut graph = InnerGraphState::new();
    assert_eq!(users(&graph, "f"), None);
    graph.add_usage(s("f"), InnerGraphMapUsage::Value(s("default")));
    graph.add_usage(s("g"), InnerGraphMapUsage::Value(s("g")));
    graph.add_usage(s("f"), InnerGraphMapUsage::Value(s("alias")));
    graph.add_usage(s("f"), InnerGraphMapUsage::Value(s("default")));
    assert_eq!(users(&graph, "f"), Some(Some(vec![s("default"), s("alias")])));
    assert_eq!(users(&graph, "g"), Some(Some(vec![s("g")])));
    assert_eq!(users(&graph, "h"), None);
}

#[test]
fn binding_that_is_always_used_stays_so() {
    let mut graph = InnerGraphState::new();
    graph.add_usage(s("f"), InnerGraphMapUsage::Value(s("a")));
    graph.add_usage(s("f"), InnerGraphMapUsage::True);
    assert_eq!(users(&graph, "f"), Some(None));
    graph.add_usage(s("f"), InnerGraphMapUsage::Value(s("b")));
    assert_eq!(users(&graph, "f"), Some(None));
    graph.add_usage(s("g"), InnerGraphMapUsage::True);
    assert_eq!(users(&graph, "g"), Some(None));
}

#[test]
fn names_of_bindings() {
    assert_eq!(ModuleExportName::Ident(ident("a", 3)).atom(), "a");
    assert_eq!(ModuleExportName::Str(Str { span: Span::new(1, 6), value: s("a b") }).atom(), "a b");
    assert_eq!(js_default_keyword(), "default");
    assert_eq!(default_star_js_word(), "*default*");
    let copy = ident("a", 3).clone();
    assert_eq!(copy, ident("a", 3));
}

#[test]
fn declarators_bind_their_identifiers_in_order() {
    let decls = vec![
        VarDeclarator { span: Span::new(1, 2), ids: vec![ident("first", 1)] },
        VarDeclarator { span: Span::new(3, 4), ids: vec![ident("a", 1), ident("b", 2), ident("c", 1)] },
        VarDeclarator { span: Span::new(5, 6), ids: vec![] },
        VarDeclarator { span: Span::new(7, 8), ids: vec![ident("a", 1)] },
    ];
    let expected = vec![ident("first", 1), ident("a", 1), ident("b", 2), ident("c", 1), ident("a", 1)];
    assert_eq!(declared_ids(&decls), expected);
    assert!(declared_ids(&Vec::new()).is_empty());
}

#[test]
fn records_keep_what_they_are_made_of() {
    let dep = HarmonyExportImportedSpecifierDependency::new(
        s("m"),
        4,
        vec![(s("a"), Some(s("b")))],
        vec![],
        Some(s("a")),
        false,
        Some(vec![DependencyId(2)]),
        ErrorSpan::new(0, 8),
        ExportPresenceMode::Error,
    );
    assert_eq!(
        dep,
        HarmonyExportImportedSpecifierDependency {
            request: s("m"),
            source_order: 4,
            ids: vec![(s("a"), Some(s("b")))],
            mode_ids: vec![],
            name: Some(s("a")),
            export_all: false,
            other_star_exports: Some(vec![DependencyId(2)]),
            span: ErrorSpan { start: 0, end: 8 },
            export_presence_mode: ExportPresenceMode::Error,
        }
    );
    assert_eq!(
        HarmonyExportSpecifierDependency::new(s("exported"), s("local")),
        HarmonyExportSpecifierDependency { name: s("exported"), value: s("local") }
    );
    let inner = DependencyLocation::new(7, 20);
    let outer = DependencyLocation::new(0, 20);
    assert_eq!(
        HarmonyExportHeaderDependency::new(Some(inner), outer),
        HarmonyExportHeaderDependency { range: Some(inner), range_stmt: outer }
    );
    assert_eq!(
        HarmonyExportExpressionDependency::new(inner, outer, None),
        HarmonyExportExpressionDependency { range: inner, range_stmt: outer, declaration: None }
    );
    assert_eq!(
        HarmonyImportSideEffectDependency::new(
            s("m"),
            2,
            ErrorSpan::new(0, 8),
            ErrorSpan::new(4, 7),
            DependencyType::EsmImport,
            true,
        ),
        HarmonyImportSideEffectDependency {
            request: s("m"),
            source_order: 2,
            span: ErrorSpan { start: 0, end: 8 },
            source_span: ErrorSpan { start: 4, end: 7 },
            dependency_type: DependencyType::EsmImport,
            export_all: true,
        }
    );
    assert_eq!(
        ConstDependency::new(3, 8, s("x"), Some(RuntimeGlobals(1 << 100))),
        ConstDependency { start: 3, end: 8, content: s("x"), runtime_requirements: Some(RuntimeGlobals(1 << 100)) }
    );
}
