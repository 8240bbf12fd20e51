use std::rc::Rc;

use harmony_export::ast::{
    BlockStmt, Class, ClassDecl, ClassExpr, Decl, DefaultDecl, ExportAll, ExportDecl,
    ExportDefaultDecl, ExportDefaultExpr, ExportDefaultSpecifier, ExportNamedSpecifier,
    ExportNamespaceSpecifier, ExportSpecifier, Expr, ExprKind, FnDecl, FnExpr, Function, Ident,
    ModuleDecl, ModuleExportName, ModuleItem, NamedExport, Param, Stmt, Str, VarDecl, VarDeclKind,
    VarDeclarator,
};
use harmony_export::dependency::{
    ConstDependency, DeclarationId, DeclarationInfo, Dependency, DependencyId, DependencyType,
    ExportPresenceMode, HarmonyExportExpressionDependency, HarmonyExportHeaderDependency,
    HarmonyExportImportedSpecifierDependency, HarmonyExportSpecifierDependency,
    HarmonyImportSideEffectDependency, Specifier,
};
use harmony_export::import_map::ImportReference;
use harmony_export::inner_graph::InnerGraphMapValue;
use harmony_export::parser::{JavascriptParser, JavascriptParserOptions};
use harmony_export::parser_plugin::harmony_export_dependency_parser_plugin::handle_esm_export_harmony_import_side_effects_dep;
use harmony_export::parser_plugin::{
    HarmonyExportDependencyParserPlugin, JavaScriptParserPluginDrive, JavascriptParserPlugin,
};
use harmony_export::span::{DependencyLocation, ErrorSpan, Span};
use harmony_export::walk::WalkError;

type Parser = JavascriptParser<HarmonyExportDependencyParserPlugin>;

fn parser_with(plugins: usize, mode: ExportPresenceMode) -> Parser {
    let mut chain = Vec::new();
    for _ in 0..plugins {
        chain.push(HarmonyExportDependencyParserPlugin);
    }
    JavascriptParser::new(
        JavascriptParserOptions { reexport_exports_presence: mode },
        Rc::new(JavaScriptParserPluginDrive::new(chain)),
    )
}

fn parser() -> Parser {
    parser_with(1, ExportPresenceMode::Warn)
}

fn s(text: &str) -> String {
    text.to_string()
}

fn ident(name: &str) -> Ident {
    Ident { span: Span::new(0, 0), ctxt: 0, sym: s(name) }
}

fn name(text: &str) -> ModuleExportName {
    ModuleExportName::Ident(ident(text))
}

fn literal(text: &str) -> ModuleExportName {
    ModuleExportName::Str(Str { span: Span::new(0, 0), value: s(text) })
}

fn source(request: &str, lo: u32, hi: u32) -> Str {
    Str { span: Span::new(lo, hi), value: s(request) }
}

fn named(orig: ModuleExportName, exported: Option<ModuleExportName>, lo: u32, hi: u32) -> ExportSpecifier {
    ExportSpecifier::Named(ExportNamedSpecifier { span: Span::new(lo, hi), orig, exported })
}

fn namespace(export: ModuleExportName) -> ExportSpecifier {
    ExportSpecifier::Namespace(ExportNamespaceSpecifier { span: Span::new(0, 0), name: export })
}

fn named_export(lo: u32, hi: u32, specifiers: Vec<ExportSpecifier>, src: Option<Str>) -> NamedExport {
    NamedExport { span: Span::new(lo, hi), specifiers, src }
}

fn export_named(lo: u32, hi: u32, specifiers: Vec<ExportSpecifier>, src: Option<Str>) -> ModuleItem {
    ModuleItem::ModuleDecl(ModuleDecl::ExportNamed(named_export(lo, hi, specifiers, src)))
}

fn export_all(lo: u32, hi: u32, request: &str) -> ModuleItem {
    ModuleItem::ModuleDecl(ModuleDecl::ExportAll(ExportAll {
        span: Span::new(lo, hi),
        src: source(request, hi - 4, hi - 1),
    }))
}

fn function(lo: u32, hi: u32, params: Vec<Param>, body_lo: u32, is_async: bool, is_generator: bool) -> Function {
    Function {
        params,
        span: Span::new(lo, hi),
        body: Some(BlockStmt { span: Span::new(body_lo, hi) }),
        is_generator,
        is_async,
    }
}

fn export_default_fn(lo: u32, hi: u32, ident: Option<Ident>, function: Function) -> ModuleItem {
    ModuleItem::ModuleDecl(ModuleDecl::ExportDefaultDecl(ExportDefaultDecl {
        span: Span::new(lo, hi),
        decl: DefaultDecl::Fn(FnExpr { ident, function }),
    }))
}

fn export_default_class(lo: u32, hi: u32, ident: Option<Ident>, class_lo: u32) -> ModuleItem {
    ModuleItem::ModuleDecl(ModuleDecl::ExportDefaultDecl(ExportDefaultDecl {
        span: Span::new(lo, hi),
        decl: DefaultDecl::Class(ClassExpr { ident, class: Class { span: Span::new(class_lo, hi) } }),
    }))
}

fn export_decl(lo: u32, hi: u32, decl: Decl) -> ModuleItem {
    ModuleItem::ModuleDecl(ModuleDecl::ExportDecl(ExportDecl { span: Span::new(lo, hi), decl }))
}

fn var_decl(lo: u32, hi: u32, kind: VarDeclKind, declarators: &[&[&str]]) -> Decl {
    Decl::Var(VarDecl {
        span: Span::new(lo, hi),
        kind,
        decls: declarators
            .iter()
            .map(|names| VarDeclarator { span: Span::new(lo, hi), ids: names.iter().map(|n| ident(n)).collect() })
            .collect(),
    })
}

fn specifier_dep(exported: &str, local: &str) -> Dependency {
    Dependency::HarmonyExportSpecifier(HarmonyExportSpecifierDependency { name: s(exported), value: s(local) })
}

fn blank(lo: u32, hi: u32) -> Dependency {
    Dependency::Const(ConstDependency { start: lo, end: hi, content: String::new(), runtime_requirements: None })
}

fn linkage(request: &str, order: i32, span: Span, source_span: Span, export_all: bool) -> Dependency {
    Dependency::HarmonyImportSideEffect(HarmonyImportSideEffectDependency {
        request: s(request),
        source_order: order,
        span: ErrorSpan::from(span),
        source_span: ErrorSpan::from(source_span),
        dependency_type: DependencyType::EsmExport,
        export_all,
    })
}

fn exported_names(parser: &Parser) -> Vec<String> {
    parser.build_info.harmony_named_exports.to_vec()
}

fn users_of(parser: &Parser, binding: &str) -> Option<Vec<String>> {
    match parser.inner_graph.get(&s(binding)) {
        Some(InnerGraphMapValue::Exports(exports)) => Some(exports.to_vec()),
        Some(InnerGraphMapValue::True) => panic!("{} is not always used", binding),
        None => None,
    }
}

// export * as ns from "m";
#[test]
fn namespace_reexport_records_one_binding() {
    let mut parser = parser();
    let items = vec![export_named(1, 26, vec![namespace(name("ns"))], Some(source("m", 22, 25)))];
    parser.walk_program(&items);
    assert_eq!(
        parser.dependencies,
        vec![
            Dependency::HarmonyExportImportedSpecifier(HarmonyExportImportedSpecifierDependency {
                request: s("m"),
                source_order: 1,
                ids: vec![(s("ns"), None)],
                mode_ids: vec![],
                name: Some(s("ns")),
                export_all: false,
                other_star_exports: None,
                span: ErrorSpan { start: 0, end: 25 },
                export_presence_mode: ExportPresenceMode::Warn,
            }),
            linkage("m", 1, Span::new(1, 26), Span::new(22, 25), false),
            blank(0, 25),
        ]
    );
    assert_eq!(exported_names(&parser), vec![s("ns")]);
    assert!(parser.build_info.all_star_exports.is_empty());
    assert_eq!(parser.last_harmony_import_order, 1);
}

// export { a, b as c } from "m";
#[test]
fn named_reexport_records_each_binding() {
    let mut parser = parser_with(1, ExportPresenceMode::Error);
    let items = vec![export_named(
        1,
        32,
        vec![named(name("a"), None, 10, 11), named(name("b"), Some(name("c")), 13, 19)],
        Some(source("m", 28, 31)),
    )];
    parser.walk_program(&items);
    let reexport = |exported: &str, orig: &str| {
        Dependency::HarmonyExportImportedSpecifier(HarmonyExportImportedSpecifierDependency {
            request: s("m"),
            source_order: 1,
            ids: vec![(s(exported), Some(s(orig)))],
            mode_ids: vec![(s(exported), Some(s(orig)))],
            name: Some(s(exported)),
            export_all: false,
            other_star_exports: None,
            span: ErrorSpan { start: 0, end: 31 },
            export_presence_mode: ExportPresenceMode::Error,
        })
    };
    assert_eq!(
        parser.dependencies,
        vec![
            reexport("a", "a"),
            reexport("c", "b"),
            linkage("m", 1, Span::new(1, 32), Span::new(28, 31), false),
            blank(0, 31),
        ]
    );
    assert_eq!(exported_names(&parser), vec![s("a"), s("c")]);
}

// export { "a-b" as c, d as "e f", "g" } from "m"; export * as "n s" from "m";
#[test]
fn reexport_of_string_named_binding_is_recorded() {
    let mut parser = parser();
    let items = vec![
        export_named(
            1,
            50,
            vec![
                named(literal("a-b"), Some(name("c")), 10, 20),
                named(name("d"), Some(literal("e f")), 22, 32),
                named(literal("g"), None, 34, 37),
            ],
            Some(source("m", 46, 49)),
        ),
        export_named(51, 80, vec![namespace(literal("n s"))], Some(source("m", 76, 79))),
    ];
    parser.walk_program(&items);
    assert_eq!(parser.dependencies.len(), 8);
    let found: Vec<(i32, Option<String>, Vec<(String, Option<String>)>, usize)> = parser
        .dependencies
        .iter()
        .filter_map(|d| match d {
            Dependency::HarmonyExportImportedSpecifier(dep) => {
                Some((dep.source_order, dep.name.clone(), dep.ids.clone(), dep.mode_ids.len()))
            }
            _ => None,
        })
        .collect();
    assert_eq!(
        found,
        vec![
            (1, Some(s("c")), vec![(s("c"), Some(s("a-b")))], 1),
            (1, Some(s("e f")), vec![(s("e f"), Some(s("d")))], 1),
            (1, Some(s("g")), vec![(s("g"), Some(s("g")))], 1),
            (2, Some(s("n s")), vec![(s("n s"), None)], 0),
        ]
    );
    assert!(matches!(parser.dependencies[3], Dependency::HarmonyImportSideEffect(_)));
    assert_eq!(parser.dependencies[4], blank(0, 49));
    assert_eq!(exported_names(&parser), vec![s("c"), s("e f"), s("g"), s("n s")]);
}

// A re-export gets as many re-export records as it has specifiers, in their order.
#[test]
fn reexport_records_one_binding_for_each_specifier() {
    for count in 0..5usize {
        let names = ["a", "b", "c", "d"];
        let specifiers: Vec<ExportSpecifier> = names[..count.min(4)]
            .iter()
            .enumerate()
            .map(|(at, n)| match at % 2 {
                0 => named(name(n), None, 10, 11),
                _ => named(literal(n), Some(name(&n.to_uppercase())), 10, 11),
            })
            .collect();
        let expected: Vec<String> =
            names[..count.min(4)].iter().enumerate().map(|(at, n)| if at % 2 == 0 { s(n) } else { n.to_uppercase() }).collect();
        let mut parser = parser();
        parser.try_walk_program(&vec![export_named(1, 40, specifiers, Some(source("m", 36, 39)))]).expect("admitted");
        assert_eq!(parser.dependencies.len(), expected.len() + 2);
        let recorded: Vec<String> = parser.dependencies[..expected.len()]
            .iter()
            .map(|d| match d {
                Dependency::HarmonyExportImportedSpecifier(dep) => dep.name.clone().expect("a name"),
                other => panic!("unexpected record {:?}", other),
            })
            .collect();
        assert_eq!(recorded, expected);
        assert_eq!(exported_names(&parser), expected);
    }
}

// The bindings of a re-export are recorded first to last, then the linkage, all under the current source order.
#[test]
fn linking_records_bindings_then_linkage() {
    let mut parser = parser();
    parser.last_harmony_import_order = 7;
    handle_esm_export_harmony_import_side_effects_dep(
        &mut parser,
        s("m"),
        Span::new(3, 40),
        Span::new(30, 39),
        vec![Specifier::Named(s("a"), Some(s("b"))), Specifier::Namespace(s("ns")), Specifier::Named(s("c"), None)],
        DependencyType::EsmExport,
        false,
    );
    let summary: Vec<(i32, Option<String>, usize)> = parser
        .dependencies
        .iter()
        .map(|d| match d {
            Dependency::HarmonyExportImportedSpecifier(dep) => (dep.source_order, dep.name.clone(), dep.mode_ids.len()),
            Dependency::HarmonyImportSideEffect(dep) => (dep.source_order, None, 0),
            other => panic!("unexpected record {:?}", other),
        })
        .collect();
    assert_eq!(summary, vec![(7, Some(s("b")), 1), (7, Some(s("ns")), 0), (7, Some(s("c")), 1), (7, None, 0)]);
    assert_eq!(parser.dependencies[3], linkage("m", 7, Span::new(3, 40), Span::new(30, 39), false));
    assert_eq!(exported_names(&parser), vec![s("b"), s("ns"), s("c")]);
    assert_eq!(parser.last_harmony_import_order, 7);
}

// export * from "a";
#[test]
fn star_export_holds_no_name_and_no_earlier_star() {
    let mut parser = parser();
    parser.walk_program(&vec![export_all(1, 19, "a")]);
    assert_eq!(
        parser.dependencies,
        vec![
            linkage("a", 1, Span::new(1, 19), Span::new(15, 18), true),
            Dependency::HarmonyExportImportedSpecifier(HarmonyExportImportedSpecifierDependency {
                request: s("a"),
                source_order: 1,
                ids: vec![],
                mode_ids: vec![],
                name: None,
                export_all: true,
                other_star_exports: Some(vec![]),
                span: ErrorSpan { start: 0, end: 18 },
                export_presence_mode: ExportPresenceMode::Warn,
            }),
            blank(0, 18),
        ]
    );
    assert_eq!(parser.build_info.all_star_exports, vec![DependencyId(1)]);
    assert!(exported_names(&parser).is_empty());
}

// export * from "a"; export * from "b";
#[test]
fn second_star_export_holds_the_first() {
    let mut parser = parser();
    parser.walk_program(&vec![export_all(1, 19, "a"), export_all(20, 38, "b")]);
    let stars: Vec<&HarmonyExportImportedSpecifierDependency> = parser
        .dependencies
        .iter()
        .filter_map(|d| match d {
            Dependency::HarmonyExportImportedSpecifier(dep) => Some(dep),
            _ => None,
        })
        .collect();
    assert_eq!(stars.len(), 2);
    assert_eq!(stars[0].other_star_exports, Some(vec![]));
    assert_eq!(stars[1].other_star_exports, Some(vec![DependencyId(1)]));
    assert_eq!(stars[1].name, None);
    assert!(stars[1].export_all);
    assert_eq!(parser.build_info.all_star_exports, vec![DependencyId(1), DependencyId(4)]);
    assert_eq!(parser.dependencies[1], Dependency::HarmonyExportImportedSpecifier(stars[0].clone()));
    assert_eq!(parser.dependencies[4], Dependency::HarmonyExportImportedSpecifier(stars[1].clone()));
}

// export * from "a"; export { x } from "b"; export * from "c"; export * from "d";
#[test]
fn each_star_export_holds_all_earlier_ones_in_order() {
    let mut parser = parser();
    parser.walk_program(&vec![
        export_all(1, 19, "a"),
        export_named(20, 42, vec![named(name("x"), None, 29, 30)], Some(source("b", 38, 41))),
        export_all(43, 61, "c"),
        export_all(62, 80, "d"),
    ]);
    let ids = parser.build_info.all_star_exports.clone();
    assert_eq!(ids.len(), 3);
    for (k, id) in ids.iter().enumerate() {
        match &parser.dependencies[id.0] {
            Dependency::HarmonyExportImportedSpecifier(dep) => {
                assert!(dep.export_all);
                assert_eq!(dep.other_star_exports, Some(ids[..k].to_vec()));
            }
            other => panic!("unexpected record {:?}", other),
        }
    }
}

// export default function named() {}
#[test]
fn named_default_function_is_a_declaration() {
    let mut parser = parser();
    let items = vec![export_default_fn(1, 36, Some(ident("named")), function(16, 36, vec![], 33, false, false))];
    parser.walk_program(&items);
    assert_eq!(
        parser.dependencies,
        vec![
            specifier_dep("default", "named"),
            Dependency::HarmonyExportHeader(HarmonyExportHeaderDependency {
                range: Some(DependencyLocation { start: 15, end: 35 }),
                range_stmt: DependencyLocation { start: 0, end: 35 },
            }),
        ]
    );
    assert_eq!(users_of(&parser, "named"), Some(vec![s("default")]));
    assert!(parser.definitions.contains(&s("named")));
    assert!(exported_names(&parser).is_empty());
}

// export default async function* gen(x) {}
#[test]
fn named_async_generator_default_is_a_declaration_too() {
    let mut parser = parser();
    let params = vec![Param { span: Span::new(37, 38) }];
    let items = vec![export_default_fn(1, 43, Some(ident("gen")), function(16, 43, params, 40, true, true))];
    parser.walk_program(&items);
    assert_eq!(parser.dependencies.len(), 2);
    assert_eq!(parser.dependencies[0], specifier_dep("default", "gen"));
    assert!(matches!(parser.dependencies[1], Dependency::HarmonyExportHeader(_)));
}

// export default class Foo {}
#[test]
fn named_default_class_is_a_declaration() {
    let mut parser = parser();
    parser.walk_program(&vec![export_default_class(1, 28, Some(ident("Foo")), 16)]);
    assert_eq!(
        parser.dependencies,
        vec![
            specifier_dep("default", "Foo"),
            Dependency::HarmonyExportHeader(HarmonyExportHeaderDependency {
                range: Some(DependencyLocation { start: 15, end: 27 }),
                range_stmt: DependencyLocation { start: 0, end: 27 },
            }),
        ]
    );
    assert!(parser.definitions.contains(&s("Foo")));
}

fn declaration_of(parser: &Parser) -> Option<DeclarationId> {
    assert_eq!(parser.dependencies.len(), 1);
    match &parser.dependencies[0] {
        Dependency::HarmonyExportExpression(dep) => dep.declaration.clone(),
        other => panic!("unexpected record {:?}", other),
    }
}

// export default function() {}
#[test]
fn anonymous_default_function_without_parameters() {
    let mut parser = parser();
    parser.walk_program(&vec![export_default_fn(1, 30, None, function(16, 30, vec![], 27, false, false))]);
    assert_eq!(
        parser.dependencies,
        vec![Dependency::HarmonyExportExpression(HarmonyExportExpressionDependency {
            range: DependencyLocation { start: 15, end: 29 },
            range_stmt: DependencyLocation { start: 0, end: 29 },
            declaration: Some(DeclarationId::Func(DeclarationInfo {
                range: DependencyLocation { start: 15, end: 26 },
                prefix: s("function "),
                suffix: s("() "),
            })),
        })]
    );
    assert_eq!(users_of(&parser, "*default*"), Some(vec![s("default")]));
}

// export default function(a, b) {}
#[test]
fn anonymous_default_function_with_parameters() {
    let mut parser = parser();
    let params = vec![Param { span: Span::new(25, 26) }, Param { span: Span::new(28, 29) }];
    parser.walk_program(&vec![export_default_fn(1, 34, None, function(16, 34, params, 31, false, false))]);
    assert_eq!(
        declaration_of(&parser),
        Some(DeclarationId::Func(DeclarationInfo {
            range: DependencyLocation { start: 15, end: 24 },
            prefix: s("function "),
            suffix: s("("),
        }))
    );
}

// export default async function*() {}
#[test]
fn anonymous_default_function_keeps_async_and_generator_marks() {
    for (is_async, is_generator, prefix) in [
        (true, true, "async function* "),
        (true, false, "async function "),
        (false, true, "function* "),
    ] {
        let mut parser = parser();
        parser.walk_program(&vec![export_default_fn(
            1,
            40,
            None,
            function(16, 40, vec![], 37, is_async, is_generator),
        )]);
        match declaration_of(&parser) {
            Some(DeclarationId::Func(info)) => {
                assert_eq!(info.prefix, prefix);
                assert_eq!(info.suffix, "() ");
            }
            other => panic!("unexpected declaration {:?}", other),
        }
    }
}

// An anonymous function without parameters and without a body has no place for a name.
#[test]
fn anonymous_default_function_without_name_slot_is_rejected() {
    let bodiless = |ident: Option<Ident>, params: Vec<Param>| {
        let function = Function { params, span: Span::new(16, 30), body: None, is_generator: false, is_async: false };
        export_default_fn(1, 30, ident, function)
    };
    let mut parser = parser();
    assert_eq!(parser.try_walk_program(&vec![bodiless(None, vec![])]), Err(WalkError::Unsupported(0)));
    assert_eq!(parser.try_walk_program(&vec![bodiless(Some(ident("")), vec![])]), Err(WalkError::Unsupported(0)));
    let synthesized = vec![Param { span: Span::new(0, 0) }];
    assert_eq!(parser.try_walk_program(&vec![bodiless(None, synthesized)]), Err(WalkError::Unsupported(0)));
    assert!(parser.dependencies.is_empty());
    // With a name, or with a parameter to put the name before, the function is taken.
    assert_eq!(parser.try_walk_program(&vec![bodiless(Some(ident("f")), vec![])]), Ok(()));
    let params = vec![Param { span: Span::new(25, 26) }];
    assert_eq!(parser.try_walk_program(&vec![bodiless(None, params)]), Ok(()));
    match &parser.dependencies[2] {
        Dependency::HarmonyExportExpression(dep) => match &dep.declaration {
            Some(DeclarationId::Func(info)) => assert_eq!(info.range, DependencyLocation { start: 15, end: 24 }),
            other => panic!("unexpected declaration {:?}", other),
        },
        other => panic!("unexpected record {:?}", other),
    }
}

// A statement that the parser did not find in the text has no offsets, and is rejected.
#[test]
fn synthesized_statements_are_rejected() {
    let class = |lo: u32, hi: u32| Decl::Class(ClassDecl { ident: ident("C"), class: Class { span: Span::new(lo, hi) } });
    let unlocated = vec![
        export_all(0, 19, "a"),
        ModuleItem::ModuleDecl(ModuleDecl::ExportAll(ExportAll { span: Span::new(1, 0), src: source("a", 0, 0) })),
        export_named(0, 0, vec![named(name("a"), None, 10, 11)], Some(source("m", 19, 22))),
        export_named(0, 5, vec![named(name("a"), None, 10, 11)], None),
        export_default_class(0, 28, Some(ident("Foo")), 16),
        export_default_class(1, 0, None, 0),
        export_decl(0, 18, class(8, 18)),
        export_decl(1, 18, class(0, 18)),
        ModuleItem::ModuleDecl(ModuleDecl::ExportDefaultExpr(ExportDefaultExpr {
            span: Span::new(1, 22),
            expr: Expr { span: Span::new(0, 0), kind: ExprKind::Other },
        })),
    ];
    for item in unlocated {
        assert!(!item.is_admitted(), "{:?}", item);
        let mut parser = parser();
        assert_eq!(parser.try_walk_program(&vec![item]), Err(WalkError::Unsupported(0)));
        assert!(parser.dependencies.is_empty());
    }
    // Where no offset is taken of it, a synthesized span does no harm.
    let mut parser = parser();
    let items = vec![
        ModuleItem::Stmt(Stmt::Other(Span::new(0, 0))),
        export_named(1, 23, vec![named(name("a"), None, 0, 0)], Some(source("m", 0, 0))),
    ];
    assert_eq!(parser.try_walk_program(&items), Ok(()));
    assert_eq!(parser.dependencies[1], linkage("m", 1, Span::new(1, 23), Span::new(0, 0), false));
    match &parser.dependencies[1] {
        Dependency::HarmonyImportSideEffect(dep) => {
            assert_eq!(dep.span, ErrorSpan { start: 0, end: 22 });
            assert_eq!(dep.source_span, ErrorSpan { start: 0, end: 0 });
        }
        other => panic!("unexpected record {:?}", other),
    }
}

// export default class {}
#[test]
fn anonymous_default_class_is_an_expression() {
    let mut parser = parser();
    parser.walk_program(&vec![export_default_class(1, 24, None, 16)]);
    assert_eq!(
        parser.dependencies,
        vec![Dependency::HarmonyExportExpression(HarmonyExportExpressionDependency {
            range: DependencyLocation { start: 15, end: 23 },
            range_stmt: DependencyLocation { start: 0, end: 23 },
            declaration: None,
        })]
    );
    assert_eq!(users_of(&parser, "*default*"), Some(vec![s("default")]));
}

// A class whose name is the empty identifier keeps that name.
#[test]
fn default_class_with_empty_name_is_an_expression() {
    let mut parser = parser();
    parser.walk_program(&vec![export_default_class(1, 24, Some(ident("")), 16)]);
    assert_eq!(declaration_of(&parser), Some(DeclarationId::Id(String::new())));
    assert_eq!(users_of(&parser, ""), Some(vec![s("default")]));
    assert_eq!(users_of(&parser, "*default*"), None);
}

// export default 1 + 2;
#[test]
fn default_expression_is_an_expression() {
    let mut parser = parser();
    parser.walk_program(&vec![ModuleItem::ModuleDecl(ModuleDecl::ExportDefaultExpr(ExportDefaultExpr {
        span: Span::new(1, 22),
        expr: Expr { span: Span::new(16, 21), kind: ExprKind::Other },
    }))]);
    assert_eq!(
        parser.dependencies,
        vec![Dependency::HarmonyExportExpression(HarmonyExportExpressionDependency {
            range: DependencyLocation { start: 15, end: 20 },
            range_stmt: DependencyLocation { start: 0, end: 21 },
            declaration: None,
        })]
    );
    assert_eq!(users_of(&parser, "*default*"), Some(vec![s("default")]));
}

// import { x } from "a"; export { x as y };
#[test]
fn export_of_an_imported_binding_is_a_reexport() {
    let mut parser = parser();
    parser.import_map.insert(
        (s("x"), 0),
        ImportReference::new(s("a"), Specifier::Named(s("x"), None), 1, Some(s("x"))),
    );
    parser.last_harmony_import_order = 1;
    parser.walk_program(&vec![export_named(24, 42, vec![named(name("x"), Some(name("y")), 33, 39)], None)]);
    assert_eq!(
        parser.dependencies,
        vec![
            Dependency::HarmonyExportImportedSpecifier(HarmonyExportImportedSpecifierDependency {
                request: s("a"),
                source_order: 1,
                ids: vec![(s("y"), Some(s("x")))],
                mode_ids: vec![(s("y"), Some(s("x")))],
                name: Some(s("y")),
                export_all: false,
                other_star_exports: None,
                span: ErrorSpan { start: 32, end: 38 },
                export_presence_mode: ExportPresenceMode::Warn,
            }),
            blank(23, 41),
        ]
    );
    assert_eq!(exported_names(&parser), vec![s("y")]);
    assert_eq!(users_of(&parser, "x"), Some(vec![s("y")]));
    assert_eq!(parser.last_harmony_import_order, 1);
}

// import * as ns from "a"; export { ns };
#[test]
fn export_of_an_imported_namespace_tracks_no_member() {
    let mut parser = parser();
    parser.import_map.insert((s("ns"), 0), ImportReference::new(s("a"), Specifier::Namespace(s("ns")), 3, None));
    parser.walk_program(&vec![export_named(26, 40, vec![named(name("ns"), None, 35, 37)], None)]);
    match &parser.dependencies[0] {
        Dependency::HarmonyExportImportedSpecifier(dep) => {
            assert_eq!(dep.request, "a");
            assert_eq!(dep.source_order, 3);
            assert_eq!(dep.ids, vec![(s("ns"), None)]);
            assert!(dep.mode_ids.is_empty());
            assert_eq!(dep.name, Some(s("ns")));
        }
        other => panic!("unexpected record {:?}", other),
    }
}

// import d from "a"; export { d as "the default" };
#[test]
fn export_of_an_imported_default_tracks_it() {
    let mut parser = parser();
    parser.import_map.insert(
        (s("d"), 0),
        ImportReference::new(s("a"), Specifier::Default(s("d")), 2, Some(s("default"))),
    );
    parser.walk_program(&vec![export_named(
        20,
        50,
        vec![named(name("d"), Some(literal("the default")), 29, 47)],
        None,
    )]);
    match &parser.dependencies[0] {
        Dependency::HarmonyExportImportedSpecifier(dep) => {
            assert_eq!(dep.ids, vec![(s("the default"), Some(s("default")))]);
            assert_eq!(dep.mode_ids, dep.ids);
        }
        other => panic!("unexpected record {:?}", other),
    }
}

// A binding of another scope with the same name is no import.
#[test]
fn import_table_tells_scopes_apart() {
    let mut parser = parser();
    parser.import_map.insert(
        (s("x"), 7),
        ImportReference::new(s("a"), Specifier::Named(s("x"), None), 1, Some(s("x"))),
    );
    parser.walk_program(&vec![export_named(1, 14, vec![named(name("x"), None, 10, 11)], None)]);
    assert_eq!(parser.dependencies, vec![specifier_dep("x", "x"), blank(0, 13)]);
}

// const z = 1; export { z };
#[test]
fn export_of_a_local_binding_is_a_specifier() {
    let mut parser = parser();
    parser.walk_program(&vec![
        ModuleItem::Stmt(Stmt::Decl(var_decl(1, 13, VarDeclKind::Const, &[&["z"]]))),
        export_named(14, 27, vec![named(name("z"), None, 23, 24)], None),
    ]);
    assert_eq!(parser.dependencies, vec![specifier_dep("z", "z"), blank(13, 26)]);
    assert_eq!(exported_names(&parser), vec![s("z")]);
    assert_eq!(users_of(&parser, "z"), Some(vec![s("z")]));
    assert!(parser.definitions.contains(&s("z")));
}

// export { a as b, "c" as d }; only an identifier can name a binding of the module itself.
#[test]
fn local_export_of_a_string_named_binding_is_rejected() {
    let mut parser = parser();
    let items = vec![export_named(
        1,
        29,
        vec![named(name("a"), Some(name("b")), 10, 16), named(literal("c"), Some(name("d")), 18, 26)],
        None,
    )];
    assert!(!items[0].is_admitted());
    assert_eq!(parser.try_walk_program(&items), Err(WalkError::Unsupported(0)));
    assert!(parser.dependencies.is_empty());
    assert!(exported_names(&parser).is_empty());
    // The alias may be a string literal.
    let items = vec![export_named(1, 29, vec![named(name("a"), Some(literal("b c")), 10, 16)], None)];
    assert_eq!(parser.try_walk_program(&items), Ok(()));
    assert_eq!(parser.dependencies, vec![specifier_dep("b c", "a"), blank(0, 28)]);
    assert_eq!(exported_names(&parser), vec![s("b c")]);
    assert_eq!(users_of(&parser, "a"), Some(vec![s("b c")]));
}

// export class C {} export function f() {}
#[test]
fn exported_declarations_register_their_names_once() {
    let mut parser = parser();
    let items = vec![
        export_decl(1, 18, Decl::Class(ClassDecl { ident: ident("C"), class: Class { span: Span::new(8, 18) } })),
        export_decl(19, 41, Decl::Fn(FnDecl { ident: ident("f"), span: Span::new(26, 41) })),
    ];
    parser.walk_program(&items);
    assert_eq!(
        parser.dependencies,
        vec![
            specifier_dep("C", "C"),
            Dependency::HarmonyExportHeader(HarmonyExportHeaderDependency {
                range: Some(DependencyLocation { start: 7, end: 17 }),
                range_stmt: DependencyLocation { start: 0, end: 17 },
            }),
            specifier_dep("f", "f"),
            Dependency::HarmonyExportHeader(HarmonyExportHeaderDependency {
                range: Some(DependencyLocation { start: 25, end: 40 }),
                range_stmt: DependencyLocation { start: 18, end: 40 },
            }),
        ]
    );
    assert_eq!(exported_names(&parser), vec![s("C"), s("f")]);
    assert_eq!(parser.build_info.harmony_named_exports.len(), 2);
    parser.walk_module_declarations(&items);
    assert_eq!(exported_names(&parser), vec![s("C"), s("f")]);
    assert_eq!(parser.build_info.harmony_named_exports.len(), 2);
    assert_eq!(parser.definitions.to_vec(), vec![s("C"), s("f")]);
    assert_eq!(users_of(&parser, "C"), Some(vec![s("C")]));
}

// export const x = 1, { a, b: [c, , ...d], e = 2, ...f } = o;
#[test]
fn exported_variables_are_exported_in_source_order() {
    let mut parser = parser();
    let items = vec![export_decl(
        1,
        60,
        var_decl(8, 60, VarDeclKind::Const, &[&["x"], &["a", "c", "d", "e", "f"], &[]]),
    )];
    parser.walk_program(&items);
    let names = ["x", "a", "c", "d", "e", "f"];
    let mut expected: Vec<Dependency> = names.iter().map(|n| specifier_dep(n, n)).collect();
    expected.push(Dependency::HarmonyExportHeader(HarmonyExportHeaderDependency {
        range: Some(DependencyLocation { start: 7, end: 59 }),
        range_stmt: DependencyLocation { start: 0, end: 59 },
    }));
    assert_eq!(parser.dependencies, expected);
    assert_eq!(exported_names(&parser), names.map(s).to_vec());
    assert_eq!(parser.definitions.to_vec(), names.map(s).to_vec());
}

// export using r = open();
#[test]
fn exported_using_declaration_exports_no_name() {
    let mut parser = parser();
    parser.walk_program(&vec![export_decl(1, 25, Decl::Using(Span::new(8, 25)))]);
    assert_eq!(
        parser.dependencies,
        vec![Dependency::HarmonyExportHeader(HarmonyExportHeaderDependency {
            range: Some(DependencyLocation { start: 7, end: 24 }),
            range_stmt: DependencyLocation { start: 0, end: 24 },
        })]
    );
    assert!(exported_names(&parser).is_empty());
}

// Re-exports take the source orders one after the other, whatever stands between them.
#[test]
fn source_orders_follow_the_statements() {
    let mut parser = parser();
    parser.walk_program(&vec![
        export_named(1, 23, vec![named(name("a"), None, 10, 11)], Some(source("one", 17, 22))),
        ModuleItem::Stmt(Stmt::Other(Span::new(24, 30))),
        export_all(31, 51, "two"),
        export_decl(52, 70, Decl::Fn(FnDecl { ident: ident("f"), span: Span::new(59, 70) })),
        export_named(71, 99, vec![namespace(name("ns"))], Some(source("three", 91, 98))),
    ]);
    let linked: Vec<(String, i32)> = parser
        .dependencies
        .iter()
        .filter_map(|d| match d {
            Dependency::HarmonyImportSideEffect(dep) => Some((dep.request.clone(), dep.source_order)),
            _ => None,
        })
        .collect();
    assert_eq!(linked, vec![(s("one"), 1), (s("two"), 2), (s("three"), 3)]);
    let exported: Vec<(String, i32)> = parser
        .dependencies
        .iter()
        .filter_map(|d| match d {
            Dependency::HarmonyExportImportedSpecifier(dep) => Some((dep.request.clone(), dep.source_order)),
            _ => None,
        })
        .collect();
    assert_eq!(exported, vec![(s("one"), 1), (s("two"), 2), (s("three"), 3)]);
    assert_eq!(parser.last_harmony_import_order, 3);
}

// Re-exports are recorded in the first pass, before any local export.
#[test]
fn reexports_come_before_local_exports() {
    let mut parser = parser();
    parser.walk_program(&vec![
        export_decl(1, 18, Decl::Class(ClassDecl { ident: ident("C"), class: Class { span: Span::new(8, 18) } })),
        export_all(19, 37, "a"),
    ]);
    assert!(matches!(parser.dependencies[0], Dependency::HarmonyImportSideEffect(_)));
    assert_eq!(parser.dependencies[3], specifier_dep("C", "C"));
    assert_eq!(parser.dependencies.len(), 5);
}

// The statement path is empty between statements, and the statement left last is kept.
#[test]
fn statement_path_is_restored() {
    let mut parser = parser();
    parser.walk_program(&vec![export_all(1, 19, "a"), export_default_class(20, 47, Some(ident("Foo")), 35)]);
    assert!(parser.statement_path.is_empty());
    assert_eq!(parser.prev_statement, Some(Span::new(20, 47)));
    let mut parser = self::parser();
    parser.block_pre_walk_module_declarations(&vec![export_default_class(20, 47, Some(ident("Foo")), 35)]);
    assert_eq!(parser.prev_statement, Some(Span::new(20, 47)));
    assert_eq!(parser.definitions.to_vec(), vec![s("Foo")]);
}

// A block-scoped declaration defines its names in the first pass; a `var` is hoisted elsewhere.
#[test]
fn first_pass_defines_block_scoped_names() {
    let mut parser = parser();
    parser.block_pre_walk_statements(&vec![
        Stmt::Decl(var_decl(1, 10, VarDeclKind::Let, &[&["a"]])),
        Stmt::Decl(var_decl(11, 20, VarDeclKind::Var, &[&["b"]])),
        Stmt::Decl(Decl::Class(ClassDecl { ident: ident("C"), class: Class { span: Span::new(21, 30) } })),
        Stmt::Decl(Decl::Fn(FnDecl { ident: ident("f"), span: Span::new(31, 40) })),
    ]);
    assert_eq!(parser.definitions.to_vec(), vec![s("a"), s("C")]);
    parser.pre_walk_statement(&Stmt::Decl(var_decl(11, 20, VarDeclKind::Var, &[&["b"]])));
    parser.pre_walk_statement(&Stmt::Decl(Decl::Fn(FnDecl { ident: ident("f"), span: Span::new(31, 40) })));
    parser.pre_walk_statement(&Stmt::Decl(var_decl(1, 10, VarDeclKind::Let, &[&["z"]])));
    assert_eq!(parser.definitions.to_vec(), vec![s("a"), s("C"), s("b"), s("f")]);
    assert!(parser.dependencies.is_empty());
}

// The first plugin that claims a form decides; a chain without plugins records nothing.
#[test]
fn chain_stops_at_the_first_claim() {
    let items = vec![export_all(1, 19, "a"), export_named(20, 33, vec![named(name("z"), None, 29, 30)], None)];
    let mut one = parser_with(1, ExportPresenceMode::Ignore);
    one.walk_program(&items);
    let mut three = parser_with(3, ExportPresenceMode::Ignore);
    three.walk_program(&items);
    assert_eq!(one.dependencies, three.dependencies);
    assert_eq!(three.last_harmony_import_order, 1);
    let mut none = parser_with(0, ExportPresenceMode::Ignore);
    none.walk_program(&items);
    assert!(none.dependencies.is_empty());
    assert_eq!(none.last_harmony_import_order, 0);
    assert_eq!(none.prev_statement, Some(Span::new(20, 33)));
}

// A named export with a source is left to the first pass by the hook for local exports.
#[test]
fn plugin_claims_by_form() {
    let plugin = HarmonyExportDependencyParserPlugin;
    let mut parser = parser();
    let sourced = named_export(1, 23, vec![named(name("a"), None, 10, 11)], Some(source("m", 19, 22)));
    assert_eq!(plugin.named_export(&mut parser, &sourced), None);
    assert!(parser.dependencies.is_empty());
    assert_eq!(plugin.named_export_import(&mut parser, &sourced, "m"), Some(true));
    assert_eq!(parser.dependencies.len(), 3);
    let local = named_export(1, 14, vec![named(name("a"), None, 10, 11)], None);
    assert_eq!(plugin.named_export(&mut parser, &local), Some(true));
    assert_eq!(plugin.pre_block_statement(&mut parser, &Stmt::Other(Span::new(1, 2))), None);
    assert_eq!(parser.dependencies.len(), 5);
}

// The policy of the configuration is attached to every re-export.
#[test]
fn presence_mode_comes_from_the_configuration() {
    for mode in [
        ExportPresenceMode::Ignore,
        ExportPresenceMode::Warn,
        ExportPresenceMode::Auto,
        ExportPresenceMode::Error,
    ] {
        let options = JavascriptParserOptions { reexport_exports_presence: mode };
        assert_eq!(HarmonyExportImportedSpecifierDependency::create_export_presence_mode(&options), mode);
        let mut parser = parser_with(1, mode);
        parser.walk_program(&vec![export_all(1, 19, "a")]);
        match &parser.dependencies[1] {
            Dependency::HarmonyExportImportedSpecifier(dep) => assert_eq!(dep.export_presence_mode, mode),
            other => panic!("unexpected record {:?}", other),
        }
    }
}

// export v from "m" is no module syntax, and is rejected before anything is recorded.
#[test]
fn default_specifier_in_a_reexport_is_rejected() {
    let mut parser = parser();
    let items = vec![
        export_all(1, 19, "a"),
        export_named(
            20,
            40,
            vec![ExportSpecifier::Default(ExportDefaultSpecifier { exported: ident("v") })],
            Some(source("m", 36, 39)),
        ),
    ];
    assert_eq!(parser.check_program(&items), Err(WalkError::Unsupported(1)));
    assert_eq!(parser.try_walk_program(&items), Err(WalkError::Unsupported(1)));
    assert!(parser.dependencies.is_empty());
    assert_eq!(parser.last_harmony_import_order, 0);
}

#[test]
fn namespace_specifier_without_a_source_is_rejected() {
    let mut parser = parser();
    let items = vec![export_named(1, 20, vec![namespace(name("ns"))], None)];
    assert_eq!(parser.try_walk_program(&items), Err(WalkError::Unsupported(0)));
}

#[test]
fn type_only_forms_are_rejected() {
    let unsupported = vec![
        ModuleItem::ModuleDecl(ModuleDecl::TsImportEquals(Span::new(1, 2))),
        ModuleItem::ModuleDecl(ModuleDecl::TsExportAssignment(Span::new(1, 2))),
        ModuleItem::ModuleDecl(ModuleDecl::TsNamespaceExport(Span::new(1, 2))),
        ModuleItem::ModuleDecl(ModuleDecl::ExportDefaultDecl(ExportDefaultDecl {
            span: Span::new(1, 9),
            decl: DefaultDecl::TsInterfaceDecl(Span::new(3, 9)),
        })),
        ModuleItem::Stmt(Stmt::Decl(Decl::TsInterface(Span::new(1, 2)))),
        ModuleItem::Stmt(Stmt::Decl(Decl::TsTypeAlias(Span::new(1, 2)))),
        ModuleItem::Stmt(Stmt::Decl(Decl::TsEnum(Span::new(1, 2)))),
        ModuleItem::Stmt(Stmt::Decl(Decl::TsModule(Span::new(1, 2)))),
    ];
    for item in unsupported {
        assert!(!item.is_admitted());
        let mut parser = parser();
        let items = vec![ModuleItem::Stmt(Stmt::Other(Span::new(1, 2))), item];
        assert_eq!(parser.try_walk_program(&items), Err(WalkError::Unsupported(1)));
        assert_eq!(parser.prev_statement, None);
    }
    // A type-only declaration behind `export` exports nothing and is let through.
    let mut parser = parser();
    let items = vec![export_decl(1, 20, Decl::TsEnum(Span::new(8, 20)))];
    assert_eq!(parser.try_walk_program(&items), Ok(()));
    assert_eq!(parser.dependencies.len(), 1);
}

#[test]
fn source_orders_run_out() {
    let items = vec![export_all(1, 19, "a"), export_all(20, 38, "b")];
    let mut parser = parser();
    parser.last_harmony_import_order = i32::MAX - 1;
    assert_eq!(parser.try_walk_program(&items), Err(WalkError::SourceOrderExhausted));
    assert!(parser.dependencies.is_empty());
    parser.last_harmony_import_order = i32::MAX - 2;
    assert_eq!(parser.try_walk_program(&items), Ok(()));
    assert_eq!(parser.last_harmony_import_order, i32::MAX);
    let mut parser = self::parser();
    parser.last_harmony_import_order = i32::MIN;
    assert_eq!(parser.try_walk_program(&items), Ok(()));
    assert_eq!(parser.last_harmony_import_order, i32::MIN + 2);
}

// Blanking the recorded range removes the whole statement from the text.
#[test]
fn blanked_reexport_leaves_no_export_keyword() {
    let texts = ["export * from \"a\";", "export { x as y } from \"b\";", "export * as ns from \"c\";"];
    let text = texts.join("\n");
    let mut items = Vec::new();
    let mut at = 1u32;
    for (index, one) in texts.iter().enumerate() {
        let end = at + one.len() as u32;
        let src = source("m", end - 4, end - 1);
        items.push(match index {
            0 => export_all(at, end, "a"),
            1 => export_named(at, end, vec![named(name("x"), Some(name("y")), at + 9, at + 15)], Some(src)),
            _ => export_named(at, end, vec![namespace(name("ns"))], Some(src)),
        });
        at = end + 1;
    }
    let mut parser = parser();
    parser.walk_program(&items);
    let mut blanked = text.clone();
    let mut ranges: Vec<(usize, usize, String)> = parser
        .dependencies
        .iter()
        .filter_map(|d| match d {
            Dependency::Const(dep) => Some((dep.start as usize, dep.end as usize, dep.content.clone())),
            _ => None,
        })
        .collect();
    assert_eq!(ranges.len(), 3);
    ranges.sort();
    for (start, end, content) in ranges.into_iter().rev() {
        blanked.replace_range(start..end, &content);
    }
    assert_eq!(blanked, "\n\n");
    assert!(!blanked.contains("export"));
}
