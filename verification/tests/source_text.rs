use std::rc::Rc;

use harmony_export::ast;
use harmony_export::bindings::declared_ids;
use harmony_export::dependency::{
    DeclarationId, Dependency, DependencyId, ExportPresenceMode, HarmonyExportImportedSpecifierDependency,
};
use harmony_export::import_map::ImportReference;
use harmony_export::parser::{JavascriptParser, JavascriptParserOptions};
use harmony_export::parser_plugin::{HarmonyExportDependencyParserPlugin, JavaScriptParserPluginDrive};
use harmony_export::span::{ErrorSpan, Span};
use harmony_export::walk::WalkError;
use swc_core::common::sync::Lrc;
use swc_core::common::{FileName, SourceMap, Spanned};
use swc_core::ecma::ast as swc;
use swc_core::ecma::parser::{parse_file_as_module, EsSyntax, Syntax};
use swc_core::ecma::utils::{find_pat_ids, ExprFactory};

fn span(span: swc_core::common::Span) -> Span {
    Span::new(span.lo.0, span.hi.0)
}

fn ident(ident: &swc::Ident) -> ast::Ident {
    ast::Ident { span: span(ident.span), ctxt: ident.ctxt.as_u32(), sym: ident.sym.to_string() }
}

fn str_lit(lit: &swc::Str) -> ast::Str {
    ast::Str { span: span(lit.span), value: lit.value.to_string_lossy().into_owned() }
}

fn module_export_name(name: &swc::ModuleExportName) -> ast::ModuleExportName {
    match name {
        swc::ModuleExportName::Ident(i) => ast::ModuleExportName::Ident(ident(i)),
        swc::ModuleExportName::Str(s) => ast::ModuleExportName::Str(str_lit(s)),
        #[allow(unreachable_patterns)]
        _ => ast::ModuleExportName::Str(ast::Str { span: span(name.span()), value: String::new() }),
    }
}

fn export_specifier(specifier: &swc::ExportSpecifier) -> ast::ExportSpecifier {
    match specifier {
        swc::ExportSpecifier::Namespace(n) => ast::ExportSpecifier::Namespace(ast::ExportNamespaceSpecifier {
            span: span(n.span),
            name: module_export_name(&n.name),
        }),
        swc::ExportSpecifier::Named(n) => ast::ExportSpecifier::Named(ast::ExportNamedSpecifier {
            span: span(n.span),
            orig: module_export_name(&n.orig),
            exported: n.exported.as_ref().map(module_export_name),
        }),
        swc::ExportSpecifier::Default(d) => {
            ast::ExportSpecifier::Default(ast::ExportDefaultSpecifier { exported: ident(&d.exported) })
        }
        #[allow(unreachable_patterns)]
        _ => ast::ExportSpecifier::Default(ast::ExportDefaultSpecifier {
            exported: ast::Ident { span: span(specifier.span()), ctxt: 0, sym: String::new() },
        }),
    }
}

fn named_export(export: &swc::NamedExport) -> ast::NamedExport {
    ast::NamedExport {
        span: span(export.span),
        specifiers: export.specifiers.iter().map(export_specifier).collect(),
        src: export.src.as_deref().map(str_lit),
    }
}

fn export_all(export: &swc::ExportAll) -> ast::ExportAll {
    ast::ExportAll { span: span(export.span), src: str_lit(&export.src) }
}

fn function(function: &swc::Function) -> ast::Function {
    ast::Function {
        params: function.params.iter().map(|p| ast::Param { span: span(p.span()) }).collect(),
        span: span(function.span),
        body: function.body.as_ref().map(|b| ast::BlockStmt { span: span(b.span) }),
        is_generator: function.is_generator,
        is_async: function.is_async,
    }
}

fn default_decl(decl: &swc::DefaultDecl) -> ast::DefaultDecl {
    match decl {
        swc::DefaultDecl::Class(c) => ast::DefaultDecl::Class(ast::ClassExpr {
            ident: c.ident.as_ref().map(ident),
            class: ast::Class { span: span(c.class.span) },
        }),
        swc::DefaultDecl::Fn(f) => ast::DefaultDecl::Fn(ast::FnExpr {
            ident: f.ident.as_ref().map(ident),
            function: function(&f.function),
        }),
        other => ast::DefaultDecl::TsInterfaceDecl(span(other.span())),
    }
}

fn expr(expr: &swc::Expr) -> ast::Expr {
    let kind = match expr {
        swc::Expr::Assign(_) => ast::ExprKind::Assign,
        swc::Expr::Class(_) => ast::ExprKind::Class,
        swc::Expr::Fn(_) => ast::ExprKind::Fn,
        _ => ast::ExprKind::Other,
    };
    ast::Expr { span: span(expr.span()), kind }
}

fn var_declarator(declarator: &swc::VarDeclarator) -> ast::VarDeclarator {
    ast::VarDeclarator {
        span: span(declarator.span),
        ids: find_pat_ids::<_, swc::Ident>(&declarator.name).iter().map(ident).collect(),
    }
}

fn var_decl(decl: &swc::VarDecl) -> ast::VarDecl {
    ast::VarDecl {
        span: span(decl.span),
        kind: match decl.kind {
            swc::VarDeclKind::Var => ast::VarDeclKind::Var,
            swc::VarDeclKind::Let => ast::VarDeclKind::Let,
            swc::VarDeclKind::Const => ast::VarDeclKind::Const,
        },
        decls: decl.decls.iter().map(var_declarator).collect(),
    }
}

fn decl(decl: &swc::Decl) -> ast::Decl {
    match decl {
        swc::Decl::Class(c) => ast::Decl::Class(ast::ClassDecl {
            ident: ident(&c.ident),
            class: ast::Class { span: span(c.class.span) },
        }),
        swc::Decl::Fn(f) => ast::Decl::Fn(ast::FnDecl { ident: ident(&f.ident), span: span(f.function.span) }),
        swc::Decl::Var(v) => ast::Decl::Var(var_decl(v)),
        swc::Decl::Using(u) => ast::Decl::Using(span(u.span)),
        swc::Decl::TsInterface(d) => ast::Decl::TsInterface(span(d.span)),
        swc::Decl::TsTypeAlias(d) => ast::Decl::TsTypeAlias(span(d.span)),
        swc::Decl::TsEnum(d) => ast::Decl::TsEnum(span(d.span)),
        swc::Decl::TsModule(d) => ast::Decl::TsModule(span(d.span)),
        #[allow(unreachable_patterns)]
        other => ast::Decl::TsModule(span(other.span())),
    }
}

fn import_specifier(specifier: &swc::ImportSpecifier) -> ast::ImportSpecifier {
    match specifier {
        swc::ImportSpecifier::Named(n) => ast::ImportSpecifier::Named(ast::ImportNamedSpecifier {
            span: span(n.span),
            local: ident(&n.local),
            imported: n.imported.as_ref().map(module_export_name),
        }),
        swc::ImportSpecifier::Default(d) => ast::ImportSpecifier::Default(ident(&d.local)),
        swc::ImportSpecifier::Namespace(n) => ast::ImportSpecifier::Namespace(ident(&n.local)),
        #[allow(unreachable_patterns)]
        other => ast::ImportSpecifier::Namespace(ast::Ident {
            span: span(other.span()),
            ctxt: 0,
            sym: String::new(),
        }),
    }
}

fn import_decl(import: &swc::ImportDecl) -> ast::ImportDecl {
    ast::ImportDecl {
        span: span(import.span),
        specifiers: import.specifiers.iter().map(import_specifier).collect(),
        src: str_lit(&import.src),
    }
}

fn module_decl(decl_: &swc::ModuleDecl) -> ast::ModuleDecl {
    match decl_ {
        swc::ModuleDecl::Import(d) => ast::ModuleDecl::Import(import_decl(d)),
        swc::ModuleDecl::ExportDecl(d) => {
            ast::ModuleDecl::ExportDecl(ast::ExportDecl { span: span(d.span), decl: decl(&d.decl) })
        }
        swc::ModuleDecl::ExportNamed(d) => ast::ModuleDecl::ExportNamed(named_export(d)),
        swc::ModuleDecl::ExportDefaultDecl(d) => ast::ModuleDecl::ExportDefaultDecl(ast::ExportDefaultDecl {
            span: span(d.span),
            decl: default_decl(&d.decl),
        }),
        swc::ModuleDecl::ExportDefaultExpr(d) => ast::ModuleDecl::ExportDefaultExpr(ast::ExportDefaultExpr {
            span: span(d.span),
            expr: expr(&d.expr),
        }),
        swc::ModuleDecl::ExportAll(d) => ast::ModuleDecl::ExportAll(export_all(d)),
        swc::ModuleDecl::TsImportEquals(d) => ast::ModuleDecl::TsImportEquals(span(d.span)),
        swc::ModuleDecl::TsExportAssignment(d) => ast::ModuleDecl::TsExportAssignment(span(d.span)),
        swc::ModuleDecl::TsNamespaceExport(d) => ast::ModuleDecl::TsNamespaceExport(span(d.span)),
        #[allow(unreachable_patterns)]
        other => ast::ModuleDecl::TsNamespaceExport(span(other.span())),
    }
}

fn stmt(stmt: &swc::Stmt) -> ast::Stmt {
    match stmt {
        swc::Stmt::Decl(d) => ast::Stmt::Decl(decl(d)),
        swc::Stmt::Expr(e) => ast::Stmt::Expr(ast::ExprStmt { span: span(e.span), expr: expr(&e.expr) }),
        other => ast::Stmt::Other(span(other.span())),
    }
}

fn module_item(item: &swc::ModuleItem) -> ast::ModuleItem {
    match item {
        swc::ModuleItem::ModuleDecl(d) => ast::ModuleItem::ModuleDecl(module_decl(d)),
        swc::ModuleItem::Stmt(s) => ast::ModuleItem::Stmt(stmt(s)),
        #[allow(unreachable_patterns)]
        other => ast::ModuleItem::Stmt(ast::Stmt::Other(span(other.span()))),
    }
}

fn module_items(items: &[swc::ModuleItem]) -> Vec<ast::ModuleItem> {
    items.iter().map(module_item).collect()
}

type Parser = JavascriptParser<HarmonyExportDependencyParserPlugin>;

fn parse(text: &str) -> swc::Module {
    let source_map: Lrc<SourceMap> = Default::default();
    let file = source_map.new_source_file(Lrc::new(FileName::Custom("module.js".to_string())), text.to_string());
    let mut recovered = Vec::new();
    let syntax = Syntax::Es(EsSyntax { explicit_resource_management: true, ..Default::default() });
    let module = parse_file_as_module(&file, syntax, Default::default(), None, &mut recovered);
    match module {
        Ok(module) => module,
        Err(error) => panic!("{} does not parse: {:?}", text, error),
    }
}

fn new_parser() -> Parser {
    JavascriptParser::new(
        JavascriptParserOptions { reexport_exports_presence: ExportPresenceMode::Warn },
        Rc::new(JavaScriptParserPluginDrive::new(vec![HarmonyExportDependencyParserPlugin])),
    )
}

fn walk(text: &str) -> Parser {
    let items = module_items(&parse(text).body);
    let mut parser = new_parser();
    assert_eq!(parser.try_walk_program(&items), Ok(()));
    parser
}

fn text_of(text: &str, start: u32, end: u32) -> &str {
    &text[start as usize..end as usize]
}

fn reexports(parser: &Parser) -> Vec<&HarmonyExportImportedSpecifierDependency> {
    parser
        .dependencies
        .iter()
        .filter_map(|d| match d {
            Dependency::HarmonyExportImportedSpecifier(dep) => Some(dep),
            _ => None,
        })
        .collect()
}

fn after_blanking(text: &str, parser: &Parser) -> String {
    let mut ranges: Vec<(usize, usize, String)> = parser
        .dependencies
        .iter()
        .filter_map(|d| match d {
            Dependency::Const(dep) => Some((dep.start as usize, dep.end as usize, dep.content.clone())),
            _ => None,
        })
        .collect();
    ranges.sort();
    let mut blanked = text.to_string();
    for (start, end, content) in ranges.into_iter().rev() {
        blanked.replace_range(start..end, &content);
    }
    blanked
}

#[test]
fn parsed_namespace_reexport() {
    let text = "export * as ns from \"m\";";
    let parser = walk(text);
    let found = reexports(&parser);
    assert_eq!(found.len(), 1);
    assert_eq!(found[0].name, Some("ns".to_string()));
    assert_eq!(found[0].ids, vec![("ns".to_string(), None)]);
    assert!(found[0].mode_ids.is_empty());
    assert_eq!(found[0].request, "m");
    assert!(parser.build_info.harmony_named_exports.contains(&"ns".to_string()));
    assert_eq!(parser.build_info.harmony_named_exports.len(), 1);
}

// Names that are no identifiers are written as string literals, and are re-exported like any other.
#[test]
fn parsed_reexports_with_string_names() {
    let text = "export { \"a-b\" as c, d as \"e f\", \"g h\" } from \"m\";\nexport * as \"n s\" from \"m\";\n";
    let parser = walk(text);
    let found: Vec<(Option<String>, Vec<(String, Option<String>)>, i32)> =
        reexports(&parser).iter().map(|dep| (dep.name.clone(), dep.ids.clone(), dep.source_order)).collect();
    let pair = |exposed: &str, orig: Option<&str>| (exposed.to_string(), orig.map(String::from));
    assert_eq!(
        found,
        vec![
            (Some("c".to_string()), vec![pair("c", Some("a-b"))], 1),
            (Some("e f".to_string()), vec![pair("e f", Some("d"))], 1),
            (Some("g h".to_string()), vec![pair("g h", Some("g h"))], 1),
            (Some("n s".to_string()), vec![pair("n s", None)], 2),
        ]
    );
    assert_eq!(
        parser.build_info.harmony_named_exports.to_vec(),
        ["c", "e f", "g h", "n s"].map(String::from).to_vec()
    );
    assert_eq!(after_blanking(text, &parser), "\n\n");
}

#[test]
fn parsed_star_reexports() {
    let parser = walk("export * from \"a\";\nexport * from \"b\";\n");
    let found = reexports(&parser);
    assert_eq!(found.len(), 2);
    assert_eq!(found[0].other_star_exports, Some(vec![]));
    assert_eq!(found[1].other_star_exports, Some(vec![DependencyId(1)]));
    assert!(found.iter().all(|dep| dep.export_all && dep.name.is_none()));
    assert_eq!(found[0].source_order, 1);
    assert_eq!(found[1].source_order, 2);
}

#[test]
fn parsed_default_functions() {
    let text = "export default function named() {}";
    let parser = walk(text);
    match &parser.dependencies[..] {
        [Dependency::HarmonyExportSpecifier(dep), Dependency::HarmonyExportHeader(header)] => {
            assert_eq!((dep.name.as_str(), dep.value.as_str()), ("default", "named"));
            let kept = header.range.expect("the declaration stays");
            assert_eq!(text_of(text, kept.start, kept.end), "function named() {}");
            assert_eq!(text_of(text, header.range_stmt.start, header.range_stmt.end), text);
        }
        other => panic!("unexpected records {:?}", other),
    }
    let parser = walk("export default async function* gen(x) {}");
    assert!(matches!(
        &parser.dependencies[..],
        [Dependency::HarmonyExportSpecifier(_), Dependency::HarmonyExportHeader(_)]
    ));
}

#[test]
fn parsed_default_classes_and_expressions() {
    let text = "export default class Foo {}";
    let parser = walk(text);
    match &parser.dependencies[..] {
        [Dependency::HarmonyExportSpecifier(dep), Dependency::HarmonyExportHeader(header)] => {
            assert_eq!((dep.name.as_str(), dep.value.as_str()), ("default", "Foo"));
            let kept = header.range.expect("the declaration stays");
            assert_eq!(text_of(text, kept.start, kept.end), "class Foo {}");
            assert_eq!(text_of(text, header.range_stmt.start, header.range_stmt.end), text);
        }
        other => panic!("unexpected records {:?}", other),
    }
    assert!(parser.definitions.contains(&"Foo".to_string()));
    for (text, inner) in [
        ("export default class {}", "class {}"),
        ("export default 1 + 2;", "1 + 2"),
        ("export default (function named() {});", "(function named() {})"),
        ("export default a = b;", "a = b"),
    ] {
        let parser = walk(text);
        match &parser.dependencies[..] {
            [Dependency::HarmonyExportExpression(dep)] => {
                assert_eq!(dep.declaration, None, "{}", text);
                assert_eq!(text_of(text, dep.range.start, dep.range.end), inner);
                assert_eq!(text_of(text, dep.range_stmt.start, dep.range_stmt.end), text);
            }
            other => panic!("unexpected records {:?}", other),
        }
        assert_eq!(parser.definitions.len(), 0);
    }
}

fn func_of(text: &str) -> (String, String, String) {
    let parser = walk(text);
    match &parser.dependencies[..] {
        [Dependency::HarmonyExportExpression(dep)] => match &dep.declaration {
            Some(DeclarationId::Func(info)) => (
                text_of(text, info.range.start, info.range.end).to_string(),
                info.prefix.clone(),
                info.suffix.clone(),
            ),
            other => panic!("unexpected declaration {:?}", other),
        },
        other => panic!("unexpected records {:?}", other),
    }
}

// Putting a name between prefix and suffix in place of the range gives a named function.
#[test]
fn parsed_anonymous_default_functions() {
    let cases = [
        ("export default function() {}", "function() ", "function ", "() "),
        ("export default function(a, b) {}", "function(", "function ", "("),
        ("export default async function() { await 1; }", "async function() ", "async function ", "() "),
        ("export default function*(x) { yield x; }", "function*(", "function* ", "("),
        ("export default async function *() {}", "async function *() ", "async function* ", "() "),
    ];
    for (text, replaced, prefix, suffix) in cases {
        assert_eq!(func_of(text), (replaced.to_string(), prefix.to_string(), suffix.to_string()), "{}", text);
    }
    let text = "export default function(a) { return a; }";
    let (replaced, prefix, suffix) = func_of(text);
    let rewritten = text["export default ".len()..].replacen(&replaced, &format!("{}f{}", prefix, suffix), 1);
    assert_eq!(rewritten, "function f(a) { return a; }");
    let module = parse(&rewritten);
    assert!(matches!(&module.body[..], [swc::ModuleItem::Stmt(swc::Stmt::Decl(swc::Decl::Fn(_)))]));
}

#[test]
fn parsed_export_of_import() {
    let text = "import { x } from \"a\";\nexport { x as y };\n";
    let module = parse(text);
    let items = module_items(&module.body);
    let mut parser = new_parser();
    // What the import plugin, which is none of this library, records for `x`.
    let local = match &items[0] {
        ast::ModuleItem::ModuleDecl(ast::ModuleDecl::Import(import)) => match &import.specifiers[0] {
            ast::ImportSpecifier::Named(named) => named.local.to_id(),
            other => panic!("unexpected specifier {:?}", other),
        },
        other => panic!("unexpected entry {:?}", other),
    };
    parser.import_map.insert(
        local,
        ImportReference::new(
            "a".to_string(),
            harmony_export::dependency::Specifier::Named("x".to_string(), None),
            1,
            Some("x".to_string()),
        ),
    );
    parser.last_harmony_import_order = 1;
    assert_eq!(parser.try_walk_program(&items), Ok(()));
    let found = reexports(&parser);
    assert_eq!(found.len(), 1);
    assert_eq!(found[0].request, "a");
    assert_eq!(found[0].ids, vec![("y".to_string(), Some("x".to_string()))]);
    assert_eq!(found[0].name, Some("y".to_string()));
    assert_eq!(text_of(text, found[0].span.start, found[0].span.end), "x as y");
    assert_eq!(after_blanking(text, &parser), "import { x } from \"a\";\n\n");
}

#[test]
fn parsed_export_of_local() {
    let text = "const z = 1; export { z };";
    let parser = walk(text);
    match &parser.dependencies[..] {
        [Dependency::HarmonyExportSpecifier(dep), Dependency::Const(_)] => {
            assert_eq!((dep.name.as_str(), dep.value.as_str()), ("z", "z"));
        }
        other => panic!("unexpected records {:?}", other),
    }
    assert_eq!(after_blanking(text, &parser), "const z = 1; ");
}

#[test]
fn parsed_exported_declarations() {
    let text = "export class C {}\nexport function f() {}\nexport let { a, b: [c, ...d] } = o, e;\n";
    let parser = walk(text);
    let names = ["C", "f", "a", "c", "d", "e"].map(String::from).to_vec();
    assert_eq!(parser.build_info.harmony_named_exports.to_vec(), names);
    assert_eq!(parser.definitions.to_vec(), names);
    let kept: Vec<&str> = parser
        .dependencies
        .iter()
        .filter_map(|d| match d {
            Dependency::HarmonyExportHeader(header) => header.range.map(|r| text_of(text, r.start, r.end)),
            _ => None,
        })
        .collect();
    assert_eq!(kept, vec!["class C {}", "function f() {}", "let { a, b: [c, ...d] } = o, e;"]);
}

// Every export with a source is blanked whole: no `export` is left of it.
#[test]
fn parsed_reexports_are_blanked() {
    let text = "export * from \"a\";\nexport { x as y, z } from \"b\";\nexport * as ns from \"c\";\nexport {} from \"d\";\nvar kept;\n";
    let parser = walk(text);
    let blanked = after_blanking(text, &parser);
    assert_eq!(blanked, "\n\n\n\nvar kept;\n");
    assert!(!blanked.contains("export"));
    assert_eq!(parser.last_harmony_import_order, 4);
}

#[test]
fn parsed_sources_with_forbidden_forms() {
    let items = module_items(&parse("export * from \"a\"; export * as ns from \"b\"; export { ns };").body);
    let mut parser = new_parser();
    assert_eq!(parser.try_walk_program(&items), Ok(()));
    let mut items = items;
    if let ast::ModuleItem::ModuleDecl(ast::ModuleDecl::ExportNamed(export)) = &mut items[2] {
        export.src = Some(ast::Str { span: Span::new(0, 0), value: "c".to_string() });
        export.specifiers.push(ast::ExportSpecifier::Default(ast::ExportDefaultSpecifier {
            exported: ast::Ident { span: Span::new(0, 0), ctxt: 0, sym: "v".to_string() },
        }));
    }
    let mut parser = new_parser();
    assert_eq!(parser.try_walk_program(&items), Err(WalkError::Unsupported(2)));
}

fn var_decls(module: &swc::Module) -> Vec<&swc::VarDecl> {
    module
        .body
        .iter()
        .filter_map(|item| match item {
            swc::ModuleItem::Stmt(swc::Stmt::Decl(swc::Decl::Var(v))) => Some(&**v),
            swc::ModuleItem::ModuleDecl(swc::ModuleDecl::ExportDecl(e)) => match &e.decl {
                swc::Decl::Var(v) => Some(&**v),
                _ => None,
            },
            _ => None,
        })
        .collect()
}

// The identifiers of a declaration are those of its declarators, one declarator after the other.
#[test]
fn declared_identifiers_are_those_of_the_declarators() {
    let texts = [
        "var a;",
        "let a = 1, b = 2;",
        "const [a, , b = c, ...d] = e;",
        "const { a, b: c, d = e, [f]: g, ...h } = i;",
        "const { a: { b: [c, { d, e: [f = g] }], ...h }, i: [[[j]]] = k } = l;",
        "export const { x = a.b[c], y: [z = (() => q)()] } = r;",
        "var [] = a, {} = b;",
        "let [[a], { b }] = c, d, [e, ...[f, g]] = h;",
    ];
    for text in texts {
        let module = parse(text);
        for decl in var_decls(&module) {
            let expected: Vec<(String, u32, u32)> =
                find_pat_ids::<_, swc::Ident>(&decl.decls)
                    .into_iter()
                    .map(|i| (i.sym.to_string(), i.span.lo.0, i.span.hi.0))
                    .collect();
            let found: Vec<(String, u32, u32)> = declared_ids(&var_decl(decl).decls)
                .into_iter()
                .map(|i| (i.sym, i.span.lo, i.span.hi))
                .collect();
            assert_eq!(found, expected, "{}", text);
            assert!(!expected.is_empty() || text.starts_with("var []"));
        }
    }
}

// A named function or class expression amounts to a declaration, an anonymous one to none.
#[test]
fn declarations_of_expressions_agree_with_the_parser() {
    for text in [
        "export default function f() {}",
        "export default function() {}",
        "export default class C {}",
        "export default class {}",
    ] {
        let module = parse(text);
        let decl = match &module.body[0] {
            swc::ModuleItem::ModuleDecl(swc::ModuleDecl::ExportDefaultDecl(d)) => &d.decl,
            other => panic!("unexpected entry {:?}", other),
        };
        match (decl, default_decl(decl)) {
            (swc::DefaultDecl::Fn(theirs), ast::DefaultDecl::Fn(ours)) => {
                let expected = theirs.clone().as_fn_decl().map(|d| (d.ident.sym.to_string(), span(d.span())));
                assert_eq!(ours.as_fn_decl().map(|d| (d.ident.sym, d.span)), expected);
                assert_eq!(ours.span(), span(theirs.span()));
            }
            (swc::DefaultDecl::Class(theirs), ast::DefaultDecl::Class(ours)) => {
                let expected = theirs.clone().as_class_decl().map(|d| (d.ident.sym.to_string(), span(d.span())));
                assert_eq!(ours.as_class_decl().map(|d| (d.ident.sym, d.class.span)), expected);
                assert_eq!(ours.span(), span(theirs.span()));
            }
            _ => panic!("{} is no class or function", text),
        }
    }
}

// A span's offsets are the places of its text; a synthesized span stays at zero.
#[test]
fn offsets_are_places_in_the_text() {
    let text = "  export * from \"a\";";
    let module = parse(text);
    let theirs = module.body[0].span();
    let ours = span(theirs);
    assert_eq!((ours.real_lo(), ours.real_hi()), (2, 20));
    assert_eq!(text_of(text, ours.real_lo(), ours.real_hi()), "export * from \"a\";");
    assert_eq!(ErrorSpan::from(ours), ErrorSpan { start: 2, end: 20 });
    let dummy = span(swc_core::common::DUMMY_SP);
    assert!(!dummy.is_located());
    assert_eq!(ErrorSpan::from(dummy), ErrorSpan { start: 0, end: 0 });
    assert_eq!(span(None::<swc::BlockStmt>.span()), dummy);
}
