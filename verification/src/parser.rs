//! The state of one module's traversal.

use std::rc::Rc;
use vstd::prelude::*;
use crate::ast::IdView;
use crate::dependency::{
    dependencies_view, dependency_ids_view, Dependency, DependencyId, DependencyView,
    ExportPresenceMode,
};
use crate::import_map::{ImportMap, ImportReferenceView};
use crate::inner_graph::{add_usage, InnerGraphMapUsageView, InnerGraphState, UsageMap};
use crate::name_set::NameSet;
use crate::parser_plugin::JavaScriptParserPluginDrive;
use crate::span::Span;

verus! {

/// The part of the parser's configuration that export extraction reads.
#[derive(Clone, Copy, Debug, PartialEq, Eq, Structural)]
pub struct JavascriptParserOptions {
    /// How a re-exported binding that the target module lacks is reported.
    pub reexport_exports_presence: ExportPresenceMode,
}

/// What the traversal learns of the module as a whole.
#[derive(Debug)]
pub struct BuildInfo {
    /// The names under which the module exports something.
    pub harmony_named_exports: NameSet,
    /// The module's star re-exports, in declaration order.
    pub all_star_exports: Vec<DependencyId>,
}

/// The traversal of one module: the records emitted so far and the tables
/// that the statements still to come are resolved against. It belongs to
/// this one traversal and is shared with no other.
pub struct JavascriptParser<P> {
    /// The records, in the order in which they were found.
    pub dependencies: Vec<Dependency>,
    /// The place of the last import or re-export statement among the
    /// module's imports and re-exports.
    pub last_harmony_import_order: i32,
    pub build_info: BuildInfo,
    pub import_map: ImportMap,
    pub inner_graph: InnerGraphState,
    /// The names that the statements seen so far define.
    pub definitions: NameSet,
    /// The statements that enclose the current position, outermost first.
    pub statement_path: Vec<Span>,
    /// The statement that was left last.
    pub prev_statement: Option<Span>,
    pub javascript_options: JavascriptParserOptions,
    pub plugin_drive: Rc<JavaScriptParserPluginDrive<P>>,
}

#[verifier::ext_equal]
pub struct ParserView {
    pub dependencies: Seq<DependencyView>,
    pub last_harmony_import_order: int,
    pub harmony_named_exports: Set<Seq<char>>,
    pub all_star_exports: Seq<nat>,
    pub import_map: Map<IdView, ImportReferenceView>,
    pub inner_graph: UsageMap,
    pub definitions: Set<Seq<char>>,
    pub statement_path: Seq<Span>,
    pub prev_statement: Option<Span>,
    pub javascript_options: JavascriptParserOptions,
}

impl<P> View for JavascriptParser<P> {
    type V = ParserView;

    open spec fn view(&self) -> ParserView {
        ParserView {
            dependencies: dependencies_view(self.dependencies@),
            last_harmony_import_order: self.last_harmony_import_order as int,
            harmony_named_exports: self.build_info.harmony_named_exports@,
            all_star_exports: dependency_ids_view(self.build_info.all_star_exports@),
            import_map: self.import_map@,
            inner_graph: self.inner_graph@,
            definitions: self.definitions@,
            statement_path: self.statement_path@,
            prev_statement: self.prev_statement,
            javascript_options: self.javascript_options,
        }
    }
}

impl ParserView {
    /// The state in which a traversal starts.
    pub open spec fn initial(javascript_options: JavascriptParserOptions) -> ParserView {
        ParserView {
            dependencies: Seq::empty(),
            last_harmony_import_order: 0,
            harmony_named_exports: Set::empty(),
            all_star_exports: Seq::empty(),
            import_map: Map::empty(),
            inner_graph: Map::empty(),
            definitions: Set::empty(),
            statement_path: Seq::empty(),
            prev_statement: None,
            javascript_options,
        }
    }

    /// The state with one more record at the end of the dependency list.
    pub open spec fn push_dependency(self, dependency: DependencyView) -> ParserView {
        ParserView { dependencies: self.dependencies.push(dependency), ..self }
    }

    /// The state with one more exported name.
    pub open spec fn add_named_export(self, name: Seq<char>) -> ParserView {
        ParserView { harmony_named_exports: self.harmony_named_exports.insert(name), ..self }
    }

    /// The state with one more recorded use of the binding `name`.
    pub open spec fn add_usage(self, name: Seq<char>, usage: InnerGraphMapUsageView) -> ParserView {
        ParserView { inner_graph: add_usage(self.inner_graph, name, usage), ..self }
    }

    /// The state with the next import or re-export statement entered.
    pub open spec fn advance_source_order(self) -> ParserView {
        ParserView { last_harmony_import_order: self.last_harmony_import_order + 1, ..self }
    }

    /// The state with one more star re-export, identified by `id`.
    pub open spec fn add_star_export(self, id: nat) -> ParserView {
        ParserView { all_star_exports: self.all_star_exports.push(id), ..self }
    }

    /// The state with one more defined name.
    pub open spec fn define_variable(self, name: Seq<char>) -> ParserView {
        ParserView { definitions: self.definitions.insert(name), ..self }
    }

    /// The state on entry to a statement.
    pub open spec fn enter_statement(self, span: Span) -> ParserView {
        ParserView { statement_path: self.statement_path.push(span), ..self }
    }

    /// The state on leaving the statement that was entered last.
    pub open spec fn leave_statement(self) -> ParserView {
        if self.statement_path.len() > 0 {
            ParserView {
                statement_path: self.statement_path.drop_last(),
                prev_statement: Some(self.statement_path.last()),
                ..self
            }
        } else {
            ParserView { prev_statement: None, ..self }
        }
    }
}

impl<P> JavascriptParser<P> {
    /// A traversal that has seen nothing yet.
    pub fn new(
        javascript_options: JavascriptParserOptions,
        plugin_drive: Rc<JavaScriptParserPluginDrive<P>>,
    ) -> (parser: JavascriptParser<P>)
        ensures
            parser@ == ParserView::initial(javascript_options),
            parser.plugin_drive == plugin_drive,
    {
        let parser = JavascriptParser {
            dependencies: Vec::new(),
            last_harmony_import_order: 0,
            build_info: BuildInfo {
                harmony_named_exports: NameSet::new(),
                all_star_exports: Vec::new(),
            },
            import_map: ImportMap::new(),
            inner_graph: InnerGraphState::new(),
            definitions: NameSet::new(),
            statement_path: Vec::new(),
            prev_statement: None,
            javascript_options,
            plugin_drive,
        };
        assert(dependencies_view(parser.dependencies@) =~= Seq::empty());
        assert(dependency_ids_view(parser.build_info.all_star_exports@) =~= Seq::empty());
        parser
    }

    /// Appends a record to the dependency list and returns its identifier.
    pub fn push_dependency(&mut self, dependency: Dependency) -> (id: DependencyId)
        ensures
            final(self)@ == old(self)@.push_dependency(dependency@),
            final(self).plugin_drive == old(self).plugin_drive,
            id@ == old(self)@.dependencies.len(),
    {
        let id = DependencyId(self.dependencies.len());
        self.dependencies.push(dependency);
        assert(dependencies_view(self.dependencies@) =~= dependencies_view(
            old(self).dependencies@,
        ).push(dependency@));
        id
    }

    /// Records that the record identified by `id` is a star re-export.
    pub fn add_star_export(&mut self, id: DependencyId)
        ensures
            final(self)@ == old(self)@.add_star_export(id@),
            final(self).plugin_drive == old(self).plugin_drive,
    {
        self.build_info.all_star_exports.push(id);
        assert(dependency_ids_view(self.build_info.all_star_exports@) =~= dependency_ids_view(
            old(self).build_info.all_star_exports@,
        ).push(id@));
    }

    /// Records that the module exports something under `name`.
    pub fn add_named_export(&mut self, name: String)
        ensures
            final(self)@ == old(self)@.add_named_export(name@),
            final(self).plugin_drive == old(self).plugin_drive,
    {
        self.build_info.harmony_named_exports.insert(name);
    }

    /// Records that the statements seen so far define `name`.
    pub fn define_variable(&mut self, name: String)
        ensures
            final(self)@ == old(self)@.define_variable(name@),
            final(self).plugin_drive == old(self).plugin_drive,
    {
        self.definitions.insert(name);
    }

    /// Enters a statement.
    pub fn enter_statement(&mut self, span: Span)
        ensures
            final(self)@ == old(self)@.enter_statement(span),
            final(self).plugin_drive == old(self).plugin_drive,
    {
        self.statement_path.push(span);
    }

    /// Leaves the statement that was entered last, which becomes the
    /// previous statement.
    pub fn leave_statement(&mut self)
        ensures
            final(self)@ == old(self)@.leave_statement(),
            final(self).plugin_drive == old(self).plugin_drive,
    {
        self.prev_statement = self.statement_path.pop();
        assert(old(self).statement_path@.len() > 0 ==> self.statement_path@
            =~= old(self).statement_path@.drop_last());
    }
}

} // verus!
