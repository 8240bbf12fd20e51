//! The chain of plugins.

use vstd::prelude::*;
use crate::ast::{
    ExportAll, ExportDecl, ExportDefaultDecl, ExportDefaultExpr, ImportDecl, NamedExport, Stmt,
};
use crate::parser::{JavascriptParser, ParserView};
use crate::parser_plugin::hooks::{
    hook_served, opt_ref_view, state_kept, Hook, JavascriptParserPlugin,
};

verus! {

/// The plugins of a traversal, in the order in which they were registered.
pub struct JavaScriptParserPluginDrive<P> {
    pub plugins: Vec<P>,
}

/// The outcome of offering a form to the plugins in turn: that of the first
/// plugin that claims it, and no claim and no change if none does.
pub open spec fn chain_outcome<P: JavascriptParserPlugin>(
    plugins: Seq<P>,
    parser: ParserView,
    hook: Hook,
) -> (Option<bool>, ParserView)
    decreases plugins.len(),
{
    if plugins.len() == 0 {
        (None, parser)
    } else {
        let first = plugins[0].outcome(parser, hook);
        if first.0 is Some {
            first
        } else {
            chain_outcome(plugins.skip(1), parser, hook)
        }
    }
}

/// The chain from the `i`-th plugin on decides as the whole chain does, if
/// none of the plugins before it claims the form.
pub open spec fn undecided<P: JavascriptParserPlugin>(
    plugins: Seq<P>,
    i: int,
    parser: ParserView,
    hook: Hook,
) -> bool {
    chain_outcome(plugins, parser, hook) == chain_outcome(plugins.skip(i), parser, hook)
}

proof fn lemma_chain_start<P: JavascriptParserPlugin>(
    plugins: Seq<P>,
    parser: ParserView,
    hook: Hook,
)
    ensures
        undecided(plugins, 0, parser, hook),
{
    assert(plugins.skip(0) =~= plugins);
}

proof fn lemma_chain_step<P: JavascriptParserPlugin>(
    plugins: Seq<P>,
    i: int,
    parser: ParserView,
    hook: Hook,
)
    requires
        0 <= i < plugins.len(),
        undecided(plugins, i, parser, hook),
    ensures
        plugins[i].outcome(parser, hook).0 is Some ==> chain_outcome(plugins, parser, hook)
            == plugins[i].outcome(parser, hook),
        plugins[i].outcome(parser, hook).0 is None ==> undecided(plugins, i + 1, parser, hook),
{
    assert(plugins.skip(i)[0] == plugins[i]);
    assert(plugins.skip(i).skip(1) =~= plugins.skip(i + 1));
}

proof fn lemma_chain_end<P: JavascriptParserPlugin>(plugins: Seq<P>, parser: ParserView, hook: Hook)
    requires
        undecided(plugins, plugins.len() as int, parser, hook),
    ensures
        chain_outcome(plugins, parser, hook) == (None::<bool>, parser),
{
}

/// A chain of plugins keeps to what each of them owes the traversal.
pub proof fn lemma_chain_kept<P: JavascriptParserPlugin>(
    plugins: Seq<P>,
    parser: ParserView,
    hook: Hook,
)
    requires
        hook.ready(parser),
    ensures
        state_kept(
            parser,
            chain_outcome(plugins, parser, hook).1,
            hook,
            chain_outcome(plugins, parser, hook).0,
        ),
    decreases plugins.len(),
{
    if plugins.len() > 0 {
        plugins[0].lemma_outcome_kept(parser, hook);
        lemma_chain_kept(plugins.skip(1), parser, hook);
    }
}

impl<P: JavascriptParserPlugin> JavaScriptParserPluginDrive<P> {
    pub fn new(plugins: Vec<P>) -> (drive: JavaScriptParserPluginDrive<P>)
        ensures
            drive.plugins == plugins,
    {
        JavaScriptParserPluginDrive { plugins }
    }

    /// The outcome of offering a form to the chain.
    pub open spec fn outcome(&self, parser: ParserView, hook: Hook) -> (Option<bool>, ParserView) {
        chain_outcome(self.plugins@, parser, hook)
    }

    /// Offers a statement of a block to the plugins in turn.
    pub fn pre_block_statement(
        &self,
        parser: &mut JavascriptParser<P>,
        stmt: &Stmt,
    ) -> (claim: Option<bool>)
        requires
            Hook::PreBlockStatement(*stmt).ready(old(parser)@),
        ensures
            hook_served(
                self.outcome(old(parser)@, Hook::PreBlockStatement(*stmt)),
                *old(parser),
                *final(parser),
                claim,
            ),
    {
        let ghost hook = Hook::PreBlockStatement(*stmt);
        proof {
            lemma_chain_start(self.plugins@, parser@, hook);
        }
        let mut i: usize = 0;
        while i < self.plugins.len()
            invariant
                i <= self.plugins.len(),
                hook == Hook::PreBlockStatement(*stmt),
                hook.ready(old(parser)@),
                parser@ == old(parser)@,
                parser.plugin_drive == old(parser).plugin_drive,
                undecided(self.plugins@, i as int, old(parser)@, hook),
            decreases self.plugins.len() - i,
        {
            proof {
                lemma_chain_step(self.plugins@, i as int, parser@, hook);
                self.plugins[i as int].lemma_outcome_kept(parser@, hook);
            }
            let claim = self.plugins[i].pre_block_statement(parser, stmt);
            if claim.is_some() {
                return claim;
            }
            i = i + 1;
        }
        proof {
            lemma_chain_end(self.plugins@, parser@, hook);
        }
        None
    }

    /// Offers an import statement to the plugins in turn.
    pub fn import(
        &self,
        parser: &mut JavascriptParser<P>,
        statement: &ImportDecl,
        source: &str,
    ) -> (claim: Option<bool>)
        requires
            Hook::Import(*statement).ready(old(parser)@),
            source@ == statement.src.value@,
        ensures
            hook_served(
                self.outcome(old(parser)@, Hook::Import(*statement)),
                *old(parser),
                *final(parser),
                claim,
            ),
    {
        let ghost hook = Hook::Import(*statement);
        proof {
            lemma_chain_start(self.plugins@, parser@, hook);
        }
        let mut i: usize = 0;
        while i < self.plugins.len()
            invariant
                i <= self.plugins.len(),
                hook == Hook::Import(*statement),
                hook.ready(old(parser)@),
                source@ == statement.src.value@,
                parser@ == old(parser)@,
                parser.plugin_drive == old(parser).plugin_drive,
                undecided(self.plugins@, i as int, old(parser)@, hook),
            decreases self.plugins.len() - i,
        {
            proof {
                lemma_chain_step(self.plugins@, i as int, parser@, hook);
                self.plugins[i as int].lemma_outcome_kept(parser@, hook);
            }
            let claim = self.plugins[i].import(parser, statement, source);
            if claim.is_some() {
                return claim;
            }
            i = i + 1;
        }
        proof {
            lemma_chain_end(self.plugins@, parser@, hook);
        }
        None
    }

    /// Offers one binding of an import statement to the plugins in turn.
    pub fn import_specifier(
        &self,
        parser: &mut JavascriptParser<P>,
        statement: &ImportDecl,
        source: &String,
        export_name: Option<&String>,
        identifier_name: &String,
    ) -> (claim: Option<bool>)
        requires
            Hook::ImportSpecifier(*statement, opt_ref_view(export_name), identifier_name@).ready(old(parser)@),
            source@ == statement.src.value@,
        ensures
            hook_served(
                self.outcome(old(parser)@, Hook::ImportSpecifier(*statement, opt_ref_view(export_name), identifier_name@)),
                *old(parser),
                *final(parser),
                claim,
            ),
    {
        let ghost hook = Hook::ImportSpecifier(*statement, opt_ref_view(export_name), identifier_name@);
        proof {
            lemma_chain_start(self.plugins@, parser@, hook);
        }
        let mut i: usize = 0;
        while i < self.plugins.len()
            invariant
                i <= self.plugins.len(),
                hook == Hook::ImportSpecifier(*statement, opt_ref_view(export_name), identifier_name@),
                hook.ready(old(parser)@),
                source@ == statement.src.value@,
                parser@ == old(parser)@,
                parser.plugin_drive == old(parser).plugin_drive,
                undecided(self.plugins@, i as int, old(parser)@, hook),
            decreases self.plugins.len() - i,
        {
            proof {
                lemma_chain_step(self.plugins@, i as int, parser@, hook);
                self.plugins[i as int].lemma_outcome_kept(parser@, hook);
            }
            let claim = self.plugins[i].import_specifier(parser, statement, source, export_name, identifier_name);
            if claim.is_some() {
                return claim;
            }
            i = i + 1;
        }
        proof {
            lemma_chain_end(self.plugins@, parser@, hook);
        }
        None
    }

    /// Offers a named export with a source to the plugins in turn.
    pub fn named_export_import(
        &self,
        parser: &mut JavascriptParser<P>,
        statement: &NamedExport,
        source: &str,
    ) -> (claim: Option<bool>)
        requires
            Hook::NamedExportImport(*statement).ready(old(parser)@),
            source@ == statement.src->0.value@,
        ensures
            hook_served(
                self.outcome(old(parser)@, Hook::NamedExportImport(*statement)),
                *old(parser),
                *final(parser),
                claim,
            ),
    {
        let ghost hook = Hook::NamedExportImport(*statement);
        proof {
            lemma_chain_start(self.plugins@, parser@, hook);
        }
        let mut i: usize = 0;
        while i < self.plugins.len()
            invariant
                i <= self.plugins.len(),
                hook == Hook::NamedExportImport(*statement),
                hook.ready(old(parser)@),
                source@ == statement.src->0.value@,
                parser@ == old(parser)@,
                parser.plugin_drive == old(parser).plugin_drive,
                undecided(self.plugins@, i as int, old(parser)@, hook),
            decreases self.plugins.len() - i,
        {
            proof {
                lemma_chain_step(self.plugins@, i as int, parser@, hook);
                self.plugins[i as int].lemma_outcome_kept(parser@, hook);
            }
            let claim = self.plugins[i].named_export_import(parser, statement, source);
            if claim.is_some() {
                return claim;
            }
            i = i + 1;
        }
        proof {
            lemma_chain_end(self.plugins@, parser@, hook);
        }
        None
    }

    /// Offers a star re-export to the plugins in turn.
    pub fn all_export_import(
        &self,
        parser: &mut JavascriptParser<P>,
        statement: &ExportAll,
        source: &str,
    ) -> (claim: Option<bool>)
        requires
            Hook::AllExportImport(*statement).ready(old(parser)@),
            source@ == statement.src.value@,
        ensures
            hook_served(
                self.outcome(old(parser)@, Hook::AllExportImport(*statement)),
                *old(parser),
                *final(parser),
                claim,
            ),
    {
        let ghost hook = Hook::AllExportImport(*statement);
        proof {
            lemma_chain_start(self.plugins@, parser@, hook);
        }
        let mut i: usize = 0;
        while i < self.plugins.len()
            invariant
                i <= self.plugins.len(),
                hook == Hook::AllExportImport(*statement),
                hook.ready(old(parser)@),
                source@ == statement.src.value@,
                parser@ == old(parser)@,
                parser.plugin_drive == old(parser).plugin_drive,
                undecided(self.plugins@, i as int, old(parser)@, hook),
            decreases self.plugins.len() - i,
        {
            proof {
                lemma_chain_step(self.plugins@, i as int, parser@, hook);
                self.plugins[i as int].lemma_outcome_kept(parser@, hook);
            }
            let claim = self.plugins[i].all_export_import(parser, statement, source);
            if claim.is_some() {
                return claim;
            }
            i = i + 1;
        }
        proof {
            lemma_chain_end(self.plugins@, parser@, hook);
        }
        None
    }

    /// Offers the default export of a class or function to the plugins in turn.
    pub fn export(
        &self,
        parser: &mut JavascriptParser<P>,
        statement: &ExportDefaultDecl,
    ) -> (claim: Option<bool>)
        requires
            Hook::Export(*statement).ready(old(parser)@),
        ensures
            hook_served(
                self.outcome(old(parser)@, Hook::Export(*statement)),
                *old(parser),
                *final(parser),
                claim,
            ),
    {
        let ghost hook = Hook::Export(*statement);
        proof {
            lemma_chain_start(self.plugins@, parser@, hook);
        }
        let mut i: usize = 0;
        while i < self.plugins.len()
            invariant
                i <= self.plugins.len(),
                hook == Hook::Export(*statement),
                hook.ready(old(parser)@),
                parser@ == old(parser)@,
                parser.plugin_drive == old(parser).plugin_drive,
                undecided(self.plugins@, i as int, old(parser)@, hook),
            decreases self.plugins.len() - i,
        {
            proof {
                lemma_chain_step(self.plugins@, i as int, parser@, hook);
                self.plugins[i as int].lemma_outcome_kept(parser@, hook);
            }
            let claim = self.plugins[i].export(parser, statement);
            if claim.is_some() {
                return claim;
            }
            i = i + 1;
        }
        proof {
            lemma_chain_end(self.plugins@, parser@, hook);
        }
        None
    }

    /// Offers the default export of an expression to the plugins in turn.
    pub fn export_default_expr(
        &self,
        parser: &mut JavascriptParser<P>,
        statement: &ExportDefaultExpr,
    ) -> (claim: Option<bool>)
        requires
            Hook::ExportDefaultExpr(*statement).ready(old(parser)@),
        ensures
            hook_served(
                self.outcome(old(parser)@, Hook::ExportDefaultExpr(*statement)),
                *old(parser),
                *final(parser),
                claim,
            ),
    {
        let ghost hook = Hook::ExportDefaultExpr(*statement);
        proof {
            lemma_chain_start(self.plugins@, parser@, hook);
        }
        let mut i: usize = 0;
        while i < self.plugins.len()
            invariant
                i <= self.plugins.len(),
                hook == Hook::ExportDefaultExpr(*statement),
                hook.ready(old(parser)@),
                parser@ == old(parser)@,
                parser.plugin_drive == old(parser).plugin_drive,
                undecided(self.plugins@, i as int, old(parser)@, hook),
            decreases self.plugins.len() - i,
        {
            proof {
                lemma_chain_step(self.plugins@, i as int, parser@, hook);
                self.plugins[i as int].lemma_outcome_kept(parser@, hook);
            }
            let claim = self.plugins[i].export_default_expr(parser, statement);
            if claim.is_some() {
                return claim;
            }
            i = i + 1;
        }
        proof {
            lemma_chain_end(self.plugins@, parser@, hook);
        }
        None
    }

    /// Offers an exported declaration to the plugins in turn.
    pub fn export_decl(
        &self,
        parser: &mut JavascriptParser<P>,
        statement: &ExportDecl,
    ) -> (claim: Option<bool>)
        requires
            Hook::ExportDecl(*statement).ready(old(parser)@),
        ensures
            hook_served(
                self.outcome(old(parser)@, Hook::ExportDecl(*statement)),
                *old(parser),
                *final(parser),
                claim,
            ),
    {
        let ghost hook = Hook::ExportDecl(*statement);
        proof {
            lemma_chain_start(self.plugins@, parser@, hook);
        }
        let mut i: usize = 0;
        while i < self.plugins.len()
            invariant
                i <= self.plugins.len(),
                hook == Hook::ExportDecl(*statement),
                hook.ready(old(parser)@),
                parser@ == old(parser)@,
                parser.plugin_drive == old(parser).plugin_drive,
                undecided(self.plugins@, i as int, old(parser)@, hook),
            decreases self.plugins.len() - i,
        {
            proof {
                lemma_chain_step(self.plugins@, i as int, parser@, hook);
                self.plugins[i as int].lemma_outcome_kept(parser@, hook);
            }
            let claim = self.plugins[i].export_decl(parser, statement);
            if claim.is_some() {
                return claim;
            }
            i = i + 1;
        }
        proof {
            lemma_chain_end(self.plugins@, parser@, hook);
        }
        None
    }

    /// Offers a named export to the plugins in turn.
    pub fn named_export(
        &self,
        parser: &mut JavascriptParser<P>,
        statement: &NamedExport,
    ) -> (claim: Option<bool>)
        requires
            Hook::NamedExport(*statement).ready(old(parser)@),
        ensures
            hook_served(
                self.outcome(old(parser)@, Hook::NamedExport(*statement)),
                *old(parser),
                *final(parser),
                claim,
            ),
    {
        let ghost hook = Hook::NamedExport(*statement);
        proof {
            lemma_chain_start(self.plugins@, parser@, hook);
        }
        let mut i: usize = 0;
        while i < self.plugins.len()
            invariant
                i <= self.plugins.len(),
                hook == Hook::NamedExport(*statement),
                hook.ready(old(parser)@),
                parser@ == old(parser)@,
                parser.plugin_drive == old(parser).plugin_drive,
                undecided(self.plugins@, i as int, old(parser)@, hook),
            decreases self.plugins.len() - i,
        {
            proof {
                lemma_chain_step(self.plugins@, i as int, parser@, hook);
                self.plugins[i as int].lemma_outcome_kept(parser@, hook);
            }
            let claim = self.plugins[i].named_export(parser, statement);
            if claim.is_some() {
                return claim;
            }
            i = i + 1;
        }
        proof {
            lemma_chain_end(self.plugins@, parser@, hook);
        }
        None
    }
}

} // verus!
