//! The plugins that are offered each syntactic form, and the chain that
//! offers it to them.

pub mod drive;
pub mod harmony_export_dependency_parser_plugin;
pub mod hooks;
pub mod inner_graph;

pub use self::drive::JavaScriptParserPluginDrive;
pub use self::harmony_export_dependency_parser_plugin::HarmonyExportDependencyParserPlugin;
pub use self::hooks::JavascriptParserPlugin;
pub use self::inner_graph::InnerGraphPlugin;
