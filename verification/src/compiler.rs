use vstd::prelude::*;
use std::sync::Arc;

verus! {

#[verifier::external_type_specification]
#[verifier::external_body]
pub struct ExGlobals(swc_common::Globals);

#[verifier::external_type_specification]
#[verifier::external_body]
pub struct ExSourceMap(swc_common::SourceMap);

#[verifier::external_type_specification]
#[verifier::external_body]
pub struct ExHandler(swc_common::errors::Handler);

#[verifier::external_type_specification]
#[verifier::external_body]
pub struct ExSourceFile(swc_common::SourceFile);

#[verifier::external_type_specification]
#[verifier::external_body]
pub struct ExCompiler(swc::Compiler);

#[verifier::external_type_specification]
#[verifier::external_body]
pub struct ExProgram(swc_ecma_ast::Program);

#[verifier::external_type_specification]
#[verifier::external_body]
pub struct ExMark(swc_common::Mark);

/// The pieces of the external compiler that one compile step needs. A fresh
/// context is made per compiled file, so no interning or hygiene state leaks
/// from one file into the next.
pub struct CompilerCtx {
    globals: swc_common::Globals,
    cm: Arc<swc_common::SourceMap>,
    handler: swc_common::errors::Handler,
    compiler: swc::Compiler,
}

/// Relies on swc_common::Globals::new: a fresh container for the hygiene
/// and interning state the compiler keeps per run.
#[verifier::external_body]
fn new_globals() -> swc_common::Globals {
    swc_common::Globals::new()
}

/// Relies on swc_common::SourceMap::default: an empty registry of loaded
/// files and their byte-offset ranges.
#[verifier::external_body]
fn new_source_map() -> Arc<swc_common::SourceMap> {
    Arc::new(swc_common::SourceMap::default())
}

/// Relies on swc_common::errors::Handler::with_tty_emitter: a diagnostics
/// sink that prints to stderr, resolving spans through `cm`.
#[verifier::external_body]
fn new_handler(cm: &Arc<swc_common::SourceMap>) -> swc_common::errors::Handler {
    swc_common::errors::Handler::with_tty_emitter(
        swc_common::errors::ColorConfig::Auto,
        true,
        false,
        Some(cm.clone()),
    )
}

/// Relies on swc::Compiler::new: a compiler working over the given registry
/// of loaded files.
#[verifier::external_body]
fn new_compiler(cm: &Arc<swc_common::SourceMap>) -> swc::Compiler {
    swc::Compiler::new(cm.clone())
}

impl CompilerCtx {
    /// A fresh compiler context for one file.
    pub fn new() -> (r: CompilerCtx) {
        let cm = new_source_map();
        let handler = new_handler(&cm);
        let compiler = new_compiler(&cm);
        CompilerCtx { globals: new_globals(), cm, handler, compiler }
    }

    /// Relies on swc_common::SourceMap::load_file: reads the file at `path`
    /// from disk and registers it under a byte-offset range; the error case
    /// carries the underlying I/O failure's description.
    #[verifier::external_body]
    pub(crate) fn load_file(&self, path: &String) -> (r: Result<
        Arc<swc_common::SourceFile>,
        String,
    >) {
        self.cm.load_file(std::path::Path::new(path.as_str())).map_err(|e| e.to_string())
    }

    /// Relies on the `src` field of swc_common::SourceFile: the loaded
    /// file's complete text, here handed out as bytes.
    #[verifier::external_body]
    pub(crate) fn source_text(fm: &Arc<swc_common::SourceFile>) -> (r: Vec<u8>) {
        fm.src.as_str().as_bytes().to_vec()
    }

    /// Relies on the `start_pos` field of swc_common::SourceFile: where this
    /// file's byte-offset range begins, so positions inside the file are
    /// this value or larger.
    #[verifier::external_body]
    pub(crate) fn file_start(fm: &Arc<swc_common::SourceFile>) -> (r: u32) {
        fm.start_pos.0
    }

    /// Relies on swc::Compiler::parse_js: parses the file as a TypeScript
    /// ES module with JSX enabled, targeting ES2015; diagnostics go through
    /// the handler, and a syntax error comes back as the error case.
    #[verifier::external_body]
    pub(crate) fn parse(&self, fm: Arc<swc_common::SourceFile>) -> (r: Result<
        swc_ecma_ast::Program,
        String,
    >) {
        swc_common::GLOBALS.set(&self.globals, || {
            let syntax = swc_ecma_parser::Syntax::Typescript(
                swc_ecma_parser::TsSyntax { tsx: true, ..Default::default() },
            );
            self.compiler
                .parse_js(fm, &self.handler, swc_ecma_ast::EsVersion::Es2015, syntax,
                    swc::config::IsModule::Bool(true), None)
                .map_err(|e| e.to_string())
        })
    }

    /// Relies on swc_common::Mark::new: a hygiene mark fresh within this
    /// context's globals, never the root mark and never one handed out
    /// before.
    #[verifier::external_body]
    pub(crate) fn fresh_mark(&self) -> (r: swc_common::Mark) {
        swc_common::GLOBALS.set(&self.globals, || swc_common::Mark::new())
    }

    /// Relies on swc_ecma_transforms_react::jsx: rewrites JSX element
    /// syntax into plain function calls, leaving everything else in place.
    #[verifier::external_body]
    pub(crate) fn lower_jsx(
        &self,
        program: swc_ecma_ast::Program,
        unresolved: &swc_common::Mark,
        top: &swc_common::Mark,
    ) -> (r: swc_ecma_ast::Program) {
        swc_common::GLOBALS.set(&self.globals, || {
            self.compiler.run_transform(&self.handler, false, || {
                program.apply(swc_ecma_transforms_react::jsx(
                    self.cm.clone(),
                    Some(swc_common::comments::NoopComments),
                    Default::default(),
                    *top,
                    *unresolved,
                ))
            })
        })
    }

    /// Relies on swc_ecma_transforms::resolver: marks every identifier with
    /// its lexical scope so the stripping pass can tell type-only names from
    /// value names. The marks must come from `fresh_mark`.
    #[verifier::external_body]
    pub(crate) fn resolve_scopes(
        &self,
        program: swc_ecma_ast::Program,
        unresolved: &swc_common::Mark,
        top: &swc_common::Mark,
    ) -> (r: swc_ecma_ast::Program) {
        swc_common::GLOBALS.set(&self.globals, || {
            self.compiler.run_transform(&self.handler, false, || {
                program.apply(swc_ecma_transforms::resolver(*unresolved, *top, true))
            })
        })
    }

    /// Relies on swc_ecma_transforms_typescript::strip: removes every
    /// TypeScript-only construct, leaving plain ECMAScript. The marks must
    /// be the ones the scope-resolution pass ran with, and distinct.
    #[verifier::external_body]
    pub(crate) fn strip_types(
        &self,
        program: swc_ecma_ast::Program,
        unresolved: &swc_common::Mark,
        top: &swc_common::Mark,
    ) -> (r: swc_ecma_ast::Program) {
        swc_common::GLOBALS.set(&self.globals, || {
            self.compiler.run_transform(&self.handler, false, || {
                program.apply(swc_ecma_transforms_typescript::strip(*unresolved, *top))
            })
        })
    }

    /// Relies on the shape of swc_ecma_ast::Program: an ES module's import
    /// declarations sit in its body, each holding the literal specifier text
    /// and the byte position where that literal starts. Hands back every
    /// import's specifier and position, in source order.
    #[verifier::external_body]
    pub(crate) fn module_imports(program: &swc_ecma_ast::Program) -> (r: Vec<(String, u32)>) {
        match program {
            swc_ecma_ast::Program::Module(m) => m.body.iter().filter_map(
                |item| match item {
                    swc_ecma_ast::ModuleItem::ModuleDecl(swc_ecma_ast::ModuleDecl::Import(d)) =>
                        Some((d.src.value.to_atom_lossy().as_str().to_string(), d.src.span.lo.0)),
                    _ => None,
                },
            ).collect(),
            swc_ecma_ast::Program::Script(_) => Vec::new(),
        }
    }

    /// Relies on swc::Compiler::print: serialises the program back to source
    /// text, without a source map and without minification.
    #[verifier::external_body]
    pub(crate) fn print(&self, program: &swc_ecma_ast::Program) -> (r: Result<String, String>) {
        swc_common::GLOBALS.set(&self.globals, || {
            self.compiler
                .print(program, swc::PrintArgs {
                    source_map: swc::config::SourceMapsConfig::Bool(false),
                    ..Default::default()
                })
                .map(|o| o.code)
                .map_err(|e| e.to_string())
        })
    }
}

} // verus!
