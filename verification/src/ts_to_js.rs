use vstd::prelude::*;
use crate::compiler::CompilerCtx;
use crate::errors::BundleError;

verus! {

/// Compiles the one file at `path` from TypeScript (with JSX) to plain
/// ECMAScript and hands back the resulting module text, without looking at
/// the file's imports. Fails with `Io` (file unreadable) or `Parse` (bad
/// syntax, or the result could not be serialised), both naming `path`.
pub fn ts_to_js(path: &String) -> (r: Result<String, BundleError>)
    ensures
        r matches Err(e) ==> match e {
            BundleError::Io { path: p, message } => p@ == path@,
            BundleError::Parse { path: p, message } => p@ == path@,
            _ => false,
        },
{
    let ctx = CompilerCtx::new();
    let fm = match ctx.load_file(path) {
        Ok(fm) => fm,
        Err(message) => {
            return Err(BundleError::Io { path: path.clone(), message });
        },
    };
    let program = match ctx.parse(fm) {
        Ok(p) => p,
        Err(message) => {
            return Err(BundleError::Parse { path: path.clone(), message });
        },
    };
    let unresolved = ctx.fresh_mark();
    let top = ctx.fresh_mark();
    let program = ctx.lower_jsx(program, &unresolved, &top);
    let program = ctx.resolve_scopes(program, &unresolved, &top);
    let program = ctx.strip_types(program, &unresolved, &top);
    match ctx.print(&program) {
        Ok(code) => Ok(code),
        Err(message) => Err(BundleError::Parse { path: path.clone(), message }),
    }
}

} // verus!
