use vstd::prelude::*;
use vstd::string::*;

verus! {

/// The driver module handed to the external engine: it registers the test
/// file with the in-language test API, imports the compiled test module, and
/// finalises the run.
pub open spec fn spec_runner_code(test_file: Seq<char>) -> Seq<char> {
    "import { _strTestRunner } from \"str\";\nasync function main() {\n    _strTestRunner.setTestFile(\""@
        + test_file + "\");\n    await import(\"../"@ + test_file
        + "\");\n    _strTestRunner.finalize();\n}\nmain();\n"@
}

/// Builds the driver module's source text for `test_file`, exactly as
/// `spec_runner_code` lays it out.
pub fn runner_code(test_file: &str) -> (r: String)
    ensures
        r@ == spec_runner_code(test_file@),
{
    proof {
        reveal_strlit(
            "import { _strTestRunner } from \"str\";\nasync function main() {\n    _strTestRunner.setTestFile(\"",
        );
        reveal_strlit("\");\n    await import(\"../");
        reveal_strlit("\");\n    _strTestRunner.finalize();\n}\nmain();\n");
    }
    let mut r = String::from_str(
        "import { _strTestRunner } from \"str\";\nasync function main() {\n    _strTestRunner.setTestFile(\"",
    );
    r.append(test_file);
    r.append("\");\n    await import(\"../");
    r.append(test_file);
    r.append("\");\n    _strTestRunner.finalize();\n}\nmain();\n");
    r
}

/// The process exit code for a finished engine run: success exits 0, a
/// failure exits with the engine's own code, and a run that ended without
/// one (killed by a signal) exits 1.
pub fn exit_code_for(success: bool, code: Option<i32>) -> (r: i32)
    ensures
        success ==> r == 0,
        !success ==> r == (match code {
            Some(c) => c,
            None => 1,
        }),
{
    if success {
        0
    } else {
        match code {
            Some(c) => c,
            None => 1,
        }
    }
}

} // verus!
