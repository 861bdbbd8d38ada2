//! The runtime import that every transformed module starts from.

use vstd::prelude::*;
use crate::text::{extend_str, string_of};

verus! {

broadcast use vstd::string::group_string_axioms;

/// `import { template as _$template } from "<module>";`
pub open spec fn runtime_imports_text(module_name: Seq<char>) -> Seq<char> {
    "import { template as _$template } from \""@ + module_name + "\";"@
}

/// Get minimal helper code for the modern transform
/// This is just imports - we use the runtime functions directly
pub fn get_runtime_imports(module_name: &str) -> (r: String)
    ensures
        r@ == runtime_imports_text(module_name@),
{
    let mut v: Vec<char> = Vec::new();
    extend_str(&mut v, "import { template as _$template } from \"");
    extend_str(&mut v, module_name);
    extend_str(&mut v, "\";");
    string_of(&v)
}

} // verus!
