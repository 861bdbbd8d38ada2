//! The order in which the babel plugin lists runtime imports.

use vstd::prelude::*;
use crate::text::str_eq;

verus! {

/// Priority of an import name (lower comes first); unknown names get 1000.
pub open spec fn import_priority(name: Seq<char>) -> nat {
    if name == "template"@ { 0 }
    else if name == "ssr"@ { 0 }
    else if name == "delegateEvents"@ { 1 }
    else if name == "createComponent"@ { 2 }
    else if name == "memo"@ { 3 }
    else if name == "addEventListener"@ { 4 }
    else if name == "insert"@ { 5 }
    else if name == "setAttribute"@ { 6 }
    else if name == "setBoolAttribute"@ { 7 }
    else if name == "className"@ { 8 }
    else if name == "style"@ { 9 }
    else if name == "setStyleProperty"@ { 10 }
    else if name == "effect"@ { 11 }
    else if name == "classList"@ { 12 }
    else if name == "use"@ { 13 }
    else if name == "spread"@ { 14 }
    else if name == "mergeProps"@ { 15 }
    else if name == "For"@ { 20 }
    else if name == "Show"@ { 21 }
    else if name == "Suspense"@ { 22 }
    else if name == "SuspenseList"@ { 23 }
    else if name == "Switch"@ { 24 }
    else if name == "Match"@ { 25 }
    else if name == "Index"@ { 26 }
    else if name == "ErrorBoundary"@ { 27 }
    else if name == "setAttributeNS"@ { 28 }
    else if name == "getOwner"@ { 29 }
    else { 1000 }
}

/// Get the priority order for an import name to match babel plugin output
///
/// Lower numbers = higher priority (imported first); unknown imports go last.
pub fn get_import_priority(name: &str) -> (r: usize)
    ensures
        r == import_priority(name@),
{
    if str_eq(name, "template") { 0 }
    else if str_eq(name, "ssr") { 0 }
    else if str_eq(name, "delegateEvents") { 1 }
    else if str_eq(name, "createComponent") { 2 }
    else if str_eq(name, "memo") { 3 }
    else if str_eq(name, "addEventListener") { 4 }
    else if str_eq(name, "insert") { 5 }
    else if str_eq(name, "setAttribute") { 6 }
    else if str_eq(name, "setBoolAttribute") { 7 }
    else if str_eq(name, "className") { 8 }
    else if str_eq(name, "style") { 9 }
    else if str_eq(name, "setStyleProperty") { 10 }
    else if str_eq(name, "effect") { 11 }
    else if str_eq(name, "classList") { 12 }
    else if str_eq(name, "use") { 13 }
    else if str_eq(name, "spread") { 14 }
    else if str_eq(name, "mergeProps") { 15 }
    else if str_eq(name, "For") { 20 }
    else if str_eq(name, "Show") { 21 }
    else if str_eq(name, "Suspense") { 22 }
    else if str_eq(name, "SuspenseList") { 23 }
    else if str_eq(name, "Switch") { 24 }
    else if str_eq(name, "Match") { 25 }
    else if str_eq(name, "Index") { 26 }
    else if str_eq(name, "ErrorBoundary") { 27 }
    else if str_eq(name, "setAttributeNS") { 28 }
    else if str_eq(name, "getOwner") { 29 }
    else { 1000 }
}

} // verus!
