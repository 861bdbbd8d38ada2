//! Names and markers that the babel plugin's output uses.

use vstd::prelude::*;

verus! {

/// Pure comment format used by babel (gets normalized from oxc's format)
pub const BABEL_PURE_COMMENT: &'static str = "/*#__PURE__*/";

/// Pure comment format produced by oxc (needs normalization)
pub const OXC_PURE_COMMENT: &'static str = "/* @__PURE__ */";

/// Indentation used by babel output (double spaces, not tabs)
pub const BABEL_INDENT: &'static str = "  ";

/// Default module name for Solid.js
pub const DEFAULT_MODULE_NAME: &'static str = "solid-js/web";

/// Alternative module name for r-dom (used in tests)
pub const R_DOM_MODULE_NAME: &'static str = "r-dom";

/// Template variable prefix (without counter)
pub const TEMPLATE_VAR_PREFIX: &'static str = "_tmpl$";

/// Element variable prefix (without counter)
pub const ELEMENT_VAR_PREFIX: &'static str = "_el$";

/// Runtime function prefix
pub const RUNTIME_FN_PREFIX: &'static str = "_$";

/// Default effect wrapper function name
pub const DEFAULT_EFFECT_WRAPPER: &'static str = "effect";

/// Default memo wrapper function name
pub const DEFAULT_MEMO_WRAPPER: &'static str = "memo";

/// Static marker comment decorator
pub const DEFAULT_STATIC_MARKER: &'static str = "@once";

} // verus!
