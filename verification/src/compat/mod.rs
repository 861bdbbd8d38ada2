//! Output conventions of babel-plugin-jsx-dom-expressions: variable naming,
//! the order of runtime imports and the normalisation of generated code.

pub mod constants;
pub mod import_ordering;
pub mod naming;
pub mod output_normalizer;

pub use import_ordering::get_import_priority;
pub use naming::{element_var_name, template_var_name};
pub use output_normalizer::BabelOutputNormalizer;
