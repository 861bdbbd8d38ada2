//! JSX to DOM-expressions compiler logic for Solid-style reactive runtimes.
//!
//! JSX elements become HTML templates with dynamic slots, and the slots
//! become runtime calls (`insert`, `setAttribute`, event handlers, ...);
//! components become `createComponent` calls and fragments arrays. The
//! syntax tree is walked by the caller, which hands the transformer a
//! model of each JSX node ([`jsx`]) and gets code back ([`js`]).

pub mod text;
pub mod utils;
pub mod compat;
pub mod options;
pub mod jsx;
pub mod js;
pub mod html_subset_parser;
pub mod template_minimalizer;
pub mod template;
pub mod codegen;
pub mod optimizer;
pub mod transform;
pub mod compat2;

pub use options::{DomExpressionsOptions, GenerateMode};
pub use optimizer::{Optimization, OptimizationKind, TemplateOptimizer, TemplateStats};
pub use transform::DomExpressions;
pub use compat2::DomExpressionsCompat2;
