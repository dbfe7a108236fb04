//! Static analysis of JavaScript/TypeScript sources: enumerate every module
//! specifier referenced through a static import, a dynamic `import()` call or a
//! CommonJS `require()` call, and report the list with adjacent duplicates
//! collapsed.
//!
//! The library holds the verified core: the import-extraction visitor over a
//! modelled syntax tree, the file-eligibility classifier, the directory-walk
//! pruning logic, and the run driver's aggregation and output rules. Reading
//! files, parsing them, and walking the real filesystem are left to the
//! surrounding program, which feeds plain values into these functions.

pub mod ast;
pub mod classify;
pub mod driver;
pub mod logger;
pub mod text;
pub mod visitor;
pub mod walker;
