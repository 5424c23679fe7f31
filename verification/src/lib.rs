//! A compiler from the Haumea language to C.
//!
//! The text of a program is cut into tokens by the [`scanner`], the tokens are
//! read into a tree by the [`parser`], and the tree is written out as C by the
//! [`codegen`]. What each stage computes is defined as a function of its input in
//! [`lexis`], [`grammar`] and [`codegen::target`]; the executable code is proved to
//! compute exactly that. [`codegen::arithmetic`] shows that the C text of an
//! arithmetic expression computes what the expression computes.
pub mod codegen;
pub mod grammar;
pub mod lexis;
pub mod parser;
pub mod scanner;
pub mod text;
