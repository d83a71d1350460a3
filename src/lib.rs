//! The lexical front end of a shading-language toolchain: a byte cursor, a
//! tokenizer that turns source bytes into typed tokens, and a traversal of the
//! token sequence for a parser. Every scanning routine is proved to produce
//! exactly the tokens that the specification functions of `scan` describe.
use vstd::prelude::*;

pub mod chars;
pub mod keywords;
pub mod lexer;
pub mod number;
pub mod scan;
pub mod source_file;
pub mod source_text;
pub mod tokens;
pub mod traverser;

pub use lexer::{ILexer, Lexer, PreProcessorDefinition};
pub use source_file::{ISourceFile, SourceFile, SourcePath};
pub use source_text::SourceText;
pub use tokens::{FloatLiteral, SyntaxToken, SyntaxTokenType};
pub use traverser::{ILexerTraverser, LexerTraverser};

verus! {

} // verus!
