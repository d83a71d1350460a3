use vstd::prelude::*;

use crate::lexer::{view_of, Lexer, PreProcessorDefinition};
use crate::scan::fixed;
use crate::tokens::{SyntaxToken, SyntaxTokenType, TokenView};

verus! {

/// A cursor over a token sequence for a parser.
pub trait ILexerTraverser {
    fn next_token(&mut self) -> &SyntaxToken;

    fn peek(&self, peek_nr: usize) -> &SyntaxToken;
}

/// Walks the tokens of one lexer run. Past the end every request yields an
/// end-of-file token. Also holds the preprocessor definitions of the text,
/// found before it and within it.
pub struct LexerTraverser {
    current_token_idx: usize,
    pre_file_definitions: Vec<PreProcessorDefinition>,
    internal_file_definitions: Vec<PreProcessorDefinition>,
    tokens: Vec<SyntaxToken>,
    out_of_bounds_token: SyntaxToken,
}

impl LexerTraverser {
    /// The tokens walked over.
    pub closed spec fn tokens_view(&self) -> Seq<TokenView> {
        view_of(self.tokens@)
    }

    /// The index of the next token.
    pub closed spec fn position(&self) -> int {
        self.current_token_idx as int
    }

    pub closed spec fn wf(&self) -> bool {
        self.out_of_bounds_token.view() == fixed(SyntaxTokenType::EndOfFileToken)
    }

    /// The definitions found before the text, then those found within it.
    pub closed spec fn definitions(&self) -> (
        Seq<PreProcessorDefinition>,
        Seq<PreProcessorDefinition>,
    ) {
        (self.pre_file_definitions@, self.internal_file_definitions@)
    }

    /// A traverser at the first token of `lexer`, with the definitions that
    /// were found before the text.
    pub fn new(lexer: Lexer, pre_file_definitions: Vec<PreProcessorDefinition>) -> (r: Self)
        ensures
            r.wf(),
            r.tokens_view() == lexer.tokens_view(),
            r.position() == 0,
            r.definitions() == (pre_file_definitions@, Seq::<PreProcessorDefinition>::empty()),
    {
        LexerTraverser {
            current_token_idx: 0,
            pre_file_definitions,
            internal_file_definitions: Vec::new(),
            tokens: lexer.into_tokens(),
            out_of_bounds_token: SyntaxToken { token_type: SyntaxTokenType::EndOfFileToken },
        }
    }

    /// Records a definition found within the text.
    pub fn add_internal_definition(&mut self, definition: PreProcessorDefinition)
        ensures
            final(self).wf() == old(self).wf(),
            final(self).tokens_view() == old(self).tokens_view(),
            final(self).position() == old(self).position(),
            final(self).definitions() == (
                old(self).definitions().0,
                old(self).definitions().1.push(definition),
            ),
    {
        self.internal_file_definitions.push(definition);
    }

    pub fn get_pre_file_definitions(&self) -> (r: &Vec<PreProcessorDefinition>)
        ensures
            r@ == self.definitions().0,
    {
        &self.pre_file_definitions
    }

    pub fn get_internal_file_definitions(&self) -> (r: &Vec<PreProcessorDefinition>)
        ensures
            r@ == self.definitions().1,
    {
        &self.internal_file_definitions
    }
}

impl ILexerTraverser for LexerTraverser {
    /// The token at the position, which then moves one on; past the end an
    /// end-of-file token, and the position stays, however often it is asked.
    fn next_token(&mut self) -> (r: &SyntaxToken)
        ensures
            final(self).wf() == old(self).wf(),
            final(self).tokens_view() == old(self).tokens_view(),
            final(self).definitions() == old(self).definitions(),
            old(self).position() < old(self).tokens_view().len() ==> {
                &&& r.view() == old(self).tokens_view()[old(self).position()]
                &&& final(self).position() == old(self).position() + 1
            },
            old(self).position() >= old(self).tokens_view().len() ==> {
                &&& old(self).wf() ==> r.view() == fixed(SyntaxTokenType::EndOfFileToken)
                &&& final(self).position() == old(self).position()
            },
    {
        if self.current_token_idx >= self.tokens.len() {
            return &self.out_of_bounds_token;
        }
        let idx = self.current_token_idx;
        self.current_token_idx = idx + 1;
        &self.tokens[idx]
    }

    /// The token `offset` places past the position, or an end-of-file token
    /// where that lies past the end.
    fn peek(&self, offset: usize) -> (r: &SyntaxToken)
        ensures
            self.position() + offset < self.tokens_view().len() ==> r.view()
                == self.tokens_view()[self.position() + offset],
            self.position() + offset >= self.tokens_view().len() ==> (self.wf() ==> r.view()
                == fixed(SyntaxTokenType::EndOfFileToken)),
    {
        let len = self.tokens.len();
        if offset >= len || self.current_token_idx >= len - offset {
            return &self.out_of_bounds_token;
        }
        &self.tokens[self.current_token_idx + offset]
    }
}

} // verus!
