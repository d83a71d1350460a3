use vstd::prelude::*;

use crate::chars::{spells, string_of};
use crate::tokens::{SyntaxTokenType, TokenView};

verus! {

/// The reserved word that `text` spells, if any.
pub open spec fn keyword_of(text: Seq<char>) -> Option<SyntaxTokenType> {
    if text == "bool"@ {
        Some(SyntaxTokenType::BoolKeyword)
    } else if text == "break"@ {
        Some(SyntaxTokenType::BreakKeyword)
    } else if text == "Buffer"@ {
        Some(SyntaxTokenType::BufferKeyword)
    } else if text == "case"@ {
        Some(SyntaxTokenType::CaseKeyword)
    } else if text == "cbuffer"@ {
        Some(SyntaxTokenType::CBufferKeyword)
    } else if text == "const"@ {
        Some(SyntaxTokenType::ConstKeyword)
    } else if text == "continue"@ {
        Some(SyntaxTokenType::ContinueKeyword)
    } else if text == "default"@ {
        Some(SyntaxTokenType::DefaultKeyword)
    } else if text == "discard"@ {
        Some(SyntaxTokenType::DiscardKeyword)
    } else if text == "do"@ {
        Some(SyntaxTokenType::DoKeyword)
    } else if text == "double"@ {
        Some(SyntaxTokenType::DoubleKeyword)
    } else if text == "else"@ {
        Some(SyntaxTokenType::ElseKeyword)
    } else if text == "extern"@ {
        Some(SyntaxTokenType::ExternKeyword)
    } else if text == "false"@ {
        Some(SyntaxTokenType::FalseKeyword)
    } else if text == "float"@ {
        Some(SyntaxTokenType::FloatKeyword)
    } else if text == "for"@ {
        Some(SyntaxTokenType::ForKeyword)
    } else if text == "groupshared"@ {
        Some(SyntaxTokenType::GroupSharedKeyword)
    } else if text == "half"@ {
        Some(SyntaxTokenType::HalfKeyword)
    } else if text == "if"@ {
        Some(SyntaxTokenType::IfKeyword)
    } else if text == "in"@ {
        Some(SyntaxTokenType::InKeyword)
    } else if text == "inline"@ {
        Some(SyntaxTokenType::InlineKeyword)
    } else if text == "inout"@ {
        Some(SyntaxTokenType::InOutKeyword)
    } else if text == "int"@ {
        Some(SyntaxTokenType::IntKeyword)
    } else if text == "matrix"@ {
        Some(SyntaxTokenType::MatrixKeyword)
    } else if text == "namespace"@ {
        Some(SyntaxTokenType::NamespaceKeyword)
    } else if text == "out"@ {
        Some(SyntaxTokenType::OutKeyword)
    } else if text == "register"@ {
        Some(SyntaxTokenType::RegisterKeyword)
    } else if text == "return"@ {
        Some(SyntaxTokenType::ReturnKeyword)
    } else if text == "sampler"@ {
        Some(SyntaxTokenType::SamplerKeyword)
    } else if text == "static"@ {
        Some(SyntaxTokenType::StaticKeyword)
    } else if text == "struct"@ {
        Some(SyntaxTokenType::StructKeyword)
    } else if text == "switch"@ {
        Some(SyntaxTokenType::SwitchKeyword)
    } else if text == "tbuffer"@ {
        Some(SyntaxTokenType::TBufferKeyword)
    } else if text == "true"@ {
        Some(SyntaxTokenType::TrueKeyword)
    } else if text == "typedef"@ {
        Some(SyntaxTokenType::TypedefKeyword)
    } else if text == "uint"@ {
        Some(SyntaxTokenType::UIntKeyword)
    } else if text == "uniform"@ {
        Some(SyntaxTokenType::UniformKeyword)
    } else if text == "vector"@ {
        Some(SyntaxTokenType::VectorKeyword)
    } else if text == "void"@ {
        Some(SyntaxTokenType::VoidKeyword)
    } else if text == "volatile"@ {
        Some(SyntaxTokenType::VolatileKeyword)
    } else if text == "while"@ {
        Some(SyntaxTokenType::WhileKeyword)
    } else {
        None
    }
}

/// The token for an identifier-shaped run of characters: its keyword, or a
/// generic identifier that carries the text.
pub open spec fn word_token(text: Seq<char>) -> TokenView {
    match keyword_of(text) {
        Some(k) => TokenView::Fixed(k),
        None => TokenView::Ident(text),
    }
}

/// Looks `text` up in the table of reserved words.
pub fn get_keyword_token_type(text: &Vec<char>) -> (r: SyntaxTokenType)
    ensures
        r.view() == word_token(text@),
{
    if spells(text, "bool") {
        SyntaxTokenType::BoolKeyword
    } else if spells(text, "break") {
        SyntaxTokenType::BreakKeyword
    } else if spells(text, "Buffer") {
        SyntaxTokenType::BufferKeyword
    } else if spells(text, "case") {
        SyntaxTokenType::CaseKeyword
    } else if spells(text, "cbuffer") {
        SyntaxTokenType::CBufferKeyword
    } else if spells(text, "const") {
        SyntaxTokenType::ConstKeyword
    } else if spells(text, "continue") {
        SyntaxTokenType::ContinueKeyword
    } else if spells(text, "default") {
        SyntaxTokenType::DefaultKeyword
    } else if spells(text, "discard") {
        SyntaxTokenType::DiscardKeyword
    } else if spells(text, "do") {
        SyntaxTokenType::DoKeyword
    } else if spells(text, "double") {
        SyntaxTokenType::DoubleKeyword
    } else if spells(text, "else") {
        SyntaxTokenType::ElseKeyword
    } else if spells(text, "extern") {
        SyntaxTokenType::ExternKeyword
    } else if spells(text, "false") {
        SyntaxTokenType::FalseKeyword
    } else if spells(text, "float") {
        SyntaxTokenType::FloatKeyword
    } else if spells(text, "for") {
        SyntaxTokenType::ForKeyword
    } else if spells(text, "groupshared") {
        SyntaxTokenType::GroupSharedKeyword
    } else if spells(text, "half") {
        SyntaxTokenType::HalfKeyword
    } else if spells(text, "if") {
        SyntaxTokenType::IfKeyword
    } else if spells(text, "in") {
        SyntaxTokenType::InKeyword
    } else if spells(text, "inline") {
        SyntaxTokenType::InlineKeyword
    } else if spells(text, "inout") {
        SyntaxTokenType::InOutKeyword
    } else if spells(text, "int") {
        SyntaxTokenType::IntKeyword
    } else if spells(text, "matrix") {
        SyntaxTokenType::MatrixKeyword
    } else if spells(text, "namespace") {
        SyntaxTokenType::NamespaceKeyword
    } else if spells(text, "out") {
        SyntaxTokenType::OutKeyword
    } else if spells(text, "register") {
        SyntaxTokenType::RegisterKeyword
    } else if spells(text, "return") {
        SyntaxTokenType::ReturnKeyword
    } else if spells(text, "sampler") {
        SyntaxTokenType::SamplerKeyword
    } else if spells(text, "static") {
        SyntaxTokenType::StaticKeyword
    } else if spells(text, "struct") {
        SyntaxTokenType::StructKeyword
    } else if spells(text, "switch") {
        SyntaxTokenType::SwitchKeyword
    } else if spells(text, "tbuffer") {
        SyntaxTokenType::TBufferKeyword
    } else if spells(text, "true") {
        SyntaxTokenType::TrueKeyword
    } else if spells(text, "typedef") {
        SyntaxTokenType::TypedefKeyword
    } else if spells(text, "uint") {
        SyntaxTokenType::UIntKeyword
    } else if spells(text, "uniform") {
        SyntaxTokenType::UniformKeyword
    } else if spells(text, "vector") {
        SyntaxTokenType::VectorKeyword
    } else if spells(text, "void") {
        SyntaxTokenType::VoidKeyword
    } else if spells(text, "volatile") {
        SyntaxTokenType::VolatileKeyword
    } else if spells(text, "while") {
        SyntaxTokenType::WhileKeyword
    } else {
        SyntaxTokenType::IdentifierToken { text: string_of(text) }
    }
}

} // verus!
