use vstd::prelude::*;

use crate::chars::{is_alphabetic, is_digit, is_numeric, string_of};
use crate::keywords::get_keyword_token_type;
use crate::number::parse_integer;
use crate::scan::{
    chars_of, emitted, is_word_char, lex_end, lex_from, next_pos, number_rest, number_token,
    scan_char_literal, scan_default, scan_double_char, scan_double_char_or_eq_op, scan_eq_op,
    scan_number, scan_shift_op, scan_string, scan_token, scan_word, stops_at, string_rest,
    tokenize, word_end, NumberScan,
};
use crate::source_file::{ISourceFile, SourceFile};
use crate::source_text::{char_at, SourceText};
use crate::tokens::{FloatLiteral, SyntaxToken, SyntaxTokenType, TokenView};

verus! {

/// What a sequence of tokens denotes.
pub open spec fn view_of(tokens: Seq<SyntaxToken>) -> Seq<TokenView> {
    tokens.map_values(|t: SyntaxToken| t.view())
}

/// A preprocessor definition, kept as scanned: no expansion is done here.
pub enum PreProcessorDefinition {
    NonFunction { name: String, value: String },
    Function { name: String, args: String, value: String },
}

/// Gives access to a tokenized text.
pub trait ILexer {
    fn get_tokens(&self) -> &Vec<SyntaxToken>;
}

/// A tokenized source text.
pub struct Lexer {
    tokens: Vec<SyntaxToken>,
}

impl Lexer {
    fn read_default(source: &mut SourceText) -> (r: SyntaxTokenType)
        requires
            0 <= old(source).index() <= old(source).bytes().len(),
        ensures
            final(source).bytes() == old(source).bytes(),
            old(source).index() <= final(source).index() <= final(source).bytes().len(),
            (r.view(), final(source).index()) == scan_default(
                old(source).bytes(),
                old(source).index(),
            ),
    {
        let c = source.current_char();
        if is_alphabetic(c) || c == '_' {
            Lexer::read_identifier_or_keyword(source)
        } else if is_digit(c, 10) {
            Lexer::read_number(source)
        } else {
            SyntaxTokenType::BadToken
        }
    }

    /// The tokens of the text from the cursor's position on. Scanning stops at
    /// the end of the text or at a null byte; an end-of-file token closes the
    /// sequence, and no whitespace token is in it.
    pub fn from_text(source: &mut SourceText) -> (r: Lexer)
        ensures
            final(source).bytes() == old(source).bytes(),
            final(source).index() == lex_end(old(source).bytes(), old(source).index()),
            r.tokens_view() == tokenize(old(source).bytes(), old(source).index()),
    {
        let ghost s = source.bytes();
        let ghost i0 = source.index();
        proof {
            source.lemma_index_nonneg();
        }
        let mut tokens: Vec<SyntaxToken> = Vec::new();
        loop
            invariant
                s == old(source).bytes(),
                i0 == old(source).index(),
                source.bytes() == s,
                0 <= source.index(),
                i0 < source.index() ==> source.index() <= s.len(),
                i0 <= source.index(),
                view_of(tokens@) + lex_from(s, source.index()) == lex_from(s, i0),
                lex_end(s, source.index()) == lex_end(s, i0),
            ensures
                source.bytes() == s,
                stops_at(s, source.index()),
                view_of(tokens@) == lex_from(s, i0),
                lex_end(s, source.index()) == lex_end(s, i0),
            decreases s.len() - source.index(),
        {
            let start_index = source.get_char_index();
            let c = source.current_char();
            if c == '\0' {
                proof {
                    assert(lex_from(s, source.index()) == Seq::<TokenView>::empty());
                    assert(view_of(tokens@) =~= view_of(tokens@) + Seq::<TokenView>::empty());
                }
                break;
            }
            let ghost before = tokens@;
            let token = match c {
                ' ' => SyntaxTokenType::WhiteSpace,
                '~' => SyntaxTokenType::TildeToken,
                '&' => Lexer::read_double_char_or_eq_op(
                    source,
                    SyntaxTokenType::AmpersandToken,
                    SyntaxTokenType::AmpersandAmpersandToken,
                    SyntaxTokenType::AmpersandEqualsToken,
                ),
                '|' => Lexer::read_double_char_or_eq_op(
                    source,
                    SyntaxTokenType::BarToken,
                    SyntaxTokenType::BarBarToken,
                    SyntaxTokenType::BarEqualsToken,
                ),
                '^' => Lexer::read_eq_op(
                    source,
                    SyntaxTokenType::CaretToken,
                    SyntaxTokenType::CaretEqualsToken,
                ),
                '?' => SyntaxTokenType::QuestionToken,
                '(' => SyntaxTokenType::OpenParenToken,
                ')' => SyntaxTokenType::CloseParenToken,
                '[' => SyntaxTokenType::OpenBracketToken,
                ']' => SyntaxTokenType::CloseBracketToken,
                '{' => SyntaxTokenType::OpenBraceToken,
                '}' => SyntaxTokenType::CloseBraceToken,
                '.' => if is_digit(source.peek(), 10) {
                    Lexer::read_number(source)
                } else {
                    SyntaxTokenType::DotToken
                },
                '+' => Lexer::read_double_char_or_eq_op(
                    source,
                    SyntaxTokenType::PlusToken,
                    SyntaxTokenType::PlusPlusToken,
                    SyntaxTokenType::PlusEqualsToken,
                ),
                '-' => Lexer::read_double_char_or_eq_op(
                    source,
                    SyntaxTokenType::MinusToken,
                    SyntaxTokenType::MinusMinusToken,
                    SyntaxTokenType::MinusEqualsToken,
                ),
                '*' => Lexer::read_eq_op(
                    source,
                    SyntaxTokenType::AsteriskToken,
                    SyntaxTokenType::AsteriskEqualsToken,
                ),
                '/' => Lexer::read_eq_op(
                    source,
                    SyntaxTokenType::SlashToken,
                    SyntaxTokenType::SlashEqualsToken,
                ),
                '%' => Lexer::read_eq_op(
                    source,
                    SyntaxTokenType::PercentToken,
                    SyntaxTokenType::PercentEqualsToken,
                ),
                ',' => SyntaxTokenType::CommaToken,
                ';' => SyntaxTokenType::SemiToken,
                ':' => Lexer::read_double_char(
                    source,
                    SyntaxTokenType::ColonToken,
                    SyntaxTokenType::ColonColonToken,
                ),
                '=' => Lexer::read_double_char(
                    source,
                    SyntaxTokenType::EqualsToken,
                    SyntaxTokenType::EqualsEqualsToken,
                ),
                '!' => Lexer::read_eq_op(
                    source,
                    SyntaxTokenType::NotToken,
                    SyntaxTokenType::ExclamationEqualsToken,
                ),
                '<' => Lexer::read_double_double_char_or_eq_op(
                    source,
                    SyntaxTokenType::LessThanToken,
                    SyntaxTokenType::LessThanLessThanToken,
                    SyntaxTokenType::LessThanEqualsToken,
                    SyntaxTokenType::LessThanLessThanEqualsToken,
                ),
                '>' => Lexer::read_double_double_char_or_eq_op(
                    source,
                    SyntaxTokenType::GreaterThanToken,
                    SyntaxTokenType::GreaterThanGreaterThanToken,
                    SyntaxTokenType::GreaterThanEqualsToken,
                    SyntaxTokenType::GreaterThanGreaterThanEqualsToken,
                ),
                '\'' => Lexer::read_character_literal(source),
                '"' => Lexer::read_string(source),
                _ => Lexer::read_default(source),
            };
            assert((token.view(), source.index()) == scan_token(s, start_index as int));
            if source.get_char_index() == start_index {
                // always make progress
                source.next_char();
            }
            assert(source.index() == next_pos(s, start_index as int));
            let ghost tv = token.view();
            if !token.is_white_space() {
                tokens.push(SyntaxToken { token_type: token });
            }
            proof {
                assert(view_of(tokens@) =~= view_of(before) + emitted(tv));
            }
        }
        tokens.push(SyntaxToken { token_type: SyntaxTokenType::EndOfFileToken });
        Lexer { tokens }
    }

    /// The tokens of a source file's text, from its cursor on.
    pub fn from_file(source: &mut SourceFile) -> (r: Lexer)
        ensures
            final(source).source_path() == old(source).source_path(),
            final(source).text().bytes() == old(source).text().bytes(),
            final(source).text().index() == lex_end(
                old(source).text().bytes(),
                old(source).text().index(),
            ),
            r.tokens_view() == tokenize(old(source).text().bytes(), old(source).text().index()),
    {
        Lexer::from_text(source.get_text_mut())
    }

    pub closed spec fn tokens_view(&self) -> Seq<TokenView> {
        view_of(self.tokens@)
    }

    /// Hands the tokens over.
    pub fn into_tokens(self) -> (r: Vec<SyntaxToken>)
        ensures
            view_of(r@) == self.tokens_view(),
    {
        self.tokens
    }

    fn read_number(source: &mut SourceText) -> (r: SyntaxTokenType)
        requires
            0 <= old(source).index() < old(source).bytes().len(),
        ensures
            final(source).bytes() == old(source).bytes(),
            old(source).index() <= final(source).index() <= final(source).bytes().len(),
            (r.view(), final(source).index()) == scan_number(
                old(source).bytes(),
                old(source).index(),
            ),
    {
        let ghost s = source.bytes();
        let ghost i = source.index();
        let mut sb: Vec<char> = Vec::new();
        let c0 = source.current_char();
        let c1 = source.peek();
        let is_octal = c0 == '0' && is_digit(c1, 8);
        let is_hex = c0 == '0' && (c1 == 'x' || c1 == 'X');
        let mut has_exponential_modifier = false;
        let mut has_dot = false;
        let mut has_float_suffix = false;
        let mut base: u32 = 10;
        if is_octal {
            source.next_char();
            base = 8;
        } else if is_hex {
            source.next_char();
            source.next_char();
            base = 16;
        }
        let ghost start = source.index();
        assert(scan_number(s, i) == number_token(
            number_rest(s, start, Seq::empty(), is_hex, is_octal, base, false, false),
            base,
        ));
        loop
            invariant_except_break
                number_rest(s, start, Seq::empty(), is_hex, is_octal, base, false, false)
                    == number_rest(
                    s,
                    source.index(),
                    sb@,
                    is_hex,
                    is_octal,
                    base,
                    has_dot,
                    has_exponential_modifier,
                ),
                !has_float_suffix,
            invariant
                s == old(source).bytes(),
                i == old(source).index(),
                source.bytes() == s,
                0 <= i <= source.index() <= s.len(),
                base == if is_octal {
                    8u32
                } else if is_hex {
                    16u32
                } else {
                    10u32
                },
                scan_number(s, i) == number_token(
                    number_rest(s, start, Seq::empty(), is_hex, is_octal, base, false, false),
                    base,
                ),
            ensures
                number_rest(s, start, Seq::empty(), is_hex, is_octal, base, false, false) == (
                NumberScan::Digits {
                    text: sb@,
                    is_float: has_dot || has_exponential_modifier || has_float_suffix,
                },
                source.index(),
                ),
            decreases s.len() - source.index(),
        {
            let c = source.current_char();
            if source.reached_eof() {
                break;
            } else if c == '.' {
                let n = source.peek();
                if is_hex || is_octal || has_dot || n == 'x' || n == 'r' {
                    break;
                }
                sb.push(c);
                has_dot = true;
                source.next_char();
            } else if c == 'e' || c == 'E' {
                sb.push(c);
                if !is_hex {
                    has_exponential_modifier = true;
                    let n = source.peek();
                    if n == '-' || n == '+' {
                        sb.push(n);
                        source.next_char();
                    }
                }
                source.next_char();
            } else if c == 'f' || c == 'F' {
                source.next_char();
                if !is_hex {
                    has_float_suffix = true;
                    break;
                }
                sb.push(c);
            } else if c == 'u' || c == 'U' || c == 'l' || c == 'L' {
                // one `u` at most, beside up to two `l`
                let mut matched_u = c == 'u' || c == 'U';
                let n1 = source.peek();
                if n1 == 'l' || n1 == 'L' || (!matched_u && (n1 == 'u' || n1 == 'U')) {
                    matched_u = matched_u || n1 == 'u' || n1 == 'U';
                    source.next_char();
                    let n2 = source.peek();
                    if n2 == 'l' || n2 == 'L' || (!matched_u && (n2 == 'u' || n2 == 'U')) {
                        source.next_char();
                    }
                }
                source.next_char();
            } else if c == '#' {
                let after_one_dot = sb.len() == 2 && sb[0] == '1' && sb[1] == '.';
                proof {
                    if after_one_dot {
                        assert(sb@ =~= seq!['1', '.']);
                    }
                }
                if after_one_dot && source.peek_at(1) == 'I' && source.peek_at(2) == 'N' && (
                source.peek_at(3) == 'D' || source.peek_at(3) == 'F') {
                    let is_inf = source.peek_at(3) == 'F';
                    source.next_char();
                    source.next_char();
                    source.next_char();
                    source.next_char();
                    let value = if is_inf {
                        FloatLiteral::Infinity
                    } else {
                        FloatLiteral::NotANumber
                    };
                    return SyntaxTokenType::FloatLiteralToken { value };
                }
                break;
            } else if is_digit(c, base) {
                sb.push(c);
                source.next_char();
            } else {
                break;
            }
        }
        if has_dot || has_exponential_modifier || has_float_suffix {
            SyntaxTokenType::FloatLiteralToken {
                value: FloatLiteral::Decimal { text: string_of(&sb) },
            }
        } else {
            SyntaxTokenType::IntegerLiteralToken { value: parse_integer(&sb, base) }
        }
    }

    fn read_eq_op(
        source: &mut SourceText,
        single_token: SyntaxTokenType,
        eq_token: SyntaxTokenType,
    ) -> (r: SyntaxTokenType)
        requires
            0 <= old(source).index() < old(source).bytes().len(),
            single_token.view() == TokenView::Fixed(single_token),
            eq_token.view() == TokenView::Fixed(eq_token),
        ensures
            final(source).bytes() == old(source).bytes(),
            old(source).index() <= final(source).index() <= final(source).bytes().len(),
            (r.view(), final(source).index()) == scan_eq_op(
                old(source).bytes(),
                old(source).index(),
                single_token,
                eq_token,
            ),
    {
        if source.peek() == '=' {
            source.next_char();
            source.next_char();
            return eq_token;
        }
        source.next_char();
        single_token
    }

    fn read_double_char(
        source: &mut SourceText,
        single_token: SyntaxTokenType,
        double_token: SyntaxTokenType,
    ) -> (r: SyntaxTokenType)
        requires
            0 <= old(source).index() < old(source).bytes().len(),
            single_token.view() == TokenView::Fixed(single_token),
            double_token.view() == TokenView::Fixed(double_token),
        ensures
            final(source).bytes() == old(source).bytes(),
            old(source).index() <= final(source).index() <= final(source).bytes().len(),
            (r.view(), final(source).index()) == scan_double_char(
                old(source).bytes(),
                old(source).index(),
                single_token,
                double_token,
            ),
    {
        if source.peek() == source.current_char() {
            source.next_char();
            source.next_char();
            return double_token;
        }
        source.next_char();
        single_token
    }

    fn read_double_char_or_eq_op(
        source: &mut SourceText,
        single_token: SyntaxTokenType,
        double_token: SyntaxTokenType,
        eq_token: SyntaxTokenType,
    ) -> (r: SyntaxTokenType)
        requires
            0 <= old(source).index() < old(source).bytes().len(),
            single_token.view() == TokenView::Fixed(single_token),
            double_token.view() == TokenView::Fixed(double_token),
            eq_token.view() == TokenView::Fixed(eq_token),
        ensures
            final(source).bytes() == old(source).bytes(),
            old(source).index() <= final(source).index() <= final(source).bytes().len(),
            (r.view(), final(source).index()) == scan_double_char_or_eq_op(
                old(source).bytes(),
                old(source).index(),
                single_token,
                double_token,
                eq_token,
            ),
    {
        if source.peek() == '=' {
            source.next_char();
            source.next_char();
            return eq_token;
        } else if source.peek() == source.current_char() {
            source.next_char();
            source.next_char();
            return double_token;
        }
        source.next_char();
        single_token
    }

    fn read_double_double_char_or_eq_op(
        source: &mut SourceText,
        single_token: SyntaxTokenType,
        double_token: SyntaxTokenType,
        eq_token: SyntaxTokenType,
        double_eq_token: SyntaxTokenType,
    ) -> (r: SyntaxTokenType)
        requires
            0 <= old(source).index() < old(source).bytes().len(),
            single_token.view() == TokenView::Fixed(single_token),
            double_token.view() == TokenView::Fixed(double_token),
            eq_token.view() == TokenView::Fixed(eq_token),
            double_eq_token.view() == TokenView::Fixed(double_eq_token),
        ensures
            final(source).bytes() == old(source).bytes(),
            old(source).index() <= final(source).index() <= final(source).bytes().len(),
            (r.view(), final(source).index()) == scan_shift_op(
                old(source).bytes(),
                old(source).index(),
                single_token,
                double_token,
                eq_token,
                double_eq_token,
            ),
    {
        if source.peek() == '=' {
            source.next_char();
            source.next_char();
            return eq_token;
        } else if source.peek() == source.current_char() {
            source.next_char();
            source.next_char();
            if source.current_char() == '=' {
                source.next_char();
                return double_eq_token;
            } else {
                return double_token;
            }
        }
        source.next_char();
        single_token
    }

    fn read_character_literal(source: &mut SourceText) -> (r: SyntaxTokenType)
        requires
            0 <= old(source).index(),
            char_at(old(source).bytes(), old(source).index()) == '\'',
        ensures
            final(source).bytes() == old(source).bytes(),
            old(source).index() <= final(source).index() <= final(source).bytes().len(),
            (r.view(), final(source).index()) == scan_char_literal(
                old(source).bytes(),
                old(source).index(),
            ),
    {
        source.next_char();
        let c = source.current_char();
        if !(c == '\'' || c == '\\' || c == '\r' || c == '\n') {
            source.next_char();
            if source.current_char() == '\'' {
                source.next_char();
            }
        }
        SyntaxTokenType::CharacterLiteralToken { value: c }
    }

    fn read_string(source: &mut SourceText) -> (r: SyntaxTokenType)
        requires
            0 <= old(source).index(),
            char_at(old(source).bytes(), old(source).index()) == '"',
        ensures
            final(source).bytes() == old(source).bytes(),
            old(source).index() <= final(source).index() <= final(source).bytes().len(),
            (r.view(), final(source).index()) == scan_string(
                old(source).bytes(),
                old(source).index(),
            ),
    {
        let ghost s = source.bytes();
        let ghost start = source.index();
        source.next_char();
        let mut sb: Vec<char> = Vec::new();
        loop
            invariant_except_break
                string_rest(s, start + 1, Seq::empty()) == string_rest(s, source.index(), sb@),
            invariant
                source.bytes() == s,
                0 <= start < source.index() <= s.len(),
            ensures
                source.bytes() == s,
                0 <= start < source.index() <= s.len(),
                string_rest(s, start + 1, Seq::empty()) == (sb@, source.index()),
            decreases s.len() - source.index(),
        {
            let c = source.current_char();
            if c == '\0' {
                break;
            } else if c == '\\' {
                sb.push(c);
                source.next_char();
                sb.push(source.current_char());
                source.next_char();
            } else if c == '"' {
                source.next_char();
                if source.current_char() != '"' {
                    break;
                }
                sb.push('"');
                source.next_char();
            } else {
                sb.push(c);
                source.next_char();
            }
        }
        SyntaxTokenType::StringLiteralToken { value: string_of(&sb) }
    }

    fn read_identifier_or_keyword(source: &mut SourceText) -> (r: SyntaxTokenType)
        requires
            0 <= old(source).index() <= old(source).bytes().len(),
        ensures
            final(source).bytes() == old(source).bytes(),
            old(source).index() <= final(source).index() <= final(source).bytes().len(),
            (r.view(), final(source).index()) == scan_word(
                old(source).bytes(),
                old(source).index(),
            ),
    {
        let ghost s = source.bytes();
        let ghost start = source.index();
        let mut text: Vec<char> = Vec::new();
        loop
            invariant
                source.bytes() == s,
                0 <= start <= source.index() <= s.len(),
                word_end(s, start) == word_end(s, source.index()),
                text@ == chars_of(s.subrange(start, source.index())),
            ensures
                word_end(s, source.index()) == source.index(),
            decreases s.len() - source.index(),
        {
            if source.reached_eof() {
                break;
            }
            let c = source.current_char();
            if !(is_alphabetic(c) || is_numeric(c) || c == '_' || c == '$') {
                break;
            }
            let ghost p = source.index();
            assert(is_word_char(char_at(s, p)));

            text.push(c);
            source.next_char();
            assert(word_end(s, p) == word_end(s, p + 1));
            assert(text@ =~= chars_of(s.subrange(start, source.index())));
        }
        get_keyword_token_type(&text)
    }
}

impl ILexer for Lexer {
    fn get_tokens(&self) -> (r: &Vec<SyntaxToken>)
        ensures
            view_of(r@) == self.tokens_view(),
    {
        &self.tokens
    }
}

} // verus!
