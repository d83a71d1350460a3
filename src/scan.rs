use vstd::prelude::*;

use crate::chars::{is_digit_of, letter, numeral};
use crate::keywords::word_token;
use crate::number::integer_value;
use crate::source_text::char_at;
use crate::tokens::{FloatView, SyntaxTokenType, TokenView};

verus! {

// What one scanning routine yields on the bytes `s` when it starts at `i`:
// the token and the position where scanning stopped.

pub open spec fn fixed(k: SyntaxTokenType) -> TokenView {
    TokenView::Fixed(k)
}

/// `X` or `X=`.
pub open spec fn scan_eq_op(
    s: Seq<u8>,
    i: int,
    single: SyntaxTokenType,
    eq: SyntaxTokenType,
) -> (TokenView, int) {
    if char_at(s, i + 1) == '=' {
        (fixed(eq), i + 2)
    } else {
        (fixed(single), i + 1)
    }
}

/// Where a doubled form ends: past its second byte, or at the end of the text
/// where the first byte is the last one.
pub open spec fn doubled_end(s: Seq<u8>, i: int) -> int {
    if i + 1 < s.len() {
        i + 2
    } else {
        i + 1
    }
}

/// `X` or `XX`.
pub open spec fn scan_double_char(
    s: Seq<u8>,
    i: int,
    single: SyntaxTokenType,
    double: SyntaxTokenType,
) -> (TokenView, int) {
    if char_at(s, i + 1) == char_at(s, i) {
        (fixed(double), doubled_end(s, i))
    } else {
        (fixed(single), i + 1)
    }
}

/// `X`, `XX` or `X=`; the `=` is tried first.
pub open spec fn scan_double_char_or_eq_op(
    s: Seq<u8>,
    i: int,
    single: SyntaxTokenType,
    double: SyntaxTokenType,
    eq: SyntaxTokenType,
) -> (TokenView, int) {
    if char_at(s, i + 1) == '=' {
        (fixed(eq), i + 2)
    } else if char_at(s, i + 1) == char_at(s, i) {
        (fixed(double), doubled_end(s, i))
    } else {
        (fixed(single), i + 1)
    }
}

/// `X`, `XX`, `X=` or `XX=`: `X=` first, then the doubled form, which takes a
/// further `=` where one follows.
pub open spec fn scan_shift_op(
    s: Seq<u8>,
    i: int,
    single: SyntaxTokenType,
    double: SyntaxTokenType,
    eq: SyntaxTokenType,
    double_eq: SyntaxTokenType,
) -> (TokenView, int) {
    if char_at(s, i + 1) == '=' {
        (fixed(eq), i + 2)
    } else if char_at(s, i + 1) == char_at(s, i) {
        if char_at(s, i + 2) == '=' {
            (fixed(double_eq), i + 3)
        } else {
            (fixed(double), doubled_end(s, i))
        }
    } else {
        (fixed(single), i + 1)
    }
}

/// A character literal whose opening quote is at `i`. Its value is the byte
/// after the quote, whatever follows; a closing quote is taken where present.
pub open spec fn scan_char_literal(s: Seq<u8>, i: int) -> (TokenView, int) {
    let c = char_at(s, i + 1);
    let tok = fixed(SyntaxTokenType::CharacterLiteralToken { value: c });
    if c == '\'' || c == '\\' || c == '\r' || c == '\n' {
        (tok, i + 1)
    } else {
        let p = if i + 1 < s.len() {
            i + 2
        } else {
            i + 1
        };
        if char_at(s, p) == '\'' {
            (tok, p + 1)
        } else {
            (tok, p)
        }
    }
}

/// The body of a string literal from `p` on, with the text `acc` gathered so
/// far: a backslash is kept with the byte after it, a doubled quote gives one
/// quote, a single quote or the end of the text ends it.
pub open spec fn string_rest(s: Seq<u8>, p: int, acc: Seq<char>) -> (Seq<char>, int)
    decreases s.len() - p,
{
    if p < 0 || p >= s.len() || char_at(s, p) == '\0' {
        (acc, p)
    } else if char_at(s, p) == '\\' {
        let q = if p + 1 < s.len() {
            p + 2
        } else {
            p + 1
        };
        string_rest(s, q, acc.push('\\').push(char_at(s, p + 1)))
    } else if char_at(s, p) == '"' {
        if char_at(s, p + 1) == '"' {
            string_rest(s, p + 2, acc.push('"'))
        } else {
            (acc, p + 1)
        }
    } else {
        string_rest(s, p + 1, acc.push(char_at(s, p)))
    }
}

/// A string literal whose opening quote is at `i`.
pub open spec fn scan_string(s: Seq<u8>, i: int) -> (TokenView, int) {
    let (text, p) = string_rest(s, i + 1, Seq::empty());
    (TokenView::Str(text), p)
}

pub open spec fn is_word_char(c: char) -> bool {
    letter(c) || numeral(c) || c == '_' || c == '$'
}

/// Where the run of identifier characters that starts at `p` ends.
pub open spec fn word_end(s: Seq<u8>, p: int) -> int
    decreases s.len() - p,
{
    if 0 <= p < s.len() && is_word_char(char_at(s, p)) {
        word_end(s, p + 1)
    } else {
        p
    }
}

/// The bytes of `s` read as characters.
pub open spec fn chars_of(s: Seq<u8>) -> Seq<char> {
    s.map_values(|b: u8| b as char)
}

/// An identifier or a reserved word that starts at `i`.
pub open spec fn scan_word(s: Seq<u8>, i: int) -> (TokenView, int) {
    let e = word_end(s, i);
    (word_token(chars_of(s.subrange(i, e))), e)
}

/// How a numeric literal's scan ended: on a legacy spelling of a special
/// value, or with the digit text gathered and whether it is a float.
pub enum NumberScan {
    Special(FloatView),
    Digits { text: Seq<char>, is_float: bool },
}

pub open spec fn is_u(c: char) -> bool {
    c == 'u' || c == 'U'
}

pub open spec fn is_l(c: char) -> bool {
    c == 'l' || c == 'L'
}

/// The length of the integer-size suffix at `p`: one `u` at most, beside up
/// to two `l`, three letters in all.
pub open spec fn suffix_len(s: Seq<u8>, p: int) -> int {
    let u0 = is_u(char_at(s, p));
    let c1 = char_at(s, p + 1);
    if is_l(c1) || (!u0 && is_u(c1)) {
        let u1 = u0 || is_u(c1);
        let c2 = char_at(s, p + 2);
        if is_l(c2) || (!u1 && is_u(c2)) {
            3
        } else {
            2
        }
    } else {
        1
    }
}

/// The rest of a numeric literal from `p` on, with the digit text `sb`
/// gathered so far and what was seen of it.
pub open spec fn number_rest(
    s: Seq<u8>,
    p: int,
    sb: Seq<char>,
    hex: bool,
    octal: bool,
    base: u32,
    has_dot: bool,
    has_exp: bool,
) -> (NumberScan, int)
    decreases s.len() - p,
{
    let c = char_at(s, p);
    let done = (NumberScan::Digits { text: sb, is_float: has_dot || has_exp }, p);
    if p < 0 || p >= s.len() {
        done
    } else if c == '.' {
        if hex || octal || has_dot || char_at(s, p + 1) == 'x' || char_at(s, p + 1) == 'r' {
            done
        } else {
            number_rest(s, p + 1, sb.push('.'), hex, octal, base, true, has_exp)
        }
    } else if c == 'e' || c == 'E' {
        if hex {
            number_rest(s, p + 1, sb.push(c), hex, octal, base, has_dot, has_exp)
        } else if char_at(s, p + 1) == '-' || char_at(s, p + 1) == '+' {
            number_rest(
                s,
                p + 2,
                sb.push(c).push(char_at(s, p + 1)),
                hex,
                octal,
                base,
                has_dot,
                true,
            )
        } else {
            number_rest(s, p + 1, sb.push(c), hex, octal, base, has_dot, true)
        }
    } else if c == 'f' || c == 'F' {
        if hex {
            number_rest(s, p + 1, sb.push(c), hex, octal, base, has_dot, has_exp)
        } else {
            (NumberScan::Digits { text: sb, is_float: true }, p + 1)
        }
    } else if is_u(c) || is_l(c) {
        number_rest(s, p + suffix_len(s, p), sb, hex, octal, base, has_dot, has_exp)
    } else if c == '#' {
        if sb == seq!['1', '.'] && char_at(s, p + 1) == 'I' && char_at(s, p + 2) == 'N' && (
        char_at(s, p + 3) == 'D' || char_at(s, p + 3) == 'F') {
            (
                NumberScan::Special(
                    if char_at(s, p + 3) == 'F' {
                        FloatView::Infinity
                    } else {
                        FloatView::NotANumber
                    },
                ),
                p + 4,
            )
        } else {
            done
        }
    } else if is_digit_of(c, base) {
        number_rest(s, p + 1, sb.push(c), hex, octal, base, has_dot, has_exp)
    } else {
        done
    }
}

/// The token that a numeric literal's scan gives.
pub open spec fn number_token(scanned: (NumberScan, int), base: u32) -> (TokenView, int) {
    let p = scanned.1;
    match scanned.0 {
        NumberScan::Special(f) => (TokenView::Float(f), p),
        NumberScan::Digits { text, is_float } => if is_float {
            (TokenView::Float(FloatView::Decimal(text)), p)
        } else {
            (fixed(SyntaxTokenType::IntegerLiteralToken { value: integer_value(text, base) }), p)
        },
    }
}

/// A numeric literal that starts at `i`: the base comes from a `0` or `0x`
/// prefix, a point, an exponent or an `f` suffix make it a float.
pub open spec fn scan_number(s: Seq<u8>, i: int) -> (TokenView, int) {
    let c0 = char_at(s, i);
    let c1 = char_at(s, i + 1);
    let octal = c0 == '0' && is_digit_of(c1, 8);
    let hex = c0 == '0' && (c1 == 'x' || c1 == 'X');
    let base: u32 = if octal {
        8
    } else if hex {
        16
    } else {
        10
    };
    let start = if octal {
        i + 1
    } else if hex {
        i + 2
    } else {
        i
    };
    number_token(number_rest(s, start, Seq::empty(), hex, octal, base, false, false), base)
}

/// Anything that no other rule takes: an identifier or keyword, a number, or
/// a bad token that consumes nothing.
pub open spec fn scan_default(s: Seq<u8>, i: int) -> (TokenView, int) {
    let c = char_at(s, i);
    if letter(c) || c == '_' {
        scan_word(s, i)
    } else if is_digit_of(c, 10) {
        scan_number(s, i)
    } else {
        (fixed(SyntaxTokenType::BadToken), i)
    }
}

/// The token that starts at `i`, chosen by its first character, and where its
/// scan stopped. Single characters and whitespace consume nothing here: the
/// tokenizer moves past them itself.
pub open spec fn scan_token(s: Seq<u8>, i: int) -> (TokenView, int) {
    let c = char_at(s, i);
    if c == ' ' {
        (fixed(SyntaxTokenType::WhiteSpace), i)
    } else if c == '~' {
        (fixed(SyntaxTokenType::TildeToken), i)
    } else if c == '&' {
        scan_double_char_or_eq_op(
            s,
            i,
            SyntaxTokenType::AmpersandToken,
            SyntaxTokenType::AmpersandAmpersandToken,
            SyntaxTokenType::AmpersandEqualsToken,
        )
    } else if c == '|' {
        scan_double_char_or_eq_op(
            s,
            i,
            SyntaxTokenType::BarToken,
            SyntaxTokenType::BarBarToken,
            SyntaxTokenType::BarEqualsToken,
        )
    } else if c == '^' {
        scan_eq_op(s, i, SyntaxTokenType::CaretToken, SyntaxTokenType::CaretEqualsToken)
    } else if c == '?' {
        (fixed(SyntaxTokenType::QuestionToken), i)
    } else if c == '(' {
        (fixed(SyntaxTokenType::OpenParenToken), i)
    } else if c == ')' {
        (fixed(SyntaxTokenType::CloseParenToken), i)
    } else if c == '[' {
        (fixed(SyntaxTokenType::OpenBracketToken), i)
    } else if c == ']' {
        (fixed(SyntaxTokenType::CloseBracketToken), i)
    } else if c == '{' {
        (fixed(SyntaxTokenType::OpenBraceToken), i)
    } else if c == '}' {
        (fixed(SyntaxTokenType::CloseBraceToken), i)
    } else if c == '.' {
        if is_digit_of(char_at(s, i + 1), 10) {
            scan_number(s, i)
        } else {
            (fixed(SyntaxTokenType::DotToken), i)
        }
    } else if c == '+' {
        scan_double_char_or_eq_op(
            s,
            i,
            SyntaxTokenType::PlusToken,
            SyntaxTokenType::PlusPlusToken,
            SyntaxTokenType::PlusEqualsToken,
        )
    } else if c == '-' {
        scan_double_char_or_eq_op(
            s,
            i,
            SyntaxTokenType::MinusToken,
            SyntaxTokenType::MinusMinusToken,
            SyntaxTokenType::MinusEqualsToken,
        )
    } else if c == '*' {
        scan_eq_op(s, i, SyntaxTokenType::AsteriskToken, SyntaxTokenType::AsteriskEqualsToken)
    } else if c == '/' {
        scan_eq_op(s, i, SyntaxTokenType::SlashToken, SyntaxTokenType::SlashEqualsToken)
    } else if c == '%' {
        scan_eq_op(s, i, SyntaxTokenType::PercentToken, SyntaxTokenType::PercentEqualsToken)
    } else if c == ',' {
        (fixed(SyntaxTokenType::CommaToken), i)
    } else if c == ';' {
        (fixed(SyntaxTokenType::SemiToken), i)
    } else if c == ':' {
        scan_double_char(s, i, SyntaxTokenType::ColonToken, SyntaxTokenType::ColonColonToken)
    } else if c == '=' {
        scan_double_char(s, i, SyntaxTokenType::EqualsToken, SyntaxTokenType::EqualsEqualsToken)
    } else if c == '!' {
        scan_eq_op(s, i, SyntaxTokenType::NotToken, SyntaxTokenType::ExclamationEqualsToken)
    } else if c == '<' {
        scan_shift_op(
            s,
            i,
            SyntaxTokenType::LessThanToken,
            SyntaxTokenType::LessThanLessThanToken,
            SyntaxTokenType::LessThanEqualsToken,
            SyntaxTokenType::LessThanLessThanEqualsToken,
        )
    } else if c == '>' {
        scan_shift_op(
            s,
            i,
            SyntaxTokenType::GreaterThanToken,
            SyntaxTokenType::GreaterThanGreaterThanToken,
            SyntaxTokenType::GreaterThanEqualsToken,
            SyntaxTokenType::GreaterThanGreaterThanEqualsToken,
        )
    } else if c == '\'' {
        scan_char_literal(s, i)
    } else if c == '"' {
        scan_string(s, i)
    } else {
        scan_default(s, i)
    }
}

/// Where the tokenizer goes on after the token at `i`: past the token, or
/// one byte on where its scan consumed nothing.
pub open spec fn next_pos(s: Seq<u8>, i: int) -> int {
    let j = scan_token(s, i).1;
    if i < j <= s.len() {
        j
    } else {
        i + 1
    }
}

/// Whether the tokenizer stops at `i`: at the end of the text or at a null byte.
pub open spec fn stops_at(s: Seq<u8>, i: int) -> bool {
    !(0 <= i < s.len()) || char_at(s, i) == '\0'
}

pub open spec fn emitted(t: TokenView) -> Seq<TokenView> {
    if t == fixed(SyntaxTokenType::WhiteSpace) {
        Seq::empty()
    } else {
        seq![t]
    }
}

/// The tokens scanned from `i` on, whitespace left out.
pub open spec fn lex_from(s: Seq<u8>, i: int) -> Seq<TokenView>
    decreases s.len() - i,
{
    if stops_at(s, i) {
        Seq::empty()
    } else {
        emitted(scan_token(s, i).0) + lex_from(s, next_pos(s, i))
    }
}

/// Where the scan that starts at `i` stops.
pub open spec fn lex_end(s: Seq<u8>, i: int) -> int
    decreases s.len() - i,
{
    if stops_at(s, i) {
        i
    } else {
        lex_end(s, next_pos(s, i))
    }
}

/// The token sequence for the text `s` from position `i`: the tokens, then
/// one end-of-file token.
pub open spec fn tokenize(s: Seq<u8>, i: int) -> Seq<TokenView> {
    lex_from(s, i).push(fixed(SyntaxTokenType::EndOfFileToken))
}

} // verus!

verus! {

proof fn lemma_scan_token_not_end(s: Seq<u8>, i: int)
    ensures
        scan_token(s, i).0 != fixed(SyntaxTokenType::EndOfFileToken),
{
    let c = char_at(s, i);
    if c == '.' || is_digit_of(c, 10) {
        let r = scan_number(s, i);
    }
}

/// No token that the scan emits is whitespace or end-of-file, whatever the
/// text and wherever the scan starts.
pub proof fn lemma_lex_from_clean(s: Seq<u8>, i: int)
    ensures
        forall|k: int|
            0 <= k < lex_from(s, i).len() ==> {
                &&& #[trigger] lex_from(s, i)[k] != fixed(SyntaxTokenType::EndOfFileToken)
                &&& lex_from(s, i)[k] != fixed(SyntaxTokenType::WhiteSpace)
            },
    decreases s.len() - i,
{
    if !stops_at(s, i) {
        lemma_scan_token_not_end(s, i);
        lemma_lex_from_clean(s, next_pos(s, i));
        let head = emitted(scan_token(s, i).0);
        let rest = lex_from(s, next_pos(s, i));
        assert forall|k: int| 0 <= k < lex_from(s, i).len() implies {
            &&& #[trigger] lex_from(s, i)[k] != fixed(SyntaxTokenType::EndOfFileToken)
            &&& lex_from(s, i)[k] != fixed(SyntaxTokenType::WhiteSpace)
        } by {
            if k >= head.len() {
                assert(lex_from(s, i)[k] == rest[k - head.len()]);
            }
        }
    }
}

/// Lexing is total: from any position of any text the token sequence ends in
/// an end-of-file token, and no other token of it is one.
pub proof fn lemma_single_end_of_file(s: Seq<u8>, i: int)
    ensures
        tokenize(s, i).len() >= 1,
        tokenize(s, i).last() == fixed(SyntaxTokenType::EndOfFileToken),
        forall|k: int|
            0 <= k < tokenize(s, i).len() - 1 ==> #[trigger] tokenize(s, i)[k] != fixed(
                SyntaxTokenType::EndOfFileToken,
            ),
{
    lemma_lex_from_clean(s, i);
    assert forall|k: int| 0 <= k < tokenize(s, i).len() - 1 implies #[trigger] tokenize(s, i)[k]
        != fixed(SyntaxTokenType::EndOfFileToken) by {
        assert(tokenize(s, i)[k] == lex_from(s, i)[k]);
    }
}

/// Whitespace is skipped, never emitted: a space is scanned as whitespace and
/// moves the cursor by exactly one byte, no token of a sequence is whitespace,
/// and on a text without null bytes the scan from any position in it consumes
/// every byte up to the end.
pub proof fn lemma_consumes_all_bytes(s: Seq<u8>, i: int)
    requires
        0 <= i <= s.len(),
        forall|k: int| 0 <= k < s.len() ==> s[k] != 0,
    ensures
        lex_end(s, i) == s.len(),
        forall|k: int|
            0 <= k < lex_from(s, i).len() ==> #[trigger] lex_from(s, i)[k] != fixed(
                SyntaxTokenType::WhiteSpace,
            ),
        char_at(s, i) == ' ' ==> scan_token(s, i).0 == fixed(SyntaxTokenType::WhiteSpace)
            && next_pos(s, i) == i + 1,
    decreases s.len() - i,
{
    lemma_lex_from_clean(s, i);
    if i < s.len() {
        assert(s[i] != 0);
        assert(char_at(s, i) != '\0');
        lemma_consumes_all_bytes(s, next_pos(s, i));
    }
}

} // verus!

verus! {

/// `t` is `s` with one byte in front.
pub open spec fn shifted(s: Seq<u8>, t: Seq<u8>) -> bool {
    &&& t.len() == s.len() + 1
    &&& forall|p: int| 0 <= p < s.len() ==> t[p + 1] == #[trigger] s[p]
}

proof fn lemma_char_at_shifted(s: Seq<u8>, t: Seq<u8>)
    requires
        shifted(s, t),
    ensures
        forall|p: int| 0 <= p ==> #[trigger] char_at(t, p + 1) == char_at(s, p),
{
    assert forall|p: int| 0 <= p implies #[trigger] char_at(t, p + 1) == char_at(s, p) by {
        if p < s.len() {
            assert(t[p + 1] == s[p]);
        }
    }
}

proof fn lemma_string_rest_shifted(s: Seq<u8>, t: Seq<u8>, p: int, acc: Seq<char>)
    requires
        shifted(s, t),
        0 <= p,
    ensures
        string_rest(t, p + 1, acc) == (string_rest(s, p, acc).0, string_rest(s, p, acc).1 + 1),
    decreases s.len() - p,
{
    lemma_char_at_shifted(s, t);
    assert(char_at(t, p + 1) == char_at(s, p));
    assert(char_at(t, p + 2) == char_at(s, p + 1));
    if p < s.len() && char_at(s, p) != '\0' {
        if char_at(s, p) == '\\' {
            let q = if p + 1 < s.len() {
                p + 2
            } else {
                p + 1
            };
            lemma_string_rest_shifted(s, t, q, acc.push('\\').push(char_at(s, p + 1)));
        } else if char_at(s, p) == '"' {
            if char_at(s, p + 1) == '"' {
                lemma_string_rest_shifted(s, t, p + 2, acc.push('"'));
            }
        } else {
            lemma_string_rest_shifted(s, t, p + 1, acc.push(char_at(s, p)));
        }
    }
}

proof fn lemma_word_end_shifted(s: Seq<u8>, t: Seq<u8>, p: int)
    requires
        shifted(s, t),
        0 <= p,
    ensures
        word_end(t, p + 1) == word_end(s, p) + 1,
    decreases s.len() - p,
{
    lemma_char_at_shifted(s, t);
    assert(char_at(t, p + 1) == char_at(s, p));
    if 0 <= p < s.len() && is_word_char(char_at(s, p)) {
        lemma_word_end_shifted(s, t, p + 1);
    }
}

proof fn lemma_number_rest_shifted(
    s: Seq<u8>,
    t: Seq<u8>,
    p: int,
    sb: Seq<char>,
    hex: bool,
    octal: bool,
    base: u32,
    has_dot: bool,
    has_exp: bool,
)
    requires
        shifted(s, t),
        0 <= p,
    ensures
        number_rest(t, p + 1, sb, hex, octal, base, has_dot, has_exp) == (
            number_rest(s, p, sb, hex, octal, base, has_dot, has_exp).0,
            number_rest(s, p, sb, hex, octal, base, has_dot, has_exp).1 + 1,
        ),
    decreases s.len() - p,
{
    lemma_char_at_shifted(s, t);
    assert(char_at(t, p + 1) == char_at(s, p));
    assert(char_at(t, p + 2) == char_at(s, p + 1));
    assert(char_at(t, p + 3) == char_at(s, p + 2));
    assert(char_at(t, p + 4) == char_at(s, p + 3));
    assert(suffix_len(t, p + 1) == suffix_len(s, p));
    let c = char_at(s, p);
    if 0 <= p < s.len() {
        if c == '.' {
            lemma_number_rest_shifted(s, t, p + 1, sb.push('.'), hex, octal, base, true, has_exp);
        } else if c == 'e' || c == 'E' {
            if hex {
                lemma_number_rest_shifted(
                    s,
                    t,
                    p + 1,
                    sb.push(c),
                    hex,
                    octal,
                    base,
                    has_dot,
                    has_exp,
                );
            } else if char_at(s, p + 1) == '-' || char_at(s, p + 1) == '+' {
                lemma_number_rest_shifted(
                    s,
                    t,
                    p + 2,
                    sb.push(c).push(char_at(s, p + 1)),
                    hex,
                    octal,
                    base,
                    has_dot,
                    true,
                );
            } else {
                lemma_number_rest_shifted(s, t, p + 1, sb.push(c), hex, octal, base, has_dot, true);
            }
        } else if c == 'f' || c == 'F' {
            lemma_number_rest_shifted(s, t, p + 1, sb.push(c), hex, octal, base, has_dot, has_exp);
        } else if is_u(c) || is_l(c) {
            lemma_number_rest_shifted(
                s,
                t,
                p + suffix_len(s, p),
                sb,
                hex,
                octal,
                base,
                has_dot,
                has_exp,
            );
        } else if is_digit_of(c, base) {
            lemma_number_rest_shifted(s, t, p + 1, sb.push(c), hex, octal, base, has_dot, has_exp);
        }
    }
}

proof fn lemma_scan_token_shifted(s: Seq<u8>, t: Seq<u8>, i: int)
    requires
        shifted(s, t),
        0 <= i < s.len(),
    ensures
        scan_token(t, i + 1) == (scan_token(s, i).0, scan_token(s, i).1 + 1),
        next_pos(t, i + 1) == next_pos(s, i) + 1,
{
    lemma_char_at_shifted(s, t);
    assert(char_at(t, i + 1) == char_at(s, i));
    assert(char_at(t, i + 2) == char_at(s, i + 1));
    assert(char_at(t, i + 3) == char_at(s, i + 2));
    assert(doubled_end(t, i + 1) == doubled_end(s, i) + 1);
    let c0 = char_at(s, i);
    let c1 = char_at(s, i + 1);
    let octal = c0 == '0' && is_digit_of(c1, 8);
    let hex = c0 == '0' && (c1 == 'x' || c1 == 'X');
    let base: u32 = if octal {
        8
    } else if hex {
        16
    } else {
        10
    };
    let start = if octal {
        i + 1
    } else if hex {
        i + 2
    } else {
        i
    };
    lemma_number_rest_shifted(s, t, start, Seq::empty(), hex, octal, base, false, false);
    lemma_string_rest_shifted(s, t, i + 1, Seq::empty());
    lemma_word_end_shifted(s, t, i);
    let e = word_end(s, i);
    assert(chars_of(t.subrange(i + 1, e + 1)) =~= chars_of(s.subrange(i, e))) by {
        lemma_word_end_bounds(s, i);
    }
}

proof fn lemma_word_end_bounds(s: Seq<u8>, p: int)
    requires
        0 <= p,
    ensures
        p <= word_end(s, p),
        p <= s.len() ==> word_end(s, p) <= s.len(),
    decreases s.len() - p,
{
    if 0 <= p < s.len() && is_word_char(char_at(s, p)) {
        lemma_word_end_bounds(s, p + 1);
    }
}

proof fn lemma_lex_shifted(s: Seq<u8>, t: Seq<u8>, i: int)
    requires
        shifted(s, t),
        0 <= i,
    ensures
        lex_from(t, i + 1) == lex_from(s, i),
        lex_end(t, i + 1) == lex_end(s, i) + 1,
    decreases s.len() - i,
{
    lemma_char_at_shifted(s, t);
    assert(char_at(t, i + 1) == char_at(s, i));
    assert(stops_at(t, i + 1) == stops_at(s, i));
    if !stops_at(s, i) {
        lemma_scan_token_shifted(s, t, i);
        lemma_lex_shifted(s, t, next_pos(s, i));
    }
}

/// A space in front of a text changes nothing but the cursor: the tokens are
/// those of the text alone, and the scan ends one byte further on.
pub proof fn lemma_leading_space(s: Seq<u8>)
    ensures
        lex_from(seq![32u8] + s, 0) == lex_from(s, 0),
        tokenize(seq![32u8] + s, 0) == tokenize(s, 0),
        lex_end(seq![32u8] + s, 0) == lex_end(s, 0) + 1,
{
    let t = seq![32u8] + s;
    assert(shifted(s, t)) by {
        assert forall|p: int| 0 <= p < s.len() implies t[p + 1] == #[trigger] s[p] by {}
    }
    assert(char_at(t, 0) == ' ');
    assert(scan_token(t, 0) == (fixed(SyntaxTokenType::WhiteSpace), 0int));
    assert(next_pos(t, 0) == 1);
    lemma_lex_shifted(s, t, 0);
    assert(lex_from(t, 0) =~= emitted(scan_token(t, 0).0) + lex_from(t, 1));
}

} // verus!
