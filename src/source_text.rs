use vstd::prelude::*;
use vstd::string::StringSliceAdditionalSpecFns;

verus! {

/// The character that the byte at `i` of `s` reads as, or the null character
/// when `i` lies outside the text.
pub open spec fn char_at(s: Seq<u8>, i: int) -> char {
    if 0 <= i < s.len() {
        s[i] as char
    } else {
        '\0'
    }
}

/// The text that `String::from_utf8_lossy` makes of the bytes `b`.
pub uninterp spec fn utf8_lossy_of(b: Seq<u8>) -> Seq<char>;

/// Whether every byte of `b` is ASCII.
pub open spec fn all_ascii(b: Seq<u8>) -> bool {
    forall|k: int| 0 <= k < b.len() ==> #[trigger] b[k] < 128
}

/// The bytes of `b` read one by one as characters.
pub open spec fn byte_chars(b: Seq<u8>) -> Seq<char> {
    b.map_values(|x: u8| x as char)
}

/// Relies on `String::from_utf8_lossy`: the text depends on the bytes alone;
/// ill-formed sequences read as U+FFFD, and valid UTF-8 is kept as it is, so
/// ASCII bytes give the same characters.
#[verifier::external_body]
fn decode_utf8_lossy(b: &Vec<u8>) -> (r: String)
    ensures
        r@ == utf8_lossy_of(b@),
        all_ascii(b@) ==> r@ == byte_chars(b@),
{
    String::from_utf8_lossy(b.as_slice()).into_owned()
}

/// A byte buffer with a scan position. Every read past the end gives the null
/// character, so callers may look ahead without bounds checks.
pub struct SourceText {
    text: Vec<u8>,
    char_index: usize,
}

impl SourceText {
    /// The bytes being scanned.
    pub closed spec fn bytes(&self) -> Seq<u8> {
        self.text@
    }

    /// The scan position.
    pub closed spec fn index(&self) -> int {
        self.char_index as int
    }

    pub proof fn lemma_index_nonneg(&self)
        ensures
            0 <= self.index(),
    {
    }

    /// A cursor at the start of `bytes`.
    pub fn from_bytes(bytes: Vec<u8>) -> (r: SourceText)
        ensures
            r.bytes() == bytes@,
            r.index() == 0,
    {
        SourceText { text: bytes, char_index: 0 }
    }

    /// A cursor at the start of the bytes of `text`.
    pub fn from_str(text: &str) -> (r: SourceText)
        ensures
            r.bytes() == text.spec_bytes(),
            r.index() == 0,
            text.is_ascii() ==> all_ascii(r.bytes()) && byte_chars(r.bytes()) == text@,
    {
        proof {
            broadcast use vstd::string::is_ascii_spec_bytes;

            if text.is_ascii() {
                assert(all_ascii(text.spec_bytes())) by {
                    let b = text.spec_bytes();
                    assert forall|k: int| 0 <= k < b.len() implies #[trigger] b[k] < 128 by {
                        let c = text@[k];
                        assert('\0' <= c <= '\u{7f}');
                        let n = c as u32;
                        assert((n as u8) < 128) by (bit_vector)
                            requires
                                n < 128,
                        ;
                        assert((c as u8) < 128);
                    }
                }
                assert(byte_chars(text.spec_bytes()) =~= text@) by {
                    assert forall|k: int| 0 <= k < text@.len() implies #[trigger] byte_chars(
                        text.spec_bytes(),
                    )[k] == text@[k] by {
                        let c = text@[k];
                        assert('\0' <= c <= '\u{7f}');
                        let n = c as u32;
                        assert((n as u8) as u32 == n && (n as u8) < 128) by (bit_vector)
                            requires
                                n < 128,
                        ;
                        assert((c as u8) as char == c);
                    }
                }
            }
        }
        let b = text.as_bytes();
        SourceText { text: vstd::slice::slice_to_vec(b), char_index: 0 }
    }

    /// Moves one byte forward; at or past the end the position stays.
    pub fn next_char(&mut self)
        ensures
            final(self).bytes() == old(self).bytes(),
            final(self).index() == if old(self).index() < old(self).bytes().len() {
                old(self).index() + 1
            } else {
                old(self).index()
            },
    {
        if self.char_index < self.text.len() {
            self.char_index = self.char_index + 1;
        }
    }

    /// Moves one byte back.
    pub fn prev_char(&mut self)
        requires
            old(self).index() > 0,
        ensures
            final(self).bytes() == old(self).bytes(),
            final(self).index() == old(self).index() - 1,
    {
        self.char_index = self.char_index - 1;
    }

    /// The character one past the position.
    pub fn peek(&self) -> (r: char)
        ensures
            r == char_at(self.bytes(), self.index() + 1),
    {
        self.peek_at(1)
    }

    /// The character `offset` bytes past the position.
    pub fn peek_at(&self, offset: usize) -> (r: char)
        ensures
            r == char_at(self.bytes(), self.index() + offset),
    {
        let len = self.text.len();
        if offset >= len || self.char_index >= len - offset {
            '\0'
        } else {
            self.text[self.char_index + offset] as char
        }
    }

    /// The character at the position.
    pub fn current_char(&self) -> (r: char)
        ensures
            r == char_at(self.bytes(), self.index() as int),
    {
        self.peek_at(0)
    }

    pub fn reached_eof(&self) -> (r: bool)
        ensures
            r == (self.index() >= self.bytes().len()),
    {
        self.char_index >= self.text.len()
    }

    /// The whole text, decoded as UTF-8.
    pub fn to_string(&self) -> (r: String)
        ensures
            r@ == utf8_lossy_of(self.bytes()),
            all_ascii(self.bytes()) ==> r@ == byte_chars(self.bytes()),
    {
        decode_utf8_lossy(&self.text)
    }

    pub fn get_char_index(&self) -> (r: usize)
        ensures
            r == self.index(),
    {
        self.char_index
    }
}

} // verus!
