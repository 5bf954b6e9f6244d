//! A growable, owned text buffer, and read-only views into it.
//!
//! A view borrows the buffer, so the buffer cannot be changed or replaced
//! while a view into it is alive: the borrow checker rejects such code.
use vstd::prelude::*;
use vstd::utf8::{decode_utf8, encode_utf8, is_ascii_chars, is_char_boundary};

verus! {

broadcast use vstd::utf8::group_utf8_lib;

/// A growable text buffer that supports appending and clearing.
pub struct TextBuffer {
    text: String,
}

impl View for TextBuffer {
    type V = Seq<char>;

    closed spec fn view(&self) -> Seq<char> {
        self.text@
    }
}

/// Taking the first `n` bytes of the encoding of ASCII text is taking its
/// first `n` characters.
pub proof fn lemma_ascii_byte_prefix(s: Seq<char>, n: int)
    requires
        is_ascii_chars(s),
        0 <= n <= s.len(),
    ensures
        decode_utf8(encode_utf8(s).subrange(0, n)) == s.subrange(0, n),
{
    let p = s.subrange(0, n);
    assert(is_ascii_chars(p));
    assert(encode_utf8(s).subrange(0, n) =~= encode_utf8(p));
}

impl TextBuffer {
    /// An empty buffer.
    pub fn new() -> (b: TextBuffer)
        ensures
            b@ == Seq::<char>::empty(),
    {
        TextBuffer { text: String::new() }
    }

    /// Removes all the text.
    pub fn clear(&mut self)
        ensures
            final(self)@ == Seq::<char>::empty(),
    {
        self.text = String::new();
    }

    /// Appends `s` at the end.
    pub fn push_str(&mut self, s: &str)
        ensures
            final(self)@ == old(self)@ + s@,
    {
        self.text.append(s);
    }

    /// A view of the whole text.
    pub fn as_str(&self) -> (r: &str)
        ensures
            r@ == self@,
    {
        self.text.as_str()
    }

    /// A view of the first `n` bytes of the text's UTF-8 encoding, which must
    /// end on a character boundary. For ASCII text these are its first `n`
    /// characters.
    pub fn prefix(&self, n: usize) -> (r: &str)
        requires
            is_char_boundary(encode_utf8(self@), n as int),
        ensures
            encode_utf8(r@) == encode_utf8(self@).subrange(0, n as int),
            r@ == decode_utf8(encode_utf8(self@).subrange(0, n as int)),
            is_ascii_chars(self@) ==> r@ == self@.subrange(0, n as int),
    {
        let whole = self.text.as_str();
        let (head, _tail) = whole.split_at(n);
        proof {
            assert(decode_utf8(encode_utf8(head@)) == head@);
            if is_ascii_chars(self@) {
                let bytes = encode_utf8(self@);
                assert(bytes.len() == self@.len());
                assert(n <= self@.len()) by {
                    assert(is_char_boundary(bytes, n as int));
                }
                lemma_ascii_byte_prefix(self@, n as int);
            }
        }
        head
    }
}

} // verus!
