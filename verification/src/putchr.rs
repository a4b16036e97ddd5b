//! Putting characters out as UTF-8.

use vstd::array::{array_as_slice, spec_array_as_slice};
use vstd::prelude::*;
use vstd::std_specs::convert::{FromSpecImpl, IntoSpec};
use vstd::string::*;
use vstd::utf8::encode_utf8;

verus! {

/// One character to put out: the character itself, or its code below 256.
#[derive(Debug, Clone, Copy)]
pub enum FtChar {
    Char(char),
    Int(u8),
}

impl From<char> for FtChar {
    fn from(c: char) -> (r: FtChar) {
        FtChar::Char(c)
    }
}

impl FromSpecImpl<char> for FtChar {
    open spec fn obeys_from_spec() -> bool {
        true
    }

    open spec fn from_spec(c: char) -> FtChar {
        FtChar::Char(c)
    }
}

impl From<u8> for FtChar {
    fn from(n: u8) -> (r: FtChar) {
        FtChar::Int(n)
    }
}

impl FromSpecImpl<u8> for FtChar {
    open spec fn obeys_from_spec() -> bool {
        true
    }

    open spec fn from_spec(n: u8) -> FtChar {
        FtChar::Int(n)
    }
}

/// The character that an input stands for.
pub open spec fn char_of(input: FtChar) -> char {
    match input {
        FtChar::Char(c) => c,
        FtChar::Int(n) => n as char,
    }
}

/// The characters with the given codes, each below 256.
pub open spec fn chars_of(codes: Seq<u8>) -> Seq<char> {
    codes.map_values(|n: u8| n as char)
}

/// Appends `bytes` to `out`.
fn put_bytes(bytes: &[u8], out: &mut Vec<u8>)
    ensures
        final(out)@ == old(out)@ + bytes@,
{
    let mut i: usize = 0;
    while i < bytes.len()
        invariant
            i <= bytes.len(),
            out@ == old(out)@ + bytes@.take(i as int),
        decreases bytes.len() - i,
    {
        out.push(bytes[i]);
        assert(out@ =~= old(out)@ + bytes@.take(i + 1));
        i += 1;
    }
    assert(bytes@.take(bytes.len() as int) =~= bytes@);
}

/// Puts one character out as UTF-8 at the end of `out` and gives the number
/// of bytes that it took.
pub fn ft_putchr<T: Into<FtChar>>(input: T, out: &mut Vec<u8>) -> (written: usize)
    ensures
        final(out)@.len() == old(out)@.len() + written,
        T::obeys_into_spec() ==> final(out)@ == old(out)@ + encode_utf8(
            seq![char_of(input.into_spec())],
        ),
{
    let c = match input.into() {
        FtChar::Char(c) => c,
        FtChar::Int(n) => n as char,
    };
    let mut text = String::new();
    text.push(c);
    let bytes = text.as_str().as_bytes();
    assert(text@ =~= seq![c]);
    put_bytes(bytes, out);
    bytes.len()
}

/// Puts one character out as UTF-8 at the end of `out`.
pub fn ft_putchar<T: Into<FtChar>>(input: T, out: &mut Vec<u8>)
    ensures
        T::obeys_into_spec() ==> final(out)@ == old(out)@ + encode_utf8(
            seq![char_of(input.into_spec())],
        ),
{
    let _ = ft_putchr(input, out);
}

/// Characters to put out: a string, or the codes of characters below 256.
pub enum FtChrsInput<'a> {
    Str(&'a str),
    Bytes(&'a [u8]),
}

impl<'a> From<&'a str> for FtChrsInput<'a> {
    fn from(val: &'a str) -> (r: FtChrsInput<'a>) {
        FtChrsInput::Str(val)
    }
}

impl<'a> FromSpecImpl<&'a str> for FtChrsInput<'a> {
    open spec fn obeys_from_spec() -> bool {
        true
    }

    open spec fn from_spec(val: &'a str) -> FtChrsInput<'a> {
        FtChrsInput::Str(val)
    }
}

impl<'a> From<&'a [u8]> for FtChrsInput<'a> {
    fn from(val: &'a [u8]) -> (r: FtChrsInput<'a>) {
        FtChrsInput::Bytes(val)
    }
}

impl<'a> FromSpecImpl<&'a [u8]> for FtChrsInput<'a> {
    open spec fn obeys_from_spec() -> bool {
        true
    }

    open spec fn from_spec(val: &'a [u8]) -> FtChrsInput<'a> {
        FtChrsInput::Bytes(val)
    }
}

impl<'a, const N: usize> From<&'a [u8; N]> for FtChrsInput<'a> {
    fn from(val: &'a [u8; N]) -> (r: FtChrsInput<'a>) {
        FtChrsInput::Bytes(array_as_slice(val))
    }
}

impl<'a, const N: usize> FromSpecImpl<&'a [u8; N]> for FtChrsInput<'a> {
    open spec fn obeys_from_spec() -> bool {
        true
    }

    open spec fn from_spec(val: &'a [u8; N]) -> FtChrsInput<'a> {
        FtChrsInput::Bytes(spec_array_as_slice(val))
    }
}

/// The characters that an input stands for.
pub open spec fn text_of(input: FtChrsInput) -> Seq<char> {
    match input {
        FtChrsInput::Str(text) => text@,
        FtChrsInput::Bytes(codes) => chars_of(codes@),
    }
}

/// Puts a run of characters out as UTF-8 at the end of `out` and gives the
/// number of bytes that it took.
pub fn ft_putchrs<T: Into<FtChrsInput<'static>>>(input: T, out: &mut Vec<u8>) -> (written: usize)
    ensures
        final(out)@.len() == old(out)@.len() + written,
        T::obeys_into_spec() ==> final(out)@ == old(out)@ + encode_utf8(
            text_of(input.into_spec()),
        ),
{
    match input.into() {
        FtChrsInput::Str(text) => {
            let bytes = text.as_bytes();
            put_bytes(bytes, out);
            bytes.len()
        },
        FtChrsInput::Bytes(codes) => {
            let mut text = String::new();
            let mut i: usize = 0;
            while i < codes.len()
                invariant
                    i <= codes.len(),
                    text@ == chars_of(codes@.take(i as int)),
                decreases codes.len() - i,
            {
                text.push(codes[i] as char);
                assert(text@ =~= chars_of(codes@.take(i + 1)));
                i += 1;
            }
            assert(codes@.take(codes.len() as int) =~= codes@);
            let bytes = text.as_str().as_bytes();
            put_bytes(bytes, out);
            bytes.len()
        },
    }
}

} // verus!
