//! Character-level string helpers shared by the framing and formatting code.

use vstd::prelude::*;
use vstd::string::*;

verus! {

/// Appends one character to a `String` (`String::push`).
#[verifier::external_body]
pub(crate) fn push_char(s: &mut String, c: char)
    ensures
        final(s)@ == old(s)@.push(c),
{
    s.push(c);
}

/// String slice equality (`PartialEq` for `str`): equal exactly when the
/// two hold the same characters.
#[verifier::external_body]
pub(crate) fn str_eq(a: &str, b: &str) -> (r: bool)
    ensures
        r == (a@ == b@),
{
    a == b
}

/// The decimal digits of `n`, most significant first, without sign.
pub open spec fn decimal(n: nat) -> Seq<char>
    decreases n,
{
    if n < 10 {
        seq![digit_char(n)]
    } else {
        decimal(n / 10).push(digit_char(n % 10))
    }
}

/// The ASCII digit for a value below ten.
pub open spec fn digit_char(d: nat) -> char {
    if d == 0 { '0' }
    else if d == 1 { '1' }
    else if d == 2 { '2' }
    else if d == 3 { '3' }
    else if d == 4 { '4' }
    else if d == 5 { '5' }
    else if d == 6 { '6' }
    else if d == 7 { '7' }
    else if d == 8 { '8' }
    else { '9' }
}

/// The ASCII digit for a value below ten.
pub fn digit_char_exec(d: u32) -> (c: char)
    requires
        d < 10,
    ensures
        c == digit_char(d as nat),
{
    digit(d as u128)
}

fn digit(d: u128) -> (c: char)
    requires
        d < 10,
    ensures
        c == digit_char(d as nat),
{
    if d == 0 { '0' }
    else if d == 1 { '1' }
    else if d == 2 { '2' }
    else if d == 3 { '3' }
    else if d == 4 { '4' }
    else if d == 5 { '5' }
    else if d == 6 { '6' }
    else if d == 7 { '7' }
    else if d == 8 { '8' }
    else { '9' }
}

/// Appends the decimal rendering of `n` to `out`.
pub fn push_decimal(out: &mut String, n: u128)
    ensures
        final(out)@ == old(out)@ + decimal(n as nat),
    decreases n,
{
    if n < 10 {
        push_char(out, digit(n));
    } else {
        push_decimal(out, n / 10);
        push_char(out, digit(n % 10));
    }
}

/// The decimal rendering of `n` as a new string.
pub fn decimal_string(n: u128) -> (s: String)
    ensures
        s@ == decimal(n as nat),
{
    let mut s = String::new();
    push_decimal(&mut s, n);
    s
}

/// Concatenation of a string with a literal.
pub fn join2(a: &str, b: &str) -> (s: String)
    ensures
        s@ == a@ + b@,
{
    let mut s = String::from_str(a);
    s.append(b);
    s
}

/// Values that can become an owned string.
pub trait IntoText: Sized {
    /// The characters of the value.
    spec fn text_view(&self) -> Seq<char>;

    /// Converts into a `String`.
    fn into_text(self) -> (s: String)
        ensures
            s@ == self.text_view(),
    ;
}

impl<'a> IntoText for &'a str {
    open spec fn text_view(&self) -> Seq<char> {
        self@
    }

    fn into_text(self) -> (s: String) {
        String::from_str(self)
    }
}

impl IntoText for String {
    open spec fn text_view(&self) -> Seq<char> {
        self@
    }

    fn into_text(self) -> (s: String) {
        self
    }
}

impl<'a> IntoText for &'a String {
    open spec fn text_view(&self) -> Seq<char> {
        self@
    }

    fn into_text(self) -> (s: String) {
        self.clone()
    }
}

/// The number of bytes UTF-8 uses for `c`.
pub open spec fn utf8_width(c: char) -> nat {
    if (c as u32) < 0x80 {
        1
    } else if (c as u32) < 0x800 {
        2
    } else if (c as u32) < 0x10000 {
        3
    } else {
        4
    }
}

/// The number of bytes UTF-8 uses for `s`.
pub open spec fn utf8_size(s: Seq<char>) -> nat
    decreases s.len(),
{
    if s.len() == 0 {
        0
    } else {
        utf8_size(s.drop_last()) + utf8_width(s.last())
    }
}

/// The number of bytes UTF-8 uses for `c` (`char::len_utf8`).
pub fn char_width(c: char) -> (w: usize)
    ensures
        w == utf8_width(c),
{
    let v = c as u32;
    if v < 0x80 {
        1
    } else if v < 0x800 {
        2
    } else if v < 0x10000 {
        3
    } else {
        4
    }
}

/// The longest prefix of `s` that fits in `max_bytes` bytes of UTF-8,
/// cutting only between characters.
pub fn truncate_utf8(s: &str, max_bytes: usize) -> (r: String)
    ensures
        exists|k: int|
            #![trigger s@.take(k)]
            0 <= k <= s@.len() && r@ == s@.take(k) && utf8_size(s@.take(k)) <= max_bytes && (k
                == s@.len() || utf8_size(s@.take(k + 1)) > max_bytes),
{
    let n = s.unicode_len();
    let mut i: usize = 0;
    let mut bytes: usize = 0;
    while i < n
        invariant
            i <= n,
            n == s@.len(),
            bytes == utf8_size(s@.take(i as int)),
            bytes <= max_bytes,
        decreases n - i,
    {
        let c = s.get_char(i);
        let w = char_width(c);
        proof {
            assert(s@.take(i + 1).drop_last() =~= s@.take(i as int));
        }
        if w > max_bytes - bytes {
            let r = String::from_str(s.substring_char(0, i));
            assert(r@ =~= s@.take(i as int));
            return r;
        }
        bytes = bytes + w;
        i = i + 1;
    }
    assert(s@.take(n as int) =~= s@);
    String::from_str(s)
}

} // verus!
