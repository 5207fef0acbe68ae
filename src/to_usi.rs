use vstd::prelude::*;

verus! {

/// The decimal digits, in order.
pub open spec fn digit_chars() -> Seq<char> {
    seq!['0', '1', '2', '3', '4', '5', '6', '7', '8', '9']
}

/// The character of the decimal digit `d`, for `d` in `0..10`.
pub open spec fn digit_char(d: int) -> char {
    digit_chars()[d]
}

/// The character of the decimal digit `d`.
pub fn digit(d: u8) -> (r: char)
    requires
        d < 10,
    ensures
        r == digit_char(d as int),
{
    let table = ['0', '1', '2', '3', '4', '5', '6', '7', '8', '9'];
    assert(table@ =~= digit_chars());
    table[d as usize]
}

/// The decimal text of `n`, without leading zeros.
pub open spec fn decimal(n: nat) -> Seq<char>
    decreases n,
{
    if n < 10 {
        seq![digit_char(n as int)]
    } else {
        decimal(n / 10) + seq![digit_char((n % 10) as int)]
    }
}

/// Appends the decimal text of `n`.
pub fn push_decimal(n: u16, sink: &mut Vec<char>)
    ensures
        final(sink)@ == old(sink)@ + decimal(n as nat),
    decreases n,
{
    if n >= 10 {
        push_decimal(n / 10, sink);
    }
    sink.push(digit((n % 10) as u8));
    assert(sink@ =~= old(sink)@ + decimal(n as nat));
}

/// Collects characters into a `String`.
///
/// Relies on `String: FromIterator<&char>`, which appends the characters in order.
#[verifier::external_body]
pub(crate) fn string_from_chars(chars: &Vec<char>) -> (r: String)
    ensures
        r@ == chars@,
{
    chars.iter().collect()
}

/// A value with a USI (Universal Shogi Interface) text form.
pub trait ToUsi {
    /// The USI text of `self`.
    spec fn usi(&self) -> Seq<char>;

    /// Appends the USI text of `self` to `sink`.
    fn to_usi(&self, sink: &mut Vec<char>)
        ensures
            final(sink)@ == old(sink)@ + self.usi(),
    ;

    /// Returns the USI text of `self`.
    fn to_usi_owned(&self) -> (r: String)
        ensures
            r@ == self.usi(),
    {
        let mut chars: Vec<char> = Vec::new();
        self.to_usi(&mut chars);
        assert(chars@ =~= self.usi());
        string_from_chars(&chars)
    }
}

} // verus!
