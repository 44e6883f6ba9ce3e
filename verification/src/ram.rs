use vstd::prelude::*;
use crate::text::{ascii_lower, chars_of, parse_bounded, parse_u64, unsigned_value};

verus! {

/// Why a RAM amount was refused.
#[derive(PartialEq, Eq, Structural, Debug, Clone, Copy)]
pub enum RamError {
    /// The amount is the empty string.
    Empty,
    /// The amount is not a number followed by a unit.
    InvalidFormat,
}

/// A unit letter of a RAM amount, in either case: `G`, `M` or `K`.
pub open spec fn is_ram_unit(c: char) -> bool {
    c == 'G' || c == 'g' || c == 'M' || c == 'm' || c == 'K' || c == 'k'
}

/// A RAM amount as `java -Xmx` takes it: a number that fits in a `u64`, then a unit letter.
pub open spec fn is_valid_ram(s: Seq<char>) -> bool {
    &&& s.len() >= 2
    &&& is_ram_unit(s.last())
    &&& parse_u64(s.drop_last()) is Some
}

/// The unit letter is read without regard to case: a character is a unit exactly when its
/// ASCII lower-case form is (so `m` is a unit as `M` is, and `g`, `k` as `G`, `K`).
pub proof fn lemma_ram_unit_case_insensitive(c: char)
    ensures
        is_ram_unit(c) <==> is_ram_unit(ascii_lower(c)),
        is_ram_unit(c) <==> is_ram_unit(ascii_upper(c)),
{
}

/// The ASCII capital of a small letter; every other character is left as it is.
pub open spec fn ascii_upper(c: char) -> char {
    if 'a' <= c <= 'z' {
        ((c as u32) - 32) as char
    } else {
        c
    }
}

/// Every amount made of a number that fits in a `u64` and one of the letters G, M, K, in
/// either case, is valid; and an amount stays valid, or invalid, when its last letter
/// changes case.
pub proof fn lemma_number_and_unit_is_valid(num: Seq<char>, c: char)
    ensures
        parse_u64(num) is Some && (c == 'G' || c == 'g' || c == 'M' || c == 'm' || c == 'K'
            || c == 'k') ==> is_valid_ram(num.push(c)),
        is_valid_ram(num.push(c)) <==> is_valid_ram(num.push(ascii_lower(c))),
        is_valid_ram(num.push(c)) <==> is_valid_ram(num.push(ascii_upper(c))),
{
    assert(num.push(c).drop_last() =~= num);
    assert(num.push(ascii_lower(c)).drop_last() =~= num);
    assert(num.push(ascii_upper(c)).drop_last() =~= num);
    if parse_u64(num) is Some {
        assert(unsigned_value(num) is Some);
        assert(num.len() >= 1);
    }
}

/// Checks a RAM amount such as `2G` or `512M`.
/// The last character must be ASCII: the amount is cut one byte before its end.
pub fn validate_ram(ram: &str) -> (r: Result<(), RamError>)
    requires
        ram@.len() == 0 || (ram@.last() as u32) < 128,
    ensures
        ram@.len() == 0 ==> r == Err::<(), RamError>(RamError::Empty),
        ram@.len() > 0 ==> (r is Ok <==> is_valid_ram(ram@)),
        ram@.len() > 0 && !is_valid_ram(ram@) ==> r == Err::<(), RamError>(RamError::InvalidFormat),
{
    let v = chars_of(ram);
    let n = v.len();
    if n == 0 {
        return Err(RamError::Empty);
    }
    let last = v[n - 1];
    let unit_ok = last == 'G' || last == 'g' || last == 'M' || last == 'm' || last == 'K'
        || last == 'k';
    if !unit_ok || n == 1 {
        return Err(RamError::InvalidFormat);
    }
    let num = parse_bounded(&v, 0, n - 1, 0xffff_ffff_ffff_ffff);
    proof {
        assert(v@.subrange(0, n - 1) =~= ram@.drop_last());
    }
    if num.is_none() {
        return Err(RamError::InvalidFormat);
    }
    Ok(())
}

} // verus!
