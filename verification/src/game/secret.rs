use vstd::prelude::*;

verus! {

/// The number of binary digits of a secret.
pub const BIT_COUNT: usize = 8;

/// What the binary digit at place `i` is worth. The first place is the most
/// significant: the places are worth 128, 64, 32, 16, 8, 4, 2 and 1.
pub open spec fn place_value(i: int) -> int
    decreases 7 - i,
{
    if i >= 7 {
        1
    } else {
        2 * place_value(i + 1)
    }
}

/// The binary digits of `number`, most significant first.
pub open spec fn secret_bits(number: int) -> Seq<u8> {
    Seq::new(BIT_COUNT as nat, |i: int| ((number / place_value(i)) % 2) as u8)
}

/// The number that binary digits spell when they are read in order, each
/// digit doubling what was read before it.
pub open spec fn replayed(digits: Seq<u8>) -> int
    decreases digits.len(),
{
    if digits.len() == 0 {
        0
    } else {
        2 * replayed(digits.drop_last()) + digits.last()
    }
}

/// The character of a decimal digit.
pub open spec fn digit_char(digit: int) -> char {
    seq!['0', '1', '2', '3', '4', '5', '6', '7', '8', '9'][digit]
}

/// The decimal digits of `number`, without leading zeros.
pub open spec fn decimal(number: nat) -> Seq<char>
    decreases number,
{
    if number < 10 {
        seq![digit_char(number as int)]
    } else {
        decimal(number / 10).push(digit_char((number % 10) as int))
    }
}

/// The binary digits of a number spell that number again: read in order,
/// the digits that the game compares against give back the secret.
pub proof fn lemma_bits_spell_number(number: u8)
    ensures
        secret_bits(number as int).len() == BIT_COUNT,
        forall|i: int| 0 <= i < BIT_COUNT ==> secret_bits(number as int)[i] <= 1,
        replayed(secret_bits(number as int)) == number,
{
    let bits = secret_bits(number as int);
    reveal_with_fuel(place_value, 9);
    assert(place_value(0) == 128 && place_value(1) == 64 && place_value(2) == 32 && place_value(3)
        == 16 && place_value(4) == 8 && place_value(5) == 4 && place_value(6) == 2 && place_value(7)
        == 1);
    let b7 = bits.take(7);
    let b6 = bits.take(6);
    let b5 = bits.take(5);
    let b4 = bits.take(4);
    let b3 = bits.take(3);
    let b2 = bits.take(2);
    let b1 = bits.take(1);
    let b0 = bits.take(0);
    assert(bits.drop_last() =~= b7);
    assert(b7.drop_last() =~= b6);
    assert(b6.drop_last() =~= b5);
    assert(b5.drop_last() =~= b4);
    assert(b4.drop_last() =~= b3);
    assert(b3.drop_last() =~= b2);
    assert(b2.drop_last() =~= b1);
    assert(b1.drop_last() =~= b0);
    assert(replayed(b0) == 0);
    assert(replayed(b1) == bits[0]);
    assert(replayed(b2) == 2 * replayed(b1) + bits[1]);
    assert(replayed(b3) == 2 * replayed(b2) + bits[2]);
    assert(replayed(b4) == 2 * replayed(b3) + bits[3]);
    assert(replayed(b5) == 2 * replayed(b4) + bits[4]);
    assert(replayed(b6) == 2 * replayed(b5) + bits[5]);
    assert(replayed(b7) == 2 * replayed(b6) + bits[6]);
    assert(replayed(bits) == 2 * replayed(b7) + bits[7]);
}

/// The binary digits of `number`, most significant first.
pub fn to_bits(number: u8) -> (bits: Vec<u8>)
    ensures
        bits@ == secret_bits(number as int),
        bits.len() == BIT_COUNT,
{
    let mut bits: Vec<u8> = Vec::with_capacity(8);
    let mut worth: u8 = 128;
    let mut i: usize = 0;
    proof {
        reveal_with_fuel(place_value, 9);
    }
    while i < 8
        invariant
            i <= 8,
            bits.len() == i,
            i < 8 ==> worth == place_value(i as int),
            forall|j: int| 0 <= j < i ==> bits@[j] == secret_bits(number as int)[j],
        decreases 8 - i,
    {
        proof {
            reveal_with_fuel(place_value, 9);
        }
        bits.push((number / worth) % 2);
        worth = worth / 2;
        i = i + 1;
    }
    assert(bits@ =~= secret_bits(number as int));
    bits
}

/// What the eight places are worth, first place first.
pub fn place_values() -> (worths: Vec<i32>)
    ensures
        worths.len() == BIT_COUNT,
        forall|i: int| 0 <= i < BIT_COUNT ==> worths@[i] == place_value(i),
{
    proof {
        reveal_with_fuel(place_value, 9);
    }
    vec![128, 64, 32, 16, 8, 4, 2, 1]
}

/// The character of a decimal digit.
fn to_digit_char(digit: u8) -> (c: char)
    requires
        digit <= 9,
    ensures
        c == digit_char(digit as int),
{
    match digit {
        0 => '0',
        1 => '1',
        2 => '2',
        3 => '3',
        4 => '4',
        5 => '5',
        6 => '6',
        7 => '7',
        8 => '8',
        _ => '9',
    }
}

/// The decimal digits of `number`, without leading zeros.
pub fn to_decimal(number: u8) -> (digits: Vec<char>)
    ensures
        digits@ == decimal(number as nat),
{
    let mut digits: Vec<char> = Vec::with_capacity(8);
    proof {
        reveal_with_fuel(decimal, 3);
    }
    if number >= 100 {
        digits.push(to_digit_char(number / 100));
    }
    if number >= 10 {
        digits.push(to_digit_char((number / 10) % 10));
    }
    digits.push(to_digit_char(number % 10));
    assert(digits@ =~= decimal(number as nat));
    digits
}

} // verus!
