//! Dictionary sizes, as `-md<size>[k|m|g]` writes them.

use vstd::arithmetic::power2;
use vstd::prelude::*;

use crate::error;
use crate::error::Error;
use crate::text;

verus! {

/// The smallest dictionary: 128 KiB.
pub const MIN_DICT_BYTES: u64 = 0x2_0000;

/// The largest dictionary that is stored as a power of two: 4 GiB.
pub const MAX_DICT_LOG_BYTES: u64 = 0x1_0000_0000;

/// The number of bytes that a unit letter, of either case, stands for.
pub open spec fn unit_bytes(letter: char) -> Option<int> {
    if letter == 'k' || letter == 'K' {
        Some(0x400)
    } else if letter == 'm' || letter == 'M' {
        Some(0x10_0000)
    } else if letter == 'g' || letter == 'G' {
        Some(0x4000_0000)
    } else {
        None
    }
}

/// The numeral of a dictionary size, and the bytes in one of its units;
/// without a unit letter the size is in MiB.
pub open spec fn numeral_and_unit(size: Seq<char>) -> (Seq<char>, int) {
    if size.len() > 0 && unit_bytes(size.last()) is Some {
        (size.drop_last(), unit_bytes(size.last())->0)
    } else {
        (size, 0x10_0000)
    }
}

/// The bytes that a dictionary size asks for, where it is written as one, fits
/// in 64 bits and is no less than 128 KiB.
pub open spec fn dict_bytes(size: Seq<char>) -> Option<int> {
    let (numeral, unit) = numeral_and_unit(size);
    match text::numeral_value(numeral) {
        Some(n) => if MIN_DICT_BYTES <= n * unit <= u64::MAX {
            Some(n * unit)
        } else {
            None
        },
        None => None,
    }
}

/// Whether `n` is a power of two.
pub open spec fn is_power_of_two(n: int) -> bool {
    exists|e: nat| n == #[trigger] power2::pow2(e)
}

/// The exponent of a power of two.
pub open spec fn exponent(n: int) -> nat {
    choose|e: nat| n == #[trigger] power2::pow2(e)
}

/// What a dictionary size comes to. Up to 4 GiB it must be a power of two, and
/// is stored as its exponent above that of 128 KiB; beyond, it is stored as
/// its number of bytes.
pub open spec fn dict_size(s: Seq<char>) -> Result<(Option<u8>, Option<u64>), error::ErrorView> {
    let size = text::trimmed(s);
    match dict_bytes(size) {
        None => Err(error::invalid("invalid dictionary size: "@ + size)),
        Some(bytes) => if bytes > MAX_DICT_LOG_BYTES {
            Ok((None, Some(bytes as u64)))
        } else if is_power_of_two(bytes) {
            Ok((Some((exponent(bytes) - 17) as u8), None))
        } else {
            Err(
                error::invalid(
                    "dictionary sizes up to 4 GiB must be powers of two: "@ + size,
                ),
            )
        },
    }
}

/// A power of two has one exponent only.
proof fn lemma_exponent(n: int, e: nat)
    requires
        n == power2::pow2(e),
    ensures
        is_power_of_two(n),
        exponent(n) == e,
{
    let other = exponent(n);
    if other < e {
        power2::lemma_pow2_strictly_increases(other, e);
    } else if e < other {
        power2::lemma_pow2_strictly_increases(e, other);
    }
}

/// What lies strictly between two neighbouring powers of two is none.
proof fn lemma_between_powers(n: int, e: nat)
    requires
        power2::pow2(e) < n < power2::pow2(e + 1),
    ensures
        !is_power_of_two(n),
{
    if is_power_of_two(n) {
        let other = exponent(n);
        if other < e {
            power2::lemma_pow2_strictly_increases(other, e);
        } else if e + 1 < other {
            power2::lemma_pow2_strictly_increases(e + 1, other);
        }
    }
}

/// The exponent of `bytes` above that of 128 KiB, where it is a power of two.
fn dict_log(bytes: u64) -> (r: Option<u8>)
    requires
        MIN_DICT_BYTES <= bytes <= MAX_DICT_LOG_BYTES,
    ensures
        r is Some <==> is_power_of_two(bytes as int),
        r is Some ==> r->0 == exponent(bytes as int) - 17 && r->0 <= 15,
{
    let mut log: u8 = 0;
    let mut power: u64 = MIN_DICT_BYTES;
    proof {
        power2::lemma2_to64();
    }
    while power < bytes
        invariant
            bytes <= MAX_DICT_LOG_BYTES,
            log <= 15,
            power == power2::pow2((log + 17) as nat),
            log < 15 ==> power < MAX_DICT_LOG_BYTES,
            power <= MAX_DICT_LOG_BYTES,
            log == 15 ==> power == MAX_DICT_LOG_BYTES,
            log == 0 || power < 2 * bytes,
            MIN_DICT_BYTES <= bytes,
        decreases 15 - log,
    {
        proof {
            power2::lemma2_to64();
            power2::lemma_pow2_unfold((log + 18) as nat);
            if log < 14 {
                power2::lemma_pow2_strictly_increases((log + 18) as nat, 32);
            }
        }
        power = 2 * power;
        log = log + 1;
    }
    if power == bytes {
        proof {
            lemma_exponent(bytes as int, (log + 17) as nat);
        }
        Some(log)
    } else {
        proof {
            power2::lemma2_to64();
            power2::lemma_pow2_unfold((log + 17) as nat);
            lemma_between_powers(bytes as int, (log + 16) as nat);
        }
        None
    }
}

/// The bytes in one of the units that the letter stands for.
fn unit_of(letter: char) -> (r: Option<u64>)
    ensures
        match r {
            Some(u) => unit_bytes(letter) == Some(u as int),
            None => unit_bytes(letter) is None,
        },
{
    if letter == 'k' || letter == 'K' {
        Some(0x400)
    } else if letter == 'm' || letter == 'M' {
        Some(0x10_0000)
    } else if letter == 'g' || letter == 'G' {
        Some(0x4000_0000)
    } else {
        None
    }
}

/// The bytes that the dictionary size `size` asks for; `None` where it is not
/// one.
fn bytes_of(size: &str) -> (r: Option<u64>)
    ensures
        match r {
            Some(b) => dict_bytes(size@) == Some(b as int),
            None => dict_bytes(size@) is None,
        },
{
    let cs = text::characters(size);
    let mut end: usize = cs.len();
    let mut unit: u64 = 0x10_0000;
    if end > 0 {
        if let Some(u) = unit_of(cs[end - 1]) {
            end = end - 1;
            unit = u;
        }
    }
    let ghost parts = numeral_and_unit(size@);
    assert(cs@.take(end as int) == parts.0);
    assert(unit == parts.1);
    match text::parse_u64(&cs, end) {
        None => {
            proof {
                if let Some(n) = text::numeral_value(parts.0) {
                    assert(n * unit > u64::MAX) by (nonlinear_arith)
                        requires
                            n > u64::MAX,
                            unit >= 1,
                    ;
                }
            }
            None
        },
        Some(n) => match n.checked_mul(unit) {
            Some(bytes) => if bytes >= MIN_DICT_BYTES {
                Some(bytes)
            } else {
                None
            },
            None => None,
        },
    }
}

/// Reads a dictionary size. The result holds the exponent of a dictionary of
/// up to 4 GiB, or the bytes of a larger one, which only RAR7 archives have.
pub fn parse_dict_size(s: &str) -> (r: Result<(Option<u8>, Option<u64>), Error>)
    ensures
        match r {
            Ok(size) => dict_size(s@) == Ok::<_, error::ErrorView>(size),
            Err(e) => dict_size(s@) == Err::<(Option<u8>, Option<u64>), _>(e.deep_view()),
        },
{
    let size = text::trim(s);
    match bytes_of(size) {
        None => Err(Error::invalid("invalid dictionary size: ".to_owned().concat(size))),
        Some(bytes) => {
            if bytes > MAX_DICT_LOG_BYTES {
                return Ok((None, Some(bytes)));
            }
            match dict_log(bytes) {
                Some(log) => Ok((Some(log), None)),
                None => Err(
                    Error::invalid(
                        "dictionary sizes up to 4 GiB must be powers of two: ".to_owned().concat(
                            size,
                        ),
                    ),
                ),
            }
        },
    }
}

/// A dictionary size that is accepted comes to exactly one of an exponent, from
/// 0 for 128 KiB to 15 for 4 GiB, and a number of bytes over 4 GiB; either is
/// what the text asks for.
pub proof fn law_dict_size_is_one_of_two(s: Seq<char>)
    ensures
        dict_size(s) matches Ok((log, bytes)) ==> {
            &&& log is Some <==> bytes is None
            &&& log is Some ==> log->0 <= 15 && dict_bytes(text::trimmed(s)) == Some(
                MIN_DICT_BYTES * power2::pow2(log->0 as nat) as int,
            )
            &&& bytes is Some ==> bytes->0 > MAX_DICT_LOG_BYTES && dict_bytes(text::trimmed(s))
                == Some(bytes->0 as int)
        },
{
    if let Ok((log, bytes)) = dict_size(s) {
        let asked = dict_bytes(text::trimmed(s))->0;
        if log is Some {
            let e = exponent(asked);
            power2::lemma2_to64();
            if e < 17 {
                power2::lemma_pow2_strictly_increases(e, 17);
            }
            if e > 32 {
                power2::lemma_pow2_strictly_increases(32, e);
            }
            power2::lemma_pow2_adds(17, (e - 17) as nat);
        }
    }
}

/// White space around a dictionary size does not matter.
pub proof fn law_dict_size_is_trimmed(s: Seq<char>)
    ensures
        dict_size(text::trimmed(s)) == dict_size(s),
{
    text::lemma_trimmed_twice(s);
}

/// The case of a unit letter does not matter.
pub proof fn law_unit_case_does_not_matter(numeral: Seq<char>)
    ensures
        dict_bytes(numeral.push('k')) == dict_bytes(numeral.push('K')),
        dict_bytes(numeral.push('m')) == dict_bytes(numeral.push('M')),
        dict_bytes(numeral.push('g')) == dict_bytes(numeral.push('G')),
{
    assert(numeral.push('k').drop_last() == numeral.push('K').drop_last());
    assert(numeral.push('m').drop_last() == numeral.push('M').drop_last());
    assert(numeral.push('g').drop_last() == numeral.push('G').drop_last());
}

/// A number without a unit letter is a number of MiB.
pub proof fn law_no_unit_is_mib(n: nat)
    ensures
        dict_bytes(text::decimal(n)) == dict_bytes(text::decimal(n).push('m')),
{
    text::law_decimal_reads_back(n);
    let numeral = text::decimal(n);
    assert(text::is_digit(numeral[numeral.len() - 1]));
    assert(numeral.push('m').drop_last() == numeral);
}

/// A dictionary of a power of two from 128 KiB to 4 GiB, written in KiB, comes
/// to its exponent above that of 128 KiB.
pub proof fn law_powers_of_two_read_back(log: u8)
    requires
        log <= 15,
    ensures
        dict_size(text::decimal((128 * power2::pow2(log as nat)) as nat).push('k')) == Ok::<
            (Option<u8>, Option<u64>),
            error::ErrorView,
        >((Some(log), None)),
{
    let kib = (128 * power2::pow2(log as nat)) as nat;
    let bytes = power2::pow2((log + 17) as nat) as int;
    power2::lemma2_to64();
    power2::lemma_pow2_adds(17, log as nat);
    power2::lemma_pow2_pos(log as nat);
    if log < 15 {
        power2::lemma_pow2_strictly_increases(log as nat, 15);
    }
    assert(bytes == kib * 0x400);
    lemma_kib_read_back(kib);
    lemma_exponent(bytes, (log + 17) as nat);
}

/// A dictionary of over 4 GiB, written in KiB, comes to its bytes.
pub proof fn law_large_dictionaries_read_back(kib: nat)
    requires
        MAX_DICT_LOG_BYTES < kib * 0x400 <= u64::MAX,
    ensures
        dict_size(text::decimal(kib).push('k')) == Ok::<
            (Option<u8>, Option<u64>),
            error::ErrorView,
        >((None, Some((kib * 0x400) as u64))),
{
    lemma_kib_read_back(kib);
}

/// What is written in KiB asks for as much, and has nothing to trim.
proof fn lemma_kib_read_back(kib: nat)
    requires
        MIN_DICT_BYTES <= kib * 0x400 <= u64::MAX,
    ensures
        text::trimmed(text::decimal(kib).push('k')) == text::decimal(kib).push('k'),
        dict_bytes(text::decimal(kib).push('k')) == Some((kib * 0x400) as int),
{
    let numeral = text::decimal(kib);
    let size = numeral.push('k');
    text::law_decimal_reads_back(kib);
    assert(text::is_digit(numeral[0]));
    assert(size.first() == numeral[0]);
    assert(size.drop_last() == numeral);
}

/// What a number of bytes comes to as a dictionary, written as `size`: refused
/// under 128 KiB and over 64 bits, taken as it is over 4 GiB, and else taken if
/// it is a power of two, as its exponent above 17.
pub open spec fn comes_to(
    bytes: int,
    size: Seq<char>,
    r: Result<(Option<u8>, Option<u64>), error::ErrorView>,
) -> bool {
    if bytes < 0x2_0000 || bytes > 0xffff_ffff_ffff_ffff {
        r matches Err(e) && e.status == error::Status::InvalidArg && e.reason
            == "invalid dictionary size: "@ + size
    } else if bytes > 0x1_0000_0000 {
        r matches Ok((log, large)) && log is None && large is Some && large->0 == bytes
    } else if exists|e: nat| bytes == #[trigger] power2::pow2(e) {
        r matches Ok((log, large)) && log is Some && large is None && bytes == power2::pow2(
            (log->0 + 17) as nat,
        )
    } else {
        r matches Err(e) && e.status == error::Status::InvalidArg && e.reason
            == "dictionary sizes up to 4 GiB must be powers of two: "@ + size
    }
}

/// A numeral with a unit letter asks for so many KiB, MiB or GiB, and one
/// without for so many MiB, whatever the number is and however it is written.
pub proof fn law_sizes_ask_for_their_bytes(numeral: Seq<char>, n: int)
    requires
        text::numeral_value(numeral) == Some(n),
    ensures
        comes_to(n * 0x400, numeral.push('k'), dict_size(numeral.push('k'))),
        comes_to(n * 0x400, numeral.push('K'), dict_size(numeral.push('K'))),
        comes_to(n * 0x10_0000, numeral.push('m'), dict_size(numeral.push('m'))),
        comes_to(n * 0x10_0000, numeral.push('M'), dict_size(numeral.push('M'))),
        comes_to(n * 0x4000_0000, numeral.push('g'), dict_size(numeral.push('g'))),
        comes_to(n * 0x4000_0000, numeral.push('G'), dict_size(numeral.push('G'))),
        comes_to(n * 0x10_0000, numeral, dict_size(numeral)),
{
    lemma_size_with_unit(numeral, n, 'k');
    lemma_size_with_unit(numeral, n, 'K');
    lemma_size_with_unit(numeral, n, 'm');
    lemma_size_with_unit(numeral, n, 'M');
    lemma_size_with_unit(numeral, n, 'g');
    lemma_size_with_unit(numeral, n, 'G');
    lemma_numeral_ends(numeral);
    lemma_comes_to(numeral, n * 0x10_0000);
}

/// A numeral starts with a digit or a `+`, and ends with a digit.
proof fn lemma_numeral_ends(numeral: Seq<char>)
    requires
        text::numeral_value(numeral) is Some,
    ensures
        numeral.len() > 0,
        text::is_digit(numeral.first()) || numeral.first() == '+',
        text::is_digit(numeral.last()),
        text::trimmed(numeral) == numeral,
{
    let body = text::unsigned_part(numeral);
    assert(text::is_digit(body[0]));
    assert(text::is_digit(body[body.len() - 1]));
}

/// What a numeral with a unit letter asks for.
proof fn lemma_size_with_unit(numeral: Seq<char>, n: int, letter: char)
    requires
        text::numeral_value(numeral) == Some(n),
        unit_bytes(letter) is Some,
    ensures
        comes_to(n * unit_bytes(letter)->0, numeral.push(letter), dict_size(numeral.push(letter))),
{
    let size = numeral.push(letter);
    lemma_numeral_ends(numeral);
    assert(size.first() == numeral.first());
    assert(size.drop_last() == numeral);
    assert(text::trimmed(size) == size);
    lemma_comes_to(size, n * unit_bytes(letter)->0);
}

/// What a size that asks for so many bytes comes to.
proof fn lemma_comes_to(size: Seq<char>, bytes: int)
    requires
        text::trimmed(size) == size,
        dict_bytes(size) == (if MIN_DICT_BYTES <= bytes <= u64::MAX {
            Some(bytes)
        } else {
            None
        }),
    ensures
        comes_to(bytes, size, dict_size(size)),
{
    if 0x2_0000 <= bytes <= 0x1_0000_0000 && is_power_of_two(bytes) {
        let e = exponent(bytes);
        power2::lemma2_to64();
        if e < 17 {
            power2::lemma_pow2_strictly_increases(e, 17);
        }
        if e > 32 {
            power2::lemma_pow2_strictly_increases(32, e);
        }
    }
}

/// What is no numeral, neither as it is nor before a unit letter, is no
/// dictionary size; the error quotes it without the white space around it.
pub proof fn law_other_texts_are_refused(s: Seq<char>)
    requires
        text::numeral_value(text::trimmed(s)) is None,
        ({
            let size = text::trimmed(s);
            size.len() > 0 && (size.last() == 'k' || size.last() == 'K' || size.last() == 'm'
                || size.last() == 'M' || size.last() == 'g' || size.last() == 'G')
                ==> text::numeral_value(size.drop_last()) is None
        }),
    ensures
        dict_size(s) matches Err(e) && e.status == error::Status::InvalidArg && e.reason
            == "invalid dictionary size: "@ + text::trimmed(s),
{
}

} // verus!
