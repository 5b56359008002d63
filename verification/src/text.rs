use vstd::prelude::*;

verus! {

// ---------------------------------------------------------------------------
// Decimal rendering of machine integers, used by the canonical text form of
// symbols, numerals and sorts.
// ---------------------------------------------------------------------------

pub open spec fn dec_digit(d: int) -> char {
    if d == 0 {
        '0'
    } else if d == 1 {
        '1'
    } else if d == 2 {
        '2'
    } else if d == 3 {
        '3'
    } else if d == 4 {
        '4'
    } else if d == 5 {
        '5'
    } else if d == 6 {
        '6'
    } else if d == 7 {
        '7'
    } else if d == 8 {
        '8'
    } else {
        '9'
    }
}

/// The usual base-10 rendering of a natural number, most significant digit
/// first, with no leading zeros (except for zero itself).
pub open spec fn dec_chars(n: nat) -> Seq<char>
    decreases n,
{
    if n < 10 {
        seq![dec_digit(n as int)]
    } else {
        dec_chars(n / 10).push(dec_digit((n % 10) as int))
    }
}

fn digit_str(d: u64) -> (r: &'static str)
    requires
        d < 10,
    ensures
        r@ == seq![dec_digit(d as int)],
{
    proof {
        reveal_strlit("0");
        reveal_strlit("1");
        reveal_strlit("2");
        reveal_strlit("3");
        reveal_strlit("4");
        reveal_strlit("5");
        reveal_strlit("6");
        reveal_strlit("7");
        reveal_strlit("8");
        reveal_strlit("9");
    }
    match d {
        0 => "0",
        1 => "1",
        2 => "2",
        3 => "3",
        4 => "4",
        5 => "5",
        6 => "6",
        7 => "7",
        8 => "8",
        _ => "9",
    }
}

/// Renders `n` in decimal.
pub fn u64_to_dec(n: u64) -> (r: String)
    ensures
        r@ == dec_chars(n as nat),
    decreases n,
{
    if n < 10 {
        digit_str(n).to_owned()
    } else {
        let mut s = u64_to_dec(n / 10);
        s.append(digit_str(n % 10));
        proof {
            assert(s@ == dec_chars((n / 10) as nat).push(dec_digit((n % 10) as int)));
        }
        s
    }
}

/// Renders `n` in decimal, for wider intermediate values.
pub fn u128_to_dec(n: u128) -> (r: String)
    ensures
        r@ == dec_chars(n as nat),
    decreases n,
{
    if n < 10 {
        digit_str(n as u64).to_owned()
    } else {
        let mut s = u128_to_dec(n / 10);
        s.append(digit_str((n % 10) as u64));
        proof {
            assert(s@ == dec_chars((n / 10) as nat).push(dec_digit((n % 10) as int)));
        }
        s
    }
}

/// Distinct digits render to distinct characters.
pub proof fn lemma_dec_digit_injective(a: int, b: int)
    requires
        0 <= a < 10,
        0 <= b < 10,
        a != b,
    ensures
        dec_digit(a) != dec_digit(b),
{
}

/// Decimal rendering is injective: distinct naturals render differently.
pub proof fn lemma_dec_chars_injective(a: nat, b: nat)
    requires
        a != b,
    ensures
        dec_chars(a) != dec_chars(b),
    decreases a + b,
{
    if a < 10 && b < 10 {
        lemma_dec_digit_injective(a as int, b as int);
        assert(dec_chars(a)[0] != dec_chars(b)[0]);
    } else if a < 10 {
        assert(dec_chars(b).len() >= 2) by {
            assert(dec_chars(b / 10).len() >= 1);
        }
    } else if b < 10 {
        assert(dec_chars(a).len() >= 2) by {
            assert(dec_chars(a / 10).len() >= 1);
        }
    } else {
        if a % 10 != b % 10 {
            lemma_dec_digit_injective((a % 10) as int, (b % 10) as int);
            assert(dec_chars(a).last() != dec_chars(b).last());
        } else {
            assert(a / 10 != b / 10);
            lemma_dec_chars_injective(a / 10, b / 10);
            if dec_chars(a) == dec_chars(b) {
                assert(dec_chars(a).drop_last() =~= dec_chars(a / 10));
                assert(dec_chars(b).drop_last() =~= dec_chars(b / 10));
                assert(false);
            }
        }
    }
}

// ---------------------------------------------------------------------------
// A structural hash accumulator: a Fowler/Noll/Vo-style fold over 64-bit
// words.  Equal inputs give equal hashes by construction.
// ---------------------------------------------------------------------------

pub const HASH_SEED: u64 = 0xcbf2_9ce4_8422_2325;

pub const HASH_PRIME: u64 = 0x100_0000_01b3;

pub open spec fn mix(h: u64, v: u64) -> u64 {
    vstd::wrapping::u64_specs::wrapping_add(
        vstd::wrapping::u64_specs::wrapping_mul(h, HASH_PRIME),
        v,
    )
}

pub fn mix_exec(h: u64, v: u64) -> (r: u64)
    ensures
        r == mix(h, v),
{
    h.wrapping_mul(HASH_PRIME).wrapping_add(v)
}

/// Hash of a character sequence, folded left to right over the code points.
pub open spec fn hash_chars(s: Seq<char>) -> u64
    decreases s.len(),
{
    if s.len() == 0 {
        HASH_SEED
    } else {
        mix(hash_chars(s.drop_last()), s.last() as u64)
    }
}

pub fn hash_str(s: &str) -> (r: u64)
    ensures
        r == hash_chars(s@),
{
    let n = s.unicode_len();
    let mut h = HASH_SEED;
    let mut i: usize = 0;
    proof {
        assert(s@.take(0) =~= Seq::<char>::empty());
    }
    while i < n
        invariant
            i <= n,
            n == s@.len(),
            h == hash_chars(s@.take(i as int)),
        decreases n - i,
    {
        let c = s.get_char(i);
        h = mix_exec(h, c as u64);
        proof {
            assert(s@.take(i + 1).drop_last() =~= s@.take(i as int));
            assert(s@.take(i + 1).last() == s@[i as int]);
        }
        i += 1;
    }
    proof {
        assert(s@.take(n as int) =~= s@);
    }
    h
}

} // verus!
