//! Deterministic pseudo-identity presentation for named authors.
//!
//! A named author's display color is derived from a fixed, stable 64-bit
//! hash of the author name (an FNV-1a fold over the name's characters): the
//! low six hex digits of the hash are the color code, and one further byte
//! of the hash is the hue shift.  The contract that matters is that the
//! same name yields the same color and hue on every render.

use vstd::prelude::*;
use vstd::string::StrSliceExecFns;
use vstd::string::StringExecFns;

verus! {

pub const FNV_OFFSET: u64 = 0xcbf29ce484222325;

pub const FNV_PRIME: u64 = 0x100000001b3;

/// One fold step: mix one character into the running hash.
pub open spec fn hash_step(acc: u64, c: char) -> u64 {
    (((acc ^ ((c as u32) as u64)) as int * FNV_PRIME as int) % 0x10000000000000000) as u64
}

pub open spec fn hash_chars_from(acc: u64, s: Seq<char>) -> u64
    decreases s.len(),
{
    if s.len() == 0 {
        acc
    } else {
        hash_chars_from(hash_step(acc, s[0]), s.drop_first())
    }
}

/// The stable 64-bit hash of an author name.
pub open spec fn name_hash(s: Seq<char>) -> u64 {
    hash_chars_from(FNV_OFFSET, s)
}

/// Computes `name_hash` of a name.
pub fn name_hash_of(s: &str) -> (h: u64)
    ensures
        h == name_hash(s@),
{
    let n = s.unicode_len();
    let mut acc: u64 = FNV_OFFSET;
    let mut i: usize = 0;
    proof {
        assert(s@.skip(0) =~= s@);
    }
    while i < n
        invariant
            i <= n,
            n == s@.len(),
            name_hash(s@) == hash_chars_from(acc, s@.skip(i as int)),
        decreases n - i,
    {
        proof {
            assert(s@.skip(i as int)[0] == s@[i as int]);
            assert(s@.skip(i as int).drop_first() =~= s@.skip(i + 1));
        }
        let c = s.get_char(i);
        let mixed = acc ^ ((c as u32) as u64);
        let wide: u128 = (mixed as u128) * (FNV_PRIME as u128);
        let next = (wide % 0x10000000000000000) as u64;
        proof {
            assert(next == hash_step(acc, s@[i as int]));
        }
        acc = next;
        i += 1;
    }
    proof {
        assert(s@.skip(n as int) =~= Seq::<char>::empty());
    }
    acc
}

pub open spec fn hex_digit_char(d: int) -> char {
    if d == 0 {
        '0'
    } else if d == 1 {
        '1'
    } else if d == 2 {
        '2'
    } else if d == 3 {
        '3'
    } else if d == 4 {
        '4'
    } else if d == 5 {
        '5'
    } else if d == 6 {
        '6'
    } else if d == 7 {
        '7'
    } else if d == 8 {
        '8'
    } else if d == 9 {
        '9'
    } else if d == 10 {
        'a'
    } else if d == 11 {
        'b'
    } else if d == 12 {
        'c'
    } else if d == 13 {
        'd'
    } else if d == 14 {
        'e'
    } else {
        'f'
    }
}

/// The color code for a hash: its low 24 bits as six hex digits.
pub open spec fn color_hex(h: u64) -> Seq<char> {
    let low = (h as int) % 0x1000000;
    seq![
        hex_digit_char(low / 0x100000 % 16),
        hex_digit_char(low / 0x10000 % 16),
        hex_digit_char(low / 0x1000 % 16),
        hex_digit_char(low / 0x100 % 16),
        hex_digit_char(low / 0x10 % 16),
        hex_digit_char(low % 16),
    ]
}

/// The hue-shift byte for a hash: the byte just above the color bits.
pub open spec fn hue_of(h: u64) -> u8 {
    ((h as int) / 0x1000000 % 256) as u8
}

fn hex_digit_lit(d: u64) -> (s: &'static str)
    requires
        d < 16,
    ensures
        s@ == seq![hex_digit_char(d as int)],
{
    proof {
        reveal_strlit("0");
        reveal_strlit("1");
        reveal_strlit("2");
        reveal_strlit("3");
        reveal_strlit("4");
        reveal_strlit("5");
        reveal_strlit("6");
        reveal_strlit("7");
        reveal_strlit("8");
        reveal_strlit("9");
        reveal_strlit("a");
        reveal_strlit("b");
        reveal_strlit("c");
        reveal_strlit("d");
        reveal_strlit("e");
        reveal_strlit("f");
    }
    let s = if d == 0 {
        "0"
    } else if d == 1 {
        "1"
    } else if d == 2 {
        "2"
    } else if d == 3 {
        "3"
    } else if d == 4 {
        "4"
    } else if d == 5 {
        "5"
    } else if d == 6 {
        "6"
    } else if d == 7 {
        "7"
    } else if d == 8 {
        "8"
    } else if d == 9 {
        "9"
    } else if d == 10 {
        "a"
    } else if d == 11 {
        "b"
    } else if d == 12 {
        "c"
    } else if d == 13 {
        "d"
    } else if d == 14 {
        "e"
    } else {
        "f"
    };
    proof {
        assert(s@ =~= seq![hex_digit_char(d as int)]);
    }
    s
}

/// Renders the six-hex-digit color code of a hash.
pub fn color_hex_of(h: u64) -> (s: String)
    ensures
        s@ == color_hex(h),
{
    let low = h % 0x1000000;
    let mut s = String::new();
    s.append(hex_digit_lit(low / 0x100000 % 16));
    s.append(hex_digit_lit(low / 0x10000 % 16));
    s.append(hex_digit_lit(low / 0x1000 % 16));
    s.append(hex_digit_lit(low / 0x100 % 16));
    s.append(hex_digit_lit(low / 0x10 % 16));
    s.append(hex_digit_lit(low % 16));
    proof {
        assert(s@ =~= color_hex(h));
    }
    s
}

/// Computes the hue-shift byte of a hash.
pub fn hue_shift_of(h: u64) -> (b: u8)
    ensures
        b == hue_of(h),
{
    ((h / 0x1000000) % 256) as u8
}

} // verus!
