//! Slug strings for the published catalog: the fine-grained `jdk<version>`
//! key and the coarse `1.<major>.<minor>` key.

use vstd::prelude::*;

verus! {

/// The character for one decimal digit.
pub open spec fn digit_char(d: nat) -> char
    recommends
        d < 10,
{
    (((d % 10) + 0x30) as u8) as char
}

/// The decimal digits of a number, most significant first.
pub open spec fn dec_spec(n: nat) -> Seq<char>
    decreases n,
{
    if n < 10 {
        seq![digit_char(n)]
    } else {
        dec_spec(n / 10).push(digit_char(n % 10))
    }
}

/// The fine-grained slug of a feature version.
pub open spec fn slug_spec(v: nat) -> Seq<char> {
    seq!['j', 'd', 'k'] + dec_spec(v)
}

/// The coarse slug of a major and minor version line.
pub open spec fn coarse_slug_spec(major: nat, minor: nat) -> Seq<char> {
    seq!['1', '.'] + dec_spec(major) + seq!['.'] + dec_spec(minor)
}

/// The decimal digits of a number never form the empty sequence and hold
/// digit characters only.
pub proof fn lemma_dec_spec_len(n: nat)
    ensures
        dec_spec(n).len() >= 1,
        forall|i: int| 0 <= i < dec_spec(n).len() ==> is_digit_char(#[trigger] dec_spec(n)[i]),
    decreases n,
{
    if n >= 10 {
        lemma_dec_spec_len(n / 10);
        assert(forall|i: int|
            0 <= i < dec_spec(n / 10).len() ==> dec_spec(n)[i] == dec_spec(n / 10)[i]);
        assert(dec_spec(n).last() == digit_char(n % 10));
    }
}

/// Whether a character is a decimal digit.
pub open spec fn is_digit_char(c: char) -> bool {
    0x30 <= (c as u32) <= 0x39
}

proof fn lemma_digit_char_inj(a: nat, b: nat)
    requires
        a < 10,
        b < 10,
        digit_char(a) == digit_char(b),
    ensures
        a == b,
{
    assert((digit_char(a) as u32) == a + 0x30);
    assert((digit_char(b) as u32) == b + 0x30);
}

/// Two numbers with the same decimal digits are the same number.
pub proof fn lemma_dec_spec_injective(a: nat, b: nat)
    requires
        dec_spec(a) == dec_spec(b),
    ensures
        a == b,
    decreases a,
{
    lemma_dec_spec_len(a / 10);
    lemma_dec_spec_len(b / 10);
    if a < 10 && b < 10 {
        assert(dec_spec(a)[0] == digit_char(a));
        assert(dec_spec(b)[0] == digit_char(b));
        lemma_digit_char_inj(a, b);
    } else if a >= 10 && b >= 10 {
        assert(dec_spec(a).last() == digit_char(a % 10));
        assert(dec_spec(b).last() == digit_char(b % 10));
        lemma_digit_char_inj(a % 10, b % 10);
        assert(dec_spec(a).drop_last() =~= dec_spec(a / 10));
        assert(dec_spec(b).drop_last() =~= dec_spec(b / 10));
        lemma_dec_spec_injective(a / 10, b / 10);
    } else if a < 10 {
        assert(dec_spec(b).len() >= 2);
        assert(dec_spec(a).len() == 1);
    } else {
        assert(dec_spec(a).len() >= 2);
        assert(dec_spec(b).len() == 1);
    }
}

/// Distinct feature versions get distinct fine-grained slugs, so the
/// slug-keyed catalog keeps one entry per feature version.
pub proof fn lemma_slug_spec_injective(a: nat, b: nat)
    requires
        slug_spec(a) == slug_spec(b),
    ensures
        a == b,
{
    assert(dec_spec(a) =~= slug_spec(a).skip(3));
    assert(dec_spec(b) =~= slug_spec(b).skip(3));
    lemma_dec_spec_injective(a, b);
}

/// Appends one decimal digit character.
fn append_digit(s: &mut String, d: u64)
    requires
        d < 10,
    ensures
        final(s)@ == old(s)@ + seq![digit_char(d as nat)],
{
    if d == 0 {
        proof {
            reveal_strlit("0");
            assert("0"@ =~= seq![digit_char(0)]);
        }
        s.append("0");
    } else if d == 1 {
        proof {
            reveal_strlit("1");
            assert("1"@ =~= seq![digit_char(1)]);
        }
        s.append("1");
    } else if d == 2 {
        proof {
            reveal_strlit("2");
            assert("2"@ =~= seq![digit_char(2)]);
        }
        s.append("2");
    } else if d == 3 {
        proof {
            reveal_strlit("3");
            assert("3"@ =~= seq![digit_char(3)]);
        }
        s.append("3");
    } else if d == 4 {
        proof {
            reveal_strlit("4");
            assert("4"@ =~= seq![digit_char(4)]);
        }
        s.append("4");
    } else if d == 5 {
        proof {
            reveal_strlit("5");
            assert("5"@ =~= seq![digit_char(5)]);
        }
        s.append("5");
    } else if d == 6 {
        proof {
            reveal_strlit("6");
            assert("6"@ =~= seq![digit_char(6)]);
        }
        s.append("6");
    } else if d == 7 {
        proof {
            reveal_strlit("7");
            assert("7"@ =~= seq![digit_char(7)]);
        }
        s.append("7");
    } else if d == 8 {
        proof {
            reveal_strlit("8");
            assert("8"@ =~= seq![digit_char(8)]);
        }
        s.append("8");
    } else {
        proof {
            reveal_strlit("9");
            assert("9"@ =~= seq![digit_char(9)]);
        }
        s.append("9");
    }
}

/// Appends the decimal digits of a number.
pub fn append_decimal(s: &mut String, n: u64)
    ensures
        final(s)@ == old(s)@ + dec_spec(n as nat),
    decreases n,
{
    if n >= 10 {
        append_decimal(s, n / 10);
        append_digit(s, n % 10);
        proof {
            assert(s@ =~= old(s)@ + dec_spec(n as nat));
        }

    } else {
        append_digit(s, n);
    }
}

/// Builds the fine-grained slug `jdk<version>` of a feature version.
pub fn slug_of(version: u64) -> (s: String)
    ensures
        s@ == slug_spec(version as nat),
{
    let mut s = "jdk".to_owned();
    proof {
        reveal_strlit("jdk");
        assert("jdk"@ =~= seq!['j', 'd', 'k']);
    }
    append_decimal(&mut s, version);
    s
}

/// Builds the coarse slug `1.<major>.<minor>` of a version line.
pub fn coarse_slug_of(major: u64, minor: u64) -> (s: String)
    ensures
        s@ == coarse_slug_spec(major as nat, minor as nat),
{
    let mut s = "1.".to_owned();
    proof {
        reveal_strlit("1.");
        assert("1."@ =~= seq!['1', '.']);
    }
    append_decimal(&mut s, major);
    proof {
        reveal_strlit(".");
        assert("."@ =~= seq!['.']);
    }
    s.append(".");
    append_decimal(&mut s, minor);
    proof {
        assert(s@ =~= coarse_slug_spec(major as nat, minor as nat));
    }
    s
}

} // verus!
