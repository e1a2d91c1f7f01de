//! The serialized form of a resolved release. The field identifiers of the
//! published document are stable and must be preserved byte for byte, so
//! the rendering is specified down to the character.

use vstd::prelude::*;

use crate::catalog::{Release, ReleaseModel};
use crate::slug::{append_decimal, dec_spec, digit_char};

verus! {

/// Whether a string can stand in the serialized form unescaped: no quote,
/// no backslash, no control character.
pub open spec fn plain(s: Seq<char>) -> bool {
    forall|i: int|
        0 <= i < s.len() ==> s[i] != '"' && s[i] != '\\' && (#[trigger] s[i] as u32) >= 0x20
}

/// The serialized form of a boolean.
pub open spec fn json_bool(b: bool) -> Seq<char> {
    if b {
        "true"@
    } else {
        "false"@
    }
}

/// The serialized form of a resolved release: one object with the five
/// stable field identifiers, in declaration order.
pub open spec fn json_release(m: ReleaseModel) -> Seq<char> {
    "{\"link\":\""@ + m.link + "\",\"major_version\":"@ + dec_spec(m.major_version as nat)
        + ",\"java_version\":\""@ + m.java_version + "\",\"early_access\":"@ + json_bool(
        m.early_access,
    ) + ",\"sha256\":\""@ + m.sha256 + "\"}"@
}

/// Renders a resolved release in its serialized form, character for
/// character.
pub fn render_release(r: &Release) -> (s: String)
    ensures
        s@ == json_release(r@),
{
    let mut s = "{\"link\":\"".to_owned();
    proof {
        reveal_strlit("{\"link\":\"");
        assert("{\"link\":\""@ =~= seq!['{', '"', 'l', 'i', 'n', 'k', '"', ':', '"']);
    }
    s.append(r.link.as_str());
    proof {
        reveal_strlit("\",\"major_version\":");
        assert("\",\"major_version\":"@ =~= seq![
            '"',
            ',',
            '"',
            'm',
            'a',
            'j',
            'o',
            'r',
            '_',
            'v',
            'e',
            'r',
            's',
            'i',
            'o',
            'n',
            '"',
            ':',
        ]);
    }
    s.append("\",\"major_version\":");
    append_decimal(&mut s, r.major_version);
    proof {
        reveal_strlit(",\"java_version\":\"");
        assert(",\"java_version\":\""@ =~= seq![
            ',',
            '"',
            'j',
            'a',
            'v',
            'a',
            '_',
            'v',
            'e',
            'r',
            's',
            'i',
            'o',
            'n',
            '"',
            ':',
            '"',
        ]);
    }
    s.append(",\"java_version\":\"");
    s.append(r.java_version.as_str());
    proof {
        reveal_strlit("\",\"early_access\":");
        assert("\",\"early_access\":"@ =~= seq![
            '"',
            ',',
            '"',
            'e',
            'a',
            'r',
            'l',
            'y',
            '_',
            'a',
            'c',
            'c',
            'e',
            's',
            's',
            '"',
            ':',
        ]);
    }
    s.append("\",\"early_access\":");
    if r.early_access {
        proof {
            reveal_strlit("true");
            assert("true"@ =~= seq!['t', 'r', 'u', 'e']);
        }
        s.append("true");
    } else {
        proof {
            reveal_strlit("false");
            assert("false"@ =~= seq!['f', 'a', 'l', 's', 'e']);
        }
        s.append("false");
    }
    proof {
        reveal_strlit(",\"sha256\":\"");
        assert(",\"sha256\":\""@ =~= seq![',', '"', 's', 'h', 'a', '2', '5', '6', '"', ':', '"']);
    }
    s.append(",\"sha256\":\"");
    s.append(r.sha256.as_str());
    proof {
        reveal_strlit("\"}");
        assert("\"}"@ =~= seq!['"', '}']);
    }
    s.append("\"}");
    proof {
        assert(s@ =~= json_release(r@));
    }
    s
}

/// The number a sequence of digit characters denotes.
pub open spec fn val_of(digits: Seq<char>) -> int
    decreases digits.len(),
{
    if digits.len() == 0 {
        0
    } else {
        val_of(digits.drop_last()) * 10 + ((digits.last() as u32) - 0x30)
    }
}

/// The digits of a number denote the number.
proof fn lemma_val_of_dec(n: nat)
    ensures
        val_of(dec_spec(n)) == n,
    decreases n,
{
    if n < 10 {
        assert(dec_spec(n).drop_last() =~= Seq::empty());
        assert(val_of(Seq::<char>::empty()) == 0);
        assert((digit_char(n) as u32) == n + 0x30);
    } else {
        assert(dec_spec(n).drop_last() =~= dec_spec(n / 10));
        assert((digit_char(n % 10) as u32) == n % 10 + 0x30);
        lemma_val_of_dec(n / 10);
    }
}

/// A prefix of a digit sequence denotes no more than the whole.
proof fn lemma_val_of_prefix(digits: Seq<char>, k: int)
    requires
        0 <= k <= digits.len(),
        forall|i: int| 0 <= i < digits.len() ==> crate::slug::is_digit_char(#[trigger] digits[i]),
    ensures
        0 <= val_of(digits.take(k)),
        val_of(digits.take(k)) <= val_of(digits),
    decreases digits.len(),
{
    if digits.len() == 0 {
        assert(digits.take(k) =~= digits);
    } else if k == digits.len() {
        assert(digits.take(k) =~= digits);
        lemma_val_of_prefix(digits.drop_last(), k - 1);
        assert(digits.drop_last().take(k - 1) =~= digits.drop_last());
    } else {
        assert(digits.take(k) =~= digits.drop_last().take(k));
        lemma_val_of_prefix(digits.drop_last(), k);
        lemma_val_of_prefix(digits.drop_last(), digits.drop_last().len() as int);
        assert(digits.drop_last().take(digits.drop_last().len() as int) =~= digits.drop_last());
    }
}

/// Parses the serialized form of a resolved release whose rendering is
/// known, recovering each field.
#[verifier::loop_isolation(false)]
fn parse_release_at(s: &str, Ghost(m): Ghost<ReleaseModel>) -> (rel: Release)
    requires
        s@ == json_release(m),
        plain(m.link),
        plain(m.java_version),
        plain(m.sha256),
    ensures
        rel@ == m,
{
    let ghost t = s@;
    let ghost la = m.link.len() as int;
    let ghost digits = dec_spec(m.major_version as nat);
    let ghost lb = digits.len() as int;
    let ghost lc = m.java_version.len() as int;
    let ghost ld = json_bool(m.early_access).len() as int;
    let ghost le = m.sha256.len() as int;
    proof {
        crate::slug::lemma_dec_spec_len(m.major_version as nat);
        reveal_strlit("{\"link\":\"");
        reveal_strlit("\",\"major_version\":");
        reveal_strlit(",\"java_version\":\"");
        reveal_strlit("\",\"early_access\":");
        reveal_strlit("true");
        reveal_strlit("false");
        reveal_strlit(",\"sha256\":\"");
        reveal_strlit("\"}");
        assert(t == json_release(m));
        assert("{\"link\":\""@.len() == 9);
        assert("\",\"major_version\":"@.len() == 18);
        assert(",\"java_version\":\""@.len() == 17);
        assert("\",\"early_access\":"@.len() == 17);
        assert(",\"sha256\":\""@.len() == 11);
        assert("\"}"@.len() == 2);
        assert(t.len() == 9 + la + 18 + lb + 17 + lc + 17 + ld + 11 + le + 2);
        assert(t.subrange(9, 9 + la) =~= m.link);
        assert(t[9 + la] == '"');
        assert(t.subrange(9 + la + 18, 9 + la + 18 + lb) =~= digits);
        assert(t[9 + la + 18 + lb] == ',');
        assert(t.subrange(9 + la + 18 + lb + 17, 9 + la + 18 + lb + 17 + lc) =~= m.java_version);
        assert(t[9 + la + 18 + lb + 17 + lc] == '"');
        assert(t[9 + la + 18 + lb + 17 + lc + 17] == (if m.early_access {
            't'
        } else {
            'f'
        }));
        assert(t.subrange(
            9 + la + 18 + lb + 17 + lc + 17 + ld + 11,
            9 + la + 18 + lb + 17 + lc + 17 + ld + 11 + le,
        ) =~= m.sha256);
        assert(t[9 + la + 18 + lb + 17 + lc + 17 + ld + 11 + le] == '"');
    }
    let n = s.unicode_len();
    // the link runs from position 9 to the next quote
    let mut j: usize = 9;
    while !(s.get_char(j) == '"')
        invariant
            9 <= j <= 9 + la,
        decreases 9 + la - j,
    {
        proof {
            if j < 9 + la {
                assert(t[j as int] == m.link[j - 9]);
            }
        }
        j = j + 1;
    }
    proof {
        if j < 9 + la {
            assert(t[j as int] == m.link[j - 9]);
            assert(false);
        }
    }
    let link = s.substring_char(9, j).to_owned();
    // the major version runs from after the field name to the next comma
    let d0 = j + 18;
    let mut k = d0;
    let mut v: u64 = 0;
    proof {
        assert(digits.take(0) =~= Seq::empty());
    }
    while !(s.get_char(k) == ',')
        invariant
            d0 <= k <= d0 + lb,
            v == val_of(digits.take(k - d0)),
        decreases d0 + lb - k,
    {
        let c = s.get_char(k);
        proof {
            assert(t[k as int] == digits[k - d0]);
            assert(crate::slug::is_digit_char(digits[k - d0]));
            lemma_val_of_prefix(digits, k - d0 + 1);
            lemma_val_of_dec(m.major_version as nat);
            assert(digits.take(k - d0 + 1).drop_last() =~= digits.take(k - d0));
            assert(digits.take(k - d0 + 1).last() == digits[k - d0]);
        }
        let d = (c as u32) - 0x30;
        v = v * 10 + (d as u64);
        k = k + 1;
    }
    proof {
        if k < d0 + lb {
            assert(t[k as int] == digits[k - d0]);
            assert(crate::slug::is_digit_char(digits[k - d0]));
            assert(false);
        }
        assert(digits.take(lb) =~= digits);
        lemma_val_of_dec(m.major_version as nat);
        assert(v == m.major_version);
    }
    // the full version string runs from after its field name to the quote
    let jv0 = k + 17;
    let mut je = jv0;
    while !(s.get_char(je) == '"')
        invariant
            jv0 <= je <= jv0 + lc,
        decreases jv0 + lc - je,
    {
        proof {
            if je < jv0 + lc {
                assert(t[je as int] == m.java_version[je - jv0]);
            }
        }
        je = je + 1;
    }
    proof {
        if je < jv0 + lc {
            assert(t[je as int] == m.java_version[je - jv0]);
            assert(false);
        }
    }
    let java_version = s.substring_char(jv0, je).to_owned();
    // the maturity flag is a literal `true` or `false`
    let b0 = je + 17;
    let ea = s.get_char(b0) == 't';
    // the content hash runs from after its field name to the quote
    let sh0 = if ea {
        b0 + 4 + 11
    } else {
        b0 + 5 + 11
    };
    let mut se = sh0;
    while !(s.get_char(se) == '"')
        invariant
            sh0 <= se <= sh0 + le,
        decreases sh0 + le - se,
    {
        proof {
            if se < sh0 + le {
                assert(t[se as int] == m.sha256[se - sh0]);
            }
        }
        se = se + 1;
    }
    proof {
        if se < sh0 + le {
            assert(t[se as int] == m.sha256[se - sh0]);
            assert(false);
        }
    }
    let sha256 = s.substring_char(sh0, se).to_owned();
    Release { link, major_version: v, java_version, early_access: ea, sha256 }
}

/// Rendering a resolved release and parsing the rendering reproduces the
/// release, field for field. The fields must be plain: the rendering embeds
/// them unescaped.
pub fn round_trip_release(r: &Release) -> (out: Release)
    requires
        plain(r@.link),
        plain(r@.java_version),
        plain(r@.sha256),
    ensures
        out@ == r@,
{
    let rendered = render_release(r);
    parse_release_at(rendered.as_str(), Ghost(r@))
}

} // verus!
