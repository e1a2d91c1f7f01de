//! A strict total order on version keys.
//!
//! A release is identified by the numeric tuple (major, minor, security,
//! build) plus a textual qualifier (the trailing hyphen-delimited segment of
//! the raw version string, empty when the string carries no hyphen). The
//! order compares the four numbers lexicographically and breaks remaining
//! ties by a lexicographic comparison of the qualifiers, so that two keys
//! compare equal exactly when all five components are equal.

use vstd::prelude::*;

verus! {

/// Outcome of comparing two version keys.
#[derive(PartialEq, Eq, Structural, Clone, Copy, Debug)]
pub enum VersionOrdering {
    Less,
    Equal,
    Greater,
}

/// Mathematical model of a version key: the four numeric components and the
/// qualifier as a sequence of characters.
#[verifier::ext_equal]
pub struct KeyModel {
    pub major: u64,
    pub minor: u64,
    pub security: u64,
    pub build: u64,
    pub qualifier: Seq<char>,
}

/// A version key as carried by release metadata. The `qualifier` field holds
/// the already-extracted trailing segment of the raw version string.
#[derive(Debug)]
pub struct VersionKey {
    pub major: u64,
    pub minor: u64,
    pub security: u64,
    pub build: u64,
    pub qualifier: String,
}

impl View for VersionKey {
    type V = KeyModel;

    open spec fn view(&self) -> KeyModel {
        KeyModel {
            major: self.major,
            minor: self.minor,
            security: self.security,
            build: self.build,
            qualifier: self.qualifier@,
        }
    }
}

impl Clone for VersionKey {
    fn clone(&self) -> (r: Self)
        ensures
            r@ == self@,
    {
        VersionKey {
            major: self.major,
            minor: self.minor,
            security: self.security,
            build: self.build,
            qualifier: self.qualifier.clone(),
        }
    }
}

/// Comparison of two numbers, used for each numeric component.
pub open spec fn num_cmp(a: u64, b: u64) -> VersionOrdering {
    if a < b {
        VersionOrdering::Less
    } else if b < a {
        VersionOrdering::Greater
    } else {
        VersionOrdering::Equal
    }
}

/// Lexicographic comparison of two character sequences by code point, with a
/// proper prefix ordering below the longer sequence.
pub open spec fn lex_cmp(a: Seq<char>, b: Seq<char>) -> VersionOrdering
    decreases a.len(),
{
    if a.len() == 0 && b.len() == 0 {
        VersionOrdering::Equal
    } else if a.len() == 0 {
        VersionOrdering::Less
    } else if b.len() == 0 {
        VersionOrdering::Greater
    } else if (a[0] as u32) < (b[0] as u32) {
        VersionOrdering::Less
    } else if (b[0] as u32) < (a[0] as u32) {
        VersionOrdering::Greater
    } else {
        lex_cmp(a.skip(1), b.skip(1))
    }
}

/// The version order: compare major, minor, security and build numerically,
/// then break the tie on the qualifier, lexicographically.
pub open spec fn key_cmp(a: KeyModel, b: KeyModel) -> VersionOrdering {
    if num_cmp(a.major, b.major) != VersionOrdering::Equal {
        num_cmp(a.major, b.major)
    } else if num_cmp(a.minor, b.minor) != VersionOrdering::Equal {
        num_cmp(a.minor, b.minor)
    } else if num_cmp(a.security, b.security) != VersionOrdering::Equal {
        num_cmp(a.security, b.security)
    } else if num_cmp(a.build, b.build) != VersionOrdering::Equal {
        num_cmp(a.build, b.build)
    } else {
        lex_cmp(a.qualifier, b.qualifier)
    }
}

/// Casting to the code point loses no information: two characters with the
/// same code point are the same character.
proof fn lemma_char_inj(x: char, y: char)
    requires
        (x as u32) == (y as u32),
    ensures
        x == y,
{
    vstd::utf8::char_u32_cast(x, x as u32);
    vstd::utf8::char_u32_cast(y, y as u32);
}

pub proof fn lemma_lex_equal_iff(a: Seq<char>, b: Seq<char>)
    ensures
        lex_cmp(a, b) == VersionOrdering::Equal <==> a =~= b,
    decreases a.len(),
{
    if a.len() != 0 && b.len() != 0 {
        if !((a[0] as u32) < (b[0] as u32)) && !((b[0] as u32) < (a[0] as u32)) {
            lemma_char_inj(a[0], b[0]);
            lemma_lex_equal_iff(a.skip(1), b.skip(1));
            if lex_cmp(a, b) == VersionOrdering::Equal {
                assert(a.skip(1) =~= b.skip(1));
                assert forall|i: int| 0 <= i < a.len() implies a[i] == b[i] by {
                    if i > 0 {
                        assert(a[i] == a.skip(1)[i - 1]);
                        assert(b[i] == b.skip(1)[i - 1]);
                    }
                }
                assert(a =~= b);
            }
            if a =~= b {
                assert forall|i: int| 0 <= i < a.skip(1).len() implies a.skip(1)[i] == b.skip(
                    1,
                )[i] by {
                    assert(a.skip(1)[i] == a[i + 1]);
                    assert(b.skip(1)[i] == b[i + 1]);
                }
                assert(a.skip(1) =~= b.skip(1));
            }
        } else {
            assert(!(a =~= b)) by {
                if a =~= b {
                    assert(a[0] == b[0]);
                }
            }
        }
    }
}

proof fn lemma_lex_antisym(a: Seq<char>, b: Seq<char>)
    ensures
        lex_cmp(a, b) == VersionOrdering::Less <==> lex_cmp(b, a) == VersionOrdering::Greater,
        lex_cmp(a, b) == VersionOrdering::Equal <==> lex_cmp(b, a) == VersionOrdering::Equal,
    decreases a.len(),
{
    if a.len() == 0 || b.len() == 0 {
        assert(lex_cmp(a, b) == VersionOrdering::Less <==> lex_cmp(b, a)
            == VersionOrdering::Greater);
    } else if (a[0] as u32) < (b[0] as u32) {
        assert(lex_cmp(a, b) == VersionOrdering::Less);
        assert(lex_cmp(b, a) == VersionOrdering::Greater);
    } else if (b[0] as u32) < (a[0] as u32) {
        assert(lex_cmp(a, b) == VersionOrdering::Greater);
        assert(lex_cmp(b, a) == VersionOrdering::Less);
    } else {
        lemma_lex_antisym(a.skip(1), b.skip(1));
        assert(lex_cmp(a, b) == lex_cmp(a.skip(1), b.skip(1)));
        assert(lex_cmp(b, a) == lex_cmp(b.skip(1), a.skip(1)));
    }
}

proof fn lemma_lex_trans(a: Seq<char>, b: Seq<char>, c: Seq<char>)
    requires
        lex_cmp(a, b) == VersionOrdering::Less,
        lex_cmp(b, c) == VersionOrdering::Less,
    ensures
        lex_cmp(a, c) == VersionOrdering::Less,
    decreases a.len(),
{
    if a.len() == 0 {
        assert(lex_cmp(a, c) == VersionOrdering::Less);
    } else {
        assert(b.len() != 0);
        assert(c.len() != 0);
        if !((a[0] as u32) < (b[0] as u32)) && !((b[0] as u32) < (a[0] as u32)) {
            lemma_char_inj(a[0], b[0]);
        }
        if !((b[0] as u32) < (c[0] as u32)) && !((c[0] as u32) < (b[0] as u32)) {
            lemma_char_inj(b[0], c[0]);
        }
        if a[0] == b[0] && b[0] == c[0] {
            assert(lex_cmp(a.skip(1), b.skip(1)) == VersionOrdering::Less);
            assert(lex_cmp(b.skip(1), c.skip(1)) == VersionOrdering::Less);
            lemma_lex_trans(a.skip(1), b.skip(1), c.skip(1));
            assert(lex_cmp(a, c) == lex_cmp(a.skip(1), c.skip(1)));
        } else {
            assert((a[0] as u32) < (c[0] as u32));
        }
    }
}

/// The version order is decided: of `a < b`, `a = b`, `a > b` exactly one
/// holds, the comparison is antisymmetric, and two keys compare equal exactly
/// when all five components are equal.
pub proof fn lemma_key_cmp_trichotomy(a: KeyModel, b: KeyModel)
    ensures
        key_cmp(a, b) == VersionOrdering::Less <==> key_cmp(b, a) == VersionOrdering::Greater,
        key_cmp(a, b) == VersionOrdering::Equal <==> key_cmp(b, a) == VersionOrdering::Equal,
        key_cmp(a, b) == VersionOrdering::Equal <==> a =~= b,
{
    lemma_lex_antisym(a.qualifier, b.qualifier);
    lemma_lex_equal_iff(a.qualifier, b.qualifier);
}

/// The version order is transitive.
pub proof fn lemma_key_cmp_transitive(a: KeyModel, b: KeyModel, c: KeyModel)
    requires
        key_cmp(a, b) == VersionOrdering::Less,
        key_cmp(b, c) == VersionOrdering::Less,
    ensures
        key_cmp(a, c) == VersionOrdering::Less,
{
    if num_cmp(a.major, b.major) == VersionOrdering::Equal
        && num_cmp(b.major, c.major) == VersionOrdering::Equal
        && num_cmp(a.minor, b.minor) == VersionOrdering::Equal
        && num_cmp(b.minor, c.minor) == VersionOrdering::Equal
        && num_cmp(a.security, b.security) == VersionOrdering::Equal
        && num_cmp(b.security, c.security) == VersionOrdering::Equal
        && num_cmp(a.build, b.build) == VersionOrdering::Equal
        && num_cmp(b.build, c.build) == VersionOrdering::Equal {
        lemma_lex_trans(a.qualifier, b.qualifier, c.qualifier);
    }
}

/// Among keys with the same numeric components, the empty qualifier sorts
/// below every non-empty one.
pub proof fn lemma_empty_qualifier_lowest(a: KeyModel, b: KeyModel)
    requires
        a.major == b.major,
        a.minor == b.minor,
        a.security == b.security,
        a.build == b.build,
        a.qualifier.len() == 0,
        b.qualifier.len() > 0,
    ensures
        key_cmp(a, b) == VersionOrdering::Less,
{
}

/// Keys that compare `Equal` are the same key.
pub proof fn lemma_key_cmp_equal_is_eq(a: KeyModel, b: KeyModel)
    ensures
        key_cmp(a, b) == VersionOrdering::Equal ==> a == b,
{
    lemma_key_cmp_trichotomy(a, b);
}

/// The reflexive version order (`not above`) is transitive as well.
pub proof fn lemma_key_cmp_le_transitive(a: KeyModel, b: KeyModel, c: KeyModel)
    requires
        key_cmp(a, b) != VersionOrdering::Greater,
        key_cmp(b, c) != VersionOrdering::Greater,
    ensures
        key_cmp(a, c) != VersionOrdering::Greater,
{
    lemma_key_cmp_equal_is_eq(a, b);
    lemma_key_cmp_equal_is_eq(b, c);
    lemma_key_cmp_trichotomy(a, c);
    if key_cmp(a, b) == VersionOrdering::Less && key_cmp(b, c) == VersionOrdering::Less {
        lemma_key_cmp_transitive(a, b, c);
    }
}

/// Whether a character sequence contains a hyphen.
pub open spec fn has_dash(s: Seq<char>) -> bool {
    exists|i: int| 0 <= i < s.len() && s[i] == '-'
}

/// The characters that follow the last hyphen (the whole sequence when it
/// has none).
pub open spec fn after_last_dash(s: Seq<char>) -> Seq<char>
    decreases s.len(),
{
    if s.len() == 0 {
        Seq::empty()
    } else if s.last() == '-' {
        Seq::empty()
    } else {
        after_last_dash(s.drop_last()).push(s.last())
    }
}

/// The qualifier of a raw version string: the segment after the last hyphen,
/// or empty when the string carries no hyphen.
pub open spec fn qual_spec(s: Seq<char>) -> Seq<char> {
    if has_dash(s) {
        after_last_dash(s)
    } else {
        Seq::empty()
    }
}

proof fn lemma_after_last_dash(s: Seq<char>, i: int)
    requires
        0 <= i < s.len(),
        s[i] == '-',
        forall|j: int| i < j < s.len() ==> s[j] != '-',
    ensures
        after_last_dash(s) =~= s.subrange(i + 1, s.len() as int),
    decreases s.len(),
{
    if i < s.len() - 1 {
        assert(s.last() != '-');
        assert(s.drop_last()[i] == s[i]);
        lemma_after_last_dash(s.drop_last(), i);
        assert(after_last_dash(s) =~= s.drop_last().subrange(i + 1, s.len() - 1).push(s.last()));
    }
}

/// Extracts the qualifier from a raw version string: the text after the last
/// hyphen, or the empty string when there is none.
pub fn qualifier_of(s: &str) -> (r: String)
    ensures
        r@ == qual_spec(s@),
{
    let n = s.unicode_len();
    let mut i = n;
    while i > 0
        invariant
            i <= n,
            n == s@.len(),
            forall|j: int| i <= j < n ==> s@[j] != '-',
        decreases i,
    {
        let c = s.get_char(i - 1);
        if c == '-' {
            proof {
                assert(s@[i - 1] == '-');
                lemma_after_last_dash(s@, i - 1);
            }
            return s.substring_char(i, n).to_owned();
        }
        i = i - 1;
    }
    assert(!has_dash(s@));
    String::new()
}

/// Lexicographic comparison of two strings by code point.
pub fn lex_compare(a: &str, b: &str) -> (r: VersionOrdering)
    ensures
        r == lex_cmp(a@, b@),
{
    let an = a.unicode_len();
    let bn = b.unicode_len();
    let mut i: usize = 0;
    proof {
        assert(a@.skip(0) =~= a@);
        assert(b@.skip(0) =~= b@);
    }
    while i < an && i < bn
        invariant
            i <= an,
            i <= bn,
            an == a@.len(),
            bn == b@.len(),
            lex_cmp(a@, b@) == lex_cmp(a@.skip(i as int), b@.skip(i as int)),
        decreases an - i,
    {
        let ca = a.get_char(i);
        let cb = b.get_char(i);
        proof {
            assert(a@.skip(i as int)[0] == a@[i as int]);
            assert(b@.skip(i as int)[0] == b@[i as int]);
        }
        if (ca as u32) < (cb as u32) {
            return VersionOrdering::Less;
        }
        if (cb as u32) < (ca as u32) {
            return VersionOrdering::Greater;
        }
        proof {
            assert(a@.skip(i as int).skip(1) =~= a@.skip(i + 1));
            assert(b@.skip(i as int).skip(1) =~= b@.skip(i + 1));
        }
        i = i + 1;
    }
    if an == bn {
        VersionOrdering::Equal
    } else if an < bn {
        VersionOrdering::Less
    } else {
        VersionOrdering::Greater
    }
}

/// Compares two version keys: major, minor, security and build numerically,
/// then the qualifier lexicographically.
pub fn compare_keys(a: &VersionKey, b: &VersionKey) -> (r: VersionOrdering)
    ensures
        r == key_cmp(a@, b@),
{
    if a.major < b.major {
        VersionOrdering::Less
    } else if b.major < a.major {
        VersionOrdering::Greater
    } else if a.minor < b.minor {
        VersionOrdering::Less
    } else if b.minor < a.minor {
        VersionOrdering::Greater
    } else if a.security < b.security {
        VersionOrdering::Less
    } else if b.security < a.security {
        VersionOrdering::Greater
    } else if a.build < b.build {
        VersionOrdering::Less
    } else if b.build < a.build {
        VersionOrdering::Greater
    } else {
        lex_compare(a.qualifier.as_str(), b.qualifier.as_str())
    }
}

} // verus!
