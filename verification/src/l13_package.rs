//! Release naming: version parsing and installer file names.
use vstd::prelude::*;
use crate::text::{dec, push_dec, chars_of, first_index, lemma_first_index, parse_unsigned, unsigned_body, all_digits, digits_value, is_ascii_digit, lemma_dec_digits, lemma_dec_len, digit_char};

verus! {

/// Semantic version `major.minor.patch`.
#[derive(Debug, Clone, Copy, PartialEq, Eq)]
pub struct Version {
    pub major: u32,
    pub minor: u32,
    pub patch: u32,
}

/// `s` split at its dots into exactly three parts, or `None`.
pub open spec fn split3(s: Seq<char>) -> Option<(Seq<char>, Seq<char>, Seq<char>)> {
    let i = first_index(s, '.');
    if i < 0 {
        None
    } else {
        let r = s.subrange(i + 1, s.len() as int);
        let j = first_index(r, '.');
        if j < 0 {
            None
        } else {
            let t = r.subrange(j + 1, r.len() as int);
            if first_index(t, '.') >= 0 {
                None
            } else {
                Some((s.subrange(0, i), r.subrange(0, j), t))
            }
        }
    }
}

/// What `Version::parse` accepts: three dot-separated parts, each a `u32`.
pub open spec fn parse_spec(s: Seq<char>) -> Option<Version> {
    match split3(s) {
        Some((a, b, c)) => match (
            parse_unsigned(a, u32::MAX as nat),
            parse_unsigned(b, u32::MAX as nat),
            parse_unsigned(c, u32::MAX as nat),
        ) {
            (Some(x), Some(y), Some(z)) => Some(
                Version { major: x as u32, minor: y as u32, patch: z as u32 },
            ),
            _ => None,
        },
        None => None,
    }
}

/// `major.minor.patch` in decimal.
pub open spec fn version_text(v: Version) -> Seq<char> {
    dec(v.major as nat) + "."@ + dec(v.minor as nat) + "."@ + dec(v.patch as nat)
}

/// `winmon-<version>-<arch>.msi`.
pub open spec fn msi_name(v: Version, arch: Seq<char>) -> Seq<char> {
    "winmon-"@ + version_text(v) + "-"@ + arch + ".msi"@
}

fn parse_part(v: &Vec<char>, from: usize, to: usize) -> (r: Option<u32>)
    requires
        from <= to <= v.len(),
    ensures
        match r {
            Some(x) => parse_unsigned(v@.subrange(from as int, to as int), u32::MAX as nat) == Some(x as nat),
            None => parse_unsigned(v@.subrange(from as int, to as int), u32::MAX as nat) is None,
        },
{
    let part = crate::text::string_from(v, from, to);
    crate::text::parse_u32(part.as_str())
}

fn find_from(v: &Vec<char>, from: usize, c: char) -> (r: Option<usize>)
    requires
        from <= v.len(),
    ensures
        match r {
            Some(k) => from <= k < v.len() && first_index(v@.subrange(from as int, v.len() as int), c) == k - from,
            None => first_index(v@.subrange(from as int, v.len() as int), c) == -1,
        },
{
    let ghost t = v@.subrange(from as int, v.len() as int);
    let mut k: usize = from;
    while k < v.len()
        invariant
            from <= k <= v.len(),
            t == v@.subrange(from as int, v.len() as int),
            forall|m: int| from <= m < k ==> v@[m] != c,
        decreases v.len() - k,
    {
        if v[k] == c {
            proof {
                lemma_first_index(t, c, k - from);
            }
            return Some(k);
        }
        k += 1;
    }
    proof {
        lemma_first_index(t, c, -1);
    }
    None
}

impl Version {
    /// Parses `"1.0.3"`; anything else (missing or extra parts, a part that is
    /// not a `u32`) gives `None`.
    pub fn parse(s: &str) -> (r: Option<Version>)
        ensures
            r == parse_spec(s@),
    {
        let v = chars_of(s);
        let i = match find_from(&v, 0, '.') {
            Some(i) => i,
            None => {
                assert(v@.subrange(0, v.len() as int) =~= v@);
                return None;
            },
        };
        assert(v@.subrange(0, v.len() as int) =~= v@);
        let j = match find_from(&v, i + 1, '.') {
            Some(j) => j,
            None => {
                return None;
            },
        };
        let ghost r = v@.subrange(i + 1, v.len() as int);
        assert(r.subrange(j - i - 1 + 1, r.len() as int) =~= v@.subrange(j + 1, v.len() as int));
        assert(r.subrange(0, j - i - 1) =~= v@.subrange(i + 1, j as int));
        match find_from(&v, j + 1, '.') {
            Some(_) => {
                return None;
            },
            None => {},
        }
        let a = parse_part(&v, 0, i);
        let b = parse_part(&v, i + 1, j);
        let c = parse_part(&v, j + 1, v.len());
        match (a, b, c) {
            (Some(x), Some(y), Some(z)) => Some(Version { major: x, minor: y, patch: z }),
            _ => None,
        }
    }

    /// `major.minor.patch`, as `Display` writes it.
    pub fn to_string(&self) -> (s: String)
        ensures
            s@ == version_text(*self),
    {
        let mut s = String::new();
        push_dec(&mut s, self.major as u64);
        s.push_str(".");
        push_dec(&mut s, self.minor as u64);
        s.push_str(".");
        push_dec(&mut s, self.patch as u64);
        assert(s@ =~= version_text(*self));
        s
    }
}

/// Installer file name for a version and architecture.
pub fn msi_filename(version: Version, arch: &str) -> (s: String)
    ensures
        s@ == msi_name(version, arch@),
{
    let mut s = String::new();
    s.push_str("winmon-");
    let v = version.to_string();
    s.push_str(v.as_str());
    s.push_str("-");
    s.push_str(arch);
    s.push_str(".msi");
    assert(s@ =~= msi_name(version, arch@));
    s
}

pub proof fn lemma_dec_value(n: nat)
    ensures
        all_digits(dec(n)),
        digits_value(dec(n)) == n,
        dec(n).len() >= 1,
    decreases n,
{
    lemma_dec_digits(n);
    lemma_dec_len(n);
    assert((digit_char(n % 10) as u32) as int == n % 10 + 48);
    if n < 10 {
        assert(dec(n).drop_last() =~= Seq::<char>::empty());
        assert(digits_value(Seq::<char>::empty()) == 0);
        assert(digits_value(dec(n)) == digits_value(dec(n).drop_last()) * 10 + ((dec(n).last() as u32) - 48) as nat);
    }
    if n >= 10 {
        lemma_dec_value(n / 10);
        let d = dec(n);
        assert(d.drop_last() =~= dec(n / 10));
        assert(d.last() == digit_char(n % 10));
        assert(digits_value(d) == digits_value(d.drop_last()) * 10 + ((d.last() as u32) - 48) as nat);
        assert((n / 10) * 10 + n % 10 == n);
    }
}

pub proof fn lemma_parse_dec(n: nat)
    requires
        n <= u32::MAX,
    ensures
        parse_unsigned(dec(n), u32::MAX as nat) == Some(n),
        forall|k: int| 0 <= k < dec(n).len() ==> dec(n)[k] != '.',
{
    lemma_dec_value(n);
    let d = dec(n);
    assert(is_ascii_digit(d[0]));
    assert(unsigned_body(d) == d);
    assert forall|k: int| 0 <= k < d.len() implies d[k] != '.' by {
        assert(is_ascii_digit(d[k]));
    }
}

/// Printing a version and parsing the text gives the same version back.
pub proof fn law_parse_inverts_to_string(v: Version)
    ensures
        parse_spec(version_text(v)) == Some(v),
{
    let a = dec(v.major as nat);
    let b = dec(v.minor as nat);
    let c = dec(v.patch as nat);
    lemma_parse_dec(v.major as nat);
    lemma_parse_dec(v.minor as nat);
    lemma_parse_dec(v.patch as nat);
    let s = version_text(v);
    reveal_strlit(".");
    assert(s =~= a + seq!['.'] + b + seq!['.'] + c);
    lemma_first_index(s, '.', a.len() as int);
    let r = s.subrange(a.len() as int + 1, s.len() as int);
    assert(r =~= b + seq!['.'] + c);
    lemma_first_index(r, '.', b.len() as int);
    let t = r.subrange(b.len() as int + 1, r.len() as int);
    assert(t =~= c);
    lemma_first_index(t, '.', -1);
    assert(s.subrange(0, a.len() as int) =~= a);
    assert(r.subrange(0, b.len() as int) =~= b);
}

} // verus!
