//! Host-version negotiation: a script declares the minimum host version it
//! requires, written `>=MAJOR.MINOR.PATCH`; the host admits the script only
//! when its own version is at least that minimum.
use vstd::prelude::*;

verus! {

/// A semantic version as three plain numbers.
#[derive(PartialEq, Eq, Structural, Clone, Copy, Debug)]
pub struct Version {
    /// Major component.
    pub major: u64,
    /// Minor component.
    pub minor: u64,
    /// Patch component.
    pub patch: u64,
}

/// A script's requirement: a minimum host version.
#[derive(PartialEq, Eq, Structural, Clone, Copy, Debug)]
pub struct VersionReq {
    /// The least version the host must have.
    pub min: Version,
}

/// Lexicographic order on versions: `a` is at least `b`.
pub open spec fn version_ge(a: Version, b: Version) -> bool {
    a.major > b.major || (a.major == b.major && (a.minor > b.minor || (a.minor == b.minor
        && a.patch >= b.patch)))
}

/// Whether the host version satisfies a script's requirement.
pub fn req_matches(host: &Version, req: &VersionReq) -> (r: bool)
    ensures
        r == version_ge(*host, req.min),
{
    host.major > req.min.major || (host.major == req.min.major && (host.minor > req.min.minor || (
    host.minor == req.min.minor && host.patch >= req.min.patch)))
}

/// A decimal digit byte.
pub open spec fn is_digit(b: u8) -> bool {
    48 <= b <= 57
}

/// All bytes of `s` are decimal digits.
pub open spec fn all_digits(s: Seq<u8>) -> bool {
    forall|i: int| 0 <= i < s.len() ==> is_digit(s[i])
}

/// The value of `s` read as a decimal numeral.
pub open spec fn dec_val(s: Seq<u8>) -> int
    decreases s.len(),
{
    if s.len() == 0 {
        0
    } else {
        dec_val(s.drop_last()) * 10 + (s.last() - 48)
    }
}

/// What a numeral component parses to: defined exactly on nonempty
/// all-digit text whose value fits the component's width.
pub open spec fn parse_num_spec(s: Seq<u8>) -> Option<u64> {
    if s.len() > 0 && all_digits(s) && dec_val(s) <= u64::MAX {
        Some(dec_val(s) as u64)
    } else {
        None
    }
}

/// Index of the first dot in `s`, or -1 when there is none.
pub open spec fn find_dot(s: Seq<u8>) -> int
    decreases s.len(),
{
    if s.len() == 0 {
        -1
    } else if s[0] == 46 {
        0
    } else if find_dot(s.drop_first()) < 0 {
        -1
    } else {
        1 + find_dot(s.drop_first())
    }
}

/// What a requirement string parses to: `>=` followed by three dot-separated
/// decimal numerals, and nothing else.
pub open spec fn parse_req_spec(s: Seq<u8>) -> Option<VersionReq> {
    if !(s.len() >= 2 && s[0] == ('>' as u8) && s[1] == ('=' as u8)) {
        None
    } else {
        let t = s.subrange(2, s.len() as int);
        let i = find_dot(t);
        if i < 0 {
            None
        } else {
            let rest = t.subrange(i + 1, t.len() as int);
            let j = find_dot(rest);
            if j < 0 {
                None
            } else {
                let ma = parse_num_spec(t.subrange(0, i));
                let mi = parse_num_spec(rest.subrange(0, j));
                let pa = parse_num_spec(rest.subrange(j + 1, rest.len() as int));
                if ma is Some && mi is Some && pa is Some {
                    Some(
                        (VersionReq {
                            min: (Version {
                                major: ma->Some_0,
                                minor: mi->Some_0,
                                patch: pa->Some_0,
                            }),
                        }),
                    )
                } else {
                    None
                }
            }
        }
    }
}

/// Characterize `find_dot` by a scan: if the first `i` bytes hold no dot and
/// byte `i`, when it exists, is a dot, then `find_dot` is `i` or -1 at the
/// end.
proof fn lemma_find_dot_scan(s: Seq<u8>, i: int)
    requires
        0 <= i <= s.len(),
        forall|k: int| 0 <= k < i ==> s[k] != 46,
        i < s.len() ==> s[i] == 46,
    ensures
        find_dot(s) == if i < s.len() {
            i
        } else {
            -1
        },
    decreases s.len(),
{
    if s.len() == 0 {
    } else if i == 0 {
    } else {
        assert(s[0] != 46);
        lemma_find_dot_scan(s.drop_first(), i - 1);
    }
}

/// A nonempty all-digit numeral has a nonnegative value.
proof fn lemma_dec_val_nonneg(s: Seq<u8>)
    requires
        all_digits(s),
    ensures
        dec_val(s) >= 0,
    decreases s.len(),
{
    if s.len() > 0 {
        assert(all_digits(s.drop_last())) by {
            assert(forall|i: int| 0 <= i < s.len() - 1 ==> s.drop_last()[i] == s[i]);
        }
        lemma_dec_val_nonneg(s.drop_last());
        assert(is_digit(s.last()));
        assert(dec_val(s.drop_last()) * 10 >= 0) by (nonlinear_arith)
            requires
                dec_val(s.drop_last()) >= 0,
        ;
    }
}

/// A prefix of an all-digit numeral is worth no more than the whole.
proof fn lemma_dec_val_prefix(s: Seq<u8>, m: int)
    requires
        all_digits(s),
        0 <= m <= s.len(),
    ensures
        dec_val(s.subrange(0, m)) <= dec_val(s),
    decreases s.len() - m,
{
    if m == s.len() {
        assert(s.subrange(0, m) =~= s);
    } else {
        lemma_dec_val_prefix(s, m + 1);
        let p = s.subrange(0, m + 1);
        assert(p.drop_last() =~= s.subrange(0, m));
        assert(all_digits(s.subrange(0, m))) by {
            assert(forall|i: int| 0 <= i < m ==> s.subrange(0, m)[i] == s[i]);
        }
        lemma_dec_val_nonneg(s.subrange(0, m));
        assert(dec_val(s.subrange(0, m)) * 10 >= dec_val(s.subrange(0, m))) by (nonlinear_arith)
            requires
                dec_val(s.subrange(0, m)) >= 0,
        ;
        assert(is_digit(p.last()));
    }
}

/// Parse one decimal numeral.
fn parse_num(s: &[u8]) -> (r: Option<u64>)
    ensures
        r == parse_num_spec(s@),
{
    if s.len() == 0 {
        return None;
    }
    let mut val: u64 = 0;
    let mut i: usize = 0;
    assert(s@.subrange(0, 0) =~= Seq::<u8>::empty());
    while i < s.len()
        invariant
            i <= s.len(),
            all_digits(s@.subrange(0, i as int)),
            val == dec_val(s@.subrange(0, i as int)),
        decreases s.len() - i,
    {
        let b = s[i];
        if b < 48 || b > 57 {
            assert(!is_digit(s@[i as int]));
            assert(!all_digits(s@));
            return None;
        }
        let ghost p = s@.subrange(0, i + 1);
        assert(p.drop_last() =~= s@.subrange(0, i as int));
        assert(p.last() == s@[i as int]);
        assert(all_digits(p));
        let step = match val.checked_mul(10) {
            Some(v10) => v10.checked_add((b - 48) as u64),
            None => None,
        };
        match step {
            Some(v) => {
                val = v;
            },
            None => {
                assert(dec_val(p) > u64::MAX);
                if i + 1 < s.len() {
                }
                proof {
                    if all_digits(s@) {
                        lemma_dec_val_prefix(s@, i + 1);
                    }
                }
                assert(parse_num_spec(s@) is None);
                return None;
            },
        }
        i += 1;
    }
    assert(s@.subrange(0, s@.len() as int) =~= s@);
    Some(val)
}

/// Parse a requirement string of the form `>=MAJOR.MINOR.PATCH`.
pub fn parse_version_req(s: &[u8]) -> (r: Option<VersionReq>)
    ensures
        r == parse_req_spec(s@),
{
    if !(s.len() >= 2 && s[0] == 62u8 && s[1] == 61u8) {
        return None;
    }
    let t = vstd::slice::slice_subrange(s, 2, s.len());
    let i = match find_dot_exec(t) {
        Some(i) => i,
        None => {
            return None;
        },
    };
    let rest = vstd::slice::slice_subrange(t, i + 1, t.len());
    let j = match find_dot_exec(rest) {
        Some(j) => j,
        None => {
            return None;
        },
    };
    let ma = parse_num(vstd::slice::slice_subrange(t, 0, i));
    let mi = parse_num(vstd::slice::slice_subrange(rest, 0, j));
    let pa = parse_num(vstd::slice::slice_subrange(rest, j + 1, rest.len()));
    match (ma, mi, pa) {
        (Some(major), Some(minor), Some(patch)) => Some(
            VersionReq { min: Version { major, minor, patch } },
        ),
        _ => None,
    }
}

/// Find the first dot in a slice.
fn find_dot_exec(s: &[u8]) -> (r: Option<usize>)
    ensures
        match r {
            Some(i) => i < s@.len() && find_dot(s@) == i as int,
            None => find_dot(s@) < 0,
        },
{
    let mut i: usize = 0;
    while i < s.len()
        invariant
            i <= s.len(),
            forall|k: int| 0 <= k < i ==> s@[k] != 46,
        decreases s.len() - i,
    {
        if s[i] == 46 {
            proof {
                lemma_find_dot_scan(s@, i as int);
            }
            return Some(i);
        }
        i += 1;
    }
    proof {
        lemma_find_dot_scan(s@, s@.len() as int);
    }
    None
}

} // verus!
