//! The descriptor checksum: an error-detecting suffix computed over the
//! textual body of a descriptor, written in eight characters of a 32-symbol
//! alphabet, together with its verifier.

use vstd::prelude::*;
use vstd::string::{StrSliceExecFns, StringExecFns};

use crate::error::{Error, ErrorV};

verus! {

/// The characters a descriptor body may be written in; a character's
/// position in this sequence is what the checksum digests.
pub open spec fn input_charset() -> Seq<char> {
    "0123456789()[],'/*abcdefgh@:$%{}IJKLMNOPQRSTUVWXYZ&+-.;<=>?!^_|~ijklmnopqrstuvwxyzABCDEFGH`#\"\\ "@
}

/// The characters a checksum itself is written in.
pub open spec fn checksum_charset() -> Seq<char> {
    "qpzry9x8gf2tvdw0s3jn54khce6mua7l"@
}

/// Index of the first occurrence of `c` in `s`, if any.
pub open spec fn find_in(s: Seq<char>, c: char) -> Option<int>
    decreases s.len(),
{
    if s.len() == 0 {
        None
    } else if s[0] == c {
        Some(0)
    } else {
        match find_in(s.drop_first(), c) {
            Some(i) => Some(i + 1),
            None => None,
        }
    }
}

pub proof fn lemma_find_in_some(s: Seq<char>, c: char)
    ensures
        find_in(s, c) matches Some(i) ==> 0 <= i < s.len() && s[i] == c && (forall|j: int|
            0 <= j < i ==> s[j] != c),
    decreases s.len(),
{
    if s.len() > 0 && s[0] != c {
        lemma_find_in_some(s.drop_first(), c);
        if let Some(i0) = find_in(s.drop_first(), c) {
            assert(s.drop_first()[i0] == s[i0 + 1]);
            assert forall|j: int| 0 <= j < i0 + 1 implies s[j] != c by {
                if j > 0 {
                    assert(s.drop_first()[j - 1] == s[j]);
                    assert(s.drop_first()[j - 1] != c);
                }
            }
        }
    }
}

pub proof fn lemma_find_in_none(s: Seq<char>, c: char)
    ensures
        find_in(s, c) is None <==> (forall|j: int| 0 <= j < s.len() ==> s[j] != c),
    decreases s.len(),
{
    if s.len() > 0 {
        lemma_find_in_none(s.drop_first(), c);
        assert(forall|j: int| 0 <= j < s.drop_first().len() ==> s.drop_first()[j] == s[j + 1]);
        if s[0] != c && find_in(s.drop_first(), c) is None {
            assert forall|j: int| 0 <= j < s.len() implies s[j] != c by {
                if j > 0 {
                    assert(s[j] == s.drop_first()[j - 1]);
                }
            }
        }
    }
}

pub proof fn lemma_find_in_at(s: Seq<char>, c: char, i: int)
    requires
        0 <= i < s.len(),
        s[i] == c,
        forall|j: int| 0 <= j < i ==> s[j] != c,
    ensures
        find_in(s, c) == Some(i),
    decreases i,
{
    if i > 0 {
        assert(s[0] != c);
        assert(s.drop_first()[i - 1] == c);
        assert(forall|j: int| 0 <= j < i - 1 ==> s.drop_first()[j] == s[j + 1] && s[j + 1] != c);
        lemma_find_in_at(s.drop_first(), c, i - 1);
    }
}

/// One step of the checksum's polynomial-division register.
pub open spec fn polymod_step(c: u64, val: u64) -> u64 {
    let c0 = c >> 35;
    let c1 = ((c & 0x7ffffffff) << 5) ^ val;
    let c2 = if c0 & 1 != 0 {
        c1 ^ 0xf5dee51989
    } else {
        c1
    };
    let c3 = if c0 & 2 != 0 {
        c2 ^ 0xa9fdca3312
    } else {
        c2
    };
    let c4 = if c0 & 4 != 0 {
        c3 ^ 0x1bab10e32d
    } else {
        c3
    };
    let c5 = if c0 & 8 != 0 {
        c4 ^ 0x3706b1677a
    } else {
        c4
    };
    if c0 & 16 != 0 {
        c5 ^ 0x644d626ffd
    } else {
        c5
    }
}

fn polymod(c: u64, val: u64) -> (r: u64)
    ensures
        r == polymod_step(c, val),
{
    let c0: u64 = c >> 35;
    let mut acc: u64 = ((c & 0x7ffffffff) << 5) ^ val;
    if c0 & 1 != 0 {
        acc = acc ^ 0xf5dee51989;
    }
    if c0 & 2 != 0 {
        acc = acc ^ 0xa9fdca3312;
    }
    if c0 & 4 != 0 {
        acc = acc ^ 0x1bab10e32d;
    }
    if c0 & 8 != 0 {
        acc = acc ^ 0x3706b1677a;
    }
    if c0 & 16 != 0 {
        acc = acc ^ 0x644d626ffd;
    }
    acc
}

/// Register state after digesting the first `n` characters of `s`:
/// the polynomial accumulator, the pending character-group value, and how
/// many characters the pending group holds. `None` once a character outside
/// the input alphabet has been seen.
pub open spec fn cks_state(s: Seq<char>, n: int) -> Option<(u64, int, int)>
    decreases n,
{
    if n <= 0 {
        Some((1u64, 0int, 0int))
    } else {
        match cks_state(s, n - 1) {
            None => None,
            Some(st) => match find_in(input_charset(), s[n - 1]) {
                None => None,
                Some(pos) => {
                    let c1 = polymod_step(st.0, (pos % 32) as u64);
                    let cls2 = st.1 * 3 + pos / 32;
                    if st.2 == 2 {
                        Some((polymod_step(c1, cls2 as u64), 0int, 0int))
                    } else {
                        Some((c1, cls2, st.2 + 1))
                    }
                },
            },
        }
    }
}

pub proof fn lemma_state_none_persists(s: Seq<char>, m: int, n: int)
    requires
        cks_state(s, m) is None,
        m <= n,
    ensures
        cks_state(s, n) is None,
    decreases n - m,
{
    if n > m {
        lemma_state_none_persists(s, m, n - 1);
    }
}

pub proof fn lemma_state_some(s: Seq<char>, n: int)
    requires
        0 <= n <= s.len(),
        forall|i: int| 0 <= i < n ==> find_in(input_charset(), #[trigger] s[i]) is Some,
    ensures
        cks_state(s, n) is Some,
    decreases n,
{
    if n > 0 {
        lemma_state_some(s, n - 1);
    }
}

/// Both parentheses are in the input alphabet.
pub proof fn lemma_paren_in_charset()
    ensures
        find_in(input_charset(), '(') is Some,
        find_in(input_charset(), ')') is Some,
{
    lemma_charset_lens();
    reveal_strlit(
        "0123456789()[],'/*abcdefgh@:$%{}IJKLMNOPQRSTUVWXYZ&+-.;<=>?!^_|~ijklmnopqrstuvwxyzABCDEFGH`#\"\\ ",
    );
    let cs = input_charset();
    assert(cs[10] == '(');
    assert(cs[11] == ')');
    lemma_find_in_none(cs, '(');
    lemma_find_in_none(cs, ')');
}

/// `k` further register steps over the zero symbol.
pub open spec fn pump(c: u64, k: int) -> u64
    decreases k,
{
    if k <= 0 {
        c
    } else {
        pump(polymod_step(c, 0), k - 1)
    }
}

/// Close the register: flush a partial group, run the eight closing steps,
/// and flip the low bit.
pub open spec fn cks_final(st: (u64, int, int)) -> u64 {
    let c1 = if st.2 > 0 {
        polymod_step(st.0, st.1 as u64)
    } else {
        st.0
    };
    pump(c1, 8) ^ 1
}

/// The eight checksum characters read off a closed register.
pub open spec fn checksum_chars(c: u64) -> Seq<char> {
    Seq::new(8, |j: int| checksum_charset()[((c >> ((35 - 5 * j) as u64)) & 31) as int])
}

/// The checksum of `s`, or `None` if `s` holds a character outside the
/// input alphabet.
pub open spec fn checksum_of(s: Seq<char>) -> Option<Seq<char>> {
    match cks_state(s, s.len() as int) {
        None => None,
        Some(st) => Some(checksum_chars(cks_final(st))),
    }
}

/// What checksum verification yields on `s`: the body with any trailing
/// checksum stripped, or `None` when a checksum is present but wrong (or
/// cannot even be computed).
pub open spec fn verify_spec(s: Seq<char>) -> Option<Seq<char>> {
    match find_in(s, '#') {
        None => Some(s),
        Some(i) => {
            let body = s.take(i);
            let sum = s.skip(i + 1);
            match checksum_of(body) {
                None => None,
                Some(expect) => if sum == expect {
                    Some(body)
                } else {
                    None
                },
            }
        },
    }
}

proof fn lemma_low5(x: u64)
    ensures
        x & 31 < 32,
{
    assert(x & 31 < 32) by (bit_vector);
}

pub proof fn lemma_charset_lens()
    ensures
        input_charset().len() == 95,
        checksum_charset().len() == 32,
{
    reveal_strlit(
        "0123456789()[],'/*abcdefgh@:$%{}IJKLMNOPQRSTUVWXYZ&+-.;<=>?!^_|~ijklmnopqrstuvwxyzABCDEFGH`#\"\\ ",
    );
    reveal_strlit("qpzry9x8gf2tvdw0s3jn54khce6mua7l");
}

/// First index of `c` in `s`, scanning left to right.
pub(crate) fn find_char(s: &str, c: char) -> (r: Option<usize>)
    ensures
        match r {
            Some(i) => find_in(s@, c) == Some(i as int),
            None => find_in(s@, c) is None,
        },
{
    let n = s.unicode_len();
    let mut i: usize = 0;
    while i < n
        invariant
            n == s@.len(),
            i <= n,
            forall|j: int| 0 <= j < i ==> s@[j] != c,
        decreases n - i,
    {
        if s.get_char(i) == c {
            proof {
                lemma_find_in_at(s@, c, i as int);
            }
            return Some(i);
        }
        i += 1;
    }
    proof {
        lemma_find_in_none(s@, c);
    }
    None
}

/// Position of `c` in the input alphabet, if it is there.
fn charset_index(c: char) -> (r: Option<usize>)
    ensures
        match r {
            Some(i) => find_in(input_charset(), c) == Some(i as int),
            None => find_in(input_charset(), c) is None,
        },
{
    let cs: &str =
        "0123456789()[],'/*abcdefgh@:$%{}IJKLMNOPQRSTUVWXYZ&+-.;<=>?!^_|~ijklmnopqrstuvwxyzABCDEFGH`#\"\\ ";
    proof {
        assert(cs@ == input_charset());
    }
    find_char(cs, c)
}

/// Compute the checksum of `s`, or `None` if `s` holds a character the
/// input alphabet does not know.
pub fn desc_checksum(s: &str) -> (r: Option<String>)
    ensures
        match r {
            Some(t) => checksum_of(s@) == Some(t@) && t@.len() == 8,
            None => checksum_of(s@) is None,
        },
{
    let n = s.unicode_len();
    let mut c: u64 = 1;
    let mut cls: u64 = 0;
    let mut cnt: u8 = 0;
    let mut i: usize = 0;
    while i < n
        invariant
            n == s@.len(),
            i <= n,
            cks_state(s@, i as int) == Some((c, cls as int, cnt as int)),
            cnt <= 2,
            cnt == 0 ==> cls == 0,
            cnt == 1 ==> cls <= 2,
            cnt == 2 ==> cls <= 8,
        decreases n - i,
    {
        let ch = s.get_char(i);
        let pos = match charset_index(ch) {
            Some(p) => p,
            None => {
                proof {
                    assert(cks_state(s@, i + 1) is None);
                    lemma_state_none_persists(s@, i + 1, n as int);
                }
                return None;
            },
        };
        proof {
            lemma_find_in_some(input_charset(), ch);
            lemma_charset_lens();
        }
        c = polymod(c, (pos % 32) as u64);
        cls = cls * 3 + (pos / 32) as u64;
        cnt = cnt + 1;
        if cnt == 3 {
            c = polymod(c, cls);
            cls = 0;
            cnt = 0;
        }
        i += 1;
    }
    let ghost st0 = (c, cls as int, cnt as int);
    if cnt > 0 {
        c = polymod(c, cls);
    }
    let ghost c1 = c;
    assert(cks_final(st0) == pump(c1, 8) ^ 1);
    let mut j: usize = 0;
    while j < 8
        invariant
            j <= 8,
            pump(c, 8 - j as int) == pump(c1, 8),
        decreases 8 - j,
    {
        c = polymod(c, 0);
        j = j + 1;
    }
    c = c ^ 1;
    assert(c == cks_final(st0));
    let ck: &str = "qpzry9x8gf2tvdw0s3jn54khce6mua7l";
    proof {
        assert(ck@ == checksum_charset());
        lemma_charset_lens();
    }
    let mut out = String::new();
    let mut k: usize = 0;
    while k < 8
        invariant
            k <= 8,
            ck@ == checksum_charset(),
            ck@.len() == 32,
            out@ =~= checksum_chars(c).take(k as int),
        decreases 8 - k,
    {
        let sh: u64 = (35 - 5 * k) as u64;
        proof {
            lemma_low5(c >> sh);
        }
        let idx: usize = ((c >> sh) & 31) as usize;
        let piece = ck.substring_char(idx, idx + 1);
        out.append(piece);
        proof {
            assert(piece@ == ck@.subrange(idx as int, idx as int + 1));
            assert(checksum_chars(c)[k as int] == checksum_charset()[idx as int]);
            assert(out@ =~= checksum_chars(c).take(k as int + 1));
        }
        k = k + 1;
    }
    proof {
        assert(out@ =~= checksum_chars(c));
    }
    Some(out)
}

/// Check and strip a trailing checksum: everything after the first `#` must
/// be the checksum of everything before it; with no `#` the input passes
/// through unchecked.
pub fn verify_checksum(s: &str) -> (r: Result<String, Error>)
    ensures
        r matches Ok(body) ==> verify_spec(s@) == Some(body@),
        r matches Err(e) ==> verify_spec(s@) is None && e@ == ErrorV::ChecksumMismatch,
{
    let n = s.unicode_len();
    match find_char(s, '#') {
        None => Ok(s.to_owned()),
        Some(i) => {
            proof {
                lemma_find_in_some(s@, '#');
            }
            let body = s.substring_char(0, i);
            let sum = s.substring_char(i + 1, n);
            match desc_checksum(body) {
                None => {
                    proof {
                        assert(body@ =~= s@.take(i as int));
                    }
                    Err(Error::ChecksumMismatch)
                },
                Some(expect) => {
                    proof {
                        assert(body@ =~= s@.take(i as int));
                        assert(sum@ =~= s@.skip(i as int + 1));
                    }
                    let sum_owned = sum.to_owned();
                    if expect.eq(&sum_owned) {
                        Ok(body.to_owned())
                    } else {
                        Err(Error::ChecksumMismatch)
                    }
                },
            }
        },
    }
}

} // verus!
