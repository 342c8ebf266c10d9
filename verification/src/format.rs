//! String formatting helpers: shortening long text for logs, and tidying
//! decimal ether amounts. Contracts are stated over the character sequences
//! of the strings involved. The shortening and truncation helpers promise
//! their result only for ASCII input — their `requires` — where a count of
//! characters and a count of bytes are the same thing; the bodies work
//! character-wise, so no input is ever split inside a character and none
//! panics. The amount-tidying helper trims only the ASCII characters `0` and
//! `.`, whose byte and character positions agree in any UTF-8 text, so it
//! needs no such bound.

use vstd::prelude::*;

use vstd::string::{StrSliceExecFns, StringExecFns};

verus! {

broadcast use vstd::string::group_string_axioms;

/// Some position of `s` holds `c`.
pub open spec fn has_char(s: Seq<char>, c: char) -> bool {
    exists|i: int| 0 <= i < s.len() && s[i] == c
}

/// The first position of `s` holding `c`, or `s.len()` if none does.
pub open spec fn first_at(s: Seq<char>, c: char) -> int
    decreases s.len(),
{
    if s.len() == 0 {
        0
    } else if s[0] == c {
        0
    } else {
        1 + first_at(s.drop_first(), c)
    }
}

/// The first position of `s` not holding `c`, or `s.len()` if all do.
pub open spec fn first_not(s: Seq<char>, c: char) -> int
    decreases s.len(),
{
    if s.len() == 0 {
        0
    } else if s[0] != c {
        0
    } else {
        1 + first_not(s.drop_first(), c)
    }
}

/// How many `c` stand at the end of `s`.
pub open spec fn suffix_len(s: Seq<char>, c: char) -> int
    decreases s.len(),
{
    if s.len() > 0 && s.last() == c {
        1 + suffix_len(s.drop_last(), c)
    } else {
        0
    }
}

/// A left-to-right scan that stopped at `i` found the first position holding `c`.
proof fn lemma_first_at(s: Seq<char>, c: char, i: int)
    requires
        0 <= i <= s.len(),
        forall|j: int| 0 <= j < i ==> s[j] != c,
        i < s.len() ==> s[i] == c,
    ensures
        first_at(s, c) == i,
    decreases i, s.len(),
{
    if s.len() == 0 {
    } else if i == 0 {
    } else {
        let t = s.drop_first();
        assert(forall|j: int| 0 <= j < i - 1 ==> t[j] == s[j + 1] && s[j + 1] != c);
        if i - 1 < t.len() {
            assert(t[i - 1] == s[i]);
        }
        lemma_first_at(t, c, i - 1);
    }
}

/// A left-to-right scan that stopped at `i` found the first position free of `c`.
proof fn lemma_first_not(s: Seq<char>, c: char, i: int)
    requires
        0 <= i <= s.len(),
        forall|j: int| 0 <= j < i ==> s[j] == c,
        i < s.len() ==> s[i] != c,
    ensures
        first_not(s, c) == i,
    decreases i, s.len(),
{
    if s.len() == 0 {
    } else if i == 0 {
    } else {
        let t = s.drop_first();
        assert(forall|j: int| 0 <= j < i - 1 ==> t[j] == s[j + 1] && s[j + 1] == c);
        if i - 1 < t.len() {
            assert(t[i - 1] == s[i]);
        }
        lemma_first_not(t, c, i - 1);
    }
}

/// A right-to-left scan that stopped after `t` steps counted the trailing `c`.
proof fn lemma_suffix_len(s: Seq<char>, c: char, t: int)
    requires
        0 <= t <= s.len(),
        forall|j: int| s.len() - t <= j < s.len() ==> s[j] == c,
        t < s.len() ==> s[s.len() - t - 1] != c,
    ensures
        suffix_len(s, c) == t,
    decreases t, s.len(),
{
    if t == 0 {
        if s.len() > 0 {
            assert(s[s.len() - 1] != c);
        }
    } else {
        assert(s.last() == c);
        let u = s.drop_last();
        assert(forall|j: int| u.len() - (t - 1) <= j < u.len() ==> u[j] == s[j] && s[j] == c);
        if t - 1 < u.len() {
            assert(u[u.len() - (t - 1) - 1] == s[s.len() - t - 1]);
        }
        lemma_suffix_len(u, c, t - 1);
    }
}

/// `s` with every leading `c` removed.
pub open spec fn trim_lead(s: Seq<char>, c: char) -> Seq<char> {
    s.subrange(first_not(s, c), s.len() as int)
}

/// `s` with every trailing `c` removed.
pub open spec fn trim_trail(s: Seq<char>, c: char) -> Seq<char> {
    s.subrange(0, s.len() - suffix_len(s, c))
}

/// The tidied form of a decimal amount: leading zeros go; with a decimal
/// point, a bare leading point gets a zero back in front, and trailing zeros
/// and then trailing points go; without one, an all-zero amount becomes "0".
pub open spec fn normalize_ether_spec(s: Seq<char>) -> Seq<char> {
    if has_char(s, '.') {
        let a = trim_lead(s, '0');
        let b = if a.len() == 0 || a[0] == '.' {
            seq!['0'] + a
        } else {
            a
        };
        trim_trail(trim_trail(b, '0'), '.')
    } else {
        let a = trim_lead(s, '0');
        if a.len() == 0 {
            seq!['0']
        } else {
            a
        }
    }
}

/// The shortened form of a long text: over `length` characters, the first and
/// last `length / 2` characters joined by an ellipsis; otherwise the text
/// itself.
pub open spec fn summarize_spec(s: Seq<char>, length: int) -> Seq<char> {
    if s.len() > length {
        s.subrange(0, length / 2) + "..."@ + s.subrange(s.len() - length / 2, s.len() as int)
    } else {
        s
    }
}

/// The truncated form of a decimal amount: at most `max` characters from the
/// decimal point on (point included), and unchanged when there is no point.
pub open spec fn truncate_ether_spec(s: Seq<char>, max: int) -> Seq<char> {
    let idx = first_at(s, '.');
    if idx == s.len() {
        s
    } else if s.len() - idx > max {
        s.subrange(0, idx + max)
    } else {
        s
    }
}

/// Renders a value with its `Debug` implementation. Relies on `format!`; what
/// a `Debug` implementation produces is not modelled, so nothing is promised
/// of the text.
#[verifier::external_body]
pub fn debug<T: core::fmt::Debug>(d: T) -> String {
    format!("{:?}", d)
}

/// Picks `a` when `n` holds and `b` otherwise.
pub fn ternary<T>(n: bool, a: T, b: T) -> (r: T)
    ensures
        r == if n {
            a
        } else {
            b
        },
{
    if n {
        a
    } else {
        b
    }
}

/// Shortens text longer than `length` to its first and last `length / 2`
/// pieces joined by an ellipsis. The contract is stated for ASCII text,
/// where the character counts it uses equal the byte counts; on other input
/// the body still shortens character-wise and cannot panic, but promises
/// nothing.
pub fn summarize_str(s: &str, length: usize) -> (r: String)
    requires
        vstd::string::is_ascii(s),
    ensures
        r@ == summarize_spec(s@, length as int),
{
    let n = s.unicode_len();
    if n > length {
        let half = length / 2;
        let p0 = s.substring_char(0, half);
        let p2 = s.substring_char(n - half, n);
        let mut out = p0.to_owned();
        out.append("...");
        out.append(p2);
        out
    } else {
        s.to_owned()
    }
}

/// Tidies a decimal ether amount, as `normalize_ether_spec` describes.
pub fn normalize_ether(origin: String) -> (r: String)
    ensures
        r@ == normalize_ether_spec(origin@),
{
    let s = origin.as_str();
    let n = s.unicode_len();

    let mut has_dot = false;
    let mut i: usize = 0;
    while i < n && !has_dot
        invariant
            s@ =~= origin@,
            n == s@.len(),
            0 <= i <= n,
            has_dot ==> has_char(s@, '.'),
            !has_dot ==> forall|j: int| 0 <= j < i ==> s@[j] != '.',
        decreases n - i,
    {
        if s.get_char(i) == '.' {
            has_dot = true;
        }
        i += 1;
    }
    proof {
        if !has_dot {
            assert(forall|j: int| 0 <= j < s@.len() ==> s@[j] != '.');
        }
        assert(has_dot == has_char(origin@, '.'));
    }

    let mut k: usize = 0;
    while k < n && s.get_char(k) == '0'
        invariant
            s@ =~= origin@,
            n == s@.len(),
            0 <= k <= n,
            forall|j: int| 0 <= j < k ==> s@[j] == '0',
        decreases n - k,
    {
        k += 1;
    }
    proof {
        lemma_first_not(origin@, '0', k as int);
        assert(trim_lead(origin@, '0') == origin@.subrange(k as int, n as int));
    }

    if has_dot {
        let a = s.substring_char(k, n);
        let needs_zero = if n - k == 0 {
            true
        } else {
            a.get_char(0) == '.'
        };
        let b: String = if needs_zero {
            let mut z = "0".to_owned();
            z.append(a);
            proof {
                reveal_strlit("0");
                assert("0"@ =~= seq!['0']);
            }
            z
        } else {
            a.to_owned()
        };
        proof {
            let sa = trim_lead(origin@, '0');
            assert(b@ == (if sa.len() == 0 || sa[0] == '.' {
                seq!['0'] + sa
            } else {
                sa
            }));
        }

        let bs = b.as_str();
        let blen = bs.unicode_len();
        let mut t0: usize = 0;
        while t0 < blen && bs.get_char(blen - 1 - t0) == '0'
            invariant
                bs@ =~= b@,
                blen == bs@.len(),
                0 <= t0 <= blen,
                forall|j: int| blen - t0 <= j < blen ==> bs@[j] == '0',
            decreases blen - t0,
        {
            t0 += 1;
        }
        proof {
            lemma_suffix_len(b@, '0', t0 as int);
        }
        let c = bs.substring_char(0, blen - t0);
        let clen = blen - t0;
        let mut t1: usize = 0;
        while t1 < clen && c.get_char(clen - 1 - t1) == '.'
            invariant
                c@ =~= trim_trail(b@, '0'),
                clen == c@.len(),
                0 <= t1 <= clen,
                forall|j: int| clen - t1 <= j < clen ==> c@[j] == '.',
            decreases clen - t1,
        {
            t1 += 1;
        }
        proof {
            lemma_suffix_len(c@, '.', t1 as int);
        }
        let out = c.substring_char(0, clen - t1);
        out.to_owned()
    } else {
        if k == n {
            let z = "0".to_owned();
            proof {
                reveal_strlit("0");
                assert("0"@ =~= seq!['0']);
                assert(trim_lead(origin@, '0').len() == 0);
            }
            z
        } else {
            let a = s.substring_char(k, n);
            a.to_owned()
        }
    }
}

/// Truncates a decimal amount `max` places after the position of its decimal
/// point, leaving point-free amounts unchanged. The contract is stated for
/// ASCII text, where the character positions it uses equal the byte
/// positions; on other input the body still truncates character-wise and
/// cannot panic, but promises nothing.
pub fn truncate_ether(n: String, max: usize) -> (r: String)
    requires
        vstd::string::string_is_ascii(&n),
    ensures
        r@ == truncate_ether_spec(n@, max as int),
{
    let truncated: Option<String> = {
        let s = n.as_str();
        let len = s.unicode_len();
        let mut i: usize = 0;
        while i < len && s.get_char(i) != '.'
            invariant
                s@ =~= n@,
                len == s@.len(),
                0 <= i <= len,
                forall|j: int| 0 <= j < i ==> s@[j] != '.',
            decreases len - i,
        {
            i += 1;
        }
        proof {
            lemma_first_at(n@, '.', i as int);
        }
        if i < len && len - i > max {
            let out = s.substring_char(0, i + max);
            Some(out.to_owned())
        } else {
            None
        }
    };
    match truncated {
        Some(out) => out,
        None => n,
    }
}

} // verus!
