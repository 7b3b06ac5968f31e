//! Row-to-pid resolver: recovers a process id from untrusted row-like text.
//!
//! The text is tokenized on whitespace (empty tokens discarded).  One token
//! means the operator typed a bare id; two or more mean the text looks like
//! an encoded row, whose second field is the id.  The chosen token is parsed
//! as a base-10 signed 32-bit integer; any failure yields `None`, never a
//! panic.

use vstd::prelude::*;
use vstd::string::*;

verus! {

/// Whether `c` separates tokens: the ASCII whitespace characters.
pub open spec fn is_space(c: char) -> bool {
    c == ' ' || c == '\t' || c == '\n' || c == '\u{000C}' || c == '\r'
}

/// A token list contributed by a pending partial token: empty if the partial
/// token is empty, otherwise just that token.
pub open spec fn pending(cur: Seq<char>) -> Seq<Seq<char>> {
    if cur.len() == 0 {
        seq![]
    } else {
        seq![cur]
    }
}

/// The tokens of `s`, given that the characters of `cur` directly precede `s`
/// and no whitespace stands between `cur` and `s`.
pub open spec fn tokens_from(s: Seq<char>, cur: Seq<char>) -> Seq<Seq<char>>
    decreases s.len(),
{
    if s.len() == 0 {
        pending(cur)
    } else if is_space(s[0]) {
        pending(cur) + tokens_from(s.skip(1), Seq::empty())
    } else {
        tokens_from(s.skip(1), cur.push(s[0]))
    }
}

/// The maximal whitespace-free nonempty substrings of `s`, in order.
pub open spec fn spec_tokens(s: Seq<char>) -> Seq<Seq<char>> {
    tokens_from(s, Seq::empty())
}

pub open spec fn is_ascii_digit(c: char) -> bool {
    '0' <= c && c <= '9'
}

pub open spec fn digit_val(c: char) -> int {
    c as int - '0' as int
}

pub open spec fn all_digits(t: Seq<char>) -> bool {
    forall|i: int| 0 <= i < t.len() ==> is_ascii_digit(#[trigger] t[i])
}

/// The value of a string of decimal digits, most significant first.
pub open spec fn digits_value(t: Seq<char>) -> int
    decreases t.len(),
{
    if t.len() == 0 {
        0
    } else {
        digits_value(t.drop_last()) * 10 + digit_val(t.last())
    }
}

/// What `str::parse::<i32>` accepts: an optional sign, then one or more
/// decimal digits, with the value in range.
pub open spec fn spec_parse_i32(t: Seq<char>) -> Option<i32> {
    let signed = t.len() > 0 && (t[0] == '-' || t[0] == '+');
    let neg = t.len() > 0 && t[0] == '-';
    let ds = if signed {
        t.skip(1)
    } else {
        t
    };
    if ds.len() == 0 || !all_digits(ds) {
        None
    } else {
        let v = if neg {
            -digits_value(ds)
        } else {
            digits_value(ds)
        };
        if i32::MIN <= v <= i32::MAX {
            Some(v as i32)
        } else {
            None
        }
    }
}

/// The resolution policy: no token resolves to nothing, a single token is
/// itself the id, and from two tokens on the second one is the id.
pub open spec fn spec_resolve(s: Seq<char>) -> Option<i32> {
    let ts = spec_tokens(s);
    if ts.len() == 0 {
        None
    } else if ts.len() == 1 {
        spec_parse_i32(ts[0])
    } else {
        spec_parse_i32(ts[1])
    }
}

proof fn lemma_digits_value_nonneg(t: Seq<char>)
    requires
        all_digits(t),
    ensures
        digits_value(t) >= 0,
    decreases t.len(),
{
    if t.len() > 0 {
        assert(all_digits(t.drop_last()));
        lemma_digits_value_nonneg(t.drop_last());
    }
}

/// The value of a digit string is at least the value of any of its prefixes:
/// appending digits never shrinks the value.
proof fn lemma_digits_value_take_le(t: Seq<char>, k: int)
    requires
        all_digits(t),
        0 <= k <= t.len(),
    ensures
        digits_value(t.take(k)) <= digits_value(t),
    decreases t.len(),
{
    if k == t.len() {
        assert(t.take(k) =~= t);
    } else {
        assert(all_digits(t.drop_last()));
        assert(t.take(k) =~= t.drop_last().take(k));
        lemma_digits_value_take_le(t.drop_last(), k);
        lemma_digits_value_nonneg(t.drop_last());
    }
}

/// Parses a token as `str::parse::<i32>` does: optional sign, decimal digits,
/// failure (never a panic) on anything else or on overflow.
pub fn parse_i32(t: &str) -> (r: Option<i32>)
    ensures
        r == spec_parse_i32(t@),
{
    let n = t.unicode_len();
    if n == 0 {
        return None;
    }
    let first = t.get_char(0);
    let neg = first == '-';
    let signed = neg || first == '+';
    let start: usize = if signed {
        1
    } else {
        0
    };
    if start == n {
        return None;
    }
    let ghost ds = if signed {
        t@.skip(1)
    } else {
        t@
    };
    assert(ds =~= t@.subrange(start as int, n as int));
    let mut acc: i64 = 0;
    let mut i: usize = start;
    while i < n
        invariant
            start <= i <= n,
            n == t@.len(),
            start == 1 <==> signed,
            start == 0 || start == 1,
            signed == (t@.len() > 0 && (t@[0] == '-' || t@[0] == '+')),
            neg == (t@.len() > 0 && t@[0] == '-'),
            ds == t@.subrange(start as int, n as int),
            ds == if signed { t@.skip(1) } else { t@ },
            all_digits(t@.subrange(start as int, i as int)),
            acc == digits_value(t@.subrange(start as int, i as int)),
            0 <= acc <= 0x8000_0000,
        decreases n - i,
    {
        let c = t.get_char(i);
        let u = c as u32;
        if u < 48 || u > 57 {
            assert(!is_ascii_digit(t@[i as int]));
            assert(ds[i as int - start as int] == t@[i as int]);
            assert(!all_digits(ds));
            return None;
        }
        assert(is_ascii_digit(t@[i as int]));
        let d: i64 = (u - 48) as i64;
        assert(d == digit_val(t@[i as int]));
        acc = acc * 10 + d;
        proof {
            let pre = t@.subrange(start as int, i as int);
            let ext = t@.subrange(start as int, i as int + 1);
            assert(ext.drop_last() =~= pre);
            assert(ext.last() == t@[i as int]);
            assert(forall|j: int|
                0 <= j < ext.len() ==> is_ascii_digit(#[trigger] ext[j]));
        }
        if acc > 0x8000_0000 {
            proof {
                if all_digits(ds) {
                    let k = i as int + 1 - start;
                    assert(ds.take(k) =~= t@.subrange(start as int, i as int + 1));
                    lemma_digits_value_take_le(ds, k);
                    assert(digits_value(ds) > 0x8000_0000);
                }
            }
            return None;
        }
        i += 1;
    }
    proof {
        assert(ds =~= t@.subrange(start as int, n as int));
    }
    assert(all_digits(ds));
    assert(acc == digits_value(ds));
    if neg {
        Some((-acc) as i32)
    } else if acc > 0x7fff_ffff {
        None
    } else {
        Some(acc as i32)
    }
}

/// The views of a list of owned tokens.
pub open spec fn views_of(rows: Seq<String>) -> Seq<Seq<char>> {
    rows.map_values(|s: String| s@)
}

/// Whether `c` separates tokens, decided at run time.
fn is_space_char(c: char) -> (r: bool)
    ensures
        r == is_space(c),
{
    c == ' ' || c == '\t' || c == '\n' || c == '\u{000C}' || c == '\r'
}

/// Resolves untrusted row-like text to a process id, as `spec_resolve` says:
/// tokenize on whitespace, pick the only token or the second one, parse it.
pub fn get_pid(it: &str) -> (r: Option<i32>)
    ensures
        r == spec_resolve(it@),
{
    let n = it.unicode_len();
    let mut toks: Vec<String> = Vec::new();
    let mut cur = String::new();
    let mut i: usize = 0;
    proof {
        assert(it@.skip(0) =~= it@);
        assert(views_of(toks@) + tokens_from(it@, Seq::empty())
            =~= tokens_from(it@, Seq::empty()));
    }
    while i < n
        invariant
            i <= n,
            n == it@.len(),
            views_of(toks@) + tokens_from(it@.skip(i as int), cur@) == spec_tokens(it@),
        decreases n - i,
    {
        let ghost prev = views_of(toks@);
        let ghost rest = it@.skip(i as int);
        let ghost rest1 = it@.skip(i as int + 1);
        proof {
            assert(rest.len() == n - i);
            assert(rest[0] == it@[i as int]);
            assert(rest.skip(1) =~= rest1);
        }
        let c = it.get_char(i);
        if is_space_char(c) {
            assert(tokens_from(rest, cur@)
                == pending(cur@) + tokens_from(rest1, Seq::empty()));
            if cur.unicode_len() > 0 {
                let ghost old_cur = cur@;
                toks.push(cur);
                cur = String::new();
                proof {
                    assert(views_of(toks@) =~= prev.push(old_cur));
                    assert(prev.push(old_cur) + tokens_from(rest1, Seq::empty())
                        =~= prev + (pending(old_cur) + tokens_from(rest1, Seq::empty())));
                }
            } else {
                proof {
                    assert(cur@ =~= Seq::<char>::empty());
                    assert(prev + (pending(cur@) + tokens_from(rest1, Seq::empty()))
                        =~= prev + tokens_from(rest1, Seq::empty()));
                }
            }
        } else {
            let ghost old_cur = cur@;
            cur.push(c);
            proof {
                assert(tokens_from(rest, old_cur)
                    == tokens_from(rest1, old_cur.push(c)));
            }
        }
        proof {
            assert(views_of(toks@) + tokens_from(rest1, cur@) == spec_tokens(it@));
        }
        i += 1;
    }
    proof {
        assert(it@.skip(n as int) =~= Seq::<char>::empty());
    }
    if cur.unicode_len() > 0 {
        let ghost prev = views_of(toks@);
        let ghost old_cur = cur@;
        toks.push(cur);
        proof {
            assert(views_of(toks@) =~= prev.push(old_cur));
            assert(prev.push(old_cur) =~= prev + pending(old_cur));
        }
    } else {
        proof {
            assert(views_of(toks@) + pending(cur@) =~= views_of(toks@));
        }
    }
    assert(views_of(toks@) == spec_tokens(it@));
    if toks.len() == 0 {
        None
    } else if toks.len() == 1 {
        assert(views_of(toks@)[0] == toks@[0]@);
        parse_i32(toks[0].as_str())
    } else {
        assert(views_of(toks@)[1] == toks@[1]@);
        parse_i32(toks[1].as_str())
    }
}

} // verus!
