//! Row encoder: one process becomes one fixed-layout text row.
//!
//! The name is truncated to at most `NAME_KEEP` characters (whole characters,
//! never split bytes) and padded with spaces to a field of exactly
//! `NAME_WIDTH` characters; the id follows as decimal digits, themselves
//! padded on the right to at least `ID_MIN_WIDTH` characters.

use vstd::prelude::*;
use vstd::string::*;

use crate::snapshot::Snapshot;

verus! {

/// Characters of the name that survive truncation.
pub const NAME_KEEP: usize = 23;

/// Exact width of the name field.
pub const NAME_WIDTH: usize = 25;

/// Minimum width of the id field.
pub const ID_MIN_WIDTH: usize = 2;

/// `k` spaces.
pub open spec fn spaces(k: int) -> Seq<char> {
    Seq::new(k as nat, |i: int| ' ')
}

/// The decimal digits of `n`, most significant first, no sign and no leading
/// zero except for `n == 0` itself.
pub open spec fn spec_digits(n: nat) -> Seq<char>
    decreases n,
{
    if n < 10 {
        seq![((48 + n) as u8) as char]
    } else {
        spec_digits(n / 10).push(((48 + n % 10) as u8) as char)
    }
}

/// The decimal rendering of a signed value.
pub open spec fn spec_int_text(v: int) -> Seq<char> {
    if v < 0 {
        seq!['-'] + spec_digits((-v) as nat)
    } else {
        spec_digits(v as nat)
    }
}

/// The name cut to its first `NAME_KEEP` characters, whole characters only.
pub open spec fn spec_name_trunc(name: Seq<char>) -> Seq<char> {
    if name.len() > NAME_KEEP {
        name.take(NAME_KEEP as int)
    } else {
        name
    }
}

/// The name truncated to `NAME_KEEP` characters and padded to `NAME_WIDTH`.
pub open spec fn spec_name_field(name: Seq<char>) -> Seq<char> {
    let t = spec_name_trunc(name);
    t + spaces(NAME_WIDTH - t.len())
}

/// The whole row: name field, then the id, right-padded to `ID_MIN_WIDTH`.
pub open spec fn spec_row(name: Seq<char>, pid: int) -> Seq<char> {
    let d = spec_int_text(pid);
    let tail = if d.len() < ID_MIN_WIDTH {
        spaces(ID_MIN_WIDTH - d.len())
    } else {
        Seq::<char>::empty()
    };
    spec_name_field(name) + d + tail
}

/// Appends the decimal digits of `n` to `s`.
fn push_digits(s: &mut String, n: u32)
    ensures
        final(s)@ == old(s)@ + spec_digits(n as nat),
    decreases n,
{
    if n < 10 {
        let c: char = ((48 + n) as u8) as char;
        s.push(c);
        proof {
            assert(s@ =~= old(s)@ + spec_digits(n as nat));
        }
    } else {
        assert(n / 10 < n) by (nonlinear_arith)
            requires n >= 10
        ;
        push_digits(s, n / 10);
        let c: char = ((48 + n % 10) as u8) as char;
        s.push(c);
        proof {
            assert(s@ =~= old(s)@ + spec_digits(n as nat));
        }
    }
}

/// Encodes one process as a row, as `spec_row` says.
pub fn encode(name: &str, pid: i32) -> (r: String)
    ensures
        r@ == spec_row(name@, pid as int),
{
    let ghost t = spec_name_trunc(name@);
    let len = name.unicode_len();
    let keep: usize = if len > NAME_KEEP {
        NAME_KEEP
    } else {
        len
    };
    proof {
        assert(t =~= name@.take(keep as int));
    }
    let mut row = String::new();
    let mut i: usize = 0;
    while i < keep
        invariant
            i <= keep,
            keep <= name@.len(),
            row@ =~= name@.take(i as int),
        decreases keep - i,
    {
        let c = name.get_char(i);
        row.push(c);
        proof {
            assert(row@ =~= name@.take(i as int + 1));
        }
        i += 1;
    }
    proof {
        assert(row@ =~= t);
    }
    let mut j: usize = keep;
    while j < NAME_WIDTH
        invariant
            keep == t.len(),
            keep <= j <= NAME_WIDTH,
            row@ =~= t + spaces(j - keep),
        decreases NAME_WIDTH - j,
    {
        row.push(' ');
        proof {
            assert(row@ =~= t + spaces(j + 1 - keep));
        }
        j += 1;
    }
    proof {
        assert(row@ =~= spec_name_field(name@));
    }
    let abs: u32 = if pid < 0 {
        row.push('-');
        (-(pid as i64)) as u32
    } else {
        pid as u32
    };
    push_digits(&mut row, abs);
    proof {
        assert(row@ =~= spec_name_field(name@) + spec_int_text(pid as int));
        lemma_spec_digits_len(abs as nat);
    }
    if 0 <= pid && pid < 10 {
        row.push(' ');
        proof {
            assert(spec_int_text(pid as int).len() == 1);
            assert(row@ =~= spec_row(name@, pid as int));
        }
    } else {
        proof {
            if pid < 0 {
                lemma_spec_digits_len((-(pid as int)) as nat);
                assert(spec_int_text(pid as int).len() >= 2);
            } else {
                assert(spec_int_text(pid as int).len() >= 2);
            }
            assert(row@ =~= spec_row(name@, pid as int));
        }
    }
    row
}

/// One row per record of the snapshot, in snapshot order.
pub fn build_rows(snap: &Snapshot) -> (rows: Vec<String>)
    ensures
        rows@.len() == snap.procs@.len(),
        forall|i: int| 0 <= i < rows@.len()
            ==> (#[trigger] rows@[i])@ == spec_row(snap.procs@[i].name@, snap.procs@[i].pid as int),
{
    let mut rows: Vec<String> = Vec::new();
    let n = snap.procs.len();
    let mut i: usize = 0;
    while i < n
        invariant
            i <= n,
            n == snap.procs@.len(),
            rows@.len() == i,
            forall|k: int| 0 <= k < i
                ==> (#[trigger] rows@[k])@ == spec_row(snap.procs@[k].name@, snap.procs@[k].pid as int),
        decreases n - i,
    {
        let row = encode(snap.procs[i].name.as_str(), snap.procs[i].pid);
        rows.push(row);
        i += 1;
    }
    rows
}

/// The rows joined by single newlines, no trailing newline.
pub open spec fn spec_joined(rows: Seq<Seq<char>>) -> Seq<char>
    decreases rows.len(),
{
    if rows.len() == 0 {
        Seq::empty()
    } else if rows.len() == 1 {
        rows[0]
    } else {
        spec_joined(rows.drop_last()) + seq!['\n'] + rows.last()
    }
}

/// Joins the rows into the one text handed to the filter surface.
pub fn join_lines(rows: &Vec<String>) -> (r: String)
    ensures
        r@ == spec_joined(crate::resolve::views_of(rows@)),
{
    let ghost m = crate::resolve::views_of(rows@);
    let mut out = String::new();
    let n = rows.len();
    let mut i: usize = 0;
    proof {
        assert(m.take(0) =~= Seq::<Seq<char>>::empty());
    }
    while i < n
        invariant
            i <= n,
            n == rows@.len(),
            m == crate::resolve::views_of(rows@),
            m.len() == n,
            out@ == spec_joined(m.take(i as int)),
        decreases n - i,
    {
        if i > 0 {
            out.push('\n');
        }
        out.append(rows[i].as_str());
        proof {
            let pre = m.take(i as int);
            let ext = m.take(i as int + 1);
            assert(m[i as int] == rows@[i as int]@);
            assert(ext.last() == m[i as int]);
            if i == 0 {
                assert(out@ =~= m[0]);
                assert(ext.len() == 1);
                assert(ext[0] == m[0]);
            } else {
                assert(ext.drop_last() =~= pre);
                assert(out@ =~= spec_joined(pre) + seq!['\n'] + m[i as int]);
            }
        }
        i += 1;
    }
    proof {
        assert(m.take(n as int) =~= m);
    }
    out
}

/// A digit string is never empty, and has a single digit exactly for values
/// below ten.
pub proof fn lemma_spec_digits_len(n: nat)
    ensures
        spec_digits(n).len() >= 1,
        n < 10 <==> spec_digits(n).len() == 1,
    decreases n,
{
    if n >= 10 {
        lemma_spec_digits_len(n / 10);
    }
}

} // verus!
