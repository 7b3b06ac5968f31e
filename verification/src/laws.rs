//! The laws that tie the pipeline together: a row built by the encoder is
//! resolved back to the id it was built from, and the encoded name can never
//! overflow its field.

use vstd::prelude::*;

use crate::encode::{
    spaces, spec_digits, spec_int_text, spec_name_field, spec_name_trunc, spec_row, ID_MIN_WIDTH,
    NAME_KEEP, NAME_WIDTH,
};
use crate::encode::lemma_spec_digits_len;
use crate::resolve::{
    all_digits, digit_val, digits_value, is_ascii_digit, is_space, pending, spec_parse_i32,
    spec_resolve, spec_tokens, tokens_from,
};

verus! {

/// A whitespace-free prefix only feeds the pending token.
proof fn lemma_tokens_from_word(w: Seq<char>, rest: Seq<char>, cur: Seq<char>)
    requires
        forall|i: int| 0 <= i < w.len() ==> !is_space(#[trigger] w[i]),
    ensures
        tokens_from(w + rest, cur) == tokens_from(rest, cur + w),
    decreases w.len(),
{
    if w.len() == 0 {
        assert(w + rest =~= rest);
        assert(cur + w =~= cur);
    } else {
        assert((w + rest)[0] == w[0]);
        assert((w + rest).skip(1) =~= w.skip(1) + rest);
        assert(forall|i: int| 0 <= i < w.skip(1).len() ==> !is_space(#[trigger] w.skip(1)[i]));
        lemma_tokens_from_word(w.skip(1), rest, cur.push(w[0]));
        assert(cur.push(w[0]) + w.skip(1) =~= cur + w);
    }
}

/// One or more spaces close the pending token and start afresh.
proof fn lemma_tokens_from_spaces(k: int, rest: Seq<char>, cur: Seq<char>)
    requires
        k >= 1,
    ensures
        tokens_from(spaces(k) + rest, cur) == pending(cur) + tokens_from(rest, Seq::empty()),
    decreases k,
{
    assert((spaces(k) + rest)[0] == ' ');
    if k == 1 {
        assert((spaces(k) + rest).skip(1) =~= rest);
    } else {
        assert((spaces(k) + rest).skip(1) =~= spaces(k - 1) + rest);
        lemma_tokens_from_spaces(k - 1, rest, Seq::empty());
        assert(pending(Seq::<char>::empty()) + tokens_from(rest, Seq::empty())
            =~= tokens_from(rest, Seq::empty()));
    }
}

/// Every character of a digit string is a decimal digit.
proof fn lemma_digits_all_digits(n: nat)
    ensures
        all_digits(spec_digits(n)),
    decreases n,
{
    if n < 10 {
        assert(is_ascii_digit(spec_digits(n)[0]));
    } else {
        lemma_digits_all_digits(n / 10);
        let d = spec_digits(n);
        let base = spec_digits(n / 10);
        assert forall|i: int| 0 <= i < d.len() implies is_ascii_digit(#[trigger] d[i]) by {
            if i < base.len() {
                assert(d[i] == base[i]);
            } else {
                assert(d[i] == ((48 + n % 10) as u8) as char);
            }
        }
    }
}

/// Reading a digit string back gives the value it was built from.
proof fn lemma_digits_value_roundtrip(n: nat)
    ensures
        digits_value(spec_digits(n)) == n,
    decreases n,
{
    if n < 10 {
        let d = spec_digits(n);
        assert(d.drop_last() =~= Seq::<char>::empty());
        assert(digits_value(Seq::<char>::empty()) == 0);
        assert(digit_val(d.last()) == n);
    } else {
        lemma_digits_value_roundtrip(n / 10);
        let d = spec_digits(n);
        let base = spec_digits(n / 10);
        assert(d.drop_last() =~= base);
        assert(digit_val(d.last()) == n % 10);
    }
}

/// Parsing the decimal rendering of an `i32` gives the value back.
proof fn lemma_parse_int_text(v: i32)
    ensures
        spec_parse_i32(spec_int_text(v as int)) == Some(v),
{
    if v >= 0 {
        let d = spec_int_text(v as int);
        lemma_digits_all_digits(v as nat);
        lemma_digits_value_roundtrip(v as nat);
        lemma_spec_digits_len(v as nat);
        assert(is_ascii_digit(d[0]));
        assert(d[0] != '-' && d[0] != '+');
    } else {
        let abs = (-(v as int)) as nat;
        let d = spec_int_text(v as int);
        lemma_digits_all_digits(abs);
        lemma_digits_value_roundtrip(abs);
        lemma_spec_digits_len(abs);
        assert(d[0] == '-');
        assert(d.skip(1) =~= spec_digits(abs));
    }
}

/// No character of an id's decimal rendering is whitespace.
proof fn lemma_int_text_space_free(v: int)
    ensures
        spec_int_text(v).len() >= 1,
        forall|i: int| 0 <= i < spec_int_text(v).len() ==> !is_space(#[trigger] spec_int_text(v)[i]),
{
    let d = spec_int_text(v);
    if v < 0 {
        let abs = (-v) as nat;
        lemma_digits_all_digits(abs);
        lemma_spec_digits_len(abs);
        assert forall|i: int| 0 <= i < d.len() implies !is_space(#[trigger] d[i]) by {
            if i >= 1 {
                assert(d[i] == spec_digits(abs)[i - 1]);
                assert(is_ascii_digit(d[i]));
            }
        }
    } else {
        lemma_digits_all_digits(v as nat);
        lemma_spec_digits_len(v as nat);
        assert forall|i: int| 0 <= i < d.len() implies !is_space(#[trigger] d[i]) by {
            assert(is_ascii_digit(d[i]));
        }
    }
}

/// The tokens of a well-formed row are its truncated name (when the name is
/// not empty) followed by its id text, whatever padding stood between and
/// after them: the id is always a distinguishable token, and never the first
/// of two.
pub proof fn lemma_row_tokens(name: Seq<char>, pid: i32)
    requires
        forall|i: int| 0 <= i < name.len() ==> !is_space(#[trigger] name[i]),
    ensures
        spec_tokens(spec_row(name, pid as int))
            == pending(spec_name_trunc(name)) + seq![spec_int_text(pid as int)],
{
    let t = spec_name_trunc(name);
    let d = spec_int_text(pid as int);
    let tail = if d.len() < ID_MIN_WIDTH {
        spaces(ID_MIN_WIDTH - d.len())
    } else {
        Seq::<char>::empty()
    };
    let row = spec_row(name, pid as int);
    let gap = spaces(NAME_WIDTH - t.len());
    lemma_int_text_space_free(pid as int);

    assert forall|i: int| 0 <= i < t.len() implies !is_space(#[trigger] t[i]) by {
        assert(t[i] == name[i]);
    }
    assert(spec_name_field(name) == t + gap);
    assert(row =~= t + (gap + (d + tail)));
    lemma_tokens_from_word(t, gap + (d + tail), Seq::empty());
    assert(Seq::<char>::empty() + t =~= t);
    lemma_tokens_from_spaces(NAME_WIDTH - t.len(), d + tail, t);
    lemma_tokens_from_word(d, tail, Seq::empty());
    assert(Seq::<char>::empty() + d =~= d);
    if d.len() < ID_MIN_WIDTH {
        assert(tail =~= spaces(1) + Seq::<char>::empty());
        lemma_tokens_from_spaces(1, Seq::empty(), d);
        assert(tokens_from(Seq::<char>::empty(), Seq::<char>::empty())
            =~= Seq::<Seq<char>>::empty());
        assert(pending(d) + tokens_from(Seq::<char>::empty(), Seq::<char>::empty())
            =~= pending(d));
    }
    assert(pending(d) =~= seq![d]);
    assert(spec_tokens(row) == pending(t) + seq![d]);
}

/// Round trip: a row encoded from a whitespace-free name resolves back to the
/// id it was encoded from, whether or not the name was truncated.
pub proof fn lemma_encode_resolve_round_trip(name: Seq<char>, pid: i32)
    requires
        forall|i: int| 0 <= i < name.len() ==> !is_space(#[trigger] name[i]),
    ensures
        spec_resolve(spec_row(name, pid as int)) == Some(pid),
{
    lemma_row_tokens(name, pid);
    lemma_parse_int_text(pid);
    let t = spec_name_trunc(name);
    let ts = spec_tokens(spec_row(name, pid as int));
    let d = spec_int_text(pid as int);
    if name.len() == 0 {
        assert(ts =~= seq![d]);
        assert(ts[0] == d);
    } else {
        assert(t.len() > 0);
        assert(ts =~= seq![t, d]);
        assert(ts[1] == d);
    }
}

/// The name field is always exactly `NAME_WIDTH` characters: a long name is
/// cut (by whole characters) to `NAME_KEEP`, a short one padded, and the id
/// text begins exactly at the field boundary.
pub proof fn lemma_row_layout(name: Seq<char>, pid: i32)
    ensures
        spec_name_field(name).len() == NAME_WIDTH,
        spec_row(name, pid as int).take(NAME_WIDTH as int) == spec_name_field(name),
        name.len() > NAME_KEEP
            ==> spec_name_field(name)
                =~= name.take(NAME_KEEP as int) + spaces(NAME_WIDTH - NAME_KEEP),
        spec_row(name, pid as int).skip(NAME_WIDTH as int).len() >= ID_MIN_WIDTH,
{
    let row = spec_row(name, pid as int);
    let d = spec_int_text(pid as int);
    lemma_int_text_space_free(pid as int);
    assert(row.take(NAME_WIDTH as int) =~= spec_name_field(name));
    assert(row.skip(NAME_WIDTH as int).len() >= ID_MIN_WIDTH);
}

} // verus!
