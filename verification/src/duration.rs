//! Elapsed-time parsing.
//!
//! An elapsed-time string is split on `:`; every piece that reads as an
//! unsigned 64-bit numeral is kept and the rest are dropped. The text is
//! accepted exactly when three numerals remain, and the result is
//! `hours * 3600 + minutes * 60 + seconds` in whole seconds. Out-of-range
//! minute or second components (60 or more) are deliberately accepted and
//! summed arithmetically.

use vstd::prelude::*;

use crate::errors::DurationError;

verus! {

/// `c` is an ASCII decimal digit.
pub open spec fn is_digit(c: char) -> bool {
    48 <= c as int && c as int <= 57
}

/// Every character of `t` is an ASCII decimal digit.
pub open spec fn is_digits(t: Seq<char>) -> bool {
    forall|i: int| 0 <= i < t.len() ==> is_digit(#[trigger] t[i])
}

/// The value of `t` read as a decimal numeral.
pub open spec fn digits_val(t: Seq<char>) -> int
    decreases t.len(),
{
    if t.len() == 0 {
        0
    } else {
        digits_val(t.drop_last()) * 10 + (t.last() as int - 48)
    }
}

/// The digits of a numeral: an optional leading `+` sign is not part of the
/// value.
pub open spec fn numeral_body(t: Seq<char>) -> Seq<char> {
    if t.len() > 0 && t[0] == '+' {
        t.skip(1)
    } else {
        t
    }
}

/// `t` reads as an unsigned 64-bit numeral: at least one digit, an optional
/// leading sign, and a value that fits in `u64`.
pub open spec fn is_u64_numeral(t: Seq<char>) -> bool {
    &&& numeral_body(t).len() > 0
    &&& is_digits(numeral_body(t))
    &&& digits_val(numeral_body(t)) <= u64::MAX as int
}

/// The value of the numeral `t`.
pub open spec fn numeral_val(t: Seq<char>) -> int {
    digits_val(numeral_body(t))
}

/// The pieces of `t` delimited by `:`, in order. Splitting the empty
/// sequence, or one that starts or ends with a colon, yields empty pieces.
pub open spec fn split_colon(t: Seq<char>) -> Seq<Seq<char>>
    decreases t.len(),
{
    if t.len() == 0 {
        seq![Seq::<char>::empty()]
    } else if t[0] == ':' {
        seq![Seq::<char>::empty()] + split_colon(t.skip(1))
    } else {
        let rest = split_colon(t.skip(1));
        rest.update(0, seq![t[0]] + rest[0])
    }
}

/// The numeral test as a first-class predicate, shared by the spec and the
/// proofs about it.
pub open spec fn numeral_pred() -> spec_fn(Seq<char>) -> bool {
    |c: Seq<char>| is_u64_numeral(c)
}

/// The pieces of `t` that read as `u64` numerals, in order.
pub open spec fn numeral_components(t: Seq<char>) -> Seq<Seq<char>> {
    split_colon(t).filter(numeral_pred())
}

/// What parsing an elapsed-time string yields: the three-component sum in
/// seconds, or `MalformedDuration` when the numeral count is not three.
pub open spec fn spec_parse_duration(t: Seq<char>) -> Result<u128, DurationError> {
    let comps = numeral_components(t);
    if comps.len() == 3 {
        Ok((numeral_val(comps[0]) * 3600 + numeral_val(comps[1]) * 60 + numeral_val(comps[2]))
            as u128)
    } else {
        Err(DurationError::MalformedDuration)
    }
}

/// A digit string has a non-negative value.
proof fn lemma_digits_val_nonneg(t: Seq<char>)
    requires
        is_digits(t),
    ensures
        digits_val(t) >= 0,
    decreases t.len(),
{
    if t.len() > 0 {
        assert(is_digits(t.drop_last()));
        lemma_digits_val_nonneg(t.drop_last());
    }
}

/// Extending a digit string can only grow its value.
proof fn lemma_digits_val_take(t: Seq<char>, k: int)
    requires
        is_digits(t),
        0 <= k <= t.len(),
    ensures
        digits_val(t.take(k)) <= digits_val(t),
    decreases t.len(),
{
    if k == t.len() {
        assert(t.take(k) =~= t);
    } else {
        assert(is_digits(t.drop_last()));
        lemma_digits_val_nonneg(t.drop_last());
        assert(t.take(k) =~= t.drop_last().take(k));
        lemma_digits_val_take(t.drop_last(), k);
    }
}

/// Splitting never yields an empty piece list.
proof fn lemma_split_colon_nonempty(t: Seq<char>)
    ensures
        split_colon(t).len() >= 1,
    decreases t.len(),
{
    if t.len() > 0 {
        lemma_split_colon_nonempty(t.skip(1));
    }
}

/// A colon-free sequence is a single piece.
proof fn lemma_split_no_colon(t: Seq<char>)
    requires
        forall|i: int| 0 <= i < t.len() ==> t[i] != ':',
    ensures
        split_colon(t) =~= seq![t],
    decreases t.len(),
{
    if t.len() == 0 {
        assert(t =~= Seq::<char>::empty());
    } else {
        assert(t[0] != ':');
        assert(forall|i: int| 0 <= i < t.skip(1).len() ==> t.skip(1)[i] != ':');
        lemma_split_no_colon(t.skip(1));
        lemma_split_colon_nonempty(t.skip(1));
        assert(split_colon(t.skip(1)) == seq![t.skip(1)]);
        assert(split_colon(t) == seq![t.skip(1)].update(0, seq![t[0]] + t.skip(1)));
        assert(seq![t.skip(1)].update(0, seq![t[0]] + t.skip(1)) =~= seq![seq![t[0]] + t.skip(1)]);
        assert(seq![t[0]] + t.skip(1) =~= t);
    }
}

/// Splitting peels off the piece before the first colon.
proof fn lemma_split_at_colon(t: Seq<char>, j: int)
    requires
        0 <= j < t.len(),
        t[j] == ':',
        forall|i: int| 0 <= i < j ==> t[i] != ':',
    ensures
        split_colon(t) =~= seq![t.take(j)] + split_colon(t.skip(j + 1)),
    decreases j,
{
    if j == 0 {
        assert(t.take(0) =~= Seq::<char>::empty());
    } else {
        let u = t.skip(1);
        assert(u[j - 1] == ':');
        assert(forall|i: int| 0 <= i < j - 1 ==> u[i] != ':');
        lemma_split_at_colon(u, j - 1);
        lemma_split_colon_nonempty(u.skip(j));
        assert(u.take(j - 1) =~= t.take(j).skip(1));
        assert(u.skip(j) =~= t.skip(j + 1));
        assert(seq![t[0]] + t.take(j).skip(1) =~= t.take(j));
    }
}

/// Reads `text[start..end]` as a `u64` numeral, returning its value, or
/// `None` when it is not one.
#[verifier::loop_isolation(false)]
fn parse_component(text: &str, start: usize, end: usize) -> (r: Option<u64>)
    requires
        start <= end <= text@.len(),
    ensures
        r is Some <==> is_u64_numeral(text@.subrange(start as int, end as int)),
        r is Some ==> r->0 as int == numeral_val(text@.subrange(start as int, end as int)),
{
    let ghost seg = text@.subrange(start as int, end as int);
    let mut i: usize = start;
    if i == end {
        return None;
    }
    if text.get_char(i) == '+' {
        i = i + 1;
        assert(numeral_body(seg) =~= text@.subrange(start as int + 1, end as int));
    } else {
        assert(numeral_body(seg) =~= seg);
    }
    let ghost bs = i as int;
    let ghost body = numeral_body(seg);
    assert(body =~= text@.subrange(bs, end as int));
    if i == end {
        return None;
    }
    let mut acc: u128 = 0;
    while i < end
        invariant
            bs <= i as int <= end,
            end <= text@.len(),
            body =~= text@.subrange(bs, end as int),
            is_digits(text@.subrange(bs, i as int)),
            acc == digits_val(text@.subrange(bs, i as int)),
            acc <= u64::MAX as u128,
        decreases end - i,
    {
        let c = text.get_char(i);
        let u = c as u32;
        let ghost pre = text@.subrange(bs, i as int);
        let ghost cur = text@.subrange(bs, i as int + 1);
        assert(cur.drop_last() =~= pre);
        assert(cur.last() == c);
        if u < 48 || u > 57 {
            assert(!is_digits(body)) by {
                assert(!is_digit(body[i as int - bs]));
            }
            return None;
        }
        let d = (u - 48) as u64;
        let next: u128 = acc * 10 + d as u128;
        if next > u64::MAX as u128 {
            assert(!is_u64_numeral(seg)) by {
                if is_digits(body) {
                    lemma_digits_val_take(body, i as int + 1 - bs);
                    assert(body.take(i as int + 1 - bs) =~= cur);
                }
            }
            return None;
        }
        acc = next;
        i = i + 1;
    }
    assert(text@.subrange(bs, i as int) =~= body);
    Some(acc as u64)
}

/// Parses an `HH:MM:SS`-shaped string into whole seconds.
///
/// The text is split on `:`; pieces that do not read as `u64` numerals are
/// dropped. Exactly three numerals must remain, and the result is
/// `h * 3600 + m * 60 + s`; otherwise the parse fails with
/// `MalformedDuration`.
#[verifier::loop_isolation(false)]
pub fn parse_duration(text: &str) -> (res: Result<u128, DurationError>)
    ensures
        res == spec_parse_duration(text@),
{
    broadcast use vstd::seq_lib::group_seq_lib_default;

    let ghost s = text@;
    let n = text.unicode_len();
    let mut comps: Vec<u64> = Vec::new();
    let mut seg_start: usize = 0;
    let mut i: usize = 0;
    let ghost mut done: Seq<Seq<char>> = Seq::empty();
    proof {
        assert(s.skip(0) =~= s);
        assert(done + split_colon(s) =~= split_colon(s));
    }
    while i < n
        invariant
            seg_start <= i <= n,
            n == s.len(),
            s == text@,
            split_colon(s) =~= done + split_colon(s.skip(seg_start as int)),
            forall|k: int| seg_start as int <= k < i as int ==> s[k] != ':',
            comps@.len() == done.filter(numeral_pred()).len(),
            forall|k: int|
                0 <= k < comps@.len() ==> #[trigger] comps@[k] as int == numeral_val(
                    done.filter(numeral_pred())[k],
                ),
        decreases n - i,
    {
        if text.get_char(i) == ':' {
            let ghost seg = s.subrange(seg_start as int, i as int);
            let ghost rest = s.skip(seg_start as int);
            proof {
                assert(rest[i as int - seg_start as int] == ':');
                assert(forall|k: int| 0 <= k < i as int - seg_start as int ==> rest[k] != ':');
                lemma_split_at_colon(rest, i as int - seg_start as int);
                assert(rest.take(i as int - seg_start as int) =~= seg);
                assert(rest.skip(i as int - seg_start as int + 1) =~= s.skip(i as int + 1));
                assert(split_colon(s) =~= done.push(seg) + split_colon(s.skip(i as int + 1)));
            }
            let parsed = parse_component(text, seg_start, i);
            proof {
                done.lemma_filter_push(seg, numeral_pred());
            }
            match parsed {
                Some(v) => {
                    comps.push(v);
                }
                None => {}
            }
            proof {
                done = done.push(seg);
            }
            seg_start = i + 1;
        }
        i = i + 1;
    }
    let ghost seg = s.subrange(seg_start as int, n as int);
    let ghost rest = s.skip(seg_start as int);
    proof {
        assert(forall|k: int| 0 <= k < rest.len() ==> rest[k] != ':');
        lemma_split_no_colon(rest);
        assert(rest =~= seg);
        assert(split_colon(s) =~= done.push(seg));
    }
    let parsed = parse_component(text, seg_start, n);
    proof {
        done.lemma_filter_push(seg, numeral_pred());
    }
    match parsed {
        Some(v) => {
            comps.push(v);
        }
        None => {}
    }
    proof {
        done = done.push(seg);
    }
    let ghost f = numeral_components(s);
    if comps.len() == 3 {
        proof {
            assert(f =~= done.filter(numeral_pred()));
            assert forall|k: int| 0 <= k < 3 implies is_u64_numeral(#[trigger] f[k]) by {
                done.lemma_filter_pred(numeral_pred(), k);
            }
            assert forall|k: int| 0 <= k < 3 implies numeral_val(#[trigger] f[k]) >= 0 by {
                lemma_digits_val_nonneg(numeral_body(f[k]));
            }
        }
        let total: u128 = (comps[0] as u128) * 3600 + (comps[1] as u128) * 60 + (comps[2] as u128);
        Ok(total)
    } else {
        proof {
            assert(f =~= done.filter(numeral_pred()));
        }
        Err(DurationError::MalformedDuration)
    }
}

} // verus!
