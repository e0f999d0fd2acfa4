//! Decoding of wire frames back into actions.
//!
//! A consumer reads frames of the documented shape
//! `{"type":"<Variant>","payload":{...}}`.  The decoder below recovers the
//! action, and its contract pins it down in both directions: whatever it
//! accepts re-encodes to exactly the input text, and every frame an action
//! encodes to is accepted and yields back the same tag and field values.

use vstd::prelude::*;
use vstd::string::StrSliceExecFns;
use vstd::string::StringExecFns;

use crate::actions::Action;
use crate::actions::CreatePlantActionPayload;
use crate::actions::CreateBaseLayerImageActionPayload;
use crate::actions::DeletePlantActionPayload;
use crate::actions::DeleteBaseLayerImageActionPayload;
use crate::actions::MovePlantActionPayload;
use crate::actions::TransformPlantActionPayload;
use crate::actions::UpdateBaseLayerImageActionPayload;
use crate::config::digit_val;
use crate::config::digits_value;
use crate::wire::action_serializable;
use crate::wire::action_wire;
use crate::wire::dec_digit;
use crate::wire::dec_text;
use crate::wire::i32_text;
use crate::wire::is_digit;
use crate::wire::number_char_ok;
use crate::wire::number_text_ok;
use crate::wire::text_char_ok;
use crate::wire::serialize_action;
use crate::wire::text_ok;

verus! {

/// Relies on String::from_iter over characters (via Iterator::collect):
/// the string of exactly the collected characters.
#[verifier::external_body]
fn chars_to_string(v: &Vec<char>) -> (r: String)
    ensures
        r@ == v@,
{
    v.iter().collect()
}

/// Consumes the literal `lit` at position `pos`.
///
/// Succeeds if and only if the input carries exactly `lit` there, and
/// then yields the position just past it.
fn expect_lit(s: &str, pos: usize, lit: &str) -> (r: Option<usize>)
    ensures
        r is Some <==> (pos + lit@.len() <= s@.len() && s@.subrange(
            pos as int,
            pos as int + lit@.len() as int,
        ) == lit@),
        r is Some ==> r->0 == pos + lit@.len(),
{
    let n = s.unicode_len();
    let ln = lit.unicode_len();
    if pos > n || ln > n - pos {
        return None;
    }
    let mut k: usize = 0;
    while k < ln
        invariant
            k <= ln,
            pos + ln <= n,
            n == s@.len(),
            ln == lit@.len(),
            forall|j: int| 0 <= j < k ==> s@[pos + j] == lit@[j],
        decreases ln - k,
    {
        if s.get_char(pos + k) != lit.get_char(k) {
            proof {
                if s@.subrange(pos as int, pos as int + ln as int) == lit@ {
                    assert(s@.subrange(pos as int, pos as int + ln as int)[k as int] == s@[pos as int
                        + k as int]);
                }
            }
            return None;
        }
        k += 1;
    }
    proof {
        assert(s@.subrange(pos as int, pos as int + ln as int) =~= lit@);
    }
    Some(pos + ln)
}

/// A quote stands at `q`, and only plain characters before it from `pos`
/// on: the decomposition on which reading a text run must succeed.
pub open spec fn text_run_until_quote(s: Seq<char>, pos: int, q: int) -> bool {
    &&& pos <= q < s.len()
    &&& s[q] == '"'
    &&& forall|k: int| pos <= k < q ==> text_char_ok(#[trigger] s[k])
}

/// Reads a plain text run at `pos`, up to but not including the next
/// quote.  Succeeds only if a quote follows a run of plain characters;
/// the run (possibly empty) and the quote's position come back.
fn read_text(s: &str, pos: usize) -> (r: Option<(String, usize)>)
    ensures
        r is Some ==> pos <= (r->0).1 < s@.len(),
        r is Some ==> (r->0).0@ == s@.subrange(pos as int, (r->0).1 as int),
        r is Some ==> s@[(r->0).1 as int] == '"',
        r is Some ==> text_ok((r->0).0@),
        r is None ==> forall|q: int| !text_run_until_quote(s@, pos as int, q),
{
    let n = s.unicode_len();
    if pos > n {
        return None;
    }
    let mut out: Vec<char> = Vec::new();
    let mut i = pos;
    proof {
        assert(s@.subrange(pos as int, pos as int) =~= Seq::<char>::empty());
    }
    while i < n
        invariant
            pos <= i <= n,
            n == s@.len(),
            out@ == s@.subrange(pos as int, i as int),
            forall|k: int| 0 <= k < out@.len() ==> text_char_ok(#[trigger] out@[k]),
        decreases n - i,
    {
        let c = s.get_char(i);
        if c == '"' {
            let t = chars_to_string(&out);
            return Some((t, i));
        }
        if c == '\\' || (c as u32) < 32 {
            proof {
                assert forall|q: int| !text_run_until_quote(s@, pos as int, q) by {
                    if text_run_until_quote(s@, pos as int, q) {
                        if q < i {
                            assert(out@[q - pos] == s@[q]);
                            assert(text_char_ok(s@[q]));
                        } else if q == i {
                            assert(s@[q] == c);
                        } else {
                            assert(text_char_ok(s@[i as int]));
                        }
                    }
                }
            }
            return None;
        }
        proof {
            assert(s@.subrange(pos as int, i as int + 1) =~= out@.push(c));
        }
        out.push(c);
        i += 1;
    }
    proof {
        assert forall|q: int| !text_run_until_quote(s@, pos as int, q) by {
            if text_run_until_quote(s@, pos as int, q) {
                assert(out@[q - pos] == s@[q]);
                assert(text_char_ok(s@[q]));
            }
        }
    }
    None
}

/// Reads a number text at `pos`: the longest run of number characters.
/// Succeeds only if the run is non-empty and opens with a digit or a
/// minus sign.
fn read_number(s: &str, pos: usize) -> (r: Option<(String, usize)>)
    ensures
        r is Some ==> pos < (r->0).1 <= s@.len(),
        r is Some ==> (r->0).0@ == s@.subrange(pos as int, (r->0).1 as int),
        r is Some ==> number_text_ok((r->0).0@),
        r is Some ==> ((r->0).1 == s@.len() || !number_char_ok(s@[(r->0).1 as int])),
        r is None ==> (pos >= s@.len() || !(is_digit(s@[pos as int]) || s@[pos as int] == '-')),
{
    let n = s.unicode_len();
    if pos >= n {
        return None;
    }
    let first = s.get_char(pos);
    if !(first == '-' || ('0' <= first && first <= '9')) {
        return None;
    }
    let mut out: Vec<char> = Vec::new();
    let mut i = pos;
    proof {
        assert(s@.subrange(pos as int, pos as int) =~= Seq::<char>::empty());
    }
    while i < n
        invariant
            pos <= i <= n,
            pos < n,
            n == s@.len(),
            out@ == s@.subrange(pos as int, i as int),
            forall|k: int| 0 <= k < out@.len() ==> number_char_ok(#[trigger] out@[k]),
            is_digit(s@[pos as int]) || s@[pos as int] == '-',
        decreases n - i,
    {
        let c = s.get_char(i);
        if !(('0' <= c && c <= '9') || c == '-' || c == '+' || c == '.' || c == 'e' || c == 'E') {
            if i == pos {
                proof {
                    assert(c == s@[pos as int]);
                    assert(false);
                }
                return None;
            }
            let t = chars_to_string(&out);
            proof {
                assert(t@[0] == s@[pos as int]);
            }
            return Some((t, i));
        }
        proof {
            assert(s@.subrange(pos as int, i as int + 1) =~= out@.push(c));
        }
        out.push(c);
        i += 1;
    }
    let t = chars_to_string(&out);
    proof {
        assert(t@[0] == s@[pos as int]);
    }
    Some((t, i))
}

proof fn lemma_digits_value_low(s: Seq<char>)
    requires
        s.len() > 0,
        forall|i: int| 0 <= i < s.len() ==> is_digit(#[trigger] s[i]),
        s[0] != '0',
    ensures
        digits_value(s) >= 1,
    decreases s.len(),
{
    if s.len() == 1 {
        assert(s.drop_last() =~= Seq::<char>::empty());
        assert(digits_value(Seq::<char>::empty()) == 0);
        assert(s.last() == s[0]);
        assert(digit_val(s[0]) >= 1);
    } else {
        let pre = s.drop_last();
        lemma_digits_value_low(pre);
        assert(digit_val(s.last()) >= 0);
    }
}

proof fn lemma_canonical_digits(s: Seq<char>)
    requires
        s.len() > 0,
        forall|i: int| 0 <= i < s.len() ==> is_digit(#[trigger] s[i]),
        s.len() > 1 ==> s[0] != '0',
    ensures
        dec_text(digits_value(s) as nat) == s,
        digits_value(s) >= 0,
    decreases s.len(),
{
    if s.len() == 1 {
        let c = s[0];
        let d = digit_val(c);
        assert(0 <= d <= 9);
        assert(s.drop_last() =~= Seq::<char>::empty());
        assert(digits_value(Seq::<char>::empty()) == 0);
        assert(s.last() == s[0]);
        assert(digits_value(s) == d);
        assert(dec_digit(d) as int == c as int);
        assert(dec_digit(d) == c);
        assert(dec_text(d as nat) =~= s);
    } else {
        let pre = s.drop_last();
        lemma_canonical_digits(pre);
        lemma_digits_value_low(pre);
        let a = digits_value(pre);
        let d = digit_val(s.last());
        let v = digits_value(s);
        assert(v == a * 10 + d);
        assert(0 <= d <= 9);
        assert(a >= 1);
        assert(v >= 10);
        assert(v as nat / 10 == a) by {
            assert(v == a * 10 + d);
        }
        assert(v as nat % 10 == d) by {
            assert(v == a * 10 + d);
        }
        assert(dec_text(v as nat) == dec_text(a as nat).push(dec_digit(d)));
        assert(dec_digit(d) as int == s.last() as int);
        assert(dec_digit(d) == s.last());
        assert(dec_text(v as nat) =~= s);
    }
}

spec fn pow10(k: nat) -> nat
    decreases k,
{
    if k == 0 {
        1
    } else {
        10 * pow10((k - 1) as nat)
    }
}

proof fn lemma_dec_text_props(n: nat)
    ensures
        dec_text(n).len() >= 1,
        forall|i: int| 0 <= i < dec_text(n).len() ==> is_digit(#[trigger] dec_text(n)[i]),
        n >= 1 ==> dec_text(n)[0] != '0',
        n < 10 ==> dec_text(n) == seq![dec_digit(n as int)],
        digits_value(dec_text(n)) == n,
    decreases n,
{
    if n < 10 {
        let t = dec_text(n);
        assert(t == seq![dec_digit(n as int)]);
        assert(t.drop_last() =~= Seq::<char>::empty());
        assert(digits_value(Seq::<char>::empty()) == 0);
        assert(digit_val(dec_digit(n as int)) == n);
    } else {
        lemma_dec_text_props(n / 10);
        let pre = dec_text(n / 10);
        let d = (n % 10) as int;
        let t = dec_text(n);
        assert(t == pre.push(dec_digit(d)));
        assert(t.drop_last() =~= pre);
        assert(t.last() == dec_digit(d));
        assert(digit_val(dec_digit(d)) == d);
        assert(digits_value(t) == digits_value(pre) * 10 + d);
        assert(digits_value(pre) == n / 10);
        assert((n / 10) * 10 + n % 10 == n);
        assert forall|i: int| 0 <= i < t.len() implies is_digit(#[trigger] t[i]) by {
            if i < pre.len() {
                assert(t[i] == pre[i]);
            }
        }
        assert(t[0] == pre[0]);
    }
}

proof fn lemma_dec_text_len(n: nat, k: nat)
    requires
        k >= 1,
        n < pow10(k),
    ensures
        dec_text(n).len() <= k,
    decreases n,
{
    if n < 10 {
    } else {
        assert(pow10(k) == 10 * pow10((k - 1) as nat));
        assert(k >= 2) by {
            if k == 1 {
                assert(pow10(1nat) == 10);
            }
        }
        assert(n / 10 < pow10((k - 1) as nat));
        lemma_dec_text_len(n / 10, (k - 1) as nat);
    }
}

proof fn lemma_pow10_ten()
    ensures
        pow10(10) == 10000000000,
{
    reveal_with_fuel(pow10, 11);
}

/// The magnitude of a signed value.
spec fn mag(v: int) -> nat {
    if v < 0 {
        (-v) as nat
    } else {
        v as nat
    }
}

proof fn lemma_i32_text_shape(t: Seq<char>, v: int)
    requires
        t == i32_text(v),
    ensures
        t.len() >= 1,
        (t[0] == '-') <==> v < 0,
        v < 0 ==> t == seq!['-'] + dec_text(mag(v)) && t.len() == 1 + dec_text(mag(v)).len(),
        v >= 0 ==> t == dec_text(mag(v)),
{
    lemma_dec_text_props(mag(v));
    if v < 0 {
        assert(t[0] == '-');
    } else {
        assert(t[0] == dec_text(mag(v))[0]);
        assert(is_digit(t[0]));
    }
}

/// Parses the canonical decimal text of a 32-bit integer.  It accepts
/// exactly the renderings of 32-bit values: whatever it accepts is the
/// rendering of the value it returns, and every rendering is accepted.
fn parse_i32_text(t: &str) -> (r: Option<i32>)
    ensures
        r is Some ==> t@ == i32_text(r->0 as int),
        (exists|v: i32| t@ == i32_text(v as int)) ==> r is Some,
{
    let n = t.unicode_len();
    if n == 0 {
        proof {
            if exists|v: i32| t@ == i32_text(v as int) {
                let w = choose|v: i32| t@ == i32_text(v as int);
                lemma_i32_text_shape(t@, w as int);
                assert(false);
            }
        }
        return None;
    }
    let neg = t.get_char(0) == '-';
    let start: usize = if neg {
        1
    } else {
        0
    };
    if start == n || n - start > 10 {
        proof {
            if exists|v: i32| t@ == i32_text(v as int) {
                let w = choose|v: i32| t@ == i32_text(v as int);
                lemma_i32_text_shape(t@, w as int);
                lemma_dec_text_props(mag(w as int));
                assert(mag(w as int) <= 2147483648);
                lemma_pow10_ten();
                lemma_dec_text_len(mag(w as int), 10);
                if neg {
                    assert(n == 1 + dec_text(mag(w as int)).len());
                    assert(start == 1);
                } else {
                    assert(t@ == dec_text(mag(w as int)));
                    assert(start == 0);
                }
                assert(false);
            }
        }
        return None;
    }
    if n - start > 1 && t.get_char(start) == '0' {
        proof {
            if exists|v: i32| t@ == i32_text(v as int) {
                let w = choose|v: i32| t@ == i32_text(v as int);
                lemma_i32_text_shape(t@, w as int);
                let m = mag(w as int);
                lemma_dec_text_props(m);
                assert(dec_text(m).len() == n - start);
                assert(m >= 10) by {
                    if m < 10 {
                        assert(dec_text(m).len() == 1);
                    }
                }
                assert(t@[start as int] == dec_text(m)[0]);
                assert(false);
            }
        }
        return None;
    }
    let mut v: u64 = 0;
    let mut i = start;
    proof {
        assert(t@.subrange(start as int, start as int) =~= Seq::<char>::empty());
        assert(digits_value(Seq::<char>::empty()) == 0);
    }
    while i < n
        invariant
            start <= i <= n,
            n == t@.len(),
            start < n,
            start == 0 || start == 1,
            start == 1 ==> t@[0] == '-',
            start == 0 ==> !(t@[0] == '-'),
            v == digits_value(t@.subrange(start as int, i as int)),
            v <= 2147483648,
            forall|k: int| start <= k < i ==> is_digit(#[trigger] t@[k]),
        decreases n - i,
    {
        let c = t.get_char(i);
        if !('0' <= c && c <= '9') {
            proof {
                if exists|v0: i32| t@ == i32_text(v0 as int) {
                    let w = choose|v0: i32| t@ == i32_text(v0 as int);
                    lemma_i32_text_shape(t@, w as int);
                    let m = mag(w as int);
                    lemma_dec_text_props(m);
                    assert(t@[i as int] == dec_text(m)[i - start as int]);
                    assert(false);
                }
            }
            return None;
        }
        let d = (c as u64) - ('0' as u64);
        v = v * 10 + d;
        proof {
            let pre = t@.subrange(start as int, i as int);
            let cur = t@.subrange(start as int, i as int + 1);
            assert(cur.drop_last() =~= pre);
            assert(cur.last() == t@[i as int]);
            assert(v == digits_value(cur));
        }
        if v > 2147483648 {
            proof {
                if exists|v0: i32| t@ == i32_text(v0 as int) {
                    let w = choose|v0: i32| t@ == i32_text(v0 as int);
                    lemma_i32_text_shape(t@, w as int);
                    let m = mag(w as int);
                    lemma_dec_text_props(m);
                    let cur = t@.subrange(start as int, i as int + 1);
                    if w < 0 {
                        assert(start == 1);
                        assert(dec_text(m).len() == n - 1);
                        assert forall|k: int| 0 <= k < n - 1 implies t@[1 + k] == dec_text(m)[k] by {
                            assert(t@[1 + k] == (seq!['-'] + dec_text(m))[1 + k]);
                        }
                    } else {
                        assert(start == 0);
                        assert(dec_text(m).len() == n as int);
                    }
                    assert(i as int + 1 - start <= dec_text(m).len());
                    assert(cur =~= dec_text(m).take(i as int + 1 - start));
                    crate::config::lemma_digits_value_monotone(dec_text(m), i as int + 1 - start);
                    assert(digits_value(cur) <= m);
                    assert(m <= 2147483648);
                    assert(false);
                }
            }
            return None;
        }
        i += 1;
    }
    let ghost digits = t@.subrange(start as int, n as int);
    proof {
        lemma_canonical_digits(digits);
    }
    if neg {
        if v == 0 || v > 2147483648 {
            proof {
                if exists|v0: i32| t@ == i32_text(v0 as int) {
                    let w = choose|v0: i32| t@ == i32_text(v0 as int);
                    lemma_i32_text_shape(t@, w as int);
                    let m = mag(w as int);
                    lemma_dec_text_props(m);
                    assert(w < 0);
                    assert(digits =~= dec_text(m));
                    assert(v == digits_value(dec_text(m)));
                    assert(v == m);
                    assert(m >= 1 && m <= 2147483648);
                    assert(false);
                }
            }
            return None;
        }
        let wide: i64 = -(v as i64);
        let result: i32 = wide as i32;
        proof {
            assert(i32_text(result as int) == seq!['-'] + dec_text(v as nat));
            reveal_strlit("-");
            assert(t@[0] == '-');
            assert(t@ =~= seq!['-'] + digits);
        }
        Some(result)
    } else {
        if v > 2147483647 {
            proof {
                if exists|v0: i32| t@ == i32_text(v0 as int) {
                    let w = choose|v0: i32| t@ == i32_text(v0 as int);
                    lemma_i32_text_shape(t@, w as int);
                    let m = mag(w as int);
                    lemma_dec_text_props(m);
                    assert(w >= 0);
                    assert(digits =~= dec_text(m));
                    assert(v == digits_value(dec_text(m)));
                    assert(v == m);
                    assert(m <= 2147483647);
                    assert(false);
                }
            }
            return None;
        }
        let result: i32 = v as i32;
        proof {
            assert(t@ =~= digits);
        }
        Some(result)
    }
}

} // verus!

verus! {

/// Two actions carry the same tag and the same field values.
pub open spec fn action_matches(b: Action, a: Action) -> bool {
    match (b, a) {
        (Action::CreatePlanting(x), Action::CreatePlanting(y)) => x.user_id@ == y.user_id@ && x.id@ == y.id@ && x.layer_id == y.layer_id && x.plant_id == y.plant_id && x.x == y.x && x.y == y.y && x.width == y.width && x.height == y.height && x.rotation@ == y.rotation@ && x.scale_x@ == y.scale_x@ && x.scale_y@ == y.scale_y@,
        (Action::DeletePlanting(x), Action::DeletePlanting(y)) => x.user_id@ == y.user_id@ && x.id@ == y.id@,
        (Action::MovePlanting(x), Action::MovePlanting(y)) => x.user_id@ == y.user_id@ && x.id@ == y.id@ && x.x == y.x && x.y == y.y,
        (Action::TransformPlanting(x), Action::TransformPlanting(y)) => x.user_id@ == y.user_id@ && x.id@ == y.id@ && x.x == y.x && x.y == y.y && x.rotation@ == y.rotation@ && x.scale_x@ == y.scale_x@ && x.scale_y@ == y.scale_y@,
        (Action::CreateBaseLayerImage(x), Action::CreateBaseLayerImage(y)) => x.user_id@ == y.user_id@ && x.id@ == y.id@ && x.layer_id == y.layer_id && x.rotation@ == y.rotation@ && x.scale@ == y.scale@ && x.path@ == y.path@,
        (Action::UpdateBaseLayerImage(x), Action::UpdateBaseLayerImage(y)) => x.user_id@ == y.user_id@ && x.id@ == y.id@ && x.layer_id == y.layer_id && x.rotation@ == y.rotation@ && x.scale@ == y.scale@ && x.path@ == y.path@,
        (Action::DeleteBaseLayerImage(x), Action::DeleteBaseLayerImage(y)) => x.user_id@ == y.user_id@ && x.id@ == y.id@,
        _ => false,
    }
}

proof fn lemma_i32_text_inj(a: int, b: int)
    requires
        i32_text(a) == i32_text(b),
        -2147483648 <= a <= 2147483647,
        -2147483648 <= b <= 2147483647,
    ensures
        a == b,
{
    lemma_i32_text_shape(i32_text(a), a);
    lemma_i32_text_shape(i32_text(b), b);
    lemma_dec_text_props(mag(a));
    lemma_dec_text_props(mag(b));
    if a < 0 && b < 0 {
        assert(dec_text(mag(a)) =~= dec_text(mag(b))) by {
            assert forall|k: int| 0 <= k < dec_text(mag(a)).len() implies dec_text(mag(a))[k]
                == dec_text(mag(b))[k] by {
                assert(i32_text(a)[1 + k] == dec_text(mag(a))[k]);
                assert(i32_text(b)[1 + k] == dec_text(mag(b))[k]);
            }
        }
        assert(digits_value(dec_text(mag(a))) == digits_value(dec_text(mag(b))));
    } else if a >= 0 && b >= 0 {
        assert(digits_value(dec_text(mag(a))) == digits_value(dec_text(mag(b))));
    }
}

proof fn lemma_i32_text_number_ok(v: int)
    ensures
        number_text_ok(i32_text(v)),
{
    lemma_dec_text_props(mag(v));
    let t = i32_text(v);
    assert forall|i: int| 0 <= i < t.len() implies number_char_ok(#[trigger] t[i]) by {
        if v < 0 {
            if i > 0 {
                assert(t[i] == dec_text(mag(v))[i - 1]);
            }
        }
    }
}

proof fn lemma_text_pinned(s: Seq<char>, pos: int, f: Seq<char>, t: Seq<char>, q: int)
    requires
        text_ok(f),
        0 <= pos,
        pos + f.len() < s.len(),
        forall|k: int| 0 <= k < f.len() ==> s[pos + k] == #[trigger] f[k],
        s[pos + f.len()] == '"',
        pos <= q < s.len(),
        t == s.subrange(pos, q),
        s[q] == '"',
        text_ok(t),
    ensures
        q == pos + f.len(),
        t == f,
{
    if q < pos + f.len() {
        assert(s[q] == f[q - pos]);
        assert(text_char_ok(f[q - pos]));
        assert(false);
    }
    if q > pos + f.len() {
        assert(t[f.len() as int] == s[pos + f.len()]);
        assert(text_char_ok(t[f.len() as int]));
        assert(false);
    }
    assert(t =~= f);
}

proof fn lemma_number_pinned(s: Seq<char>, pos: int, f: Seq<char>, t: Seq<char>, q: int)
    requires
        number_text_ok(f),
        0 <= pos,
        pos + f.len() < s.len(),
        forall|k: int| 0 <= k < f.len() ==> s[pos + k] == #[trigger] f[k],
        !number_char_ok(s[pos + f.len()]),
        pos < q <= s.len(),
        t == s.subrange(pos, q),
        number_text_ok(t),
        q == s.len() || !number_char_ok(s[q]),
    ensures
        q == pos + f.len(),
        t == f,
{
    if q < pos + f.len() {
        assert(s[q] == f[q - pos]);
        assert(number_char_ok(f[q - pos]));
        assert(false);
    }
    if q > pos + f.len() {
        assert(t[f.len() as int] == s[pos + f.len()]);
        assert(number_char_ok(t[f.len() as int]));
        assert(false);
    }
    assert(t =~= f);
}

#[verifier::rlimit(100)]
#[verifier::spinoff_prover]
proof fn lemma_create_planting_layout(s: Seq<char>, w: CreatePlantActionPayload, fb0: int, fe0: int, fb1: int, fe1: int, fb2: int, fe2: int, fb3: int, fe3: int, fb4: int, fe4: int, fb5: int, fe5: int, fb6: int, fe6: int, fb7: int, fe7: int, fb8: int, fe8: int, fb9: int, fe9: int, fb10: int, fe10: int, total: int)
    requires
        action_serializable(Action::CreatePlanting(w)),
        s == crate::wire::wire_create_planting(w),
        fb0 == "{\"type\":\"CreatePlanting\",\"payload\":{\"userId\":\""@.len() as int,
        fe0 == fb0 + w.user_id@.len(),
        fb1 == fe0 + "\",\"id\":\""@.len() as int,
        fe1 == fb1 + w.id@.len(),
        fb2 == fe1 + "\",\"layerId\":"@.len() as int,
        fe2 == fb2 + i32_text(w.layer_id as int).len(),
        fb3 == fe2 + ",\"plantId\":"@.len() as int,
        fe3 == fb3 + i32_text(w.plant_id as int).len(),
        fb4 == fe3 + ",\"x\":"@.len() as int,
        fe4 == fb4 + i32_text(w.x as int).len(),
        fb5 == fe4 + ",\"y\":"@.len() as int,
        fe5 == fb5 + i32_text(w.y as int).len(),
        fb6 == fe5 + ",\"width\":"@.len() as int,
        fe6 == fb6 + i32_text(w.width as int).len(),
        fb7 == fe6 + ",\"height\":"@.len() as int,
        fe7 == fb7 + i32_text(w.height as int).len(),
        fb8 == fe7 + ",\"rotation\":"@.len() as int,
        fe8 == fb8 + w.rotation@.len(),
        fb9 == fe8 + ",\"scaleX\":"@.len() as int,
        fe9 == fb9 + w.scale_x@.len(),
        fb10 == fe9 + ",\"scaleY\":"@.len() as int,
        fe10 == fb10 + w.scale_y@.len(),
        total == fe10 + "}}"@.len() as int,
    ensures
        s.len() == total,
        0 < fb0,
        s.subrange(0, fb0) == "{\"type\":\"CreatePlanting\",\"payload\":{\"userId\":\""@,
        fb0 <= fe0 < total,
        forall|j: int| 0 <= j < w.user_id@.len() ==> s[fb0 + j] == #[trigger] w.user_id@[j],
        s[fe0] == '"',
        s.subrange(fe0, fb1) == "\",\"id\":\""@,
        fb1 <= fe1 < total,
        forall|j: int| 0 <= j < w.id@.len() ==> s[fb1 + j] == #[trigger] w.id@[j],
        s[fe1] == '"',
        s.subrange(fe1, fb2) == "\",\"layerId\":"@,
        fb2 <= fe2 < total,
        forall|j: int| 0 <= j < i32_text(w.layer_id as int).len() ==> s[fb2 + j] == #[trigger] i32_text(w.layer_id as int)[j],
        !number_char_ok(s[fe2]),
        number_text_ok(i32_text(w.layer_id as int)),
        s.subrange(fe2, fb3) == ",\"plantId\":"@,
        fb3 <= fe3 < total,
        forall|j: int| 0 <= j < i32_text(w.plant_id as int).len() ==> s[fb3 + j] == #[trigger] i32_text(w.plant_id as int)[j],
        !number_char_ok(s[fe3]),
        number_text_ok(i32_text(w.plant_id as int)),
        s.subrange(fe3, fb4) == ",\"x\":"@,
        fb4 <= fe4 < total,
        forall|j: int| 0 <= j < i32_text(w.x as int).len() ==> s[fb4 + j] == #[trigger] i32_text(w.x as int)[j],
        !number_char_ok(s[fe4]),
        number_text_ok(i32_text(w.x as int)),
        s.subrange(fe4, fb5) == ",\"y\":"@,
        fb5 <= fe5 < total,
        forall|j: int| 0 <= j < i32_text(w.y as int).len() ==> s[fb5 + j] == #[trigger] i32_text(w.y as int)[j],
        !number_char_ok(s[fe5]),
        number_text_ok(i32_text(w.y as int)),
        s.subrange(fe5, fb6) == ",\"width\":"@,
        fb6 <= fe6 < total,
        forall|j: int| 0 <= j < i32_text(w.width as int).len() ==> s[fb6 + j] == #[trigger] i32_text(w.width as int)[j],
        !number_char_ok(s[fe6]),
        number_text_ok(i32_text(w.width as int)),
        s.subrange(fe6, fb7) == ",\"height\":"@,
        fb7 <= fe7 < total,
        forall|j: int| 0 <= j < i32_text(w.height as int).len() ==> s[fb7 + j] == #[trigger] i32_text(w.height as int)[j],
        !number_char_ok(s[fe7]),
        number_text_ok(i32_text(w.height as int)),
        s.subrange(fe7, fb8) == ",\"rotation\":"@,
        fb8 <= fe8 < total,
        forall|j: int| 0 <= j < w.rotation@.len() ==> s[fb8 + j] == #[trigger] w.rotation@[j],
        !number_char_ok(s[fe8]),
        s.subrange(fe8, fb9) == ",\"scaleX\":"@,
        fb9 <= fe9 < total,
        forall|j: int| 0 <= j < w.scale_x@.len() ==> s[fb9 + j] == #[trigger] w.scale_x@[j],
        !number_char_ok(s[fe9]),
        s.subrange(fe9, fb10) == ",\"scaleY\":"@,
        fb10 <= fe10 < total,
        forall|j: int| 0 <= j < w.scale_y@.len() ==> s[fb10 + j] == #[trigger] w.scale_y@[j],
        !number_char_ok(s[fe10]),
        s.subrange(fe10, total) == "}}"@,
{
    reveal_strlit("{\"type\":\"CreatePlanting\",\"payload\":{\"userId\":\"");
    reveal_strlit("\",\"id\":\"");
    reveal_strlit("\",\"layerId\":");
    reveal_strlit(",\"plantId\":");
    reveal_strlit(",\"x\":");
    reveal_strlit(",\"y\":");
    reveal_strlit(",\"width\":");
    reveal_strlit(",\"height\":");
    reveal_strlit(",\"rotation\":");
    reveal_strlit(",\"scaleX\":");
    reveal_strlit(",\"scaleY\":");
    reveal_strlit("}}");
    assert(s.subrange(0, fb0) =~= "{\"type\":\"CreatePlanting\",\"payload\":{\"userId\":\""@);
    assert forall|j: int| 0 <= j < w.user_id@.len() implies s[fb0 + j] == #[trigger] w.user_id@[j] by {}
    assert(s[fe0] == '"');
    assert(s.subrange(fe0, fb1) =~= "\",\"id\":\""@);
    assert forall|j: int| 0 <= j < w.id@.len() implies s[fb1 + j] == #[trigger] w.id@[j] by {}
    assert(s[fe1] == '"');
    assert(s.subrange(fe1, fb2) =~= "\",\"layerId\":"@);
    assert forall|j: int| 0 <= j < i32_text(w.layer_id as int).len() implies s[fb2 + j] == #[trigger] i32_text(w.layer_id as int)[j] by {}
    assert(s[fe2] == ',');
    assert(!number_char_ok(s[fe2]));
    lemma_i32_text_number_ok(w.layer_id as int);
    assert(s.subrange(fe2, fb3) =~= ",\"plantId\":"@);
    assert forall|j: int| 0 <= j < i32_text(w.plant_id as int).len() implies s[fb3 + j] == #[trigger] i32_text(w.plant_id as int)[j] by {}
    assert(s[fe3] == ',');
    assert(!number_char_ok(s[fe3]));
    lemma_i32_text_number_ok(w.plant_id as int);
    assert(s.subrange(fe3, fb4) =~= ",\"x\":"@);
    assert forall|j: int| 0 <= j < i32_text(w.x as int).len() implies s[fb4 + j] == #[trigger] i32_text(w.x as int)[j] by {}
    assert(s[fe4] == ',');
    assert(!number_char_ok(s[fe4]));
    lemma_i32_text_number_ok(w.x as int);
    assert(s.subrange(fe4, fb5) =~= ",\"y\":"@);
    assert forall|j: int| 0 <= j < i32_text(w.y as int).len() implies s[fb5 + j] == #[trigger] i32_text(w.y as int)[j] by {}
    assert(s[fe5] == ',');
    assert(!number_char_ok(s[fe5]));
    lemma_i32_text_number_ok(w.y as int);
    assert(s.subrange(fe5, fb6) =~= ",\"width\":"@);
    assert forall|j: int| 0 <= j < i32_text(w.width as int).len() implies s[fb6 + j] == #[trigger] i32_text(w.width as int)[j] by {}
    assert(s[fe6] == ',');
    assert(!number_char_ok(s[fe6]));
    lemma_i32_text_number_ok(w.width as int);
    assert(s.subrange(fe6, fb7) =~= ",\"height\":"@);
    assert forall|j: int| 0 <= j < i32_text(w.height as int).len() implies s[fb7 + j] == #[trigger] i32_text(w.height as int)[j] by {}
    assert(s[fe7] == ',');
    assert(!number_char_ok(s[fe7]));
    lemma_i32_text_number_ok(w.height as int);
    assert(s.subrange(fe7, fb8) =~= ",\"rotation\":"@);
    assert forall|j: int| 0 <= j < w.rotation@.len() implies s[fb8 + j] == #[trigger] w.rotation@[j] by {}
    assert(s[fe8] == ',');
    assert(!number_char_ok(s[fe8]));
    assert(s.subrange(fe8, fb9) =~= ",\"scaleX\":"@);
    assert forall|j: int| 0 <= j < w.scale_x@.len() implies s[fb9 + j] == #[trigger] w.scale_x@[j] by {}
    assert(s[fe9] == ',');
    assert(!number_char_ok(s[fe9]));
    assert(s.subrange(fe9, fb10) =~= ",\"scaleY\":"@);
    assert forall|j: int| 0 <= j < w.scale_y@.len() implies s[fb10 + j] == #[trigger] w.scale_y@[j] by {}
    assert(s[fe10] == '}');
    assert(!number_char_ok(s[fe10]));
    assert(s.subrange(fe10, total) =~= "}}"@);
}

#[verifier::rlimit(100)]
#[verifier::spinoff_prover]
proof fn lemma_create_planting_recovery(s: Seq<char>, f0: Seq<char>, q0: int, f1: Seq<char>, q1: int, t2: Seq<char>, v2: i32, q2: int, t3: Seq<char>, v3: i32, q3: int, t4: Seq<char>, v4: i32, q4: int, t5: Seq<char>, v5: i32, q5: int, t6: Seq<char>, v6: i32, q6: int, t7: Seq<char>, v7: i32, q7: int, f8: Seq<char>, q8: int, f9: Seq<char>, q9: int, f10: Seq<char>, q10: int)
    requires
        ("{\"type\":\"CreatePlanting\",\"payload\":{\"userId\":\""@.len() as int) <= q0 < s.len(),
        f0 == s.subrange(("{\"type\":\"CreatePlanting\",\"payload\":{\"userId\":\""@.len() as int), q0),
        s[q0] == '"',
        text_ok(f0),
        (q0 + "\",\"id\":\""@.len() as int) <= q1 < s.len(),
        f1 == s.subrange((q0 + "\",\"id\":\""@.len() as int), q1),
        s[q1] == '"',
        text_ok(f1),
        (q1 + "\",\"layerId\":"@.len() as int) < q2 <= s.len(),
        t2 == s.subrange((q1 + "\",\"layerId\":"@.len() as int), q2),
        number_text_ok(t2),
        q2 == s.len() || !number_char_ok(s[q2]),
        t2 == i32_text(v2 as int),
        (q2 + ",\"plantId\":"@.len() as int) < q3 <= s.len(),
        t3 == s.subrange((q2 + ",\"plantId\":"@.len() as int), q3),
        number_text_ok(t3),
        q3 == s.len() || !number_char_ok(s[q3]),
        t3 == i32_text(v3 as int),
        (q3 + ",\"x\":"@.len() as int) < q4 <= s.len(),
        t4 == s.subrange((q3 + ",\"x\":"@.len() as int), q4),
        number_text_ok(t4),
        q4 == s.len() || !number_char_ok(s[q4]),
        t4 == i32_text(v4 as int),
        (q4 + ",\"y\":"@.len() as int) < q5 <= s.len(),
        t5 == s.subrange((q4 + ",\"y\":"@.len() as int), q5),
        number_text_ok(t5),
        q5 == s.len() || !number_char_ok(s[q5]),
        t5 == i32_text(v5 as int),
        (q5 + ",\"width\":"@.len() as int) < q6 <= s.len(),
        t6 == s.subrange((q5 + ",\"width\":"@.len() as int), q6),
        number_text_ok(t6),
        q6 == s.len() || !number_char_ok(s[q6]),
        t6 == i32_text(v6 as int),
        (q6 + ",\"height\":"@.len() as int) < q7 <= s.len(),
        t7 == s.subrange((q6 + ",\"height\":"@.len() as int), q7),
        number_text_ok(t7),
        q7 == s.len() || !number_char_ok(s[q7]),
        t7 == i32_text(v7 as int),
        (q7 + ",\"rotation\":"@.len() as int) < q8 <= s.len(),
        f8 == s.subrange((q7 + ",\"rotation\":"@.len() as int), q8),
        number_text_ok(f8),
        q8 == s.len() || !number_char_ok(s[q8]),
        (q8 + ",\"scaleX\":"@.len() as int) < q9 <= s.len(),
        f9 == s.subrange((q8 + ",\"scaleX\":"@.len() as int), q9),
        number_text_ok(f9),
        q9 == s.len() || !number_char_ok(s[q9]),
        (q9 + ",\"scaleY\":"@.len() as int) < q10 <= s.len(),
        f10 == s.subrange((q9 + ",\"scaleY\":"@.len() as int), q10),
        number_text_ok(f10),
        q10 == s.len() || !number_char_ok(s[q10]),
    ensures
        forall|p: CreatePlantActionPayload|
            #![trigger crate::wire::wire_create_planting(p)]
            (action_serializable(Action::CreatePlanting(p)) && s == crate::wire::wire_create_planting(p))
                ==> (f0 == p.user_id@ && f1 == p.id@ && v2 == p.layer_id && v3 == p.plant_id && v4 == p.x && v5 == p.y && v6 == p.width && v7 == p.height && f8 == p.rotation@ && f9 == p.scale_x@ && f10 == p.scale_y@),
{
    reveal_strlit("{\"type\":\"CreatePlanting\",\"payload\":{\"userId\":\"");
    reveal_strlit("\",\"id\":\"");
    reveal_strlit("\",\"layerId\":");
    reveal_strlit(",\"plantId\":");
    reveal_strlit(",\"x\":");
    reveal_strlit(",\"y\":");
    reveal_strlit(",\"width\":");
    reveal_strlit(",\"height\":");
    reveal_strlit(",\"rotation\":");
    reveal_strlit(",\"scaleX\":");
    reveal_strlit(",\"scaleY\":");
    reveal_strlit("}}");
    assert forall|p: CreatePlantActionPayload|
        (action_serializable(Action::CreatePlanting(p)) && s == crate::wire::wire_create_planting(p)) implies (f0 == p.user_id@ && f1 == p.id@ && v2 == p.layer_id && v3 == p.plant_id && v4 == p.x && v5 == p.y && v6 == p.width && v7 == p.height && f8 == p.rotation@ && f9 == p.scale_x@ && f10 == p.scale_y@) by {
        let p_fb0 = "{\"type\":\"CreatePlanting\",\"payload\":{\"userId\":\""@.len() as int;
        let p_fe0 = p_fb0 + p.user_id@.len();
        let p_fb1 = p_fe0 + "\",\"id\":\""@.len() as int;
        let p_fe1 = p_fb1 + p.id@.len();
        let p_fb2 = p_fe1 + "\",\"layerId\":"@.len() as int;
        let p_fe2 = p_fb2 + i32_text(p.layer_id as int).len();
        let p_fb3 = p_fe2 + ",\"plantId\":"@.len() as int;
        let p_fe3 = p_fb3 + i32_text(p.plant_id as int).len();
        let p_fb4 = p_fe3 + ",\"x\":"@.len() as int;
        let p_fe4 = p_fb4 + i32_text(p.x as int).len();
        let p_fb5 = p_fe4 + ",\"y\":"@.len() as int;
        let p_fe5 = p_fb5 + i32_text(p.y as int).len();
        let p_fb6 = p_fe5 + ",\"width\":"@.len() as int;
        let p_fe6 = p_fb6 + i32_text(p.width as int).len();
        let p_fb7 = p_fe6 + ",\"height\":"@.len() as int;
        let p_fe7 = p_fb7 + i32_text(p.height as int).len();
        let p_fb8 = p_fe7 + ",\"rotation\":"@.len() as int;
        let p_fe8 = p_fb8 + p.rotation@.len();
        let p_fb9 = p_fe8 + ",\"scaleX\":"@.len() as int;
        let p_fe9 = p_fb9 + p.scale_x@.len();
        let p_fb10 = p_fe9 + ",\"scaleY\":"@.len() as int;
        let p_fe10 = p_fb10 + p.scale_y@.len();
        let p_total = p_fe10 + "}}"@.len() as int;
        lemma_create_planting_layout(s, p, p_fb0, p_fe0, p_fb1, p_fe1, p_fb2, p_fe2, p_fb3, p_fe3, p_fb4, p_fe4, p_fb5, p_fe5, p_fb6, p_fe6, p_fb7, p_fe7, p_fb8, p_fe8, p_fb9, p_fe9, p_fb10, p_fe10, p_total);
        lemma_text_pinned(s, p_fb0, p.user_id@, f0, q0);
        lemma_text_pinned(s, p_fb1, p.id@, f1, q1);
        lemma_number_pinned(s, p_fb2, i32_text(p.layer_id as int), t2, q2);
        lemma_i32_text_inj(v2 as int, p.layer_id as int);
        lemma_number_pinned(s, p_fb3, i32_text(p.plant_id as int), t3, q3);
        lemma_i32_text_inj(v3 as int, p.plant_id as int);
        lemma_number_pinned(s, p_fb4, i32_text(p.x as int), t4, q4);
        lemma_i32_text_inj(v4 as int, p.x as int);
        lemma_number_pinned(s, p_fb5, i32_text(p.y as int), t5, q5);
        lemma_i32_text_inj(v5 as int, p.y as int);
        lemma_number_pinned(s, p_fb6, i32_text(p.width as int), t6, q6);
        lemma_i32_text_inj(v6 as int, p.width as int);
        lemma_number_pinned(s, p_fb7, i32_text(p.height as int), t7, q7);
        lemma_i32_text_inj(v7 as int, p.height as int);
        lemma_number_pinned(s, p_fb8, p.rotation@, f8, q8);
        lemma_number_pinned(s, p_fb9, p.scale_x@, f9, q9);
        lemma_number_pinned(s, p_fb10, p.scale_y@, f10, q10);
    }
}

#[verifier::rlimit(100)]
#[verifier::spinoff_prover]
fn decode_create_planting(s: &str) -> (r: Option<Action>)
    ensures
        r is Some ==> action_serializable(r->0) && action_wire(r->0) == s@,
        r is Some ==> r->0 is CreatePlanting,
        forall|p: CreatePlantActionPayload|
            (action_serializable(Action::CreatePlanting(p)) && s@ == crate::wire::wire_create_planting(p)) ==> (r is Some && action_matches(r->0, Action::CreatePlanting(p))),
{
    let n = s.unicode_len();
    let ghost hyp = exists|p: CreatePlantActionPayload| action_serializable(Action::CreatePlanting(p)) && s@ == crate::wire::wire_create_planting(p);
    let ghost w = choose|p: CreatePlantActionPayload| action_serializable(Action::CreatePlanting(p)) && s@ == crate::wire::wire_create_planting(p);
    let ghost fb0 = "{\"type\":\"CreatePlanting\",\"payload\":{\"userId\":\""@.len() as int;
    let ghost fe0 = fb0 + w.user_id@.len();
    let ghost fb1 = fe0 + "\",\"id\":\""@.len() as int;
    let ghost fe1 = fb1 + w.id@.len();
    let ghost fb2 = fe1 + "\",\"layerId\":"@.len() as int;
    let ghost fe2 = fb2 + i32_text(w.layer_id as int).len();
    let ghost fb3 = fe2 + ",\"plantId\":"@.len() as int;
    let ghost fe3 = fb3 + i32_text(w.plant_id as int).len();
    let ghost fb4 = fe3 + ",\"x\":"@.len() as int;
    let ghost fe4 = fb4 + i32_text(w.x as int).len();
    let ghost fb5 = fe4 + ",\"y\":"@.len() as int;
    let ghost fe5 = fb5 + i32_text(w.y as int).len();
    let ghost fb6 = fe5 + ",\"width\":"@.len() as int;
    let ghost fe6 = fb6 + i32_text(w.width as int).len();
    let ghost fb7 = fe6 + ",\"height\":"@.len() as int;
    let ghost fe7 = fb7 + i32_text(w.height as int).len();
    let ghost fb8 = fe7 + ",\"rotation\":"@.len() as int;
    let ghost fe8 = fb8 + w.rotation@.len();
    let ghost fb9 = fe8 + ",\"scaleX\":"@.len() as int;
    let ghost fe9 = fb9 + w.scale_x@.len();
    let ghost fb10 = fe9 + ",\"scaleY\":"@.len() as int;
    let ghost fe10 = fb10 + w.scale_y@.len();
    let ghost total = fe10 + "}}"@.len() as int;
    proof {
        if hyp {
            lemma_create_planting_layout(s@, w, fb0, fe0, fb1, fe1, fb2, fe2, fb3, fe3, fb4, fe4, fb5, fe5, fb6, fe6, fb7, fe7, fb8, fe8, fb9, fe9, fb10, fe10, total);
        }
    }
    let pos0 = match expect_lit(s, 0, "{\"type\":\"CreatePlanting\",\"payload\":{\"userId\":\"") {
        Some(p) => p,
        None => {
            proof {
                if hyp {
                    assert(false);
                }
            }
            return None;
        },
    };
    let (f_user_id, q0) = match read_text(s, pos0) {
        Some(t) => t,
        None => {
            proof {
                if hyp {
                    assert(text_run_until_quote(s@, pos0 as int, fe0)) by {
                        assert forall|j: int| fb0 <= j < fe0 implies text_char_ok(#[trigger] s@[j]) by {
                            assert(s@[j] == w.user_id@[j - fb0]);
                        }
                    }
                    assert(false);
                }
            }
            return None;
        },
    };
    proof {
        if hyp {
            lemma_text_pinned(s@, fb0, w.user_id@, f_user_id@, q0 as int);
        }
    }
    let pos1 = match expect_lit(s, q0, "\",\"id\":\"") {
        Some(p) => p,
        None => {
            proof {
                if hyp {
                    assert(false);
                }
            }
            return None;
        },
    };
    let (f_id, q1) = match read_text(s, pos1) {
        Some(t) => t,
        None => {
            proof {
                if hyp {
                    assert(text_run_until_quote(s@, pos1 as int, fe1)) by {
                        assert forall|j: int| fb1 <= j < fe1 implies text_char_ok(#[trigger] s@[j]) by {
                            assert(s@[j] == w.id@[j - fb1]);
                        }
                    }
                    assert(false);
                }
            }
            return None;
        },
    };
    proof {
        if hyp {
            lemma_text_pinned(s@, fb1, w.id@, f_id@, q1 as int);
        }
    }
    let pos2 = match expect_lit(s, q1, "\",\"layerId\":") {
        Some(p) => p,
        None => {
            proof {
                if hyp {
                    assert(false);
                }
            }
            return None;
        },
    };
    let (t_layer_id, q2) = match read_number(s, pos2) {
        Some(t) => t,
        None => {
            proof {
                if hyp {
                    assert(s@[fb2] == i32_text(w.layer_id as int)[0]);
                    assert(is_digit(i32_text(w.layer_id as int)[0]) || i32_text(w.layer_id as int)[0] == '-');
                    assert(false);
                }
            }
            return None;
        },
    };
    let f_layer_id = match parse_i32_text(t_layer_id.as_str()) {
        Some(v) => v,
        None => {
            proof {
                if hyp {
                    lemma_number_pinned(s@, fb2, i32_text(w.layer_id as int), t_layer_id@, q2 as int);
                    assert(t_layer_id@ == i32_text(w.layer_id as int));
                    assert(exists|v: i32| t_layer_id@ == i32_text(v as int));
                    assert(false);
                }
            }
            return None;
        },
    };
    proof {
        if hyp {
            lemma_number_pinned(s@, fb2, i32_text(w.layer_id as int), t_layer_id@, q2 as int);
        }
    }
    let pos3 = match expect_lit(s, q2, ",\"plantId\":") {
        Some(p) => p,
        None => {
            proof {
                if hyp {
                    assert(false);
                }
            }
            return None;
        },
    };
    let (t_plant_id, q3) = match read_number(s, pos3) {
        Some(t) => t,
        None => {
            proof {
                if hyp {
                    assert(s@[fb3] == i32_text(w.plant_id as int)[0]);
                    assert(is_digit(i32_text(w.plant_id as int)[0]) || i32_text(w.plant_id as int)[0] == '-');
                    assert(false);
                }
            }
            return None;
        },
    };
    let f_plant_id = match parse_i32_text(t_plant_id.as_str()) {
        Some(v) => v,
        None => {
            proof {
                if hyp {
                    lemma_number_pinned(s@, fb3, i32_text(w.plant_id as int), t_plant_id@, q3 as int);
                    assert(t_plant_id@ == i32_text(w.plant_id as int));
                    assert(exists|v: i32| t_plant_id@ == i32_text(v as int));
                    assert(false);
                }
            }
            return None;
        },
    };
    proof {
        if hyp {
            lemma_number_pinned(s@, fb3, i32_text(w.plant_id as int), t_plant_id@, q3 as int);
        }
    }
    let pos4 = match expect_lit(s, q3, ",\"x\":") {
        Some(p) => p,
        None => {
            proof {
                if hyp {
                    assert(false);
                }
            }
            return None;
        },
    };
    let (t_x, q4) = match read_number(s, pos4) {
        Some(t) => t,
        None => {
            proof {
                if hyp {
                    assert(s@[fb4] == i32_text(w.x as int)[0]);
                    assert(is_digit(i32_text(w.x as int)[0]) || i32_text(w.x as int)[0] == '-');
                    assert(false);
                }
            }
            return None;
        },
    };
    let f_x = match parse_i32_text(t_x.as_str()) {
        Some(v) => v,
        None => {
            proof {
                if hyp {
                    lemma_number_pinned(s@, fb4, i32_text(w.x as int), t_x@, q4 as int);
                    assert(t_x@ == i32_text(w.x as int));
                    assert(exists|v: i32| t_x@ == i32_text(v as int));
                    assert(false);
                }
            }
            return None;
        },
    };
    proof {
        if hyp {
            lemma_number_pinned(s@, fb4, i32_text(w.x as int), t_x@, q4 as int);
        }
    }
    let pos5 = match expect_lit(s, q4, ",\"y\":") {
        Some(p) => p,
        None => {
            proof {
                if hyp {
                    assert(false);
                }
            }
            return None;
        },
    };
    let (t_y, q5) = match read_number(s, pos5) {
        Some(t) => t,
        None => {
            proof {
                if hyp {
                    assert(s@[fb5] == i32_text(w.y as int)[0]);
                    assert(is_digit(i32_text(w.y as int)[0]) || i32_text(w.y as int)[0] == '-');
                    assert(false);
                }
            }
            return None;
        },
    };
    let f_y = match parse_i32_text(t_y.as_str()) {
        Some(v) => v,
        None => {
            proof {
                if hyp {
                    lemma_number_pinned(s@, fb5, i32_text(w.y as int), t_y@, q5 as int);
                    assert(t_y@ == i32_text(w.y as int));
                    assert(exists|v: i32| t_y@ == i32_text(v as int));
                    assert(false);
                }
            }
            return None;
        },
    };
    proof {
        if hyp {
            lemma_number_pinned(s@, fb5, i32_text(w.y as int), t_y@, q5 as int);
        }
    }
    let pos6 = match expect_lit(s, q5, ",\"width\":") {
        Some(p) => p,
        None => {
            proof {
                if hyp {
                    assert(false);
                }
            }
            return None;
        },
    };
    let (t_width, q6) = match read_number(s, pos6) {
        Some(t) => t,
        None => {
            proof {
                if hyp {
                    assert(s@[fb6] == i32_text(w.width as int)[0]);
                    assert(is_digit(i32_text(w.width as int)[0]) || i32_text(w.width as int)[0] == '-');
                    assert(false);
                }
            }
            return None;
        },
    };
    let f_width = match parse_i32_text(t_width.as_str()) {
        Some(v) => v,
        None => {
            proof {
                if hyp {
                    lemma_number_pinned(s@, fb6, i32_text(w.width as int), t_width@, q6 as int);
                    assert(t_width@ == i32_text(w.width as int));
                    assert(exists|v: i32| t_width@ == i32_text(v as int));
                    assert(false);
                }
            }
            return None;
        },
    };
    proof {
        if hyp {
            lemma_number_pinned(s@, fb6, i32_text(w.width as int), t_width@, q6 as int);
        }
    }
    let pos7 = match expect_lit(s, q6, ",\"height\":") {
        Some(p) => p,
        None => {
            proof {
                if hyp {
                    assert(false);
                }
            }
            return None;
        },
    };
    let (t_height, q7) = match read_number(s, pos7) {
        Some(t) => t,
        None => {
            proof {
                if hyp {
                    assert(s@[fb7] == i32_text(w.height as int)[0]);
                    assert(is_digit(i32_text(w.height as int)[0]) || i32_text(w.height as int)[0] == '-');
                    assert(false);
                }
            }
            return None;
        },
    };
    let f_height = match parse_i32_text(t_height.as_str()) {
        Some(v) => v,
        None => {
            proof {
                if hyp {
                    lemma_number_pinned(s@, fb7, i32_text(w.height as int), t_height@, q7 as int);
                    assert(t_height@ == i32_text(w.height as int));
                    assert(exists|v: i32| t_height@ == i32_text(v as int));
                    assert(false);
                }
            }
            return None;
        },
    };
    proof {
        if hyp {
            lemma_number_pinned(s@, fb7, i32_text(w.height as int), t_height@, q7 as int);
        }
    }
    let pos8 = match expect_lit(s, q7, ",\"rotation\":") {
        Some(p) => p,
        None => {
            proof {
                if hyp {
                    assert(false);
                }
            }
            return None;
        },
    };
    let (f_rotation, q8) = match read_number(s, pos8) {
        Some(t) => t,
        None => {
            proof {
                if hyp {
                    assert(s@[fb8] == w.rotation@[0]);
                    assert(is_digit(w.rotation@[0]) || w.rotation@[0] == '-');
                    assert(false);
                }
            }
            return None;
        },
    };
    proof {
        if hyp {
            lemma_number_pinned(s@, fb8, w.rotation@, f_rotation@, q8 as int);
        }
    }
    let pos9 = match expect_lit(s, q8, ",\"scaleX\":") {
        Some(p) => p,
        None => {
            proof {
                if hyp {
                    assert(false);
                }
            }
            return None;
        },
    };
    let (f_scale_x, q9) = match read_number(s, pos9) {
        Some(t) => t,
        None => {
            proof {
                if hyp {
                    assert(s@[fb9] == w.scale_x@[0]);
                    assert(is_digit(w.scale_x@[0]) || w.scale_x@[0] == '-');
                    assert(false);
                }
            }
            return None;
        },
    };
    proof {
        if hyp {
            lemma_number_pinned(s@, fb9, w.scale_x@, f_scale_x@, q9 as int);
        }
    }
    let pos10 = match expect_lit(s, q9, ",\"scaleY\":") {
        Some(p) => p,
        None => {
            proof {
                if hyp {
                    assert(false);
                }
            }
            return None;
        },
    };
    let (f_scale_y, q10) = match read_number(s, pos10) {
        Some(t) => t,
        None => {
            proof {
                if hyp {
                    assert(s@[fb10] == w.scale_y@[0]);
                    assert(is_digit(w.scale_y@[0]) || w.scale_y@[0] == '-');
                    assert(false);
                }
            }
            return None;
        },
    };
    proof {
        if hyp {
            lemma_number_pinned(s@, fb10, w.scale_y@, f_scale_y@, q10 as int);
        }
    }
    let pos11 = match expect_lit(s, q10, "}}") {
        Some(p) => p,
        None => {
            proof {
                if hyp {
                    assert(false);
                }
            }
            return None;
        },
    };
    if pos11 != n {
        proof {
            if hyp {
                assert(pos11 == total);
                assert(false);
            }
        }
        return None;
    }
    let payload = CreatePlantActionPayload { user_id: f_user_id, id: f_id, layer_id: f_layer_id, plant_id: f_plant_id, x: f_x, y: f_y, width: f_width, height: f_height, rotation: f_rotation, scale_x: f_scale_x, scale_y: f_scale_y };
    proof {
        assert(crate::wire::wire_create_planting(payload) =~= s@);
        lemma_create_planting_recovery(s@, f_user_id@, q0 as int, f_id@, q1 as int, t_layer_id@, f_layer_id, q2 as int, t_plant_id@, f_plant_id, q3 as int, t_x@, f_x, q4 as int, t_y@, f_y, q5 as int, t_width@, f_width, q6 as int, t_height@, f_height, q7 as int, f_rotation@, q8 as int, f_scale_x@, q9 as int, f_scale_y@, q10 as int);
    }
    Some(Action::CreatePlanting(payload))
}

#[verifier::rlimit(100)]
#[verifier::spinoff_prover]
proof fn lemma_delete_planting_layout(s: Seq<char>, w: DeletePlantActionPayload, fb0: int, fe0: int, fb1: int, fe1: int, total: int)
    requires
        action_serializable(Action::DeletePlanting(w)),
        s == crate::wire::wire_delete_planting(w),
        fb0 == "{\"type\":\"DeletePlanting\",\"payload\":{\"userId\":\""@.len() as int,
        fe0 == fb0 + w.user_id@.len(),
        fb1 == fe0 + "\",\"id\":\""@.len() as int,
        fe1 == fb1 + w.id@.len(),
        total == fe1 + "\"}}"@.len() as int,
    ensures
        s.len() == total,
        0 < fb0,
        s.subrange(0, fb0) == "{\"type\":\"DeletePlanting\",\"payload\":{\"userId\":\""@,
        fb0 <= fe0 < total,
        forall|j: int| 0 <= j < w.user_id@.len() ==> s[fb0 + j] == #[trigger] w.user_id@[j],
        s[fe0] == '"',
        s.subrange(fe0, fb1) == "\",\"id\":\""@,
        fb1 <= fe1 < total,
        forall|j: int| 0 <= j < w.id@.len() ==> s[fb1 + j] == #[trigger] w.id@[j],
        s[fe1] == '"',
        s.subrange(fe1, total) == "\"}}"@,
{
    reveal_strlit("{\"type\":\"DeletePlanting\",\"payload\":{\"userId\":\"");
    reveal_strlit("\",\"id\":\"");
    reveal_strlit("\"}}");
    assert(s.subrange(0, fb0) =~= "{\"type\":\"DeletePlanting\",\"payload\":{\"userId\":\""@);
    assert forall|j: int| 0 <= j < w.user_id@.len() implies s[fb0 + j] == #[trigger] w.user_id@[j] by {}
    assert(s[fe0] == '"');
    assert(s.subrange(fe0, fb1) =~= "\",\"id\":\""@);
    assert forall|j: int| 0 <= j < w.id@.len() implies s[fb1 + j] == #[trigger] w.id@[j] by {}
    assert(s[fe1] == '"');
    assert(s.subrange(fe1, total) =~= "\"}}"@);
}

#[verifier::rlimit(100)]
#[verifier::spinoff_prover]
proof fn lemma_delete_planting_recovery(s: Seq<char>, f0: Seq<char>, q0: int, f1: Seq<char>, q1: int)
    requires
        ("{\"type\":\"DeletePlanting\",\"payload\":{\"userId\":\""@.len() as int) <= q0 < s.len(),
        f0 == s.subrange(("{\"type\":\"DeletePlanting\",\"payload\":{\"userId\":\""@.len() as int), q0),
        s[q0] == '"',
        text_ok(f0),
        (q0 + "\",\"id\":\""@.len() as int) <= q1 < s.len(),
        f1 == s.subrange((q0 + "\",\"id\":\""@.len() as int), q1),
        s[q1] == '"',
        text_ok(f1),
    ensures
        forall|p: DeletePlantActionPayload|
            #![trigger crate::wire::wire_delete_planting(p)]
            (action_serializable(Action::DeletePlanting(p)) && s == crate::wire::wire_delete_planting(p))
                ==> (f0 == p.user_id@ && f1 == p.id@),
{
    reveal_strlit("{\"type\":\"DeletePlanting\",\"payload\":{\"userId\":\"");
    reveal_strlit("\",\"id\":\"");
    reveal_strlit("\"}}");
    assert forall|p: DeletePlantActionPayload|
        (action_serializable(Action::DeletePlanting(p)) && s == crate::wire::wire_delete_planting(p)) implies (f0 == p.user_id@ && f1 == p.id@) by {
        let p_fb0 = "{\"type\":\"DeletePlanting\",\"payload\":{\"userId\":\""@.len() as int;
        let p_fe0 = p_fb0 + p.user_id@.len();
        let p_fb1 = p_fe0 + "\",\"id\":\""@.len() as int;
        let p_fe1 = p_fb1 + p.id@.len();
        let p_total = p_fe1 + "\"}}"@.len() as int;
        lemma_delete_planting_layout(s, p, p_fb0, p_fe0, p_fb1, p_fe1, p_total);
        lemma_text_pinned(s, p_fb0, p.user_id@, f0, q0);
        lemma_text_pinned(s, p_fb1, p.id@, f1, q1);
    }
}

#[verifier::rlimit(100)]
#[verifier::spinoff_prover]
fn decode_delete_planting(s: &str) -> (r: Option<Action>)
    ensures
        r is Some ==> action_serializable(r->0) && action_wire(r->0) == s@,
        r is Some ==> r->0 is DeletePlanting,
        forall|p: DeletePlantActionPayload|
            (action_serializable(Action::DeletePlanting(p)) && s@ == crate::wire::wire_delete_planting(p)) ==> (r is Some && action_matches(r->0, Action::DeletePlanting(p))),
{
    let n = s.unicode_len();
    let ghost hyp = exists|p: DeletePlantActionPayload| action_serializable(Action::DeletePlanting(p)) && s@ == crate::wire::wire_delete_planting(p);
    let ghost w = choose|p: DeletePlantActionPayload| action_serializable(Action::DeletePlanting(p)) && s@ == crate::wire::wire_delete_planting(p);
    let ghost fb0 = "{\"type\":\"DeletePlanting\",\"payload\":{\"userId\":\""@.len() as int;
    let ghost fe0 = fb0 + w.user_id@.len();
    let ghost fb1 = fe0 + "\",\"id\":\""@.len() as int;
    let ghost fe1 = fb1 + w.id@.len();
    let ghost total = fe1 + "\"}}"@.len() as int;
    proof {
        if hyp {
            lemma_delete_planting_layout(s@, w, fb0, fe0, fb1, fe1, total);
        }
    }
    let pos0 = match expect_lit(s, 0, "{\"type\":\"DeletePlanting\",\"payload\":{\"userId\":\"") {
        Some(p) => p,
        None => {
            proof {
                if hyp {
                    assert(false);
                }
            }
            return None;
        },
    };
    let (f_user_id, q0) = match read_text(s, pos0) {
        Some(t) => t,
        None => {
            proof {
                if hyp {
                    assert(text_run_until_quote(s@, pos0 as int, fe0)) by {
                        assert forall|j: int| fb0 <= j < fe0 implies text_char_ok(#[trigger] s@[j]) by {
                            assert(s@[j] == w.user_id@[j - fb0]);
                        }
                    }
                    assert(false);
                }
            }
            return None;
        },
    };
    proof {
        if hyp {
            lemma_text_pinned(s@, fb0, w.user_id@, f_user_id@, q0 as int);
        }
    }
    let pos1 = match expect_lit(s, q0, "\",\"id\":\"") {
        Some(p) => p,
        None => {
            proof {
                if hyp {
                    assert(false);
                }
            }
            return None;
        },
    };
    let (f_id, q1) = match read_text(s, pos1) {
        Some(t) => t,
        None => {
            proof {
                if hyp {
                    assert(text_run_until_quote(s@, pos1 as int, fe1)) by {
                        assert forall|j: int| fb1 <= j < fe1 implies text_char_ok(#[trigger] s@[j]) by {
                            assert(s@[j] == w.id@[j - fb1]);
                        }
                    }
                    assert(false);
                }
            }
            return None;
        },
    };
    proof {
        if hyp {
            lemma_text_pinned(s@, fb1, w.id@, f_id@, q1 as int);
        }
    }
    let pos2 = match expect_lit(s, q1, "\"}}") {
        Some(p) => p,
        None => {
            proof {
                if hyp {
                    assert(false);
                }
            }
            return None;
        },
    };
    if pos2 != n {
        proof {
            if hyp {
                assert(pos2 == total);
                assert(false);
            }
        }
        return None;
    }
    let payload = DeletePlantActionPayload { user_id: f_user_id, id: f_id };
    proof {
        assert(crate::wire::wire_delete_planting(payload) =~= s@);
        lemma_delete_planting_recovery(s@, f_user_id@, q0 as int, f_id@, q1 as int);
    }
    Some(Action::DeletePlanting(payload))
}

#[verifier::rlimit(100)]
#[verifier::spinoff_prover]
proof fn lemma_move_planting_layout(s: Seq<char>, w: MovePlantActionPayload, fb0: int, fe0: int, fb1: int, fe1: int, fb2: int, fe2: int, fb3: int, fe3: int, total: int)
    requires
        action_serializable(Action::MovePlanting(w)),
        s == crate::wire::wire_move_planting(w),
        fb0 == "{\"type\":\"MovePlanting\",\"payload\":{\"userId\":\""@.len() as int,
        fe0 == fb0 + w.user_id@.len(),
        fb1 == fe0 + "\",\"id\":\""@.len() as int,
        fe1 == fb1 + w.id@.len(),
        fb2 == fe1 + "\",\"x\":"@.len() as int,
        fe2 == fb2 + i32_text(w.x as int).len(),
        fb3 == fe2 + ",\"y\":"@.len() as int,
        fe3 == fb3 + i32_text(w.y as int).len(),
        total == fe3 + "}}"@.len() as int,
    ensures
        s.len() == total,
        0 < fb0,
        s.subrange(0, fb0) == "{\"type\":\"MovePlanting\",\"payload\":{\"userId\":\""@,
        fb0 <= fe0 < total,
        forall|j: int| 0 <= j < w.user_id@.len() ==> s[fb0 + j] == #[trigger] w.user_id@[j],
        s[fe0] == '"',
        s.subrange(fe0, fb1) == "\",\"id\":\""@,
        fb1 <= fe1 < total,
        forall|j: int| 0 <= j < w.id@.len() ==> s[fb1 + j] == #[trigger] w.id@[j],
        s[fe1] == '"',
        s.subrange(fe1, fb2) == "\",\"x\":"@,
        fb2 <= fe2 < total,
        forall|j: int| 0 <= j < i32_text(w.x as int).len() ==> s[fb2 + j] == #[trigger] i32_text(w.x as int)[j],
        !number_char_ok(s[fe2]),
        number_text_ok(i32_text(w.x as int)),
        s.subrange(fe2, fb3) == ",\"y\":"@,
        fb3 <= fe3 < total,
        forall|j: int| 0 <= j < i32_text(w.y as int).len() ==> s[fb3 + j] == #[trigger] i32_text(w.y as int)[j],
        !number_char_ok(s[fe3]),
        number_text_ok(i32_text(w.y as int)),
        s.subrange(fe3, total) == "}}"@,
{
    reveal_strlit("{\"type\":\"MovePlanting\",\"payload\":{\"userId\":\"");
    reveal_strlit("\",\"id\":\"");
    reveal_strlit("\",\"x\":");
    reveal_strlit(",\"y\":");
    reveal_strlit("}}");
    assert(s.subrange(0, fb0) =~= "{\"type\":\"MovePlanting\",\"payload\":{\"userId\":\""@);
    assert forall|j: int| 0 <= j < w.user_id@.len() implies s[fb0 + j] == #[trigger] w.user_id@[j] by {}
    assert(s[fe0] == '"');
    assert(s.subrange(fe0, fb1) =~= "\",\"id\":\""@);
    assert forall|j: int| 0 <= j < w.id@.len() implies s[fb1 + j] == #[trigger] w.id@[j] by {}
    assert(s[fe1] == '"');
    assert(s.subrange(fe1, fb2) =~= "\",\"x\":"@);
    assert forall|j: int| 0 <= j < i32_text(w.x as int).len() implies s[fb2 + j] == #[trigger] i32_text(w.x as int)[j] by {}
    assert(s[fe2] == ',');
    assert(!number_char_ok(s[fe2]));
    lemma_i32_text_number_ok(w.x as int);
    assert(s.subrange(fe2, fb3) =~= ",\"y\":"@);
    assert forall|j: int| 0 <= j < i32_text(w.y as int).len() implies s[fb3 + j] == #[trigger] i32_text(w.y as int)[j] by {}
    assert(s[fe3] == '}');
    assert(!number_char_ok(s[fe3]));
    lemma_i32_text_number_ok(w.y as int);
    assert(s.subrange(fe3, total) =~= "}}"@);
}

#[verifier::rlimit(100)]
#[verifier::spinoff_prover]
proof fn lemma_move_planting_recovery(s: Seq<char>, f0: Seq<char>, q0: int, f1: Seq<char>, q1: int, t2: Seq<char>, v2: i32, q2: int, t3: Seq<char>, v3: i32, q3: int)
    requires
        ("{\"type\":\"MovePlanting\",\"payload\":{\"userId\":\""@.len() as int) <= q0 < s.len(),
        f0 == s.subrange(("{\"type\":\"MovePlanting\",\"payload\":{\"userId\":\""@.len() as int), q0),
        s[q0] == '"',
        text_ok(f0),
        (q0 + "\",\"id\":\""@.len() as int) <= q1 < s.len(),
        f1 == s.subrange((q0 + "\",\"id\":\""@.len() as int), q1),
        s[q1] == '"',
        text_ok(f1),
        (q1 + "\",\"x\":"@.len() as int) < q2 <= s.len(),
        t2 == s.subrange((q1 + "\",\"x\":"@.len() as int), q2),
        number_text_ok(t2),
        q2 == s.len() || !number_char_ok(s[q2]),
        t2 == i32_text(v2 as int),
        (q2 + ",\"y\":"@.len() as int) < q3 <= s.len(),
        t3 == s.subrange((q2 + ",\"y\":"@.len() as int), q3),
        number_text_ok(t3),
        q3 == s.len() || !number_char_ok(s[q3]),
        t3 == i32_text(v3 as int),
    ensures
        forall|p: MovePlantActionPayload|
            #![trigger crate::wire::wire_move_planting(p)]
            (action_serializable(Action::MovePlanting(p)) && s == crate::wire::wire_move_planting(p))
                ==> (f0 == p.user_id@ && f1 == p.id@ && v2 == p.x && v3 == p.y),
{
    reveal_strlit("{\"type\":\"MovePlanting\",\"payload\":{\"userId\":\"");
    reveal_strlit("\",\"id\":\"");
    reveal_strlit("\",\"x\":");
    reveal_strlit(",\"y\":");
    reveal_strlit("}}");
    assert forall|p: MovePlantActionPayload|
        (action_serializable(Action::MovePlanting(p)) && s == crate::wire::wire_move_planting(p)) implies (f0 == p.user_id@ && f1 == p.id@ && v2 == p.x && v3 == p.y) by {
        let p_fb0 = "{\"type\":\"MovePlanting\",\"payload\":{\"userId\":\""@.len() as int;
        let p_fe0 = p_fb0 + p.user_id@.len();
        let p_fb1 = p_fe0 + "\",\"id\":\""@.len() as int;
        let p_fe1 = p_fb1 + p.id@.len();
        let p_fb2 = p_fe1 + "\",\"x\":"@.len() as int;
        let p_fe2 = p_fb2 + i32_text(p.x as int).len();
        let p_fb3 = p_fe2 + ",\"y\":"@.len() as int;
        let p_fe3 = p_fb3 + i32_text(p.y as int).len();
        let p_total = p_fe3 + "}}"@.len() as int;
        lemma_move_planting_layout(s, p, p_fb0, p_fe0, p_fb1, p_fe1, p_fb2, p_fe2, p_fb3, p_fe3, p_total);
        lemma_text_pinned(s, p_fb0, p.user_id@, f0, q0);
        lemma_text_pinned(s, p_fb1, p.id@, f1, q1);
        lemma_number_pinned(s, p_fb2, i32_text(p.x as int), t2, q2);
        lemma_i32_text_inj(v2 as int, p.x as int);
        lemma_number_pinned(s, p_fb3, i32_text(p.y as int), t3, q3);
        lemma_i32_text_inj(v3 as int, p.y as int);
    }
}

#[verifier::rlimit(100)]
#[verifier::spinoff_prover]
fn decode_move_planting(s: &str) -> (r: Option<Action>)
    ensures
        r is Some ==> action_serializable(r->0) && action_wire(r->0) == s@,
        r is Some ==> r->0 is MovePlanting,
        forall|p: MovePlantActionPayload|
            (action_serializable(Action::MovePlanting(p)) && s@ == crate::wire::wire_move_planting(p)) ==> (r is Some && action_matches(r->0, Action::MovePlanting(p))),
{
    let n = s.unicode_len();
    let ghost hyp = exists|p: MovePlantActionPayload| action_serializable(Action::MovePlanting(p)) && s@ == crate::wire::wire_move_planting(p);
    let ghost w = choose|p: MovePlantActionPayload| action_serializable(Action::MovePlanting(p)) && s@ == crate::wire::wire_move_planting(p);
    let ghost fb0 = "{\"type\":\"MovePlanting\",\"payload\":{\"userId\":\""@.len() as int;
    let ghost fe0 = fb0 + w.user_id@.len();
    let ghost fb1 = fe0 + "\",\"id\":\""@.len() as int;
    let ghost fe1 = fb1 + w.id@.len();
    let ghost fb2 = fe1 + "\",\"x\":"@.len() as int;
    let ghost fe2 = fb2 + i32_text(w.x as int).len();
    let ghost fb3 = fe2 + ",\"y\":"@.len() as int;
    let ghost fe3 = fb3 + i32_text(w.y as int).len();
    let ghost total = fe3 + "}}"@.len() as int;
    proof {
        if hyp {
            lemma_move_planting_layout(s@, w, fb0, fe0, fb1, fe1, fb2, fe2, fb3, fe3, total);
        }
    }
    let pos0 = match expect_lit(s, 0, "{\"type\":\"MovePlanting\",\"payload\":{\"userId\":\"") {
        Some(p) => p,
        None => {
            proof {
                if hyp {
                    assert(false);
                }
            }
            return None;
        },
    };
    let (f_user_id, q0) = match read_text(s, pos0) {
        Some(t) => t,
        None => {
            proof {
                if hyp {
                    assert(text_run_until_quote(s@, pos0 as int, fe0)) by {
                        assert forall|j: int| fb0 <= j < fe0 implies text_char_ok(#[trigger] s@[j]) by {
                            assert(s@[j] == w.user_id@[j - fb0]);
                        }
                    }
                    assert(false);
                }
            }
            return None;
        },
    };
    proof {
        if hyp {
            lemma_text_pinned(s@, fb0, w.user_id@, f_user_id@, q0 as int);
        }
    }
    let pos1 = match expect_lit(s, q0, "\",\"id\":\"") {
        Some(p) => p,
        None => {
            proof {
                if hyp {
                    assert(false);
                }
            }
            return None;
        },
    };
    let (f_id, q1) = match read_text(s, pos1) {
        Some(t) => t,
        None => {
            proof {
                if hyp {
                    assert(text_run_until_quote(s@, pos1 as int, fe1)) by {
                        assert forall|j: int| fb1 <= j < fe1 implies text_char_ok(#[trigger] s@[j]) by {
                            assert(s@[j] == w.id@[j - fb1]);
                        }
                    }
                    assert(false);
                }
            }
            return None;
        },
    };
    proof {
        if hyp {
            lemma_text_pinned(s@, fb1, w.id@, f_id@, q1 as int);
        }
    }
    let pos2 = match expect_lit(s, q1, "\",\"x\":") {
        Some(p) => p,
        None => {
            proof {
                if hyp {
                    assert(false);
                }
            }
            return None;
        },
    };
    let (t_x, q2) = match read_number(s, pos2) {
        Some(t) => t,
        None => {
            proof {
                if hyp {
                    assert(s@[fb2] == i32_text(w.x as int)[0]);
                    assert(is_digit(i32_text(w.x as int)[0]) || i32_text(w.x as int)[0] == '-');
                    assert(false);
                }
            }
            return None;
        },
    };
    let f_x = match parse_i32_text(t_x.as_str()) {
        Some(v) => v,
        None => {
            proof {
                if hyp {
                    lemma_number_pinned(s@, fb2, i32_text(w.x as int), t_x@, q2 as int);
                    assert(t_x@ == i32_text(w.x as int));
                    assert(exists|v: i32| t_x@ == i32_text(v as int));
                    assert(false);
                }
            }
            return None;
        },
    };
    proof {
        if hyp {
            lemma_number_pinned(s@, fb2, i32_text(w.x as int), t_x@, q2 as int);
        }
    }
    let pos3 = match expect_lit(s, q2, ",\"y\":") {
        Some(p) => p,
        None => {
            proof {
                if hyp {
                    assert(false);
                }
            }
            return None;
        },
    };
    let (t_y, q3) = match read_number(s, pos3) {
        Some(t) => t,
        None => {
            proof {
                if hyp {
                    assert(s@[fb3] == i32_text(w.y as int)[0]);
                    assert(is_digit(i32_text(w.y as int)[0]) || i32_text(w.y as int)[0] == '-');
                    assert(false);
                }
            }
            return None;
        },
    };
    let f_y = match parse_i32_text(t_y.as_str()) {
        Some(v) => v,
        None => {
            proof {
                if hyp {
                    lemma_number_pinned(s@, fb3, i32_text(w.y as int), t_y@, q3 as int);
                    assert(t_y@ == i32_text(w.y as int));
                    assert(exists|v: i32| t_y@ == i32_text(v as int));
                    assert(false);
                }
            }
            return None;
        },
    };
    proof {
        if hyp {
            lemma_number_pinned(s@, fb3, i32_text(w.y as int), t_y@, q3 as int);
        }
    }
    let pos4 = match expect_lit(s, q3, "}}") {
        Some(p) => p,
        None => {
            proof {
                if hyp {
                    assert(false);
                }
            }
            return None;
        },
    };
    if pos4 != n {
        proof {
            if hyp {
                assert(pos4 == total);
                assert(false);
            }
        }
        return None;
    }
    let payload = MovePlantActionPayload { user_id: f_user_id, id: f_id, x: f_x, y: f_y };
    proof {
        assert(crate::wire::wire_move_planting(payload) =~= s@);
        lemma_move_planting_recovery(s@, f_user_id@, q0 as int, f_id@, q1 as int, t_x@, f_x, q2 as int, t_y@, f_y, q3 as int);
    }
    Some(Action::MovePlanting(payload))
}

#[verifier::rlimit(100)]
#[verifier::spinoff_prover]
proof fn lemma_transform_planting_layout(s: Seq<char>, w: TransformPlantActionPayload, fb0: int, fe0: int, fb1: int, fe1: int, fb2: int, fe2: int, fb3: int, fe3: int, fb4: int, fe4: int, fb5: int, fe5: int, fb6: int, fe6: int, total: int)
    requires
        action_serializable(Action::TransformPlanting(w)),
        s == crate::wire::wire_transform_planting(w),
        fb0 == "{\"type\":\"TransformPlanting\",\"payload\":{\"userId\":\""@.len() as int,
        fe0 == fb0 + w.user_id@.len(),
        fb1 == fe0 + "\",\"id\":\""@.len() as int,
        fe1 == fb1 + w.id@.len(),
        fb2 == fe1 + "\",\"x\":"@.len() as int,
        fe2 == fb2 + i32_text(w.x as int).len(),
        fb3 == fe2 + ",\"y\":"@.len() as int,
        fe3 == fb3 + i32_text(w.y as int).len(),
        fb4 == fe3 + ",\"rotation\":"@.len() as int,
        fe4 == fb4 + w.rotation@.len(),
        fb5 == fe4 + ",\"scaleX\":"@.len() as int,
        fe5 == fb5 + w.scale_x@.len(),
        fb6 == fe5 + ",\"scaleY\":"@.len() as int,
        fe6 == fb6 + w.scale_y@.len(),
        total == fe6 + "}}"@.len() as int,
    ensures
        s.len() == total,
        0 < fb0,
        s.subrange(0, fb0) == "{\"type\":\"TransformPlanting\",\"payload\":{\"userId\":\""@,
        fb0 <= fe0 < total,
        forall|j: int| 0 <= j < w.user_id@.len() ==> s[fb0 + j] == #[trigger] w.user_id@[j],
        s[fe0] == '"',
        s.subrange(fe0, fb1) == "\",\"id\":\""@,
        fb1 <= fe1 < total,
        forall|j: int| 0 <= j < w.id@.len() ==> s[fb1 + j] == #[trigger] w.id@[j],
        s[fe1] == '"',
        s.subrange(fe1, fb2) == "\",\"x\":"@,
        fb2 <= fe2 < total,
        forall|j: int| 0 <= j < i32_text(w.x as int).len() ==> s[fb2 + j] == #[trigger] i32_text(w.x as int)[j],
        !number_char_ok(s[fe2]),
        number_text_ok(i32_text(w.x as int)),
        s.subrange(fe2, fb3) == ",\"y\":"@,
        fb3 <= fe3 < total,
        forall|j: int| 0 <= j < i32_text(w.y as int).len() ==> s[fb3 + j] == #[trigger] i32_text(w.y as int)[j],
        !number_char_ok(s[fe3]),
        number_text_ok(i32_text(w.y as int)),
        s.subrange(fe3, fb4) == ",\"rotation\":"@,
        fb4 <= fe4 < total,
        forall|j: int| 0 <= j < w.rotation@.len() ==> s[fb4 + j] == #[trigger] w.rotation@[j],
        !number_char_ok(s[fe4]),
        s.subrange(fe4, fb5) == ",\"scaleX\":"@,
        fb5 <= fe5 < total,
        forall|j: int| 0 <= j < w.scale_x@.len() ==> s[fb5 + j] == #[trigger] w.scale_x@[j],
        !number_char_ok(s[fe5]),
        s.subrange(fe5, fb6) == ",\"scaleY\":"@,
        fb6 <= fe6 < total,
        forall|j: int| 0 <= j < w.scale_y@.len() ==> s[fb6 + j] == #[trigger] w.scale_y@[j],
        !number_char_ok(s[fe6]),
        s.subrange(fe6, total) == "}}"@,
{
    reveal_strlit("{\"type\":\"TransformPlanting\",\"payload\":{\"userId\":\"");
    reveal_strlit("\",\"id\":\"");
    reveal_strlit("\",\"x\":");
    reveal_strlit(",\"y\":");
    reveal_strlit(",\"rotation\":");
    reveal_strlit(",\"scaleX\":");
    reveal_strlit(",\"scaleY\":");
    reveal_strlit("}}");
    assert(s.subrange(0, fb0) =~= "{\"type\":\"TransformPlanting\",\"payload\":{\"userId\":\""@);
    assert forall|j: int| 0 <= j < w.user_id@.len() implies s[fb0 + j] == #[trigger] w.user_id@[j] by {}
    assert(s[fe0] == '"');
    assert(s.subrange(fe0, fb1) =~= "\",\"id\":\""@);
    assert forall|j: int| 0 <= j < w.id@.len() implies s[fb1 + j] == #[trigger] w.id@[j] by {}
    assert(s[fe1] == '"');
    assert(s.subrange(fe1, fb2) =~= "\",\"x\":"@);
    assert forall|j: int| 0 <= j < i32_text(w.x as int).len() implies s[fb2 + j] == #[trigger] i32_text(w.x as int)[j] by {}
    assert(s[fe2] == ',');
    assert(!number_char_ok(s[fe2]));
    lemma_i32_text_number_ok(w.x as int);
    assert(s.subrange(fe2, fb3) =~= ",\"y\":"@);
    assert forall|j: int| 0 <= j < i32_text(w.y as int).len() implies s[fb3 + j] == #[trigger] i32_text(w.y as int)[j] by {}
    assert(s[fe3] == ',');
    assert(!number_char_ok(s[fe3]));
    lemma_i32_text_number_ok(w.y as int);
    assert(s.subrange(fe3, fb4) =~= ",\"rotation\":"@);
    assert forall|j: int| 0 <= j < w.rotation@.len() implies s[fb4 + j] == #[trigger] w.rotation@[j] by {}
    assert(s[fe4] == ',');
    assert(!number_char_ok(s[fe4]));
    assert(s.subrange(fe4, fb5) =~= ",\"scaleX\":"@);
    assert forall|j: int| 0 <= j < w.scale_x@.len() implies s[fb5 + j] == #[trigger] w.scale_x@[j] by {}
    assert(s[fe5] == ',');
    assert(!number_char_ok(s[fe5]));
    assert(s.subrange(fe5, fb6) =~= ",\"scaleY\":"@);
    assert forall|j: int| 0 <= j < w.scale_y@.len() implies s[fb6 + j] == #[trigger] w.scale_y@[j] by {}
    assert(s[fe6] == '}');
    assert(!number_char_ok(s[fe6]));
    assert(s.subrange(fe6, total) =~= "}}"@);
}

#[verifier::rlimit(100)]
#[verifier::spinoff_prover]
proof fn lemma_transform_planting_recovery(s: Seq<char>, f0: Seq<char>, q0: int, f1: Seq<char>, q1: int, t2: Seq<char>, v2: i32, q2: int, t3: Seq<char>, v3: i32, q3: int, f4: Seq<char>, q4: int, f5: Seq<char>, q5: int, f6: Seq<char>, q6: int)
    requires
        ("{\"type\":\"TransformPlanting\",\"payload\":{\"userId\":\""@.len() as int) <= q0 < s.len(),
        f0 == s.subrange(("{\"type\":\"TransformPlanting\",\"payload\":{\"userId\":\""@.len() as int), q0),
        s[q0] == '"',
        text_ok(f0),
        (q0 + "\",\"id\":\""@.len() as int) <= q1 < s.len(),
        f1 == s.subrange((q0 + "\",\"id\":\""@.len() as int), q1),
        s[q1] == '"',
        text_ok(f1),
        (q1 + "\",\"x\":"@.len() as int) < q2 <= s.len(),
        t2 == s.subrange((q1 + "\",\"x\":"@.len() as int), q2),
        number_text_ok(t2),
        q2 == s.len() || !number_char_ok(s[q2]),
        t2 == i32_text(v2 as int),
        (q2 + ",\"y\":"@.len() as int) < q3 <= s.len(),
        t3 == s.subrange((q2 + ",\"y\":"@.len() as int), q3),
        number_text_ok(t3),
        q3 == s.len() || !number_char_ok(s[q3]),
        t3 == i32_text(v3 as int),
        (q3 + ",\"rotation\":"@.len() as int) < q4 <= s.len(),
        f4 == s.subrange((q3 + ",\"rotation\":"@.len() as int), q4),
        number_text_ok(f4),
        q4 == s.len() || !number_char_ok(s[q4]),
        (q4 + ",\"scaleX\":"@.len() as int) < q5 <= s.len(),
        f5 == s.subrange((q4 + ",\"scaleX\":"@.len() as int), q5),
        number_text_ok(f5),
        q5 == s.len() || !number_char_ok(s[q5]),
        (q5 + ",\"scaleY\":"@.len() as int) < q6 <= s.len(),
        f6 == s.subrange((q5 + ",\"scaleY\":"@.len() as int), q6),
        number_text_ok(f6),
        q6 == s.len() || !number_char_ok(s[q6]),
    ensures
        forall|p: TransformPlantActionPayload|
            #![trigger crate::wire::wire_transform_planting(p)]
            (action_serializable(Action::TransformPlanting(p)) && s == crate::wire::wire_transform_planting(p))
                ==> (f0 == p.user_id@ && f1 == p.id@ && v2 == p.x && v3 == p.y && f4 == p.rotation@ && f5 == p.scale_x@ && f6 == p.scale_y@),
{
    reveal_strlit("{\"type\":\"TransformPlanting\",\"payload\":{\"userId\":\"");
    reveal_strlit("\",\"id\":\"");
    reveal_strlit("\",\"x\":");
    reveal_strlit(",\"y\":");
    reveal_strlit(",\"rotation\":");
    reveal_strlit(",\"scaleX\":");
    reveal_strlit(",\"scaleY\":");
    reveal_strlit("}}");
    assert forall|p: TransformPlantActionPayload|
        (action_serializable(Action::TransformPlanting(p)) && s == crate::wire::wire_transform_planting(p)) implies (f0 == p.user_id@ && f1 == p.id@ && v2 == p.x && v3 == p.y && f4 == p.rotation@ && f5 == p.scale_x@ && f6 == p.scale_y@) by {
        let p_fb0 = "{\"type\":\"TransformPlanting\",\"payload\":{\"userId\":\""@.len() as int;
        let p_fe0 = p_fb0 + p.user_id@.len();
        let p_fb1 = p_fe0 + "\",\"id\":\""@.len() as int;
        let p_fe1 = p_fb1 + p.id@.len();
        let p_fb2 = p_fe1 + "\",\"x\":"@.len() as int;
        let p_fe2 = p_fb2 + i32_text(p.x as int).len();
        let p_fb3 = p_fe2 + ",\"y\":"@.len() as int;
        let p_fe3 = p_fb3 + i32_text(p.y as int).len();
        let p_fb4 = p_fe3 + ",\"rotation\":"@.len() as int;
        let p_fe4 = p_fb4 + p.rotation@.len();
        let p_fb5 = p_fe4 + ",\"scaleX\":"@.len() as int;
        let p_fe5 = p_fb5 + p.scale_x@.len();
        let p_fb6 = p_fe5 + ",\"scaleY\":"@.len() as int;
        let p_fe6 = p_fb6 + p.scale_y@.len();
        let p_total = p_fe6 + "}}"@.len() as int;
        lemma_transform_planting_layout(s, p, p_fb0, p_fe0, p_fb1, p_fe1, p_fb2, p_fe2, p_fb3, p_fe3, p_fb4, p_fe4, p_fb5, p_fe5, p_fb6, p_fe6, p_total);
        lemma_text_pinned(s, p_fb0, p.user_id@, f0, q0);
        lemma_text_pinned(s, p_fb1, p.id@, f1, q1);
        lemma_number_pinned(s, p_fb2, i32_text(p.x as int), t2, q2);
        lemma_i32_text_inj(v2 as int, p.x as int);
        lemma_number_pinned(s, p_fb3, i32_text(p.y as int), t3, q3);
        lemma_i32_text_inj(v3 as int, p.y as int);
        lemma_number_pinned(s, p_fb4, p.rotation@, f4, q4);
        lemma_number_pinned(s, p_fb5, p.scale_x@, f5, q5);
        lemma_number_pinned(s, p_fb6, p.scale_y@, f6, q6);
    }
}

#[verifier::rlimit(100)]
#[verifier::spinoff_prover]
fn decode_transform_planting(s: &str) -> (r: Option<Action>)
    ensures
        r is Some ==> action_serializable(r->0) && action_wire(r->0) == s@,
        r is Some ==> r->0 is TransformPlanting,
        forall|p: TransformPlantActionPayload|
            (action_serializable(Action::TransformPlanting(p)) && s@ == crate::wire::wire_transform_planting(p)) ==> (r is Some && action_matches(r->0, Action::TransformPlanting(p))),
{
    let n = s.unicode_len();
    let ghost hyp = exists|p: TransformPlantActionPayload| action_serializable(Action::TransformPlanting(p)) && s@ == crate::wire::wire_transform_planting(p);
    let ghost w = choose|p: TransformPlantActionPayload| action_serializable(Action::TransformPlanting(p)) && s@ == crate::wire::wire_transform_planting(p);
    let ghost fb0 = "{\"type\":\"TransformPlanting\",\"payload\":{\"userId\":\""@.len() as int;
    let ghost fe0 = fb0 + w.user_id@.len();
    let ghost fb1 = fe0 + "\",\"id\":\""@.len() as int;
    let ghost fe1 = fb1 + w.id@.len();
    let ghost fb2 = fe1 + "\",\"x\":"@.len() as int;
    let ghost fe2 = fb2 + i32_text(w.x as int).len();
    let ghost fb3 = fe2 + ",\"y\":"@.len() as int;
    let ghost fe3 = fb3 + i32_text(w.y as int).len();
    let ghost fb4 = fe3 + ",\"rotation\":"@.len() as int;
    let ghost fe4 = fb4 + w.rotation@.len();
    let ghost fb5 = fe4 + ",\"scaleX\":"@.len() as int;
    let ghost fe5 = fb5 + w.scale_x@.len();
    let ghost fb6 = fe5 + ",\"scaleY\":"@.len() as int;
    let ghost fe6 = fb6 + w.scale_y@.len();
    let ghost total = fe6 + "}}"@.len() as int;
    proof {
        if hyp {
            lemma_transform_planting_layout(s@, w, fb0, fe0, fb1, fe1, fb2, fe2, fb3, fe3, fb4, fe4, fb5, fe5, fb6, fe6, total);
        }
    }
    let pos0 = match expect_lit(s, 0, "{\"type\":\"TransformPlanting\",\"payload\":{\"userId\":\"") {
        Some(p) => p,
        None => {
            proof {
                if hyp {
                    assert(false);
                }
            }
            return None;
        },
    };
    let (f_user_id, q0) = match read_text(s, pos0) {
        Some(t) => t,
        None => {
            proof {
                if hyp {
                    assert(text_run_until_quote(s@, pos0 as int, fe0)) by {
                        assert forall|j: int| fb0 <= j < fe0 implies text_char_ok(#[trigger] s@[j]) by {
                            assert(s@[j] == w.user_id@[j - fb0]);
                        }
                    }
                    assert(false);
                }
            }
            return None;
        },
    };
    proof {
        if hyp {
            lemma_text_pinned(s@, fb0, w.user_id@, f_user_id@, q0 as int);
        }
    }
    let pos1 = match expect_lit(s, q0, "\",\"id\":\"") {
        Some(p) => p,
        None => {
            proof {
                if hyp {
                    assert(false);
                }
            }
            return None;
        },
    };
    let (f_id, q1) = match read_text(s, pos1) {
        Some(t) => t,
        None => {
            proof {
                if hyp {
                    assert(text_run_until_quote(s@, pos1 as int, fe1)) by {
                        assert forall|j: int| fb1 <= j < fe1 implies text_char_ok(#[trigger] s@[j]) by {
                            assert(s@[j] == w.id@[j - fb1]);
                        }
                    }
                    assert(false);
                }
            }
            return None;
        },
    };
    proof {
        if hyp {
            lemma_text_pinned(s@, fb1, w.id@, f_id@, q1 as int);
        }
    }
    let pos2 = match expect_lit(s, q1, "\",\"x\":") {
        Some(p) => p,
        None => {
            proof {
                if hyp {
                    assert(false);
                }
            }
            return None;
        },
    };
    let (t_x, q2) = match read_number(s, pos2) {
        Some(t) => t,
        None => {
            proof {
                if hyp {
                    assert(s@[fb2] == i32_text(w.x as int)[0]);
                    assert(is_digit(i32_text(w.x as int)[0]) || i32_text(w.x as int)[0] == '-');
                    assert(false);
                }
            }
            return None;
        },
    };
    let f_x = match parse_i32_text(t_x.as_str()) {
        Some(v) => v,
        None => {
            proof {
                if hyp {
                    lemma_number_pinned(s@, fb2, i32_text(w.x as int), t_x@, q2 as int);
                    assert(t_x@ == i32_text(w.x as int));
                    assert(exists|v: i32| t_x@ == i32_text(v as int));
                    assert(false);
                }
            }
            return None;
        },
    };
    proof {
        if hyp {
            lemma_number_pinned(s@, fb2, i32_text(w.x as int), t_x@, q2 as int);
        }
    }
    let pos3 = match expect_lit(s, q2, ",\"y\":") {
        Some(p) => p,
        None => {
            proof {
                if hyp {
                    assert(false);
                }
            }
            return None;
        },
    };
    let (t_y, q3) = match read_number(s, pos3) {
        Some(t) => t,
        None => {
            proof {
                if hyp {
                    assert(s@[fb3] == i32_text(w.y as int)[0]);
                    assert(is_digit(i32_text(w.y as int)[0]) || i32_text(w.y as int)[0] == '-');
                    assert(false);
                }
            }
            return None;
        },
    };
    let f_y = match parse_i32_text(t_y.as_str()) {
        Some(v) => v,
        None => {
            proof {
                if hyp {
                    lemma_number_pinned(s@, fb3, i32_text(w.y as int), t_y@, q3 as int);
                    assert(t_y@ == i32_text(w.y as int));
                    assert(exists|v: i32| t_y@ == i32_text(v as int));
                    assert(false);
                }
            }
            return None;
        },
    };
    proof {
        if hyp {
            lemma_number_pinned(s@, fb3, i32_text(w.y as int), t_y@, q3 as int);
        }
    }
    let pos4 = match expect_lit(s, q3, ",\"rotation\":") {
        Some(p) => p,
        None => {
            proof {
                if hyp {
                    assert(false);
                }
            }
            return None;
        },
    };
    let (f_rotation, q4) = match read_number(s, pos4) {
        Some(t) => t,
        None => {
            proof {
                if hyp {
                    assert(s@[fb4] == w.rotation@[0]);
                    assert(is_digit(w.rotation@[0]) || w.rotation@[0] == '-');
                    assert(false);
                }
            }
            return None;
        },
    };
    proof {
        if hyp {
            lemma_number_pinned(s@, fb4, w.rotation@, f_rotation@, q4 as int);
        }
    }
    let pos5 = match expect_lit(s, q4, ",\"scaleX\":") {
        Some(p) => p,
        None => {
            proof {
                if hyp {
                    assert(false);
                }
            }
            return None;
        },
    };
    let (f_scale_x, q5) = match read_number(s, pos5) {
        Some(t) => t,
        None => {
            proof {
                if hyp {
                    assert(s@[fb5] == w.scale_x@[0]);
                    assert(is_digit(w.scale_x@[0]) || w.scale_x@[0] == '-');
                    assert(false);
                }
            }
            return None;
        },
    };
    proof {
        if hyp {
            lemma_number_pinned(s@, fb5, w.scale_x@, f_scale_x@, q5 as int);
        }
    }
    let pos6 = match expect_lit(s, q5, ",\"scaleY\":") {
        Some(p) => p,
        None => {
            proof {
                if hyp {
                    assert(false);
                }
            }
            return None;
        },
    };
    let (f_scale_y, q6) = match read_number(s, pos6) {
        Some(t) => t,
        None => {
            proof {
                if hyp {
                    assert(s@[fb6] == w.scale_y@[0]);
                    assert(is_digit(w.scale_y@[0]) || w.scale_y@[0] == '-');
                    assert(false);
                }
            }
            return None;
        },
    };
    proof {
        if hyp {
            lemma_number_pinned(s@, fb6, w.scale_y@, f_scale_y@, q6 as int);
        }
    }
    let pos7 = match expect_lit(s, q6, "}}") {
        Some(p) => p,
        None => {
            proof {
                if hyp {
                    assert(false);
                }
            }
            return None;
        },
    };
    if pos7 != n {
        proof {
            if hyp {
                assert(pos7 == total);
                assert(false);
            }
        }
        return None;
    }
    let payload = TransformPlantActionPayload { user_id: f_user_id, id: f_id, x: f_x, y: f_y, rotation: f_rotation, scale_x: f_scale_x, scale_y: f_scale_y };
    proof {
        assert(crate::wire::wire_transform_planting(payload) =~= s@);
        lemma_transform_planting_recovery(s@, f_user_id@, q0 as int, f_id@, q1 as int, t_x@, f_x, q2 as int, t_y@, f_y, q3 as int, f_rotation@, q4 as int, f_scale_x@, q5 as int, f_scale_y@, q6 as int);
    }
    Some(Action::TransformPlanting(payload))
}

#[verifier::rlimit(100)]
#[verifier::spinoff_prover]
proof fn lemma_create_base_layer_image_layout(s: Seq<char>, w: CreateBaseLayerImageActionPayload, fb0: int, fe0: int, fb1: int, fe1: int, fb2: int, fe2: int, fb3: int, fe3: int, fb4: int, fe4: int, fb5: int, fe5: int, total: int)
    requires
        action_serializable(Action::CreateBaseLayerImage(w)),
        s == crate::wire::wire_create_base_layer_image(w),
        fb0 == "{\"type\":\"CreateBaseLayerImage\",\"payload\":{\"userId\":\""@.len() as int,
        fe0 == fb0 + w.user_id@.len(),
        fb1 == fe0 + "\",\"id\":\""@.len() as int,
        fe1 == fb1 + w.id@.len(),
        fb2 == fe1 + "\",\"layerId\":"@.len() as int,
        fe2 == fb2 + i32_text(w.layer_id as int).len(),
        fb3 == fe2 + ",\"rotation\":"@.len() as int,
        fe3 == fb3 + w.rotation@.len(),
        fb4 == fe3 + ",\"scale\":"@.len() as int,
        fe4 == fb4 + w.scale@.len(),
        fb5 == fe4 + ",\"path\":\""@.len() as int,
        fe5 == fb5 + w.path@.len(),
        total == fe5 + "\"}}"@.len() as int,
    ensures
        s.len() == total,
        0 < fb0,
        s.subrange(0, fb0) == "{\"type\":\"CreateBaseLayerImage\",\"payload\":{\"userId\":\""@,
        fb0 <= fe0 < total,
        forall|j: int| 0 <= j < w.user_id@.len() ==> s[fb0 + j] == #[trigger] w.user_id@[j],
        s[fe0] == '"',
        s.subrange(fe0, fb1) == "\",\"id\":\""@,
        fb1 <= fe1 < total,
        forall|j: int| 0 <= j < w.id@.len() ==> s[fb1 + j] == #[trigger] w.id@[j],
        s[fe1] == '"',
        s.subrange(fe1, fb2) == "\",\"layerId\":"@,
        fb2 <= fe2 < total,
        forall|j: int| 0 <= j < i32_text(w.layer_id as int).len() ==> s[fb2 + j] == #[trigger] i32_text(w.layer_id as int)[j],
        !number_char_ok(s[fe2]),
        number_text_ok(i32_text(w.layer_id as int)),
        s.subrange(fe2, fb3) == ",\"rotation\":"@,
        fb3 <= fe3 < total,
        forall|j: int| 0 <= j < w.rotation@.len() ==> s[fb3 + j] == #[trigger] w.rotation@[j],
        !number_char_ok(s[fe3]),
        s.subrange(fe3, fb4) == ",\"scale\":"@,
        fb4 <= fe4 < total,
        forall|j: int| 0 <= j < w.scale@.len() ==> s[fb4 + j] == #[trigger] w.scale@[j],
        !number_char_ok(s[fe4]),
        s.subrange(fe4, fb5) == ",\"path\":\""@,
        fb5 <= fe5 < total,
        forall|j: int| 0 <= j < w.path@.len() ==> s[fb5 + j] == #[trigger] w.path@[j],
        s[fe5] == '"',
        s.subrange(fe5, total) == "\"}}"@,
{
    reveal_strlit("{\"type\":\"CreateBaseLayerImage\",\"payload\":{\"userId\":\"");
    reveal_strlit("\",\"id\":\"");
    reveal_strlit("\",\"layerId\":");
    reveal_strlit(",\"rotation\":");
    reveal_strlit(",\"scale\":");
    reveal_strlit(",\"path\":\"");
    reveal_strlit("\"}}");
    assert(s.subrange(0, fb0) =~= "{\"type\":\"CreateBaseLayerImage\",\"payload\":{\"userId\":\""@);
    assert forall|j: int| 0 <= j < w.user_id@.len() implies s[fb0 + j] == #[trigger] w.user_id@[j] by {}
    assert(s[fe0] == '"');
    assert(s.subrange(fe0, fb1) =~= "\",\"id\":\""@);
    assert forall|j: int| 0 <= j < w.id@.len() implies s[fb1 + j] == #[trigger] w.id@[j] by {}
    assert(s[fe1] == '"');
    assert(s.subrange(fe1, fb2) =~= "\",\"layerId\":"@);
    assert forall|j: int| 0 <= j < i32_text(w.layer_id as int).len() implies s[fb2 + j] == #[trigger] i32_text(w.layer_id as int)[j] by {}
    assert(s[fe2] == ',');
    assert(!number_char_ok(s[fe2]));
    lemma_i32_text_number_ok(w.layer_id as int);
    assert(s.subrange(fe2, fb3) =~= ",\"rotation\":"@);
    assert forall|j: int| 0 <= j < w.rotation@.len() implies s[fb3 + j] == #[trigger] w.rotation@[j] by {}
    assert(s[fe3] == ',');
    assert(!number_char_ok(s[fe3]));
    assert(s.subrange(fe3, fb4) =~= ",\"scale\":"@);
    assert forall|j: int| 0 <= j < w.scale@.len() implies s[fb4 + j] == #[trigger] w.scale@[j] by {}
    assert(s[fe4] == ',');
    assert(!number_char_ok(s[fe4]));
    assert(s.subrange(fe4, fb5) =~= ",\"path\":\""@);
    assert forall|j: int| 0 <= j < w.path@.len() implies s[fb5 + j] == #[trigger] w.path@[j] by {}
    assert(s[fe5] == '"');
    assert(s.subrange(fe5, total) =~= "\"}}"@);
}

#[verifier::rlimit(100)]
#[verifier::spinoff_prover]
proof fn lemma_create_base_layer_image_recovery(s: Seq<char>, f0: Seq<char>, q0: int, f1: Seq<char>, q1: int, t2: Seq<char>, v2: i32, q2: int, f3: Seq<char>, q3: int, f4: Seq<char>, q4: int, f5: Seq<char>, q5: int)
    requires
        ("{\"type\":\"CreateBaseLayerImage\",\"payload\":{\"userId\":\""@.len() as int) <= q0 < s.len(),
        f0 == s.subrange(("{\"type\":\"CreateBaseLayerImage\",\"payload\":{\"userId\":\""@.len() as int), q0),
        s[q0] == '"',
        text_ok(f0),
        (q0 + "\",\"id\":\""@.len() as int) <= q1 < s.len(),
        f1 == s.subrange((q0 + "\",\"id\":\""@.len() as int), q1),
        s[q1] == '"',
        text_ok(f1),
        (q1 + "\",\"layerId\":"@.len() as int) < q2 <= s.len(),
        t2 == s.subrange((q1 + "\",\"layerId\":"@.len() as int), q2),
        number_text_ok(t2),
        q2 == s.len() || !number_char_ok(s[q2]),
        t2 == i32_text(v2 as int),
        (q2 + ",\"rotation\":"@.len() as int) < q3 <= s.len(),
        f3 == s.subrange((q2 + ",\"rotation\":"@.len() as int), q3),
        number_text_ok(f3),
        q3 == s.len() || !number_char_ok(s[q3]),
        (q3 + ",\"scale\":"@.len() as int) < q4 <= s.len(),
        f4 == s.subrange((q3 + ",\"scale\":"@.len() as int), q4),
        number_text_ok(f4),
        q4 == s.len() || !number_char_ok(s[q4]),
        (q4 + ",\"path\":\""@.len() as int) <= q5 < s.len(),
        f5 == s.subrange((q4 + ",\"path\":\""@.len() as int), q5),
        s[q5] == '"',
        text_ok(f5),
    ensures
        forall|p: CreateBaseLayerImageActionPayload|
            #![trigger crate::wire::wire_create_base_layer_image(p)]
            (action_serializable(Action::CreateBaseLayerImage(p)) && s == crate::wire::wire_create_base_layer_image(p))
                ==> (f0 == p.user_id@ && f1 == p.id@ && v2 == p.layer_id && f3 == p.rotation@ && f4 == p.scale@ && f5 == p.path@),
{
    reveal_strlit("{\"type\":\"CreateBaseLayerImage\",\"payload\":{\"userId\":\"");
    reveal_strlit("\",\"id\":\"");
    reveal_strlit("\",\"layerId\":");
    reveal_strlit(",\"rotation\":");
    reveal_strlit(",\"scale\":");
    reveal_strlit(",\"path\":\"");
    reveal_strlit("\"}}");
    assert forall|p: CreateBaseLayerImageActionPayload|
        (action_serializable(Action::CreateBaseLayerImage(p)) && s == crate::wire::wire_create_base_layer_image(p)) implies (f0 == p.user_id@ && f1 == p.id@ && v2 == p.layer_id && f3 == p.rotation@ && f4 == p.scale@ && f5 == p.path@) by {
        let p_fb0 = "{\"type\":\"CreateBaseLayerImage\",\"payload\":{\"userId\":\""@.len() as int;
        let p_fe0 = p_fb0 + p.user_id@.len();
        let p_fb1 = p_fe0 + "\",\"id\":\""@.len() as int;
        let p_fe1 = p_fb1 + p.id@.len();
        let p_fb2 = p_fe1 + "\",\"layerId\":"@.len() as int;
        let p_fe2 = p_fb2 + i32_text(p.layer_id as int).len();
        let p_fb3 = p_fe2 + ",\"rotation\":"@.len() as int;
        let p_fe3 = p_fb3 + p.rotation@.len();
        let p_fb4 = p_fe3 + ",\"scale\":"@.len() as int;
        let p_fe4 = p_fb4 + p.scale@.len();
        let p_fb5 = p_fe4 + ",\"path\":\""@.len() as int;
        let p_fe5 = p_fb5 + p.path@.len();
        let p_total = p_fe5 + "\"}}"@.len() as int;
        lemma_create_base_layer_image_layout(s, p, p_fb0, p_fe0, p_fb1, p_fe1, p_fb2, p_fe2, p_fb3, p_fe3, p_fb4, p_fe4, p_fb5, p_fe5, p_total);
        lemma_text_pinned(s, p_fb0, p.user_id@, f0, q0);
        lemma_text_pinned(s, p_fb1, p.id@, f1, q1);
        lemma_number_pinned(s, p_fb2, i32_text(p.layer_id as int), t2, q2);
        lemma_i32_text_inj(v2 as int, p.layer_id as int);
        lemma_number_pinned(s, p_fb3, p.rotation@, f3, q3);
        lemma_number_pinned(s, p_fb4, p.scale@, f4, q4);
        lemma_text_pinned(s, p_fb5, p.path@, f5, q5);
    }
}

#[verifier::rlimit(100)]
#[verifier::spinoff_prover]
fn decode_create_base_layer_image(s: &str) -> (r: Option<Action>)
    ensures
        r is Some ==> action_serializable(r->0) && action_wire(r->0) == s@,
        r is Some ==> r->0 is CreateBaseLayerImage,
        forall|p: CreateBaseLayerImageActionPayload|
            (action_serializable(Action::CreateBaseLayerImage(p)) && s@ == crate::wire::wire_create_base_layer_image(p)) ==> (r is Some && action_matches(r->0, Action::CreateBaseLayerImage(p))),
{
    let n = s.unicode_len();
    let ghost hyp = exists|p: CreateBaseLayerImageActionPayload| action_serializable(Action::CreateBaseLayerImage(p)) && s@ == crate::wire::wire_create_base_layer_image(p);
    let ghost w = choose|p: CreateBaseLayerImageActionPayload| action_serializable(Action::CreateBaseLayerImage(p)) && s@ == crate::wire::wire_create_base_layer_image(p);
    let ghost fb0 = "{\"type\":\"CreateBaseLayerImage\",\"payload\":{\"userId\":\""@.len() as int;
    let ghost fe0 = fb0 + w.user_id@.len();
    let ghost fb1 = fe0 + "\",\"id\":\""@.len() as int;
    let ghost fe1 = fb1 + w.id@.len();
    let ghost fb2 = fe1 + "\",\"layerId\":"@.len() as int;
    let ghost fe2 = fb2 + i32_text(w.layer_id as int).len();
    let ghost fb3 = fe2 + ",\"rotation\":"@.len() as int;
    let ghost fe3 = fb3 + w.rotation@.len();
    let ghost fb4 = fe3 + ",\"scale\":"@.len() as int;
    let ghost fe4 = fb4 + w.scale@.len();
    let ghost fb5 = fe4 + ",\"path\":\""@.len() as int;
    let ghost fe5 = fb5 + w.path@.len();
    let ghost total = fe5 + "\"}}"@.len() as int;
    proof {
        if hyp {
            lemma_create_base_layer_image_layout(s@, w, fb0, fe0, fb1, fe1, fb2, fe2, fb3, fe3, fb4, fe4, fb5, fe5, total);
        }
    }
    let pos0 = match expect_lit(s, 0, "{\"type\":\"CreateBaseLayerImage\",\"payload\":{\"userId\":\"") {
        Some(p) => p,
        None => {
            proof {
                if hyp {
                    assert(false);
                }
            }
            return None;
        },
    };
    let (f_user_id, q0) = match read_text(s, pos0) {
        Some(t) => t,
        None => {
            proof {
                if hyp {
                    assert(text_run_until_quote(s@, pos0 as int, fe0)) by {
                        assert forall|j: int| fb0 <= j < fe0 implies text_char_ok(#[trigger] s@[j]) by {
                            assert(s@[j] == w.user_id@[j - fb0]);
                        }
                    }
                    assert(false);
                }
            }
            return None;
        },
    };
    proof {
        if hyp {
            lemma_text_pinned(s@, fb0, w.user_id@, f_user_id@, q0 as int);
        }
    }
    let pos1 = match expect_lit(s, q0, "\",\"id\":\"") {
        Some(p) => p,
        None => {
            proof {
                if hyp {
                    assert(false);
                }
            }
            return None;
        },
    };
    let (f_id, q1) = match read_text(s, pos1) {
        Some(t) => t,
        None => {
            proof {
                if hyp {
                    assert(text_run_until_quote(s@, pos1 as int, fe1)) by {
                        assert forall|j: int| fb1 <= j < fe1 implies text_char_ok(#[trigger] s@[j]) by {
                            assert(s@[j] == w.id@[j - fb1]);
                        }
                    }
                    assert(false);
                }
            }
            return None;
        },
    };
    proof {
        if hyp {
            lemma_text_pinned(s@, fb1, w.id@, f_id@, q1 as int);
        }
    }
    let pos2 = match expect_lit(s, q1, "\",\"layerId\":") {
        Some(p) => p,
        None => {
            proof {
                if hyp {
                    assert(false);
                }
            }
            return None;
        },
    };
    let (t_layer_id, q2) = match read_number(s, pos2) {
        Some(t) => t,
        None => {
            proof {
                if hyp {
                    assert(s@[fb2] == i32_text(w.layer_id as int)[0]);
                    assert(is_digit(i32_text(w.layer_id as int)[0]) || i32_text(w.layer_id as int)[0] == '-');
                    assert(false);
                }
            }
            return None;
        },
    };
    let f_layer_id = match parse_i32_text(t_layer_id.as_str()) {
        Some(v) => v,
        None => {
            proof {
                if hyp {
                    lemma_number_pinned(s@, fb2, i32_text(w.layer_id as int), t_layer_id@, q2 as int);
                    assert(t_layer_id@ == i32_text(w.layer_id as int));
                    assert(exists|v: i32| t_layer_id@ == i32_text(v as int));
                    assert(false);
                }
            }
            return None;
        },
    };
    proof {
        if hyp {
            lemma_number_pinned(s@, fb2, i32_text(w.layer_id as int), t_layer_id@, q2 as int);
        }
    }
    let pos3 = match expect_lit(s, q2, ",\"rotation\":") {
        Some(p) => p,
        None => {
            proof {
                if hyp {
                    assert(false);
                }
            }
            return None;
        },
    };
    let (f_rotation, q3) = match read_number(s, pos3) {
        Some(t) => t,
        None => {
            proof {
                if hyp {
                    assert(s@[fb3] == w.rotation@[0]);
                    assert(is_digit(w.rotation@[0]) || w.rotation@[0] == '-');
                    assert(false);
                }
            }
            return None;
        },
    };
    proof {
        if hyp {
            lemma_number_pinned(s@, fb3, w.rotation@, f_rotation@, q3 as int);
        }
    }
    let pos4 = match expect_lit(s, q3, ",\"scale\":") {
        Some(p) => p,
        None => {
            proof {
                if hyp {
                    assert(false);
                }
            }
            return None;
        },
    };
    let (f_scale, q4) = match read_number(s, pos4) {
        Some(t) => t,
        None => {
            proof {
                if hyp {
                    assert(s@[fb4] == w.scale@[0]);
                    assert(is_digit(w.scale@[0]) || w.scale@[0] == '-');
                    assert(false);
                }
            }
            return None;
        },
    };
    proof {
        if hyp {
            lemma_number_pinned(s@, fb4, w.scale@, f_scale@, q4 as int);
        }
    }
    let pos5 = match expect_lit(s, q4, ",\"path\":\"") {
        Some(p) => p,
        None => {
            proof {
                if hyp {
                    assert(false);
                }
            }
            return None;
        },
    };
    let (f_path, q5) = match read_text(s, pos5) {
        Some(t) => t,
        None => {
            proof {
                if hyp {
                    assert(text_run_until_quote(s@, pos5 as int, fe5)) by {
                        assert forall|j: int| fb5 <= j < fe5 implies text_char_ok(#[trigger] s@[j]) by {
                            assert(s@[j] == w.path@[j - fb5]);
                        }
                    }
                    assert(false);
                }
            }
            return None;
        },
    };
    proof {
        if hyp {
            lemma_text_pinned(s@, fb5, w.path@, f_path@, q5 as int);
        }
    }
    let pos6 = match expect_lit(s, q5, "\"}}") {
        Some(p) => p,
        None => {
            proof {
                if hyp {
                    assert(false);
                }
            }
            return None;
        },
    };
    if pos6 != n {
        proof {
            if hyp {
                assert(pos6 == total);
                assert(false);
            }
        }
        return None;
    }
    let payload = CreateBaseLayerImageActionPayload { user_id: f_user_id, id: f_id, layer_id: f_layer_id, rotation: f_rotation, scale: f_scale, path: f_path };
    proof {
        assert(crate::wire::wire_create_base_layer_image(payload) =~= s@);
        lemma_create_base_layer_image_recovery(s@, f_user_id@, q0 as int, f_id@, q1 as int, t_layer_id@, f_layer_id, q2 as int, f_rotation@, q3 as int, f_scale@, q4 as int, f_path@, q5 as int);
    }
    Some(Action::CreateBaseLayerImage(payload))
}

#[verifier::rlimit(100)]
#[verifier::spinoff_prover]
proof fn lemma_update_base_layer_image_layout(s: Seq<char>, w: UpdateBaseLayerImageActionPayload, fb0: int, fe0: int, fb1: int, fe1: int, fb2: int, fe2: int, fb3: int, fe3: int, fb4: int, fe4: int, fb5: int, fe5: int, total: int)
    requires
        action_serializable(Action::UpdateBaseLayerImage(w)),
        s == crate::wire::wire_update_base_layer_image(w),
        fb0 == "{\"type\":\"UpdateBaseLayerImage\",\"payload\":{\"userId\":\""@.len() as int,
        fe0 == fb0 + w.user_id@.len(),
        fb1 == fe0 + "\",\"id\":\""@.len() as int,
        fe1 == fb1 + w.id@.len(),
        fb2 == fe1 + "\",\"layerId\":"@.len() as int,
        fe2 == fb2 + i32_text(w.layer_id as int).len(),
        fb3 == fe2 + ",\"rotation\":"@.len() as int,
        fe3 == fb3 + w.rotation@.len(),
        fb4 == fe3 + ",\"scale\":"@.len() as int,
        fe4 == fb4 + w.scale@.len(),
        fb5 == fe4 + ",\"path\":\""@.len() as int,
        fe5 == fb5 + w.path@.len(),
        total == fe5 + "\"}}"@.len() as int,
    ensures
        s.len() == total,
        0 < fb0,
        s.subrange(0, fb0) == "{\"type\":\"UpdateBaseLayerImage\",\"payload\":{\"userId\":\""@,
        fb0 <= fe0 < total,
        forall|j: int| 0 <= j < w.user_id@.len() ==> s[fb0 + j] == #[trigger] w.user_id@[j],
        s[fe0] == '"',
        s.subrange(fe0, fb1) == "\",\"id\":\""@,
        fb1 <= fe1 < total,
        forall|j: int| 0 <= j < w.id@.len() ==> s[fb1 + j] == #[trigger] w.id@[j],
        s[fe1] == '"',
        s.subrange(fe1, fb2) == "\",\"layerId\":"@,
        fb2 <= fe2 < total,
        forall|j: int| 0 <= j < i32_text(w.layer_id as int).len() ==> s[fb2 + j] == #[trigger] i32_text(w.layer_id as int)[j],
        !number_char_ok(s[fe2]),
        number_text_ok(i32_text(w.layer_id as int)),
        s.subrange(fe2, fb3) == ",\"rotation\":"@,
        fb3 <= fe3 < total,
        forall|j: int| 0 <= j < w.rotation@.len() ==> s[fb3 + j] == #[trigger] w.rotation@[j],
        !number_char_ok(s[fe3]),
        s.subrange(fe3, fb4) == ",\"scale\":"@,
        fb4 <= fe4 < total,
        forall|j: int| 0 <= j < w.scale@.len() ==> s[fb4 + j] == #[trigger] w.scale@[j],
        !number_char_ok(s[fe4]),
        s.subrange(fe4, fb5) == ",\"path\":\""@,
        fb5 <= fe5 < total,
        forall|j: int| 0 <= j < w.path@.len() ==> s[fb5 + j] == #[trigger] w.path@[j],
        s[fe5] == '"',
        s.subrange(fe5, total) == "\"}}"@,
{
    reveal_strlit("{\"type\":\"UpdateBaseLayerImage\",\"payload\":{\"userId\":\"");
    reveal_strlit("\",\"id\":\"");
    reveal_strlit("\",\"layerId\":");
    reveal_strlit(",\"rotation\":");
    reveal_strlit(",\"scale\":");
    reveal_strlit(",\"path\":\"");
    reveal_strlit("\"}}");
    assert(s.subrange(0, fb0) =~= "{\"type\":\"UpdateBaseLayerImage\",\"payload\":{\"userId\":\""@);
    assert forall|j: int| 0 <= j < w.user_id@.len() implies s[fb0 + j] == #[trigger] w.user_id@[j] by {}
    assert(s[fe0] == '"');
    assert(s.subrange(fe0, fb1) =~= "\",\"id\":\""@);
    assert forall|j: int| 0 <= j < w.id@.len() implies s[fb1 + j] == #[trigger] w.id@[j] by {}
    assert(s[fe1] == '"');
    assert(s.subrange(fe1, fb2) =~= "\",\"layerId\":"@);
    assert forall|j: int| 0 <= j < i32_text(w.layer_id as int).len() implies s[fb2 + j] == #[trigger] i32_text(w.layer_id as int)[j] by {}
    assert(s[fe2] == ',');
    assert(!number_char_ok(s[fe2]));
    lemma_i32_text_number_ok(w.layer_id as int);
    assert(s.subrange(fe2, fb3) =~= ",\"rotation\":"@);
    assert forall|j: int| 0 <= j < w.rotation@.len() implies s[fb3 + j] == #[trigger] w.rotation@[j] by {}
    assert(s[fe3] == ',');
    assert(!number_char_ok(s[fe3]));
    assert(s.subrange(fe3, fb4) =~= ",\"scale\":"@);
    assert forall|j: int| 0 <= j < w.scale@.len() implies s[fb4 + j] == #[trigger] w.scale@[j] by {}
    assert(s[fe4] == ',');
    assert(!number_char_ok(s[fe4]));
    assert(s.subrange(fe4, fb5) =~= ",\"path\":\""@);
    assert forall|j: int| 0 <= j < w.path@.len() implies s[fb5 + j] == #[trigger] w.path@[j] by {}
    assert(s[fe5] == '"');
    assert(s.subrange(fe5, total) =~= "\"}}"@);
}

#[verifier::rlimit(100)]
#[verifier::spinoff_prover]
proof fn lemma_update_base_layer_image_recovery(s: Seq<char>, f0: Seq<char>, q0: int, f1: Seq<char>, q1: int, t2: Seq<char>, v2: i32, q2: int, f3: Seq<char>, q3: int, f4: Seq<char>, q4: int, f5: Seq<char>, q5: int)
    requires
        ("{\"type\":\"UpdateBaseLayerImage\",\"payload\":{\"userId\":\""@.len() as int) <= q0 < s.len(),
        f0 == s.subrange(("{\"type\":\"UpdateBaseLayerImage\",\"payload\":{\"userId\":\""@.len() as int), q0),
        s[q0] == '"',
        text_ok(f0),
        (q0 + "\",\"id\":\""@.len() as int) <= q1 < s.len(),
        f1 == s.subrange((q0 + "\",\"id\":\""@.len() as int), q1),
        s[q1] == '"',
        text_ok(f1),
        (q1 + "\",\"layerId\":"@.len() as int) < q2 <= s.len(),
        t2 == s.subrange((q1 + "\",\"layerId\":"@.len() as int), q2),
        number_text_ok(t2),
        q2 == s.len() || !number_char_ok(s[q2]),
        t2 == i32_text(v2 as int),
        (q2 + ",\"rotation\":"@.len() as int) < q3 <= s.len(),
        f3 == s.subrange((q2 + ",\"rotation\":"@.len() as int), q3),
        number_text_ok(f3),
        q3 == s.len() || !number_char_ok(s[q3]),
        (q3 + ",\"scale\":"@.len() as int) < q4 <= s.len(),
        f4 == s.subrange((q3 + ",\"scale\":"@.len() as int), q4),
        number_text_ok(f4),
        q4 == s.len() || !number_char_ok(s[q4]),
        (q4 + ",\"path\":\""@.len() as int) <= q5 < s.len(),
        f5 == s.subrange((q4 + ",\"path\":\""@.len() as int), q5),
        s[q5] == '"',
        text_ok(f5),
    ensures
        forall|p: UpdateBaseLayerImageActionPayload|
            #![trigger crate::wire::wire_update_base_layer_image(p)]
            (action_serializable(Action::UpdateBaseLayerImage(p)) && s == crate::wire::wire_update_base_layer_image(p))
                ==> (f0 == p.user_id@ && f1 == p.id@ && v2 == p.layer_id && f3 == p.rotation@ && f4 == p.scale@ && f5 == p.path@),
{
    reveal_strlit("{\"type\":\"UpdateBaseLayerImage\",\"payload\":{\"userId\":\"");
    reveal_strlit("\",\"id\":\"");
    reveal_strlit("\",\"layerId\":");
    reveal_strlit(",\"rotation\":");
    reveal_strlit(",\"scale\":");
    reveal_strlit(",\"path\":\"");
    reveal_strlit("\"}}");
    assert forall|p: UpdateBaseLayerImageActionPayload|
        (action_serializable(Action::UpdateBaseLayerImage(p)) && s == crate::wire::wire_update_base_layer_image(p)) implies (f0 == p.user_id@ && f1 == p.id@ && v2 == p.layer_id && f3 == p.rotation@ && f4 == p.scale@ && f5 == p.path@) by {
        let p_fb0 = "{\"type\":\"UpdateBaseLayerImage\",\"payload\":{\"userId\":\""@.len() as int;
        let p_fe0 = p_fb0 + p.user_id@.len();
        let p_fb1 = p_fe0 + "\",\"id\":\""@.len() as int;
        let p_fe1 = p_fb1 + p.id@.len();
        let p_fb2 = p_fe1 + "\",\"layerId\":"@.len() as int;
        let p_fe2 = p_fb2 + i32_text(p.layer_id as int).len();
        let p_fb3 = p_fe2 + ",\"rotation\":"@.len() as int;
        let p_fe3 = p_fb3 + p.rotation@.len();
        let p_fb4 = p_fe3 + ",\"scale\":"@.len() as int;
        let p_fe4 = p_fb4 + p.scale@.len();
        let p_fb5 = p_fe4 + ",\"path\":\""@.len() as int;
        let p_fe5 = p_fb5 + p.path@.len();
        let p_total = p_fe5 + "\"}}"@.len() as int;
        lemma_update_base_layer_image_layout(s, p, p_fb0, p_fe0, p_fb1, p_fe1, p_fb2, p_fe2, p_fb3, p_fe3, p_fb4, p_fe4, p_fb5, p_fe5, p_total);
        lemma_text_pinned(s, p_fb0, p.user_id@, f0, q0);
        lemma_text_pinned(s, p_fb1, p.id@, f1, q1);
        lemma_number_pinned(s, p_fb2, i32_text(p.layer_id as int), t2, q2);
        lemma_i32_text_inj(v2 as int, p.layer_id as int);
        lemma_number_pinned(s, p_fb3, p.rotation@, f3, q3);
        lemma_number_pinned(s, p_fb4, p.scale@, f4, q4);
        lemma_text_pinned(s, p_fb5, p.path@, f5, q5);
    }
}

#[verifier::rlimit(100)]
#[verifier::spinoff_prover]
fn decode_update_base_layer_image(s: &str) -> (r: Option<Action>)
    ensures
        r is Some ==> action_serializable(r->0) && action_wire(r->0) == s@,
        r is Some ==> r->0 is UpdateBaseLayerImage,
        forall|p: UpdateBaseLayerImageActionPayload|
            (action_serializable(Action::UpdateBaseLayerImage(p)) && s@ == crate::wire::wire_update_base_layer_image(p)) ==> (r is Some && action_matches(r->0, Action::UpdateBaseLayerImage(p))),
{
    let n = s.unicode_len();
    let ghost hyp = exists|p: UpdateBaseLayerImageActionPayload| action_serializable(Action::UpdateBaseLayerImage(p)) && s@ == crate::wire::wire_update_base_layer_image(p);
    let ghost w = choose|p: UpdateBaseLayerImageActionPayload| action_serializable(Action::UpdateBaseLayerImage(p)) && s@ == crate::wire::wire_update_base_layer_image(p);
    let ghost fb0 = "{\"type\":\"UpdateBaseLayerImage\",\"payload\":{\"userId\":\""@.len() as int;
    let ghost fe0 = fb0 + w.user_id@.len();
    let ghost fb1 = fe0 + "\",\"id\":\""@.len() as int;
    let ghost fe1 = fb1 + w.id@.len();
    let ghost fb2 = fe1 + "\",\"layerId\":"@.len() as int;
    let ghost fe2 = fb2 + i32_text(w.layer_id as int).len();
    let ghost fb3 = fe2 + ",\"rotation\":"@.len() as int;
    let ghost fe3 = fb3 + w.rotation@.len();
    let ghost fb4 = fe3 + ",\"scale\":"@.len() as int;
    let ghost fe4 = fb4 + w.scale@.len();
    let ghost fb5 = fe4 + ",\"path\":\""@.len() as int;
    let ghost fe5 = fb5 + w.path@.len();
    let ghost total = fe5 + "\"}}"@.len() as int;
    proof {
        if hyp {
            lemma_update_base_layer_image_layout(s@, w, fb0, fe0, fb1, fe1, fb2, fe2, fb3, fe3, fb4, fe4, fb5, fe5, total);
        }
    }
    let pos0 = match expect_lit(s, 0, "{\"type\":\"UpdateBaseLayerImage\",\"payload\":{\"userId\":\"") {
        Some(p) => p,
        None => {
            proof {
                if hyp {
                    assert(false);
                }
            }
            return None;
        },
    };
    let (f_user_id, q0) = match read_text(s, pos0) {
        Some(t) => t,
        None => {
            proof {
                if hyp {
                    assert(text_run_until_quote(s@, pos0 as int, fe0)) by {
                        assert forall|j: int| fb0 <= j < fe0 implies text_char_ok(#[trigger] s@[j]) by {
                            assert(s@[j] == w.user_id@[j - fb0]);
                        }
                    }
                    assert(false);
                }
            }
            return None;
        },
    };
    proof {
        if hyp {
            lemma_text_pinned(s@, fb0, w.user_id@, f_user_id@, q0 as int);
        }
    }
    let pos1 = match expect_lit(s, q0, "\",\"id\":\"") {
        Some(p) => p,
        None => {
            proof {
                if hyp {
                    assert(false);
                }
            }
            return None;
        },
    };
    let (f_id, q1) = match read_text(s, pos1) {
        Some(t) => t,
        None => {
            proof {
                if hyp {
                    assert(text_run_until_quote(s@, pos1 as int, fe1)) by {
                        assert forall|j: int| fb1 <= j < fe1 implies text_char_ok(#[trigger] s@[j]) by {
                            assert(s@[j] == w.id@[j - fb1]);
                        }
                    }
                    assert(false);
                }
            }
            return None;
        },
    };
    proof {
        if hyp {
            lemma_text_pinned(s@, fb1, w.id@, f_id@, q1 as int);
        }
    }
    let pos2 = match expect_lit(s, q1, "\",\"layerId\":") {
        Some(p) => p,
        None => {
            proof {
                if hyp {
                    assert(false);
                }
            }
            return None;
        },
    };
    let (t_layer_id, q2) = match read_number(s, pos2) {
        Some(t) => t,
        None => {
            proof {
                if hyp {
                    assert(s@[fb2] == i32_text(w.layer_id as int)[0]);
                    assert(is_digit(i32_text(w.layer_id as int)[0]) || i32_text(w.layer_id as int)[0] == '-');
                    assert(false);
                }
            }
            return None;
        },
    };
    let f_layer_id = match parse_i32_text(t_layer_id.as_str()) {
        Some(v) => v,
        None => {
            proof {
                if hyp {
                    lemma_number_pinned(s@, fb2, i32_text(w.layer_id as int), t_layer_id@, q2 as int);
                    assert(t_layer_id@ == i32_text(w.layer_id as int));
                    assert(exists|v: i32| t_layer_id@ == i32_text(v as int));
                    assert(false);
                }
            }
            return None;
        },
    };
    proof {
        if hyp {
            lemma_number_pinned(s@, fb2, i32_text(w.layer_id as int), t_layer_id@, q2 as int);
        }
    }
    let pos3 = match expect_lit(s, q2, ",\"rotation\":") {
        Some(p) => p,
        None => {
            proof {
                if hyp {
                    assert(false);
                }
            }
            return None;
        },
    };
    let (f_rotation, q3) = match read_number(s, pos3) {
        Some(t) => t,
        None => {
            proof {
                if hyp {
                    assert(s@[fb3] == w.rotation@[0]);
                    assert(is_digit(w.rotation@[0]) || w.rotation@[0] == '-');
                    assert(false);
                }
            }
            return None;
        },
    };
    proof {
        if hyp {
            lemma_number_pinned(s@, fb3, w.rotation@, f_rotation@, q3 as int);
        }
    }
    let pos4 = match expect_lit(s, q3, ",\"scale\":") {
        Some(p) => p,
        None => {
            proof {
                if hyp {
                    assert(false);
                }
            }
            return None;
        },
    };
    let (f_scale, q4) = match read_number(s, pos4) {
        Some(t) => t,
        None => {
            proof {
                if hyp {
                    assert(s@[fb4] == w.scale@[0]);
                    assert(is_digit(w.scale@[0]) || w.scale@[0] == '-');
                    assert(false);
                }
            }
            return None;
        },
    };
    proof {
        if hyp {
            lemma_number_pinned(s@, fb4, w.scale@, f_scale@, q4 as int);
        }
    }
    let pos5 = match expect_lit(s, q4, ",\"path\":\"") {
        Some(p) => p,
        None => {
            proof {
                if hyp {
                    assert(false);
                }
            }
            return None;
        },
    };
    let (f_path, q5) = match read_text(s, pos5) {
        Some(t) => t,
        None => {
            proof {
                if hyp {
                    assert(text_run_until_quote(s@, pos5 as int, fe5)) by {
                        assert forall|j: int| fb5 <= j < fe5 implies text_char_ok(#[trigger] s@[j]) by {
                            assert(s@[j] == w.path@[j - fb5]);
                        }
                    }
                    assert(false);
                }
            }
            return None;
        },
    };
    proof {
        if hyp {
            lemma_text_pinned(s@, fb5, w.path@, f_path@, q5 as int);
        }
    }
    let pos6 = match expect_lit(s, q5, "\"}}") {
        Some(p) => p,
        None => {
            proof {
                if hyp {
                    assert(false);
                }
            }
            return None;
        },
    };
    if pos6 != n {
        proof {
            if hyp {
                assert(pos6 == total);
                assert(false);
            }
        }
        return None;
    }
    let payload = UpdateBaseLayerImageActionPayload { user_id: f_user_id, id: f_id, layer_id: f_layer_id, rotation: f_rotation, scale: f_scale, path: f_path };
    proof {
        assert(crate::wire::wire_update_base_layer_image(payload) =~= s@);
        lemma_update_base_layer_image_recovery(s@, f_user_id@, q0 as int, f_id@, q1 as int, t_layer_id@, f_layer_id, q2 as int, f_rotation@, q3 as int, f_scale@, q4 as int, f_path@, q5 as int);
    }
    Some(Action::UpdateBaseLayerImage(payload))
}

#[verifier::rlimit(100)]
#[verifier::spinoff_prover]
proof fn lemma_delete_base_layer_image_layout(s: Seq<char>, w: DeleteBaseLayerImageActionPayload, fb0: int, fe0: int, fb1: int, fe1: int, total: int)
    requires
        action_serializable(Action::DeleteBaseLayerImage(w)),
        s == crate::wire::wire_delete_base_layer_image(w),
        fb0 == "{\"type\":\"DeleteBaseLayerImage\",\"payload\":{\"userId\":\""@.len() as int,
        fe0 == fb0 + w.user_id@.len(),
        fb1 == fe0 + "\",\"id\":\""@.len() as int,
        fe1 == fb1 + w.id@.len(),
        total == fe1 + "\"}}"@.len() as int,
    ensures
        s.len() == total,
        0 < fb0,
        s.subrange(0, fb0) == "{\"type\":\"DeleteBaseLayerImage\",\"payload\":{\"userId\":\""@,
        fb0 <= fe0 < total,
        forall|j: int| 0 <= j < w.user_id@.len() ==> s[fb0 + j] == #[trigger] w.user_id@[j],
        s[fe0] == '"',
        s.subrange(fe0, fb1) == "\",\"id\":\""@,
        fb1 <= fe1 < total,
        forall|j: int| 0 <= j < w.id@.len() ==> s[fb1 + j] == #[trigger] w.id@[j],
        s[fe1] == '"',
        s.subrange(fe1, total) == "\"}}"@,
{
    reveal_strlit("{\"type\":\"DeleteBaseLayerImage\",\"payload\":{\"userId\":\"");
    reveal_strlit("\",\"id\":\"");
    reveal_strlit("\"}}");
    assert(s.subrange(0, fb0) =~= "{\"type\":\"DeleteBaseLayerImage\",\"payload\":{\"userId\":\""@);
    assert forall|j: int| 0 <= j < w.user_id@.len() implies s[fb0 + j] == #[trigger] w.user_id@[j] by {}
    assert(s[fe0] == '"');
    assert(s.subrange(fe0, fb1) =~= "\",\"id\":\""@);
    assert forall|j: int| 0 <= j < w.id@.len() implies s[fb1 + j] == #[trigger] w.id@[j] by {}
    assert(s[fe1] == '"');
    assert(s.subrange(fe1, total) =~= "\"}}"@);
}

#[verifier::rlimit(100)]
#[verifier::spinoff_prover]
proof fn lemma_delete_base_layer_image_recovery(s: Seq<char>, f0: Seq<char>, q0: int, f1: Seq<char>, q1: int)
    requires
        ("{\"type\":\"DeleteBaseLayerImage\",\"payload\":{\"userId\":\""@.len() as int) <= q0 < s.len(),
        f0 == s.subrange(("{\"type\":\"DeleteBaseLayerImage\",\"payload\":{\"userId\":\""@.len() as int), q0),
        s[q0] == '"',
        text_ok(f0),
        (q0 + "\",\"id\":\""@.len() as int) <= q1 < s.len(),
        f1 == s.subrange((q0 + "\",\"id\":\""@.len() as int), q1),
        s[q1] == '"',
        text_ok(f1),
    ensures
        forall|p: DeleteBaseLayerImageActionPayload|
            #![trigger crate::wire::wire_delete_base_layer_image(p)]
            (action_serializable(Action::DeleteBaseLayerImage(p)) && s == crate::wire::wire_delete_base_layer_image(p))
                ==> (f0 == p.user_id@ && f1 == p.id@),
{
    reveal_strlit("{\"type\":\"DeleteBaseLayerImage\",\"payload\":{\"userId\":\"");
    reveal_strlit("\",\"id\":\"");
    reveal_strlit("\"}}");
    assert forall|p: DeleteBaseLayerImageActionPayload|
        (action_serializable(Action::DeleteBaseLayerImage(p)) && s == crate::wire::wire_delete_base_layer_image(p)) implies (f0 == p.user_id@ && f1 == p.id@) by {
        let p_fb0 = "{\"type\":\"DeleteBaseLayerImage\",\"payload\":{\"userId\":\""@.len() as int;
        let p_fe0 = p_fb0 + p.user_id@.len();
        let p_fb1 = p_fe0 + "\",\"id\":\""@.len() as int;
        let p_fe1 = p_fb1 + p.id@.len();
        let p_total = p_fe1 + "\"}}"@.len() as int;
        lemma_delete_base_layer_image_layout(s, p, p_fb0, p_fe0, p_fb1, p_fe1, p_total);
        lemma_text_pinned(s, p_fb0, p.user_id@, f0, q0);
        lemma_text_pinned(s, p_fb1, p.id@, f1, q1);
    }
}

#[verifier::rlimit(100)]
#[verifier::spinoff_prover]
fn decode_delete_base_layer_image(s: &str) -> (r: Option<Action>)
    ensures
        r is Some ==> action_serializable(r->0) && action_wire(r->0) == s@,
        r is Some ==> r->0 is DeleteBaseLayerImage,
        forall|p: DeleteBaseLayerImageActionPayload|
            (action_serializable(Action::DeleteBaseLayerImage(p)) && s@ == crate::wire::wire_delete_base_layer_image(p)) ==> (r is Some && action_matches(r->0, Action::DeleteBaseLayerImage(p))),
{
    let n = s.unicode_len();
    let ghost hyp = exists|p: DeleteBaseLayerImageActionPayload| action_serializable(Action::DeleteBaseLayerImage(p)) && s@ == crate::wire::wire_delete_base_layer_image(p);
    let ghost w = choose|p: DeleteBaseLayerImageActionPayload| action_serializable(Action::DeleteBaseLayerImage(p)) && s@ == crate::wire::wire_delete_base_layer_image(p);
    let ghost fb0 = "{\"type\":\"DeleteBaseLayerImage\",\"payload\":{\"userId\":\""@.len() as int;
    let ghost fe0 = fb0 + w.user_id@.len();
    let ghost fb1 = fe0 + "\",\"id\":\""@.len() as int;
    let ghost fe1 = fb1 + w.id@.len();
    let ghost total = fe1 + "\"}}"@.len() as int;
    proof {
        if hyp {
            lemma_delete_base_layer_image_layout(s@, w, fb0, fe0, fb1, fe1, total);
        }
    }
    let pos0 = match expect_lit(s, 0, "{\"type\":\"DeleteBaseLayerImage\",\"payload\":{\"userId\":\"") {
        Some(p) => p,
        None => {
            proof {
                if hyp {
                    assert(false);
                }
            }
            return None;
        },
    };
    let (f_user_id, q0) = match read_text(s, pos0) {
        Some(t) => t,
        None => {
            proof {
                if hyp {
                    assert(text_run_until_quote(s@, pos0 as int, fe0)) by {
                        assert forall|j: int| fb0 <= j < fe0 implies text_char_ok(#[trigger] s@[j]) by {
                            assert(s@[j] == w.user_id@[j - fb0]);
                        }
                    }
                    assert(false);
                }
            }
            return None;
        },
    };
    proof {
        if hyp {
            lemma_text_pinned(s@, fb0, w.user_id@, f_user_id@, q0 as int);
        }
    }
    let pos1 = match expect_lit(s, q0, "\",\"id\":\"") {
        Some(p) => p,
        None => {
            proof {
                if hyp {
                    assert(false);
                }
            }
            return None;
        },
    };
    let (f_id, q1) = match read_text(s, pos1) {
        Some(t) => t,
        None => {
            proof {
                if hyp {
                    assert(text_run_until_quote(s@, pos1 as int, fe1)) by {
                        assert forall|j: int| fb1 <= j < fe1 implies text_char_ok(#[trigger] s@[j]) by {
                            assert(s@[j] == w.id@[j - fb1]);
                        }
                    }
                    assert(false);
                }
            }
            return None;
        },
    };
    proof {
        if hyp {
            lemma_text_pinned(s@, fb1, w.id@, f_id@, q1 as int);
        }
    }
    let pos2 = match expect_lit(s, q1, "\"}}") {
        Some(p) => p,
        None => {
            proof {
                if hyp {
                    assert(false);
                }
            }
            return None;
        },
    };
    if pos2 != n {
        proof {
            if hyp {
                assert(pos2 == total);
                assert(false);
            }
        }
        return None;
    }
    let payload = DeleteBaseLayerImageActionPayload { user_id: f_user_id, id: f_id };
    proof {
        assert(crate::wire::wire_delete_base_layer_image(payload) =~= s@);
        lemma_delete_base_layer_image_recovery(s@, f_user_id@, q0 as int, f_id@, q1 as int);
    }
    Some(Action::DeleteBaseLayerImage(payload))
}

/// Decodes a wire frame back into the action it carries.
///
/// The contract is exact in both directions: whatever is accepted,
/// encoded again, is character for character the input frame; and every
/// frame that an action encodes to is accepted and decodes to an action
/// with the same tag and the same field values.
#[verifier::rlimit(100)]
#[verifier::spinoff_prover]
pub fn deserialize_action(s: &str) -> (r: Option<Action>)
    ensures
        r is Some ==> action_serializable(r->0),
        r is Some ==> action_wire(r->0) == s@,
        forall|a: Action|
            (action_serializable(a) && s@ == action_wire(a)) ==> (r is Some
                && action_matches(r->0, a)),
{
    match decode_create_planting(s) {
        Some(found) => {
            proof {
                assert forall|a: Action| (action_serializable(a) && s@ == action_wire(a)) implies action_matches(found, a) by {
                    match a {
                        Action::CreatePlanting(p) => {
                            assert(action_serializable(Action::CreatePlanting(p)) && s@ == crate::wire::wire_create_planting(p));
                        },
                        Action::DeletePlanting(p) => {
                            reveal_strlit("{\"type\":\"CreatePlanting\",\"payload\":{\"userId\":\"");
                            reveal_strlit("{\"type\":\"DeletePlanting\",\"payload\":{\"userId\":\"");
                            assert(s@[9] == "{\"type\":\"CreatePlanting\",\"payload\":{\"userId\":\""@[9]) by {
                                assert(action_wire(found) == crate::wire::wire_create_planting(found->CreatePlanting_0));
                            }
                            assert(s@[9] == "{\"type\":\"DeletePlanting\",\"payload\":{\"userId\":\""@[9]);
                            assert(false);
                        },
                        Action::MovePlanting(p) => {
                            reveal_strlit("{\"type\":\"CreatePlanting\",\"payload\":{\"userId\":\"");
                            reveal_strlit("{\"type\":\"MovePlanting\",\"payload\":{\"userId\":\"");
                            assert(s@[9] == "{\"type\":\"CreatePlanting\",\"payload\":{\"userId\":\""@[9]) by {
                                assert(action_wire(found) == crate::wire::wire_create_planting(found->CreatePlanting_0));
                            }
                            assert(s@[9] == "{\"type\":\"MovePlanting\",\"payload\":{\"userId\":\""@[9]);
                            assert(false);
                        },
                        Action::TransformPlanting(p) => {
                            reveal_strlit("{\"type\":\"CreatePlanting\",\"payload\":{\"userId\":\"");
                            reveal_strlit("{\"type\":\"TransformPlanting\",\"payload\":{\"userId\":\"");
                            assert(s@[9] == "{\"type\":\"CreatePlanting\",\"payload\":{\"userId\":\""@[9]) by {
                                assert(action_wire(found) == crate::wire::wire_create_planting(found->CreatePlanting_0));
                            }
                            assert(s@[9] == "{\"type\":\"TransformPlanting\",\"payload\":{\"userId\":\""@[9]);
                            assert(false);
                        },
                        Action::CreateBaseLayerImage(p) => {
                            reveal_strlit("{\"type\":\"CreatePlanting\",\"payload\":{\"userId\":\"");
                            reveal_strlit("{\"type\":\"CreateBaseLayerImage\",\"payload\":{\"userId\":\"");
                            assert(s@[15] == "{\"type\":\"CreatePlanting\",\"payload\":{\"userId\":\""@[15]) by {
                                assert(action_wire(found) == crate::wire::wire_create_planting(found->CreatePlanting_0));
                            }
                            assert(s@[15] == "{\"type\":\"CreateBaseLayerImage\",\"payload\":{\"userId\":\""@[15]);
                            assert(false);
                        },
                        Action::UpdateBaseLayerImage(p) => {
                            reveal_strlit("{\"type\":\"CreatePlanting\",\"payload\":{\"userId\":\"");
                            reveal_strlit("{\"type\":\"UpdateBaseLayerImage\",\"payload\":{\"userId\":\"");
                            assert(s@[9] == "{\"type\":\"CreatePlanting\",\"payload\":{\"userId\":\""@[9]) by {
                                assert(action_wire(found) == crate::wire::wire_create_planting(found->CreatePlanting_0));
                            }
                            assert(s@[9] == "{\"type\":\"UpdateBaseLayerImage\",\"payload\":{\"userId\":\""@[9]);
                            assert(false);
                        },
                        Action::DeleteBaseLayerImage(p) => {
                            reveal_strlit("{\"type\":\"CreatePlanting\",\"payload\":{\"userId\":\"");
                            reveal_strlit("{\"type\":\"DeleteBaseLayerImage\",\"payload\":{\"userId\":\"");
                            assert(s@[9] == "{\"type\":\"CreatePlanting\",\"payload\":{\"userId\":\""@[9]) by {
                                assert(action_wire(found) == crate::wire::wire_create_planting(found->CreatePlanting_0));
                            }
                            assert(s@[9] == "{\"type\":\"DeleteBaseLayerImage\",\"payload\":{\"userId\":\""@[9]);
                            assert(false);
                        },
                    }
                }
            }
            return Some(found);
        },
        None => {},
    }
    match decode_delete_planting(s) {
        Some(found) => {
            proof {
                assert forall|a: Action| (action_serializable(a) && s@ == action_wire(a)) implies action_matches(found, a) by {
                    match a {
                        Action::CreatePlanting(p) => {
                            reveal_strlit("{\"type\":\"DeletePlanting\",\"payload\":{\"userId\":\"");
                            reveal_strlit("{\"type\":\"CreatePlanting\",\"payload\":{\"userId\":\"");
                            assert(s@[9] == "{\"type\":\"DeletePlanting\",\"payload\":{\"userId\":\""@[9]) by {
                                assert(action_wire(found) == crate::wire::wire_delete_planting(found->DeletePlanting_0));
                            }
                            assert(s@[9] == "{\"type\":\"CreatePlanting\",\"payload\":{\"userId\":\""@[9]);
                            assert(false);
                        },
                        Action::DeletePlanting(p) => {
                            assert(action_serializable(Action::DeletePlanting(p)) && s@ == crate::wire::wire_delete_planting(p));
                        },
                        Action::MovePlanting(p) => {
                            reveal_strlit("{\"type\":\"DeletePlanting\",\"payload\":{\"userId\":\"");
                            reveal_strlit("{\"type\":\"MovePlanting\",\"payload\":{\"userId\":\"");
                            assert(s@[9] == "{\"type\":\"DeletePlanting\",\"payload\":{\"userId\":\""@[9]) by {
                                assert(action_wire(found) == crate::wire::wire_delete_planting(found->DeletePlanting_0));
                            }
                            assert(s@[9] == "{\"type\":\"MovePlanting\",\"payload\":{\"userId\":\""@[9]);
                            assert(false);
                        },
                        Action::TransformPlanting(p) => {
                            reveal_strlit("{\"type\":\"DeletePlanting\",\"payload\":{\"userId\":\"");
                            reveal_strlit("{\"type\":\"TransformPlanting\",\"payload\":{\"userId\":\"");
                            assert(s@[9] == "{\"type\":\"DeletePlanting\",\"payload\":{\"userId\":\""@[9]) by {
                                assert(action_wire(found) == crate::wire::wire_delete_planting(found->DeletePlanting_0));
                            }
                            assert(s@[9] == "{\"type\":\"TransformPlanting\",\"payload\":{\"userId\":\""@[9]);
                            assert(false);
                        },
                        Action::CreateBaseLayerImage(p) => {
                            reveal_strlit("{\"type\":\"DeletePlanting\",\"payload\":{\"userId\":\"");
                            reveal_strlit("{\"type\":\"CreateBaseLayerImage\",\"payload\":{\"userId\":\"");
                            assert(s@[9] == "{\"type\":\"DeletePlanting\",\"payload\":{\"userId\":\""@[9]) by {
                                assert(action_wire(found) == crate::wire::wire_delete_planting(found->DeletePlanting_0));
                            }
                            assert(s@[9] == "{\"type\":\"CreateBaseLayerImage\",\"payload\":{\"userId\":\""@[9]);
                            assert(false);
                        },
                        Action::UpdateBaseLayerImage(p) => {
                            reveal_strlit("{\"type\":\"DeletePlanting\",\"payload\":{\"userId\":\"");
                            reveal_strlit("{\"type\":\"UpdateBaseLayerImage\",\"payload\":{\"userId\":\"");
                            assert(s@[9] == "{\"type\":\"DeletePlanting\",\"payload\":{\"userId\":\""@[9]) by {
                                assert(action_wire(found) == crate::wire::wire_delete_planting(found->DeletePlanting_0));
                            }
                            assert(s@[9] == "{\"type\":\"UpdateBaseLayerImage\",\"payload\":{\"userId\":\""@[9]);
                            assert(false);
                        },
                        Action::DeleteBaseLayerImage(p) => {
                            reveal_strlit("{\"type\":\"DeletePlanting\",\"payload\":{\"userId\":\"");
                            reveal_strlit("{\"type\":\"DeleteBaseLayerImage\",\"payload\":{\"userId\":\"");
                            assert(s@[15] == "{\"type\":\"DeletePlanting\",\"payload\":{\"userId\":\""@[15]) by {
                                assert(action_wire(found) == crate::wire::wire_delete_planting(found->DeletePlanting_0));
                            }
                            assert(s@[15] == "{\"type\":\"DeleteBaseLayerImage\",\"payload\":{\"userId\":\""@[15]);
                            assert(false);
                        },
                    }
                }
            }
            return Some(found);
        },
        None => {},
    }
    match decode_move_planting(s) {
        Some(found) => {
            proof {
                assert forall|a: Action| (action_serializable(a) && s@ == action_wire(a)) implies action_matches(found, a) by {
                    match a {
                        Action::CreatePlanting(p) => {
                            reveal_strlit("{\"type\":\"MovePlanting\",\"payload\":{\"userId\":\"");
                            reveal_strlit("{\"type\":\"CreatePlanting\",\"payload\":{\"userId\":\"");
                            assert(s@[9] == "{\"type\":\"MovePlanting\",\"payload\":{\"userId\":\""@[9]) by {
                                assert(action_wire(found) == crate::wire::wire_move_planting(found->MovePlanting_0));
                            }
                            assert(s@[9] == "{\"type\":\"CreatePlanting\",\"payload\":{\"userId\":\""@[9]);
                            assert(false);
                        },
                        Action::DeletePlanting(p) => {
                            reveal_strlit("{\"type\":\"MovePlanting\",\"payload\":{\"userId\":\"");
                            reveal_strlit("{\"type\":\"DeletePlanting\",\"payload\":{\"userId\":\"");
                            assert(s@[9] == "{\"type\":\"MovePlanting\",\"payload\":{\"userId\":\""@[9]) by {
                                assert(action_wire(found) == crate::wire::wire_move_planting(found->MovePlanting_0));
                            }
                            assert(s@[9] == "{\"type\":\"DeletePlanting\",\"payload\":{\"userId\":\""@[9]);
                            assert(false);
                        },
                        Action::MovePlanting(p) => {
                            assert(action_serializable(Action::MovePlanting(p)) && s@ == crate::wire::wire_move_planting(p));
                        },
                        Action::TransformPlanting(p) => {
                            reveal_strlit("{\"type\":\"MovePlanting\",\"payload\":{\"userId\":\"");
                            reveal_strlit("{\"type\":\"TransformPlanting\",\"payload\":{\"userId\":\"");
                            assert(s@[9] == "{\"type\":\"MovePlanting\",\"payload\":{\"userId\":\""@[9]) by {
                                assert(action_wire(found) == crate::wire::wire_move_planting(found->MovePlanting_0));
                            }
                            assert(s@[9] == "{\"type\":\"TransformPlanting\",\"payload\":{\"userId\":\""@[9]);
                            assert(false);
                        },
                        Action::CreateBaseLayerImage(p) => {
                            reveal_strlit("{\"type\":\"MovePlanting\",\"payload\":{\"userId\":\"");
                            reveal_strlit("{\"type\":\"CreateBaseLayerImage\",\"payload\":{\"userId\":\"");
                            assert(s@[9] == "{\"type\":\"MovePlanting\",\"payload\":{\"userId\":\""@[9]) by {
                                assert(action_wire(found) == crate::wire::wire_move_planting(found->MovePlanting_0));
                            }
                            assert(s@[9] == "{\"type\":\"CreateBaseLayerImage\",\"payload\":{\"userId\":\""@[9]);
                            assert(false);
                        },
                        Action::UpdateBaseLayerImage(p) => {
                            reveal_strlit("{\"type\":\"MovePlanting\",\"payload\":{\"userId\":\"");
                            reveal_strlit("{\"type\":\"UpdateBaseLayerImage\",\"payload\":{\"userId\":\"");
                            assert(s@[9] == "{\"type\":\"MovePlanting\",\"payload\":{\"userId\":\""@[9]) by {
                                assert(action_wire(found) == crate::wire::wire_move_planting(found->MovePlanting_0));
                            }
                            assert(s@[9] == "{\"type\":\"UpdateBaseLayerImage\",\"payload\":{\"userId\":\""@[9]);
                            assert(false);
                        },
                        Action::DeleteBaseLayerImage(p) => {
                            reveal_strlit("{\"type\":\"MovePlanting\",\"payload\":{\"userId\":\"");
                            reveal_strlit("{\"type\":\"DeleteBaseLayerImage\",\"payload\":{\"userId\":\"");
                            assert(s@[9] == "{\"type\":\"MovePlanting\",\"payload\":{\"userId\":\""@[9]) by {
                                assert(action_wire(found) == crate::wire::wire_move_planting(found->MovePlanting_0));
                            }
                            assert(s@[9] == "{\"type\":\"DeleteBaseLayerImage\",\"payload\":{\"userId\":\""@[9]);
                            assert(false);
                        },
                    }
                }
            }
            return Some(found);
        },
        None => {},
    }
    match decode_transform_planting(s) {
        Some(found) => {
            proof {
                assert forall|a: Action| (action_serializable(a) && s@ == action_wire(a)) implies action_matches(found, a) by {
                    match a {
                        Action::CreatePlanting(p) => {
                            reveal_strlit("{\"type\":\"TransformPlanting\",\"payload\":{\"userId\":\"");
                            reveal_strlit("{\"type\":\"CreatePlanting\",\"payload\":{\"userId\":\"");
                            assert(s@[9] == "{\"type\":\"TransformPlanting\",\"payload\":{\"userId\":\""@[9]) by {
                                assert(action_wire(found) == crate::wire::wire_transform_planting(found->TransformPlanting_0));
                            }
                            assert(s@[9] == "{\"type\":\"CreatePlanting\",\"payload\":{\"userId\":\""@[9]);
                            assert(false);
                        },
                        Action::DeletePlanting(p) => {
                            reveal_strlit("{\"type\":\"TransformPlanting\",\"payload\":{\"userId\":\"");
                            reveal_strlit("{\"type\":\"DeletePlanting\",\"payload\":{\"userId\":\"");
                            assert(s@[9] == "{\"type\":\"TransformPlanting\",\"payload\":{\"userId\":\""@[9]) by {
                                assert(action_wire(found) == crate::wire::wire_transform_planting(found->TransformPlanting_0));
                            }
                            assert(s@[9] == "{\"type\":\"DeletePlanting\",\"payload\":{\"userId\":\""@[9]);
                            assert(false);
                        },
                        Action::MovePlanting(p) => {
                            reveal_strlit("{\"type\":\"TransformPlanting\",\"payload\":{\"userId\":\"");
                            reveal_strlit("{\"type\":\"MovePlanting\",\"payload\":{\"userId\":\"");
                            assert(s@[9] == "{\"type\":\"TransformPlanting\",\"payload\":{\"userId\":\""@[9]) by {
                                assert(action_wire(found) == crate::wire::wire_transform_planting(found->TransformPlanting_0));
                            }
                            assert(s@[9] == "{\"type\":\"MovePlanting\",\"payload\":{\"userId\":\""@[9]);
                            assert(false);
                        },
                        Action::TransformPlanting(p) => {
                            assert(action_serializable(Action::TransformPlanting(p)) && s@ == crate::wire::wire_transform_planting(p));
                        },
                        Action::CreateBaseLayerImage(p) => {
                            reveal_strlit("{\"type\":\"TransformPlanting\",\"payload\":{\"userId\":\"");
                            reveal_strlit("{\"type\":\"CreateBaseLayerImage\",\"payload\":{\"userId\":\"");
                            assert(s@[9] == "{\"type\":\"TransformPlanting\",\"payload\":{\"userId\":\""@[9]) by {
                                assert(action_wire(found) == crate::wire::wire_transform_planting(found->TransformPlanting_0));
                            }
                            assert(s@[9] == "{\"type\":\"CreateBaseLayerImage\",\"payload\":{\"userId\":\""@[9]);
                            assert(false);
                        },
                        Action::UpdateBaseLayerImage(p) => {
                            reveal_strlit("{\"type\":\"TransformPlanting\",\"payload\":{\"userId\":\"");
                            reveal_strlit("{\"type\":\"UpdateBaseLayerImage\",\"payload\":{\"userId\":\"");
                            assert(s@[9] == "{\"type\":\"TransformPlanting\",\"payload\":{\"userId\":\""@[9]) by {
                                assert(action_wire(found) == crate::wire::wire_transform_planting(found->TransformPlanting_0));
                            }
                            assert(s@[9] == "{\"type\":\"UpdateBaseLayerImage\",\"payload\":{\"userId\":\""@[9]);
                            assert(false);
                        },
                        Action::DeleteBaseLayerImage(p) => {
                            reveal_strlit("{\"type\":\"TransformPlanting\",\"payload\":{\"userId\":\"");
                            reveal_strlit("{\"type\":\"DeleteBaseLayerImage\",\"payload\":{\"userId\":\"");
                            assert(s@[9] == "{\"type\":\"TransformPlanting\",\"payload\":{\"userId\":\""@[9]) by {
                                assert(action_wire(found) == crate::wire::wire_transform_planting(found->TransformPlanting_0));
                            }
                            assert(s@[9] == "{\"type\":\"DeleteBaseLayerImage\",\"payload\":{\"userId\":\""@[9]);
                            assert(false);
                        },
                    }
                }
            }
            return Some(found);
        },
        None => {},
    }
    match decode_create_base_layer_image(s) {
        Some(found) => {
            proof {
                assert forall|a: Action| (action_serializable(a) && s@ == action_wire(a)) implies action_matches(found, a) by {
                    match a {
                        Action::CreatePlanting(p) => {
                            reveal_strlit("{\"type\":\"CreateBaseLayerImage\",\"payload\":{\"userId\":\"");
                            reveal_strlit("{\"type\":\"CreatePlanting\",\"payload\":{\"userId\":\"");
                            assert(s@[15] == "{\"type\":\"CreateBaseLayerImage\",\"payload\":{\"userId\":\""@[15]) by {
                                assert(action_wire(found) == crate::wire::wire_create_base_layer_image(found->CreateBaseLayerImage_0));
                            }
                            assert(s@[15] == "{\"type\":\"CreatePlanting\",\"payload\":{\"userId\":\""@[15]);
                            assert(false);
                        },
                        Action::DeletePlanting(p) => {
                            reveal_strlit("{\"type\":\"CreateBaseLayerImage\",\"payload\":{\"userId\":\"");
                            reveal_strlit("{\"type\":\"DeletePlanting\",\"payload\":{\"userId\":\"");
                            assert(s@[9] == "{\"type\":\"CreateBaseLayerImage\",\"payload\":{\"userId\":\""@[9]) by {
                                assert(action_wire(found) == crate::wire::wire_create_base_layer_image(found->CreateBaseLayerImage_0));
                            }
                            assert(s@[9] == "{\"type\":\"DeletePlanting\",\"payload\":{\"userId\":\""@[9]);
                            assert(false);
                        },
                        Action::MovePlanting(p) => {
                            reveal_strlit("{\"type\":\"CreateBaseLayerImage\",\"payload\":{\"userId\":\"");
                            reveal_strlit("{\"type\":\"MovePlanting\",\"payload\":{\"userId\":\"");
                            assert(s@[9] == "{\"type\":\"CreateBaseLayerImage\",\"payload\":{\"userId\":\""@[9]) by {
                                assert(action_wire(found) == crate::wire::wire_create_base_layer_image(found->CreateBaseLayerImage_0));
                            }
                            assert(s@[9] == "{\"type\":\"MovePlanting\",\"payload\":{\"userId\":\""@[9]);
                            assert(false);
                        },
                        Action::TransformPlanting(p) => {
                            reveal_strlit("{\"type\":\"CreateBaseLayerImage\",\"payload\":{\"userId\":\"");
                            reveal_strlit("{\"type\":\"TransformPlanting\",\"payload\":{\"userId\":\"");
                            assert(s@[9] == "{\"type\":\"CreateBaseLayerImage\",\"payload\":{\"userId\":\""@[9]) by {
                                assert(action_wire(found) == crate::wire::wire_create_base_layer_image(found->CreateBaseLayerImage_0));
                            }
                            assert(s@[9] == "{\"type\":\"TransformPlanting\",\"payload\":{\"userId\":\""@[9]);
                            assert(false);
                        },
                        Action::CreateBaseLayerImage(p) => {
                            assert(action_serializable(Action::CreateBaseLayerImage(p)) && s@ == crate::wire::wire_create_base_layer_image(p));
                        },
                        Action::UpdateBaseLayerImage(p) => {
                            reveal_strlit("{\"type\":\"CreateBaseLayerImage\",\"payload\":{\"userId\":\"");
                            reveal_strlit("{\"type\":\"UpdateBaseLayerImage\",\"payload\":{\"userId\":\"");
                            assert(s@[9] == "{\"type\":\"CreateBaseLayerImage\",\"payload\":{\"userId\":\""@[9]) by {
                                assert(action_wire(found) == crate::wire::wire_create_base_layer_image(found->CreateBaseLayerImage_0));
                            }
                            assert(s@[9] == "{\"type\":\"UpdateBaseLayerImage\",\"payload\":{\"userId\":\""@[9]);
                            assert(false);
                        },
                        Action::DeleteBaseLayerImage(p) => {
                            reveal_strlit("{\"type\":\"CreateBaseLayerImage\",\"payload\":{\"userId\":\"");
                            reveal_strlit("{\"type\":\"DeleteBaseLayerImage\",\"payload\":{\"userId\":\"");
                            assert(s@[9] == "{\"type\":\"CreateBaseLayerImage\",\"payload\":{\"userId\":\""@[9]) by {
                                assert(action_wire(found) == crate::wire::wire_create_base_layer_image(found->CreateBaseLayerImage_0));
                            }
                            assert(s@[9] == "{\"type\":\"DeleteBaseLayerImage\",\"payload\":{\"userId\":\""@[9]);
                            assert(false);
                        },
                    }
                }
            }
            return Some(found);
        },
        None => {},
    }
    match decode_update_base_layer_image(s) {
        Some(found) => {
            proof {
                assert forall|a: Action| (action_serializable(a) && s@ == action_wire(a)) implies action_matches(found, a) by {
                    match a {
                        Action::CreatePlanting(p) => {
                            reveal_strlit("{\"type\":\"UpdateBaseLayerImage\",\"payload\":{\"userId\":\"");
                            reveal_strlit("{\"type\":\"CreatePlanting\",\"payload\":{\"userId\":\"");
                            assert(s@[9] == "{\"type\":\"UpdateBaseLayerImage\",\"payload\":{\"userId\":\""@[9]) by {
                                assert(action_wire(found) == crate::wire::wire_update_base_layer_image(found->UpdateBaseLayerImage_0));
                            }
                            assert(s@[9] == "{\"type\":\"CreatePlanting\",\"payload\":{\"userId\":\""@[9]);
                            assert(false);
                        },
                        Action::DeletePlanting(p) => {
                            reveal_strlit("{\"type\":\"UpdateBaseLayerImage\",\"payload\":{\"userId\":\"");
                            reveal_strlit("{\"type\":\"DeletePlanting\",\"payload\":{\"userId\":\"");
                            assert(s@[9] == "{\"type\":\"UpdateBaseLayerImage\",\"payload\":{\"userId\":\""@[9]) by {
                                assert(action_wire(found) == crate::wire::wire_update_base_layer_image(found->UpdateBaseLayerImage_0));
                            }
                            assert(s@[9] == "{\"type\":\"DeletePlanting\",\"payload\":{\"userId\":\""@[9]);
                            assert(false);
                        },
                        Action::MovePlanting(p) => {
                            reveal_strlit("{\"type\":\"UpdateBaseLayerImage\",\"payload\":{\"userId\":\"");
                            reveal_strlit("{\"type\":\"MovePlanting\",\"payload\":{\"userId\":\"");
                            assert(s@[9] == "{\"type\":\"UpdateBaseLayerImage\",\"payload\":{\"userId\":\""@[9]) by {
                                assert(action_wire(found) == crate::wire::wire_update_base_layer_image(found->UpdateBaseLayerImage_0));
                            }
                            assert(s@[9] == "{\"type\":\"MovePlanting\",\"payload\":{\"userId\":\""@[9]);
                            assert(false);
                        },
                        Action::TransformPlanting(p) => {
                            reveal_strlit("{\"type\":\"UpdateBaseLayerImage\",\"payload\":{\"userId\":\"");
                            reveal_strlit("{\"type\":\"TransformPlanting\",\"payload\":{\"userId\":\"");
                            assert(s@[9] == "{\"type\":\"UpdateBaseLayerImage\",\"payload\":{\"userId\":\""@[9]) by {
                                assert(action_wire(found) == crate::wire::wire_update_base_layer_image(found->UpdateBaseLayerImage_0));
                            }
                            assert(s@[9] == "{\"type\":\"TransformPlanting\",\"payload\":{\"userId\":\""@[9]);
                            assert(false);
                        },
                        Action::CreateBaseLayerImage(p) => {
                            reveal_strlit("{\"type\":\"UpdateBaseLayerImage\",\"payload\":{\"userId\":\"");
                            reveal_strlit("{\"type\":\"CreateBaseLayerImage\",\"payload\":{\"userId\":\"");
                            assert(s@[9] == "{\"type\":\"UpdateBaseLayerImage\",\"payload\":{\"userId\":\""@[9]) by {
                                assert(action_wire(found) == crate::wire::wire_update_base_layer_image(found->UpdateBaseLayerImage_0));
                            }
                            assert(s@[9] == "{\"type\":\"CreateBaseLayerImage\",\"payload\":{\"userId\":\""@[9]);
                            assert(false);
                        },
                        Action::UpdateBaseLayerImage(p) => {
                            assert(action_serializable(Action::UpdateBaseLayerImage(p)) && s@ == crate::wire::wire_update_base_layer_image(p));
                        },
                        Action::DeleteBaseLayerImage(p) => {
                            reveal_strlit("{\"type\":\"UpdateBaseLayerImage\",\"payload\":{\"userId\":\"");
                            reveal_strlit("{\"type\":\"DeleteBaseLayerImage\",\"payload\":{\"userId\":\"");
                            assert(s@[9] == "{\"type\":\"UpdateBaseLayerImage\",\"payload\":{\"userId\":\""@[9]) by {
                                assert(action_wire(found) == crate::wire::wire_update_base_layer_image(found->UpdateBaseLayerImage_0));
                            }
                            assert(s@[9] == "{\"type\":\"DeleteBaseLayerImage\",\"payload\":{\"userId\":\""@[9]);
                            assert(false);
                        },
                    }
                }
            }
            return Some(found);
        },
        None => {},
    }
    match decode_delete_base_layer_image(s) {
        Some(found) => {
            proof {
                assert forall|a: Action| (action_serializable(a) && s@ == action_wire(a)) implies action_matches(found, a) by {
                    match a {
                        Action::CreatePlanting(p) => {
                            reveal_strlit("{\"type\":\"DeleteBaseLayerImage\",\"payload\":{\"userId\":\"");
                            reveal_strlit("{\"type\":\"CreatePlanting\",\"payload\":{\"userId\":\"");
                            assert(s@[9] == "{\"type\":\"DeleteBaseLayerImage\",\"payload\":{\"userId\":\""@[9]) by {
                                assert(action_wire(found) == crate::wire::wire_delete_base_layer_image(found->DeleteBaseLayerImage_0));
                            }
                            assert(s@[9] == "{\"type\":\"CreatePlanting\",\"payload\":{\"userId\":\""@[9]);
                            assert(false);
                        },
                        Action::DeletePlanting(p) => {
                            reveal_strlit("{\"type\":\"DeleteBaseLayerImage\",\"payload\":{\"userId\":\"");
                            reveal_strlit("{\"type\":\"DeletePlanting\",\"payload\":{\"userId\":\"");
                            assert(s@[15] == "{\"type\":\"DeleteBaseLayerImage\",\"payload\":{\"userId\":\""@[15]) by {
                                assert(action_wire(found) == crate::wire::wire_delete_base_layer_image(found->DeleteBaseLayerImage_0));
                            }
                            assert(s@[15] == "{\"type\":\"DeletePlanting\",\"payload\":{\"userId\":\""@[15]);
                            assert(false);
                        },
                        Action::MovePlanting(p) => {
                            reveal_strlit("{\"type\":\"DeleteBaseLayerImage\",\"payload\":{\"userId\":\"");
                            reveal_strlit("{\"type\":\"MovePlanting\",\"payload\":{\"userId\":\"");
                            assert(s@[9] == "{\"type\":\"DeleteBaseLayerImage\",\"payload\":{\"userId\":\""@[9]) by {
                                assert(action_wire(found) == crate::wire::wire_delete_base_layer_image(found->DeleteBaseLayerImage_0));
                            }
                            assert(s@[9] == "{\"type\":\"MovePlanting\",\"payload\":{\"userId\":\""@[9]);
                            assert(false);
                        },
                        Action::TransformPlanting(p) => {
                            reveal_strlit("{\"type\":\"DeleteBaseLayerImage\",\"payload\":{\"userId\":\"");
                            reveal_strlit("{\"type\":\"TransformPlanting\",\"payload\":{\"userId\":\"");
                            assert(s@[9] == "{\"type\":\"DeleteBaseLayerImage\",\"payload\":{\"userId\":\""@[9]) by {
                                assert(action_wire(found) == crate::wire::wire_delete_base_layer_image(found->DeleteBaseLayerImage_0));
                            }
                            assert(s@[9] == "{\"type\":\"TransformPlanting\",\"payload\":{\"userId\":\""@[9]);
                            assert(false);
                        },
                        Action::CreateBaseLayerImage(p) => {
                            reveal_strlit("{\"type\":\"DeleteBaseLayerImage\",\"payload\":{\"userId\":\"");
                            reveal_strlit("{\"type\":\"CreateBaseLayerImage\",\"payload\":{\"userId\":\"");
                            assert(s@[9] == "{\"type\":\"DeleteBaseLayerImage\",\"payload\":{\"userId\":\""@[9]) by {
                                assert(action_wire(found) == crate::wire::wire_delete_base_layer_image(found->DeleteBaseLayerImage_0));
                            }
                            assert(s@[9] == "{\"type\":\"CreateBaseLayerImage\",\"payload\":{\"userId\":\""@[9]);
                            assert(false);
                        },
                        Action::UpdateBaseLayerImage(p) => {
                            reveal_strlit("{\"type\":\"DeleteBaseLayerImage\",\"payload\":{\"userId\":\"");
                            reveal_strlit("{\"type\":\"UpdateBaseLayerImage\",\"payload\":{\"userId\":\"");
                            assert(s@[9] == "{\"type\":\"DeleteBaseLayerImage\",\"payload\":{\"userId\":\""@[9]) by {
                                assert(action_wire(found) == crate::wire::wire_delete_base_layer_image(found->DeleteBaseLayerImage_0));
                            }
                            assert(s@[9] == "{\"type\":\"UpdateBaseLayerImage\",\"payload\":{\"userId\":\""@[9]);
                            assert(false);
                        },
                        Action::DeleteBaseLayerImage(p) => {
                            assert(action_serializable(Action::DeleteBaseLayerImage(p)) && s@ == crate::wire::wire_delete_base_layer_image(p));
                        },
                    }
                }
            }
            return Some(found);
        },
        None => {},
    }
    proof {
        assert forall|a: Action| !(action_serializable(a) && s@ == action_wire(a)) by {
            match a {
                Action::CreatePlanting(p) => {
                    if action_serializable(Action::CreatePlanting(p)) && s@ == crate::wire::wire_create_planting(p) {
                        assert(false);
                    }
                },
                Action::DeletePlanting(p) => {
                    if action_serializable(Action::DeletePlanting(p)) && s@ == crate::wire::wire_delete_planting(p) {
                        assert(false);
                    }
                },
                Action::MovePlanting(p) => {
                    if action_serializable(Action::MovePlanting(p)) && s@ == crate::wire::wire_move_planting(p) {
                        assert(false);
                    }
                },
                Action::TransformPlanting(p) => {
                    if action_serializable(Action::TransformPlanting(p)) && s@ == crate::wire::wire_transform_planting(p) {
                        assert(false);
                    }
                },
                Action::CreateBaseLayerImage(p) => {
                    if action_serializable(Action::CreateBaseLayerImage(p)) && s@ == crate::wire::wire_create_base_layer_image(p) {
                        assert(false);
                    }
                },
                Action::UpdateBaseLayerImage(p) => {
                    if action_serializable(Action::UpdateBaseLayerImage(p)) && s@ == crate::wire::wire_update_base_layer_image(p) {
                        assert(false);
                    }
                },
                Action::DeleteBaseLayerImage(p) => {
                    if action_serializable(Action::DeleteBaseLayerImage(p)) && s@ == crate::wire::wire_delete_base_layer_image(p) {
                        assert(false);
                    }
                },
            }
        }
    }
    None
}

/// Round trip: an action, encoded and decoded again, comes back with the
/// same tag and the same field values; an action that cannot be encoded
/// yields nothing.
pub fn reencode_action(a: &Action) -> (r: Option<Action>)
    ensures
        action_serializable(*a) ==> (r is Some && action_matches(r->0, *a)),
        !action_serializable(*a) ==> r is None,
{
    match serialize_action(a) {
        Ok(frame) => deserialize_action(frame.as_str()),
        Err(_) => None,
    }
}

} // verus!
