//! The text encoding of the records the store persists.
//!
//! A record is a run of length-prefixed fields: each field is the decimal
//! character count of its content, a `:`, then the content.  Numbers are
//! fields holding their decimal digits, booleans fields holding `t` or `f`.
//! Decoding is proved to invert encoding, so a value read back from the
//! store is exactly the value that was written.

use vstd::prelude::*;
use vstd::arithmetic::div_mod::lemma_fundamental_div_mod;
use crate::auth_info::BitbucketAuthInfo;
use crate::auth_info::BitbucketAuthInfoModel;
use crate::prs::PrInfo;
use crate::prs::PrInfoModel;
use crate::prs::pr_state_code;
use crate::prs::pr_state_of_code;
use crate::prs::spec_pr_state_code;
use crate::prs::spec_pr_state_of_code;
use crate::prs::lemma_pr_state_code_round_trip;
use crate::webhook::Webhook;
use crate::webhook::WebhookModel;

verus! {

/// Whether `c` is a decimal digit.
pub open spec fn spec_is_digit(c: char) -> bool {
    '0' as int <= c as int && c as int <= '9' as int
}

/// The numeric value of a digit character.
pub open spec fn spec_digit_val(c: char) -> int {
    c as int - '0' as int
}

/// The digit character for a value below ten.
pub open spec fn spec_digit_char(d: int) -> char {
    if d == 0 {
        '0'
    } else if d == 1 {
        '1'
    } else if d == 2 {
        '2'
    } else if d == 3 {
        '3'
    } else if d == 4 {
        '4'
    } else if d == 5 {
        '5'
    } else if d == 6 {
        '6'
    } else if d == 7 {
        '7'
    } else if d == 8 {
        '8'
    } else {
        '9'
    }
}

/// The decimal digits of `n`, most significant first.
pub open spec fn spec_dec_digits(n: nat) -> Seq<char>
    decreases n,
{
    if n < 10 {
        seq![spec_digit_char(n as int)]
    } else {
        spec_dec_digits(n / 10).push(spec_digit_char((n % 10) as int))
    }
}

/// The value of a run of digit characters, most significant first.
pub open spec fn spec_digits_value(s: Seq<char>) -> int
    decreases s.len(),
{
    if s.len() == 0 {
        0
    } else {
        spec_digits_value(s.drop_last()) * 10 + spec_digit_val(s.last())
    }
}

pub open spec fn spec_all_digits(s: Seq<char>) -> bool {
    forall|i: int| 0 <= i < s.len() ==> spec_is_digit(#[trigger] s[i])
}

pub proof fn lemma_dec_digits_are_digits(n: nat)
    ensures
        spec_all_digits(spec_dec_digits(n)),
    decreases n,
{
    if n >= 10 {
        lemma_dec_digits_are_digits(n / 10);
        let prefix = spec_dec_digits(n / 10);
        let whole = spec_dec_digits(n);
        assert forall|i: int| 0 <= i < whole.len() implies spec_is_digit(whole[i]) by {
            if i < prefix.len() {
                assert(whole[i] == prefix[i]);
            }
        }
    }
}

/// A digit character decodes to the value it was made from.
pub proof fn lemma_digit_val_of_digit_char(d: int)
    requires
        0 <= d < 10,
    ensures
        spec_digit_val(spec_digit_char(d)) == d,
{
}

/// Decoding the decimal digits of `n` yields `n` back.
pub proof fn lemma_digits_value_of_dec_digits(n: nat)
    ensures
        spec_digits_value(spec_dec_digits(n)) == n,
    decreases n,
{
    let s = spec_dec_digits(n);
    if n < 10 {
        assert(s == seq![spec_digit_char(n as int)]);
        assert(s.drop_last() =~= Seq::<char>::empty());
        assert(spec_digits_value(s.drop_last()) == 0);
        assert(s.last() == spec_digit_char(n as int));
        lemma_digit_val_of_digit_char(n as int);
        assert(spec_digits_value(s) == spec_digit_val(spec_digit_char(n as int)));
    } else {
        lemma_digits_value_of_dec_digits(n / 10);
        assert(s == spec_dec_digits(n / 10).push(spec_digit_char((n % 10) as int)));
        assert(s.drop_last() =~= spec_dec_digits(n / 10));
        assert(s.last() == spec_digit_char((n % 10) as int));
        lemma_digit_val_of_digit_char((n % 10) as int);
        assert(spec_digits_value(s) == spec_digits_value(s.drop_last()) * 10 + spec_digit_val(
            s.last(),
        ));
        lemma_fundamental_div_mod(n as int, 10);
        assert(spec_digits_value(s) == (n / 10) * 10 + (n % 10));
    }
}

/// The value of a digit run never shrinks as digits are appended.
pub proof fn lemma_digits_value_monotone(s: Seq<char>, j: int)
    requires
        spec_all_digits(s),
        0 <= j <= s.len(),
    ensures
        spec_digits_value(s) >= spec_digits_value(s.take(j)),
        spec_digits_value(s) >= 0,
    decreases s.len() - j,
{
    if j == s.len() {
        assert(s.take(j) =~= s);
        lemma_digits_value_nonneg(s);
    } else {
        lemma_digits_value_monotone(s, j + 1);
        assert(s.take(j + 1).drop_last() =~= s.take(j));
        assert(spec_is_digit(s[j]));
        lemma_digits_value_nonneg(s.take(j));
    }
}

pub proof fn lemma_digits_value_nonneg(s: Seq<char>)
    requires
        spec_all_digits(s),
    ensures
        spec_digits_value(s) >= 0,
    decreases s.len(),
{
    if s.len() > 0 {
        assert(spec_all_digits(s.drop_last())) by {
            assert(forall|i: int|
                0 <= i < s.len() - 1 ==> #[trigger] (s.drop_last()[i]) == s[i]);
        }
        lemma_digits_value_nonneg(s.drop_last());
    }
}

fn exec_is_digit(c: char) -> (r: bool)
    ensures
        r == spec_is_digit(c),
{
    c >= '0' && c <= '9'
}

fn exec_digit_val(c: char) -> (r: u64)
    requires
        spec_is_digit(c),
    ensures
        r == spec_digit_val(c),
{
    (c as u64) - ('0' as u64)
}

fn exec_digit_char(d: u64) -> (c: char)
    requires
        d < 10,
    ensures
        c == spec_digit_char(d as int),
{
    if d == 0 {
        '0'
    } else if d == 1 {
        '1'
    } else if d == 2 {
        '2'
    } else if d == 3 {
        '3'
    } else if d == 4 {
        '4'
    } else if d == 5 {
        '5'
    } else if d == 6 {
        '6'
    } else if d == 7 {
        '7'
    } else if d == 8 {
        '8'
    } else {
        '9'
    }
}

/// The decimal text of `n`.
pub fn u64_to_dec_string(n: u64) -> (r: String)
    ensures
        r@ == spec_dec_digits(n as nat),
{
    if n < 10 {
        let mut out = String::new();
        let d = exec_digit_char(n);
        push_char(&mut out, d);
        proof {
            assert(out@ =~= spec_dec_digits(n as nat));
        }
        return out;
    }
    let mut acc = String::new();
    let mut cur: u64 = n;
    while cur > 0
        invariant
            cur > 0 ==> spec_dec_digits(n as nat) == spec_dec_digits(cur as nat) + acc@,
            cur == 0 ==> acc@ == spec_dec_digits(n as nat),
        decreases cur,
    {
        let d = cur % 10;
        let rest = cur / 10;
        let mut next = String::new();
        push_char(&mut next, exec_digit_char(d));
        next.append(acc.as_str());
        proof {
            if rest > 0 {
                assert(spec_dec_digits(cur as nat) == spec_dec_digits(rest as nat).push(
                    spec_digit_char(d as int),
                ));
                assert(spec_dec_digits(rest as nat).push(spec_digit_char(d as int)) + acc@
                    =~= spec_dec_digits(rest as nat) + next@);
            } else {
                assert(cur < 10);
                assert(spec_dec_digits(cur as nat) =~= seq![spec_digit_char(d as int)]);
                assert(spec_dec_digits(cur as nat) + acc@ =~= next@);
            }
        }
        acc = next;
        cur = rest;
    }
    acc
}

/// Relies on `String::push` of std, which vstd leaves unspecified: appends
/// the given character to the end of the string.
pub assume_specification[ String::push ](s: &mut String, c: char)
    ensures
        final(s)@ == old(s)@.push(c),
;

/// Append one character to a string.
fn push_char(out: &mut String, c: char)
    ensures
        final(out)@ == old(out)@.push(c),
{
    out.push(c);
}

/// The encoding of one field: the decimal character count of the content,
/// a colon, then the content.
pub open spec fn spec_enc_str(s: Seq<char>) -> Seq<char> {
    spec_dec_digits(s.len()) + seq![':'] + s
}

/// Append the encoding of field `s` to `out`.
pub fn enc_str_field(out: &mut String, s: &String)
    ensures
        final(out)@ == old(out)@ + spec_enc_str(s@),
{
    let l = s.as_str().unicode_len();
    let digits = u64_to_dec_string(l as u64);
    out.append(digits.as_str());
    push_char(out, ':');
    out.append(s.as_str());
    proof {
        assert(final(out)@ =~= old(out)@ + spec_enc_str(s@));
    }
}

/// How many consecutive digit characters stand at `pos`.
pub open spec fn spec_digit_run(w: Seq<char>, pos: int) -> int
    decreases w.len() - pos,
{
    if pos < 0 || pos >= w.len() {
        0
    } else if spec_is_digit(w[pos]) {
        1 + spec_digit_run(w, pos + 1)
    } else {
        0
    }
}

pub proof fn lemma_digit_run_exact(w: Seq<char>, pos: int, k: int)
    requires
        0 <= pos,
        0 <= k,
        pos + k <= w.len(),
        forall|i: int| pos <= i < pos + k ==> spec_is_digit(#[trigger] w[i]),
        pos + k == w.len() || !spec_is_digit(w[pos + k]),
    ensures
        spec_digit_run(w, pos) == k,
    decreases k,
{
    if k == 0 {
    } else {
        assert(spec_is_digit(w[pos]));
        lemma_digit_run_exact(w, pos + 1, k - 1);
    }
}

/// Decode one field at `pos`: the content and the position after it.
pub open spec fn spec_dec_field(w: Seq<char>, pos: int) -> Option<(Seq<char>, int)> {
    let k = spec_digit_run(w, pos);
    if k == 0 {
        Option::None
    } else {
        let n = spec_digits_value(w.subrange(pos, pos + k));
        if pos + k < w.len() && w[pos + k] == ':' && pos + k + 1 + n <= w.len() {
            Option::Some((w.subrange(pos + k + 1, pos + k + 1 + n), pos + k + 1 + n))
        } else {
            Option::None
        }
    }
}

/// Field round trip: where the text at `pos` is the encoding of `x`,
/// decoding yields `x` and stops right after it.
pub proof fn lemma_dec_field_of_enc(w: Seq<char>, pos: int, x: Seq<char>)
    requires
        0 <= pos,
        pos + spec_enc_str(x).len() <= w.len(),
        w.subrange(pos, pos + spec_enc_str(x).len()) == spec_enc_str(x),
    ensures
        spec_dec_field(w, pos) == Option::Some((x, pos + spec_enc_str(x).len())),
{
    let e = spec_enc_str(x);
    let dd = spec_dec_digits(x.len());
    let k = dd.len() as int;
    assert(k >= 1);
    assert forall|i: int| 0 <= i < e.len() implies w[pos + i] == e[i] by {
        assert(w.subrange(pos, pos + e.len())[i] == w[pos + i]);
    }
    lemma_dec_digits_are_digits(x.len());
    assert forall|i: int| pos <= i < pos + k implies spec_is_digit(#[trigger] w[i]) by {
        assert(w[i] == e[i - pos]);
        assert(e[i - pos] == dd[i - pos]);
    }
    assert(w[pos + k] == e[k]);
    assert(e[k] == ':');
    assert(!spec_is_digit(':'));
    lemma_digit_run_exact(w, pos, k);
    assert(w.subrange(pos, pos + k) =~= dd);
    lemma_digits_value_of_dec_digits(x.len());
    let n = spec_digits_value(w.subrange(pos, pos + k));
    assert(n == x.len());
    assert(w.subrange(pos + k + 1, pos + k + 1 + n) =~= x) by {
        assert forall|i: int| 0 <= i < n implies w.subrange(pos + k + 1, pos + k + 1 + n)[i] == x[i]
            by {
            assert(w[pos + (k + 1 + i)] == e[k + 1 + i]);
            assert(e[k + 1 + i] == x[i]);
        }
    }
}

/// Decode one field of `s` at character position `pos`.
pub fn dec_field(s: &String, pos: usize) -> (r: Option<(String, usize)>)
    ensures
        match r {
            Some((v, p2)) => spec_dec_field(s@, pos as int) == Option::Some((v@, p2 as int)),
            None => spec_dec_field(s@, pos as int) is None,
        },
{
    let st = s.as_str();
    let ulen = st.unicode_len();
    let mut k_end: usize = pos;
    let mut val: u128 = 0;
    let mut big = false;
    if pos >= ulen {
        return None;
    }
    loop
        invariant
            pos <= k_end <= ulen,
            ulen == s@.len(),
            st@ == s@,
            forall|i: int| pos <= i < k_end ==> spec_is_digit(#[trigger] s@[i]),
            !big ==> val <= usize::MAX as u128 && spec_digits_value(
                s@.subrange(pos as int, k_end as int),
            ) == val as int,
            big ==> spec_digits_value(s@.subrange(pos as int, k_end as int)) > usize::MAX as int,
        ensures
            pos <= k_end <= ulen,
            k_end == ulen || !spec_is_digit(s@[k_end as int]),
            forall|i: int| pos <= i < k_end ==> spec_is_digit(#[trigger] s@[i]),
            !big ==> val <= usize::MAX as u128 && spec_digits_value(
                s@.subrange(pos as int, k_end as int),
            ) == val as int,
            big ==> spec_digits_value(s@.subrange(pos as int, k_end as int)) > usize::MAX as int,
        decreases ulen - k_end,
    {
        if k_end >= ulen {
            break ;
        }
        let c = st.get_char(k_end);
        if !exec_is_digit(c) {
            break ;
        }
        let d = exec_digit_val(c);
        proof {
            assert(s@.subrange(pos as int, k_end + 1int).drop_last() =~= s@.subrange(
                pos as int,
                k_end as int,
            ));
            assert(s@.subrange(pos as int, k_end + 1int).last() == s@[k_end as int]);
        }
        if big {
        } else {
            let nv: u128 = val * 10 + d as u128;
            if nv > usize::MAX as u128 {
                big = true;
                val = 0;
            } else {
                val = nv;
            }
        }
        k_end = k_end + 1;
    }
    let ghost k = k_end - pos;
    proof {
        lemma_digit_run_exact(s@, pos as int, k_end - pos);
    }
    if k_end == pos {
        return None;
    }
    if big {
        proof {
            assert(spec_dec_field(s@, pos as int) is None);
        }
        return None;
    }
    if k_end >= ulen {
        return None;
    }
    let c = st.get_char(k_end);
    if c != ':' {
        return None;
    }
    let n128: u128 = k_end as u128 + 1 + val;
    if n128 > ulen as u128 {
        return None;
    }
    let n = val as usize;
    let content = st.substring_char(k_end + 1, k_end + 1 + n);
    let out = String::from_str(content);
    Some((out, k_end + 1 + n))
}

/// The encoding of a number: a field holding its decimal digits.
pub open spec fn spec_enc_u64(n: nat) -> Seq<char> {
    spec_enc_str(spec_dec_digits(n))
}

/// Decode a number field at `pos`.
pub open spec fn spec_dec_u64(w: Seq<char>, pos: int) -> Option<(u64, int)> {
    match spec_dec_field(w, pos) {
        Option::None => Option::None,
        Option::Some((v, p2)) => if v.len() > 0 && spec_all_digits(v) && spec_digits_value(v)
            <= u64::MAX as int {
            Option::Some((spec_digits_value(v) as u64, p2))
        } else {
            Option::None
        },
    }
}

/// Append the encoding of number `n` to `out`.
pub fn enc_u64_field(out: &mut String, n: u64)
    ensures
        final(out)@ == old(out)@ + spec_enc_u64(n as nat),
{
    let digits = u64_to_dec_string(n);
    enc_str_field(out, &digits);
}

fn parse_u64_all(v: &String) -> (r: Option<u64>)
    ensures
        match r {
            Some(n) => v@.len() > 0 && spec_all_digits(v@) && spec_digits_value(v@) == n as int,
            None => !(v@.len() > 0 && spec_all_digits(v@) && spec_digits_value(v@)
                <= u64::MAX as int),
        },
{
    let vs = v.as_str();
    let ulen = vs.unicode_len();
    if ulen == 0 {
        return None;
    }
    let mut j: usize = 0;
    let mut acc: u128 = 0;
    while j < ulen
        invariant
            j <= ulen,
            ulen == v@.len(),
            vs@ == v@,
            forall|i: int| 0 <= i < j ==> spec_is_digit(#[trigger] v@[i]),
            acc <= u64::MAX as u128,
            spec_digits_value(v@.take(j as int)) == acc as int,
        decreases ulen - j,
    {
        let c = vs.get_char(j);
        if !exec_is_digit(c) {
            proof {
                assert(!spec_is_digit(v@[j as int]));
            }
            return None;
        }
        let d = exec_digit_val(c);
        proof {
            assert(v@.take(j + 1int).drop_last() =~= v@.take(j as int));
            assert(v@.take(j + 1int).last() == v@[j as int]);
        }
        let nacc: u128 = acc * 10 + d as u128;
        if nacc > u64::MAX as u128 {
            proof {
                if spec_all_digits(v@) {
                    lemma_digits_value_monotone(v@, j + 1);
                }
            }
            return None;
        }
        acc = nacc;
        j = j + 1;
    }
    proof {
        assert(v@.take(ulen as int) =~= v@);
    }
    Some(acc as u64)
}

/// Decode one number field of `s` at `pos`.
pub fn dec_u64_field(s: &String, pos: usize) -> (r: Option<(u64, usize)>)
    ensures
        match r {
            Some((n, p2)) => spec_dec_u64(s@, pos as int) == Option::Some((n, p2 as int)),
            None => spec_dec_u64(s@, pos as int) is None,
        },
{
    match dec_field(s, pos) {
        None => None,
        Some((v, p2)) => match parse_u64_all(&v) {
            None => None,
            Some(n) => Some((n, p2)),
        },
    }
}

/// The encoding of a boolean: a field holding `t` or `f`.
pub open spec fn spec_enc_bool(b: bool) -> Seq<char> {
    spec_enc_str(if b { seq!['t'] } else { seq!['f'] })
}

/// Decode a boolean field at `pos`.
pub open spec fn spec_dec_bool(w: Seq<char>, pos: int) -> Option<(bool, int)> {
    match spec_dec_field(w, pos) {
        Option::None => Option::None,
        Option::Some((v, p2)) => if v == seq!['t'] {
            Option::Some((true, p2))
        } else if v == seq!['f'] {
            Option::Some((false, p2))
        } else {
            Option::None
        },
    }
}

/// Append the encoding of boolean `b` to `out`.
pub fn enc_bool_field(out: &mut String, b: bool)
    ensures
        final(out)@ == old(out)@ + spec_enc_bool(b),
{
    let mut v = String::new();
    if b {
        push_char(&mut v, 't');
    } else {
        push_char(&mut v, 'f');
    }
    proof {
        assert(v@ =~= (if b { seq!['t'] } else { seq!['f'] }));
    }
    enc_str_field(out, &v);
}

/// Decode one boolean field of `s` at `pos`.
pub fn dec_bool_field(s: &String, pos: usize) -> (r: Option<(bool, usize)>)
    ensures
        match r {
            Some((b, p2)) => spec_dec_bool(s@, pos as int) == Option::Some((b, p2 as int)),
            None => spec_dec_bool(s@, pos as int) is None,
        },
{
    proof {
        assert(seq!['t'][0] == 't');
        assert(seq!['f'][0] == 'f');
        assert(seq!['t'].len() == 1);
        assert(seq!['f'].len() == 1);
    }
    match dec_field(s, pos) {
        None => None,
        Some((v, p2)) => {
            let vs = v.as_str();
            if vs.unicode_len() != 1 {
                return None;
            }
            let c = vs.get_char(0);
            proof {
                assert(v@ =~= seq![v@[0]]);
            }
            if c == 't' {
                Some((true, p2))
            } else if c == 'f' {
                Some((false, p2))
            } else {
                None
            }
        },
    }
}

/// The encoding of an optional number: a presence flag, then the number
/// when present.
pub open spec fn spec_enc_opt_u64(o: Option<u64>) -> Seq<char> {
    match o {
        Option::None => spec_enc_bool(false),
        Option::Some(n) => spec_enc_bool(true) + spec_enc_u64(n as nat),
    }
}

/// Decode an optional-number field at `pos`.
pub open spec fn spec_dec_opt_u64(w: Seq<char>, pos: int) -> Option<(Option<u64>, int)> {
    match spec_dec_bool(w, pos) {
        Option::None => Option::None,
        Option::Some((false, p2)) => Option::Some((Option::None, p2)),
        Option::Some((true, p2)) => match spec_dec_u64(w, p2) {
            Option::None => Option::None,
            Option::Some((n, p3)) => Option::Some((Option::Some(n), p3)),
        },
    }
}

/// Append the encoding of `o` to `out`.
pub fn enc_opt_u64_field(out: &mut String, o: Option<u64>)
    ensures
        final(out)@ == old(out)@ + spec_enc_opt_u64(o),
{
    match o {
        None => {
            enc_bool_field(out, false);
        },
        Some(n) => {
            enc_bool_field(out, true);
            enc_u64_field(out, n);
            proof {
                assert(final(out)@ =~= old(out)@ + spec_enc_opt_u64(o));
            }
        },
    }
}

/// Decode one optional-number field of `s` at `pos`.
pub fn dec_opt_u64_field(s: &String, pos: usize) -> (r: Option<(Option<u64>, usize)>)
    ensures
        match r {
            Some((o, p2)) => spec_dec_opt_u64(s@, pos as int) == Option::Some((o, p2 as int)),
            None => spec_dec_opt_u64(s@, pos as int) is None,
        },
{
    match dec_bool_field(s, pos) {
        None => None,
        Some((false, p2)) => Some((None, p2)),
        Some((true, p2)) => match dec_u64_field(s, p2) {
            None => None,
            Some((n, p3)) => Some((Some(n), p3)),
        },
    }
}

/// Decoding right after a field encoding finds the encoded content.
pub proof fn lemma_dec_field_head(x: Seq<char>, tail: Seq<char>)
    ensures
        spec_dec_field(spec_enc_str(x) + tail, 0) == Option::Some((
            x,
            spec_enc_str(x).len() as int,
        )),
{
    let w = spec_enc_str(x) + tail;
    assert(w.subrange(0, spec_enc_str(x).len() as int) =~= spec_enc_str(x));
    lemma_dec_field_of_enc(w, 0, x);
}

pub proof fn lemma_digit_run_bound(w: Seq<char>, pos: int)
    requires
        0 <= pos,
    ensures
        spec_digit_run(w, pos) >= 0,
        pos <= w.len() ==> pos + spec_digit_run(w, pos) <= w.len(),
        forall|i: int|
            pos <= i < pos + spec_digit_run(w, pos) ==> spec_is_digit(#[trigger] w[i]),
    decreases w.len() - pos,
{
    if pos < w.len() && spec_is_digit(w[pos]) {
        lemma_digit_run_bound(w, pos + 1);
    }
}

/// Where a field decodes, the position moves forward and stays in range.
pub proof fn lemma_dec_field_pos_bound(w: Seq<char>, pos: int)
    requires
        0 <= pos,
    ensures
        match spec_dec_field(w, pos) {
            Option::None => true,
            Option::Some((v, p)) => pos < p <= w.len(),
        },
{
    lemma_digit_run_bound(w, pos);
    let k = spec_digit_run(w, pos);
    if k != 0 {
        assert(pos < w.len());
        let sub = w.subrange(pos, pos + k);
        assert(spec_all_digits(sub)) by {
            assert(forall|i: int| 0 <= i < k ==> #[trigger] sub[i] == w[pos + i]);
        }
        lemma_digits_value_nonneg(sub);
    }
}

/// A digit run is unchanged by text standing before the scan position.
pub proof fn lemma_digit_run_shift(u: Seq<char>, w: Seq<char>, pos: int)
    requires
        0 <= pos,
    ensures
        spec_digit_run(u + w, u.len() + pos) == spec_digit_run(w, pos),
    decreases w.len() - pos,
{
    if pos < w.len() {
        assert((u + w)[u.len() + pos] == w[pos]);
        if spec_is_digit(w[pos]) {
            lemma_digit_run_shift(u, w, pos + 1);
        }
    }
}

/// Field decoding is unchanged by text standing before the position.
pub proof fn lemma_dec_field_shift(u: Seq<char>, w: Seq<char>, pos: int)
    requires
        0 <= pos,
    ensures
        spec_dec_field(u + w, u.len() + pos) == (match spec_dec_field(w, pos) {
            Option::None => Option::None,
            Option::Some((v, p)) => Option::Some((v, u.len() + p)),
        }),
{
    lemma_digit_run_shift(u, w, pos);
    lemma_digit_run_bound(w, pos);
    lemma_dec_field_pos_bound(w, pos);
    let k = spec_digit_run(w, pos);
    if k != 0 {
        assert(pos < w.len());
        let sub = w.subrange(pos, pos + k);
        assert(spec_all_digits(sub)) by {
            assert(forall|i: int| 0 <= i < k ==> #[trigger] sub[i] == w[pos + i]);
        }
        lemma_digits_value_nonneg(sub);
        assert((u + w).subrange(u.len() + pos, u.len() + pos + k) =~= w.subrange(pos, pos + k));
        let n = spec_digits_value(w.subrange(pos, pos + k));
        if pos + k < w.len() {
            assert((u + w)[u.len() + pos + k] == w[pos + k]);
            if w[pos + k] == ':' && pos + k + 1 + n <= w.len() {
                assert((u + w).subrange(u.len() + pos + k + 1, u.len() + pos + k + 1 + n)
                    =~= w.subrange(pos + k + 1, pos + k + 1 + n));
            }
        }
    }
}

/// Decoding right after a number encoding finds the encoded number.
pub proof fn lemma_dec_u64_head(n: u64, tail: Seq<char>)
    ensures
        spec_dec_u64(spec_enc_u64(n as nat) + tail, 0) == Option::Some((
            n,
            spec_enc_u64(n as nat).len() as int,
        )),
{
    lemma_dec_field_head(spec_dec_digits(n as nat), tail);
    lemma_dec_digits_are_digits(n as nat);
    lemma_digits_value_of_dec_digits(n as nat);
    assert(spec_dec_digits(n as nat).len() >= 1);
}

pub proof fn lemma_dec_u64_shift(u: Seq<char>, w: Seq<char>, pos: int)
    requires
        0 <= pos,
    ensures
        spec_dec_u64(u + w, u.len() + pos) == (match spec_dec_u64(w, pos) {
            Option::None => Option::None,
            Option::Some((n, p)) => Option::Some((n, u.len() + p)),
        }),
{
    lemma_dec_field_shift(u, w, pos);
}

/// Decoding right after a boolean encoding finds the encoded boolean.
pub proof fn lemma_dec_bool_head(b: bool, tail: Seq<char>)
    ensures
        spec_dec_bool(spec_enc_bool(b) + tail, 0) == Option::Some((
            b,
            spec_enc_bool(b).len() as int,
        )),
{
    assert(seq!['t'][0] == 't');
    assert(seq!['f'][0] == 'f');
    if b {
        lemma_dec_field_head(seq!['t'], tail);
    } else {
        lemma_dec_field_head(seq!['f'], tail);
    }
}

pub proof fn lemma_dec_bool_shift(u: Seq<char>, w: Seq<char>, pos: int)
    requires
        0 <= pos,
    ensures
        spec_dec_bool(u + w, u.len() + pos) == (match spec_dec_bool(w, pos) {
            Option::None => Option::None,
            Option::Some((b, p)) => Option::Some((b, u.len() + p)),
        }),
{
    lemma_dec_field_shift(u, w, pos);
}

/// Decoding right after an optional-number encoding finds what was encoded.
pub proof fn lemma_dec_opt_u64_head(o: Option<u64>, tail: Seq<char>)
    ensures
        spec_dec_opt_u64(spec_enc_opt_u64(o) + tail, 0) == Option::Some((
            o,
            spec_enc_opt_u64(o).len() as int,
        )),
{
    match o {
        Option::None => {
            lemma_dec_bool_head(false, tail);
        },
        Option::Some(n) => {
            let eb = spec_enc_bool(true);
            let en = spec_enc_u64(n as nat);
            assert(spec_enc_opt_u64(o) + tail =~= eb + (en + tail));
            lemma_dec_bool_head(true, en + tail);
            lemma_dec_u64_shift(eb, en + tail, 0);
            lemma_dec_u64_head(n, tail);
        },
    }
}

pub proof fn lemma_dec_opt_u64_shift(u: Seq<char>, w: Seq<char>, pos: int)
    requires
        0 <= pos,
    ensures
        spec_dec_opt_u64(u + w, u.len() + pos) == (match spec_dec_opt_u64(w, pos) {
            Option::None => Option::None,
            Option::Some((o, p)) => Option::Some((o, u.len() + p)),
        }),
{
    lemma_dec_bool_shift(u, w, pos);
    lemma_dec_field_pos_bound(w, pos);
    match spec_dec_bool(w, pos) {
        Option::None => {},
        Option::Some((b, p2)) => {
            if b {
                lemma_dec_u64_shift(u, w, p2);
            }
        },
    }
}

/// The encodings of the items of a list, in order.
pub open spec fn spec_enc_str_items(l: Seq<Seq<char>>) -> Seq<char>
    decreases l.len(),
{
    if l.len() == 0 {
        Seq::empty()
    } else {
        spec_enc_str(l[0]) + spec_enc_str_items(l.drop_first())
    }
}

/// The encoding of a list of strings: the item count, then each item.
pub open spec fn spec_enc_str_list(l: Seq<Seq<char>>) -> Seq<char> {
    spec_enc_u64(l.len()) + spec_enc_str_items(l)
}

/// Decode `count` consecutive fields at `pos`.
pub open spec fn spec_dec_str_items(w: Seq<char>, pos: int, count: nat) -> Option<
    (Seq<Seq<char>>, int),
>
    decreases count,
{
    if count == 0 {
        Option::Some((Seq::empty(), pos))
    } else {
        match spec_dec_field(w, pos) {
            Option::None => Option::None,
            Option::Some((v, p2)) => match spec_dec_str_items(w, p2, (count - 1) as nat) {
                Option::None => Option::None,
                Option::Some((rest, p3)) => Option::Some((seq![v] + rest, p3)),
            },
        }
    }
}

/// Decode a list field at `pos`.
pub open spec fn spec_dec_str_list(w: Seq<char>, pos: int) -> Option<(Seq<Seq<char>>, int)> {
    match spec_dec_u64(w, pos) {
        Option::None => Option::None,
        Option::Some((count, p2)) => spec_dec_str_items(w, p2, count as nat),
    }
}

/// Appending an item extends the item encoding at its end.
pub proof fn lemma_enc_str_items_snoc(l: Seq<Seq<char>>, x: Seq<char>)
    ensures
        spec_enc_str_items(l.push(x)) == spec_enc_str_items(l) + spec_enc_str(x),
    decreases l.len(),
{
    if l.len() == 0 {
        assert(l.push(x)[0] == x);
        assert(l.push(x).drop_first() =~= Seq::<Seq<char>>::empty());
        assert(spec_enc_str_items(Seq::<Seq<char>>::empty()) == Seq::<char>::empty());
        assert(l =~= Seq::<Seq<char>>::empty());
        assert(spec_enc_str_items(l.push(x)) == spec_enc_str(x) + Seq::<char>::empty());
        assert(spec_enc_str_items(l.push(x)) =~= spec_enc_str_items(l) + spec_enc_str(x));
    } else {
        assert(l.push(x).drop_first() =~= l.drop_first().push(x));
        lemma_enc_str_items_snoc(l.drop_first(), x);
        assert(l.push(x)[0] == l[0]);
        assert(spec_enc_str(l[0]) + (spec_enc_str_items(l.drop_first()) + spec_enc_str(x))
            =~= spec_enc_str_items(l) + spec_enc_str(x));
    }
}

/// Append the encoding of the list `items` to `out`.
pub fn enc_str_list_field(out: &mut String, items: &Vec<String>)
    ensures
        final(out)@ == old(out)@ + spec_enc_str_list(items@.map_values(|x: String| x@)),
{
    let ghost l = items@.map_values(|x: String| x@);
    enc_u64_field(out, items.len() as u64);
    let mut i: usize = 0;
    while i < items.len()
        invariant
            i <= items.len(),
            l == items@.map_values(|x: String| x@),
            out@ == old(out)@ + spec_enc_u64(l.len()) + spec_enc_str_items(l.take(i as int)),
        decreases items.len() - i,
    {
        enc_str_field(out, &items[i]);
        proof {
            assert(l.take(i + 1int) =~= l.take(i as int).push(l[i as int]));
            lemma_enc_str_items_snoc(l.take(i as int), l[i as int]);
            assert(l[i as int] == items@[i as int]@);
        }
        i = i + 1;
    }
    proof {
        assert(l.take(l.len() as int) =~= l);
        assert(old(out)@ + spec_enc_u64(l.len()) + spec_enc_str_items(l) =~= old(out)@
            + spec_enc_str_list(l));
    }
}

/// Decode `count` consecutive fields of `s` at `pos`.
pub fn dec_str_items(s: &String, pos: usize, count: u64) -> (r: Option<(Vec<String>, usize)>)
    ensures
        match r {
            Some((v, p2)) => spec_dec_str_items(s@, pos as int, count as nat) == Option::Some((
                v@.map_values(|x: String| x@),
                p2 as int,
            )),
            None => spec_dec_str_items(s@, pos as int, count as nat) is None,
        },
    decreases count,
{
    if count == 0 {
        let empty: Vec<String> = Vec::new();
        proof {
            assert(empty@.map_values(|x: String| x@) =~= Seq::<Seq<char>>::empty());
        }
        return Some((empty, pos));
    }
    match dec_field(s, pos) {
        None => None,
        Some((v, p2)) => match dec_str_items(s, p2, count - 1) {
            None => None,
            Some((rest, p3)) => {
                let ghost r0 = rest@.map_values(|x: String| x@);
                let mut items = rest;
                items.insert(0, v);
                proof {
                    assert(items@.map_values(|x: String| x@) =~= seq![v@] + r0);
                }
                Some((items, p3))
            },
        },
    }
}

/// Decode one list field of `s` at `pos`.
pub fn dec_str_list_field(s: &String, pos: usize) -> (r: Option<(Vec<String>, usize)>)
    ensures
        match r {
            Some((v, p2)) => spec_dec_str_list(s@, pos as int) == Option::Some((
                v@.map_values(|x: String| x@),
                p2 as int,
            )),
            None => spec_dec_str_list(s@, pos as int) is None,
        },
{
    match dec_u64_field(s, pos) {
        None => None,
        Some((count, p2)) => dec_str_items(s, p2, count),
    }
}

/// Decoding `l.len()` fields right after the item encodings finds the items.
pub proof fn lemma_dec_str_items_head(l: Seq<Seq<char>>, tail: Seq<char>)
    ensures
        spec_dec_str_items(spec_enc_str_items(l) + tail, 0, l.len()) == Option::Some((
            l,
            spec_enc_str_items(l).len() as int,
        )),
    decreases l.len(),
{
    if l.len() == 0 {
        assert(l =~= Seq::<Seq<char>>::empty());
        assert(spec_enc_str_items(l).len() == 0);
    } else {
        let e0 = spec_enc_str(l[0]);
        let rest = spec_enc_str_items(l.drop_first());
        let w = spec_enc_str_items(l) + tail;
        assert(w =~= e0 + (rest + tail));
        lemma_dec_field_head(l[0], rest + tail);
        lemma_dec_str_items_shift(e0, rest + tail, 0, (l.len() - 1) as nat);
        lemma_dec_str_items_head(l.drop_first(), tail);
        assert(seq![l[0]] + l.drop_first() =~= l);
    }
}

/// Item decoding is unchanged by text standing before the position.
pub proof fn lemma_dec_str_items_shift(u: Seq<char>, w: Seq<char>, pos: int, count: nat)
    requires
        0 <= pos,
    ensures
        spec_dec_str_items(u + w, u.len() + pos, count) == (match spec_dec_str_items(
            w,
            pos,
            count,
        ) {
            Option::None => Option::None,
            Option::Some((l, p)) => Option::Some((l, u.len() + p)),
        }),
    decreases count,
{
    if count != 0 {
        lemma_dec_field_shift(u, w, pos);
        lemma_dec_field_pos_bound(w, pos);
        match spec_dec_field(w, pos) {
            Option::None => {},
            Option::Some((v, p2)) => {
                lemma_dec_str_items_shift(u, w, p2, (count - 1) as nat);
            },
        }
    }
}

/// Decoding right after a list encoding finds the encoded list.
pub proof fn lemma_dec_str_list_head(l: Seq<Seq<char>>, tail: Seq<char>)
    requires
        l.len() <= u64::MAX,
    ensures
        spec_dec_str_list(spec_enc_str_list(l) + tail, 0) == Option::Some((
            l,
            spec_enc_str_list(l).len() as int,
        )),
{
    let ec = spec_enc_u64(l.len());
    let ei = spec_enc_str_items(l);
    let w = spec_enc_str_list(l) + tail;
    assert(w =~= ec + (ei + tail));
    lemma_dec_u64_head(l.len() as u64, ei + tail);
    lemma_dec_str_items_shift(ec, ei + tail, 0, l.len());
    lemma_dec_str_items_head(l, tail);
}

pub proof fn lemma_dec_str_list_shift(u: Seq<char>, w: Seq<char>, pos: int)
    requires
        0 <= pos,
    ensures
        spec_dec_str_list(u + w, u.len() + pos) == (match spec_dec_str_list(w, pos) {
            Option::None => Option::None,
            Option::Some((l, p)) => Option::Some((l, u.len() + p)),
        }),
{
    lemma_dec_u64_shift(u, w, pos);
    lemma_dec_field_pos_bound(w, pos);
    match spec_dec_u64(w, pos) {
        Option::None => {},
        Option::Some((count, p2)) => {
            lemma_dec_str_items_shift(u, w, p2, count as nat);
        },
    }
}

/// Decoding at the end of prefix `u`, where the encoding of `x` follows,
/// finds `x`.
pub proof fn lemma_dec_field_at(u: Seq<char>, x: Seq<char>, tail: Seq<char>)
    ensures
        spec_dec_field(u + (spec_enc_str(x) + tail), u.len() as int) == Option::Some((
            x,
            (u.len() + spec_enc_str(x).len()) as int,
        )),
{
    lemma_dec_field_shift(u, spec_enc_str(x) + tail, 0);
    lemma_dec_field_head(x, tail);
}

pub proof fn lemma_dec_bool_at(u: Seq<char>, b: bool, tail: Seq<char>)
    ensures
        spec_dec_bool(u + (spec_enc_bool(b) + tail), u.len() as int) == Option::Some((
            b,
            (u.len() + spec_enc_bool(b).len()) as int,
        )),
{
    lemma_dec_bool_shift(u, spec_enc_bool(b) + tail, 0);
    lemma_dec_bool_head(b, tail);
}

pub proof fn lemma_dec_u64_at(u: Seq<char>, n: u64, tail: Seq<char>)
    ensures
        spec_dec_u64(u + (spec_enc_u64(n as nat) + tail), u.len() as int) == Option::Some((
            n,
            (u.len() + spec_enc_u64(n as nat).len()) as int,
        )),
{
    lemma_dec_u64_shift(u, spec_enc_u64(n as nat) + tail, 0);
    lemma_dec_u64_head(n, tail);
}

pub proof fn lemma_dec_opt_u64_at(u: Seq<char>, o: Option<u64>, tail: Seq<char>)
    ensures
        spec_dec_opt_u64(u + (spec_enc_opt_u64(o) + tail), u.len() as int) == Option::Some((
            o,
            (u.len() + spec_enc_opt_u64(o).len()) as int,
        )),
{
    lemma_dec_opt_u64_shift(u, spec_enc_opt_u64(o) + tail, 0);
    lemma_dec_opt_u64_head(o, tail);
}

pub proof fn lemma_dec_str_list_at(u: Seq<char>, l: Seq<Seq<char>>, tail: Seq<char>)
    requires
        l.len() <= u64::MAX,
    ensures
        spec_dec_str_list(u + (spec_enc_str_list(l) + tail), u.len() as int) == Option::Some((
            l,
            (u.len() + spec_enc_str_list(l).len()) as int,
        )),
{
    lemma_dec_str_list_shift(u, spec_enc_str_list(l) + tail, 0);
    lemma_dec_str_list_head(l, tail);
}

/// The stored encoding of a Bitbucket credential.
pub open spec fn spec_enc_auth_info(a: BitbucketAuthInfoModel) -> Seq<char> {
    spec_enc_str(a.access_token) + spec_enc_str(a.refresh_token) + spec_enc_u64(
        a.expires_in as nat,
    ) + spec_enc_opt_u64(a.timestamp)
}

/// Decode a stored Bitbucket credential; the whole text must be consumed.
pub open spec fn spec_dec_auth_info(w: Seq<char>) -> Option<BitbucketAuthInfoModel> {
    match spec_dec_field(w, 0) {
        Option::None => Option::None,
        Option::Some((access_token, p1)) => match spec_dec_field(w, p1) {
            Option::None => Option::None,
            Option::Some((refresh_token, p2)) => match spec_dec_u64(w, p2) {
                Option::None => Option::None,
                Option::Some((expires_in, p3)) => match spec_dec_opt_u64(w, p3) {
                    Option::None => Option::None,
                    Option::Some((timestamp, p4)) => if p4 == w.len() {
                        Option::Some(
                            BitbucketAuthInfoModel {
                                access_token,
                                refresh_token,
                                expires_in,
                                timestamp,
                            },
                        )
                    } else {
                        Option::None
                    },
                },
            },
        },
    }
}

/// Encode a Bitbucket credential for the store.
pub fn enc_auth_info(a: &BitbucketAuthInfo) -> (r: String)
    ensures
        r@ == spec_enc_auth_info(a@),
{
    let mut out = String::new();
    enc_str_field(&mut out, a.access_token());
    enc_str_field(&mut out, a.refresh_token());
    enc_u64_field(&mut out, a.expires_in());
    enc_opt_u64_field(&mut out, *a.timestamp());
    proof {
        assert(out@ =~= spec_enc_auth_info(a@));
    }
    out
}

/// Decode a stored Bitbucket credential.
pub fn dec_auth_info(s: &String) -> (r: Option<BitbucketAuthInfo>)
    ensures
        match r {
            Some(a) => spec_dec_auth_info(s@) == Option::Some(a@),
            None => spec_dec_auth_info(s@) is None,
        },
{
    let (access_token, p1) = match dec_field(s, 0) {
        None => { return None; },
        Some(x) => x,
    };
    let (refresh_token, p2) = match dec_field(s, p1) {
        None => { return None; },
        Some(x) => x,
    };
    let (expires_in, p3) = match dec_u64_field(s, p2) {
        None => { return None; },
        Some(x) => x,
    };
    let (timestamp, p4) = match dec_opt_u64_field(s, p3) {
        None => { return None; },
        Some(x) => x,
    };
    if p4 != s.as_str().unicode_len() {
        return None;
    }
    Some(BitbucketAuthInfo::new(access_token, refresh_token, expires_in, timestamp))
}

/// A credential decodes back to exactly the value it was encoded from.
pub proof fn lemma_auth_info_round_trip(a: BitbucketAuthInfoModel)
    ensures
        spec_dec_auth_info(spec_enc_auth_info(a)) == Option::Some(a),
{
    let e1 = spec_enc_str(a.access_token);
    let e2 = spec_enc_str(a.refresh_token);
    let e3 = spec_enc_u64(a.expires_in as nat);
    let e4 = spec_enc_opt_u64(a.timestamp);
    let w = spec_enc_auth_info(a);
    assert(e4 + Seq::<char>::empty() =~= e4);
    vstd::seq_lib::lemma_concat_associative(e1 + e2, e3, e4);
    vstd::seq_lib::lemma_concat_associative(e1, e2, e3 + e4);
    assert(w == e1 + (e2 + (e3 + e4)));
    lemma_dec_field_head(a.access_token, e2 + (e3 + e4));
    lemma_dec_field_at(e1, a.refresh_token, e3 + e4);
    lemma_dec_u64_at(e1 + e2, a.expires_in, e4);
    lemma_dec_opt_u64_at((e1 + e2) + e3, a.timestamp, Seq::<char>::empty());
    assert(spec_dec_auth_info(w) matches Option::Some(b) && b =~= a);
}

/// The stored encoding of a webhook record.
pub open spec fn spec_enc_webhook(h: WebhookModel) -> Seq<char> {
    spec_enc_str(h.uuid) + spec_enc_bool(h.active) + spec_enc_str(h.created_at)
        + spec_enc_str_list(h.events) + spec_enc_str(h.self_link) + spec_enc_str(h.url)
}

/// Decode a stored webhook record; the whole text must be consumed.
pub open spec fn spec_dec_webhook(w: Seq<char>) -> Option<WebhookModel> {
    match spec_dec_field(w, 0) {
        Option::None => Option::None,
        Option::Some((uuid, p1)) => match spec_dec_bool(w, p1) {
            Option::None => Option::None,
            Option::Some((active, p2)) => match spec_dec_field(w, p2) {
                Option::None => Option::None,
                Option::Some((created_at, p3)) => match spec_dec_str_list(w, p3) {
                    Option::None => Option::None,
                    Option::Some((events, p4)) => match spec_dec_field(w, p4) {
                        Option::None => Option::None,
                        Option::Some((self_link, p5)) => match spec_dec_field(w, p5) {
                            Option::None => Option::None,
                            Option::Some((url, p6)) => if p6 == w.len() {
                                Option::Some(
                                    WebhookModel {
                                        uuid,
                                        active,
                                        created_at,
                                        events,
                                        self_link,
                                        url,
                                    },
                                )
                            } else {
                                Option::None
                            },
                        },
                    },
                },
            },
        },
    }
}

/// Encode a webhook record for the store.
pub fn enc_webhook(h: &Webhook) -> (r: String)
    ensures
        r@ == spec_enc_webhook(h@),
{
    let mut out = String::new();
    enc_str_field(&mut out, h.uuid());
    enc_bool_field(&mut out, h.active());
    enc_str_field(&mut out, h.created_at());
    enc_str_list_field(&mut out, h.events());
    enc_str_field(&mut out, h.self_link());
    enc_str_field(&mut out, h.url());
    proof {
        assert(out@ =~= spec_enc_webhook(h@));
    }
    out
}

/// Decode a stored webhook record.
pub fn dec_webhook(s: &String) -> (r: Option<Webhook>)
    ensures
        match r {
            Some(h) => spec_dec_webhook(s@) == Option::Some(h@),
            None => spec_dec_webhook(s@) is None,
        },
{
    let (uuid, p1) = match dec_field(s, 0) {
        None => { return None; },
        Some(x) => x,
    };
    let (active, p2) = match dec_bool_field(s, p1) {
        None => { return None; },
        Some(x) => x,
    };
    let (created_at, p3) = match dec_field(s, p2) {
        None => { return None; },
        Some(x) => x,
    };
    let (events, p4) = match dec_str_list_field(s, p3) {
        None => { return None; },
        Some(x) => x,
    };
    let (self_link, p5) = match dec_field(s, p4) {
        None => { return None; },
        Some(x) => x,
    };
    let (url, p6) = match dec_field(s, p5) {
        None => { return None; },
        Some(x) => x,
    };
    if p6 != s.as_str().unicode_len() {
        return None;
    }
    Some(Webhook::new(uuid, active, created_at, events, self_link, url))
}

/// A webhook record decodes back to exactly the value it was encoded from.
#[verifier::rlimit(100)]
pub proof fn lemma_webhook_round_trip(h: WebhookModel)
    requires
        h.events.len() <= u64::MAX,
    ensures
        spec_dec_webhook(spec_enc_webhook(h)) == Option::Some(h),
{
    let e1 = spec_enc_str(h.uuid);
    let e2 = spec_enc_bool(h.active);
    let e3 = spec_enc_str(h.created_at);
    let e4 = spec_enc_str_list(h.events);
    let e5 = spec_enc_str(h.self_link);
    let e6 = spec_enc_str(h.url);
    let w = spec_enc_webhook(h);
    assert(e6 + Seq::<char>::empty() =~= e6);
    vstd::seq_lib::lemma_concat_associative((((e1 + e2) + e3) + e4), e5, e6);
    vstd::seq_lib::lemma_concat_associative(((e1 + e2) + e3), e4, e5 + e6);
    vstd::seq_lib::lemma_concat_associative((e1 + e2), e3, e4 + (e5 + e6));
    vstd::seq_lib::lemma_concat_associative(e1, e2, e3 + (e4 + (e5 + e6)));
    assert(w == e1 + (e2 + (e3 + (e4 + (e5 + e6)))));
    lemma_dec_field_head(h.uuid, e2 + (e3 + (e4 + (e5 + e6))));
    lemma_dec_bool_at(e1, h.active, e3 + (e4 + (e5 + e6)));
    lemma_dec_field_at(e1 + e2, h.created_at, e4 + (e5 + e6));
    lemma_dec_str_list_at((e1 + e2) + e3, h.events, e5 + e6);
    lemma_dec_field_at(((e1 + e2) + e3) + e4, h.self_link, e6);
    lemma_dec_field_at((((e1 + e2) + e3) + e4) + e5, h.url, Seq::<char>::empty());
    assert(spec_dec_webhook(w) matches Option::Some(g) && g =~= h);
}

/// The stored encoding of a pull-request snapshot.
pub open spec fn spec_enc_pr_info(p: PrInfoModel) -> Seq<char> {
    spec_enc_str(p.base_head_commit) + spec_enc_str(p.pr_head_commit) + spec_enc_str(
        spec_pr_state_code(p.state),
    ) + spec_enc_str(p.pr_branch)
}

/// Decode a stored pull-request snapshot; the whole text must be consumed.
pub open spec fn spec_dec_pr_info(w: Seq<char>) -> Option<PrInfoModel> {
    match spec_dec_field(w, 0) {
        Option::None => Option::None,
        Option::Some((base_head_commit, p1)) => match spec_dec_field(w, p1) {
            Option::None => Option::None,
            Option::Some((pr_head_commit, p2)) => match spec_dec_field(w, p2) {
                Option::None => Option::None,
                Option::Some((state_code, p3)) => match spec_dec_field(w, p3) {
                    Option::None => Option::None,
                    Option::Some((pr_branch, p4)) => if p4 == w.len() {
                        match spec_pr_state_of_code(state_code) {
                            Option::None => Option::None,
                            Option::Some(state) => Option::Some(
                                PrInfoModel {
                                    base_head_commit,
                                    pr_head_commit,
                                    state,
                                    pr_branch,
                                },
                            ),
                        }
                    } else {
                        Option::None
                    },
                },
            },
        },
    }
}

/// Encode a pull-request snapshot for the store.
pub fn enc_pr_info(p: &PrInfo) -> (r: String)
    ensures
        r@ == spec_enc_pr_info(p@),
{
    let mut out = String::new();
    enc_str_field(&mut out, p.base_head_commit());
    enc_str_field(&mut out, p.pr_head_commit());
    let code = pr_state_code(p.state());
    enc_str_field(&mut out, &code);
    enc_str_field(&mut out, p.pr_branch());
    proof {
        assert(out@ =~= spec_enc_pr_info(p@));
    }
    out
}

/// Decode a stored pull-request snapshot.
pub fn dec_pr_info(s: &String) -> (r: Option<PrInfo>)
    ensures
        match r {
            Some(p) => spec_dec_pr_info(s@) == Option::Some(p@),
            None => spec_dec_pr_info(s@) is None,
        },
{
    let (base_head_commit, p1) = match dec_field(s, 0) {
        None => { return None; },
        Some(x) => x,
    };
    let (pr_head_commit, p2) = match dec_field(s, p1) {
        None => { return None; },
        Some(x) => x,
    };
    let (state_code, p3) = match dec_field(s, p2) {
        None => { return None; },
        Some(x) => x,
    };
    let (pr_branch, p4) = match dec_field(s, p3) {
        None => { return None; },
        Some(x) => x,
    };
    if p4 != s.as_str().unicode_len() {
        return None;
    }
    match pr_state_of_code(&state_code) {
        None => None,
        Some(state) => Some(PrInfo::new(base_head_commit, pr_head_commit, state, pr_branch)),
    }
}

/// A snapshot decodes back to exactly the value it was encoded from.
pub proof fn lemma_pr_info_round_trip(p: PrInfoModel)
    ensures
        spec_dec_pr_info(spec_enc_pr_info(p)) == Option::Some(p),
{
    let e1 = spec_enc_str(p.base_head_commit);
    let e2 = spec_enc_str(p.pr_head_commit);
    let e3 = spec_enc_str(spec_pr_state_code(p.state));
    let e4 = spec_enc_str(p.pr_branch);
    let w = spec_enc_pr_info(p);
    assert(e4 + Seq::<char>::empty() =~= e4);
    vstd::seq_lib::lemma_concat_associative(e1 + e2, e3, e4);
    vstd::seq_lib::lemma_concat_associative(e1, e2, e3 + e4);
    assert(w == e1 + (e2 + (e3 + e4)));
    lemma_dec_field_head(p.base_head_commit, e2 + (e3 + e4));
    lemma_dec_field_at(e1, p.pr_head_commit, e3 + e4);
    lemma_dec_field_at(e1 + e2, spec_pr_state_code(p.state), e4);
    lemma_dec_field_at((e1 + e2) + e3, p.pr_branch, Seq::<char>::empty());
    lemma_pr_state_code_round_trip(p.state);
    assert(spec_dec_pr_info(w) matches Option::Some(q) && q =~= p);
}

} // verus!
