//! Wire codec.
//!
//! A packet payload is a sequence of characters. A wire message is framed as
//! a one-character variant tag (`T` for a transfer, `R` for a return)
//! followed by the four string fields, each prefixed by its character count
//! as exactly eight decimal digits. An acknowledgement envelope is a
//! one-character tag (`S` for success, `E` for error) followed by the
//! payload. Fields longer than [`MAX_FIELD_CHARS`] characters cannot be
//! framed; encoding refuses them.

use vstd::arithmetic::div_mod::{
    lemma_fundamental_div_mod, lemma_fundamental_div_mod_converse, lemma_mod_pos_bound,
    lemma_multiply_divide_lt,
};
use vstd::prelude::*;
use vstd::seq_lib::assert_seqs_equal;
use vstd::string::*;

use crate::msg::{Ack, AckView, IbcMessage, MessageView};

verus! {

/// The largest field length the frame can carry: its length prefix is eight
/// decimal digits.
pub const MAX_FIELD_CHARS: usize = 100000000;

/// The decimal digit of value `d`.
pub open spec fn digit_char(d: int) -> char {
    if d == 0 {
        '0'
    } else if d == 1 {
        '1'
    } else if d == 2 {
        '2'
    } else if d == 3 {
        '3'
    } else if d == 4 {
        '4'
    } else if d == 5 {
        '5'
    } else if d == 6 {
        '6'
    } else if d == 7 {
        '7'
    } else if d == 8 {
        '8'
    } else {
        '9'
    }
}

/// Whether `c` is a decimal digit.
pub open spec fn is_digit(c: char) -> bool {
    48 <= c as int <= 57
}

/// The value of a decimal digit.
pub open spec fn digit_val(c: char) -> int {
    c as int - 48
}

/// `n` written big-endian as exactly `k` decimal digits (modulo `10^k`).
pub open spec fn dec_rep(n: nat, k: nat) -> Seq<char>
    decreases k,
{
    if k == 0 {
        Seq::empty()
    } else {
        dec_rep(n / 10, (k - 1) as nat).push(digit_char((n % 10) as int))
    }
}

/// The value of the first `k` characters of `s` read as decimal digits.
pub open spec fn val_prefix(s: Seq<char>, k: nat) -> int
    decreases k,
{
    if k == 0 {
        0
    } else {
        val_prefix(s, (k - 1) as nat) * 10 + digit_val(s[k - 1])
    }
}

/// `10^k`.
pub open spec fn pow10(k: nat) -> int
    decreases k,
{
    if k == 0 {
        1
    } else {
        10 * pow10((k - 1) as nat)
    }
}

proof fn lemma_pow10_8()
    ensures
        pow10(0) == 1,
        pow10(1) == 10,
        pow10(2) == 100,
        pow10(3) == 1000,
        pow10(4) == 10000,
        pow10(5) == 100000,
        pow10(6) == 1000000,
        pow10(7) == 10000000,
        pow10(8) == 100000000,
{
    assert(pow10(0) == 1);
    assert(pow10(1) == 10);
    assert(pow10(2) == 100);
    assert(pow10(3) == 1000);
    assert(pow10(4) == 10000);
    assert(pow10(5) == 100000);
    assert(pow10(6) == 1000000);
    assert(pow10(7) == 10000000);
    assert(pow10(8) == 100000000);
}

proof fn lemma_digit_char_val(d: int)
    requires
        0 <= d < 10,
    ensures
        is_digit(digit_char(d)),
        digit_val(digit_char(d)) == d,
{
}

proof fn lemma_digit_char_of_val(c: char)
    requires
        is_digit(c),
    ensures
        digit_char(digit_val(c)) == c,
{
    assert(c as int == digit_char(digit_val(c)) as int);
}

/// Every character of a fixed-width decimal representation is a digit.
proof fn lemma_dec_rep_digits(n: nat, k: nat)
    ensures
        dec_rep(n, k).len() == k,
        forall|j: int| 0 <= j < k ==> is_digit(#[trigger] dec_rep(n, k)[j]),
    decreases k,
{
    if k > 0 {
        lemma_dec_rep_digits(n / 10, (k - 1) as nat);
        lemma_mod_pos_bound(n as int, 10);
        lemma_digit_char_val((n % 10) as int);
        assert(forall|j: int|
            0 <= j < k - 1 ==> dec_rep(n, k)[j] == #[trigger] dec_rep(n / 10, (k - 1) as nat)[j]);
        assert(dec_rep(n, k)[k - 1] == digit_char((n % 10) as int));
    }
}

/// The prefix value only depends on the first `k` characters.
proof fn lemma_val_prefix_congruent(s1: Seq<char>, s2: Seq<char>, k: nat)
    requires
        k <= s1.len(),
        k <= s2.len(),
        forall|j: int| 0 <= j < k ==> s1[j] == s2[j],
    ensures
        val_prefix(s1, k) == val_prefix(s2, k),
    decreases k,
{
    if k > 0 {
        lemma_val_prefix_congruent(s1, s2, (k - 1) as nat);
    }
}

/// Reading back the fixed-width decimal representation yields the value.
proof fn lemma_val_dec_rep(n: nat, k: nat)
    requires
        n < pow10(k),
    ensures
        val_prefix(dec_rep(n, k), k) == n,
    decreases k,
{
    lemma_dec_rep_digits(n, k);
    if k == 0 {
        assert(n == 0);
    } else {
        let s = dec_rep(n, k);
        let s1 = dec_rep(n / 10, (k - 1) as nat);
        lemma_dec_rep_digits(n / 10, (k - 1) as nat);
        assert(n < 10 * pow10((k - 1) as nat));
        lemma_multiply_divide_lt(n as int, 10, pow10((k - 1) as nat));
        lemma_val_dec_rep(n / 10, (k - 1) as nat);
        assert(forall|j: int| 0 <= j < k - 1 ==> s[j] == #[trigger] s1[j]);
        lemma_val_prefix_congruent(s, s1, (k - 1) as nat);
        assert(val_prefix(s, (k - 1) as nat) == n / 10);
        lemma_mod_pos_bound(n as int, 10);
        lemma_digit_char_val((n % 10) as int);
        assert(digit_val(s[k - 1]) == n % 10);
        lemma_fundamental_div_mod(n as int, 10);
    }
}

/// A run of digits is the fixed-width decimal representation of its value.
proof fn lemma_dec_rep_of_digits(s: Seq<char>, k: nat)
    requires
        k <= s.len(),
        forall|j: int| 0 <= j < k ==> is_digit(#[trigger] s[j]),
    ensures
        0 <= val_prefix(s, k) < pow10(k),
        dec_rep(val_prefix(s, k) as nat, k) == s.subrange(0, k as int),
    decreases k,
{
    if k == 0 {
        assert(s.subrange(0, 0) =~= Seq::<char>::empty());
    } else {
        lemma_dec_rep_of_digits(s, (k - 1) as nat);
        let v1 = val_prefix(s, (k - 1) as nat);
        let d = digit_val(s[k - 1]);
        let v = val_prefix(s, k);
        assert(v == v1 * 10 + d);
        assert(0 <= d < 10);
        assert(v1 * 10 <= (pow10((k - 1) as nat) - 1) * 10);
        assert(v < pow10(k));
        lemma_fundamental_div_mod_converse(v, 10, v1, d);
        assert(v / 10 == v1 && v % 10 == d);
        lemma_digit_char_of_val(s[k - 1]);
        assert(dec_rep(v as nat, k) == dec_rep(v1 as nat, (k - 1) as nat).push(s[k - 1]));
        assert_seqs_equal!(dec_rep(v as nat, k), s.subrange(0, k as int));
    }
}

/// The frame of one field: eight length digits, then the field itself.
pub open spec fn field_block(f: Seq<char>) -> Seq<char> {
    dec_rep(f.len(), 8) + f
}

/// Whether every field of a message fits the frame.
pub open spec fn encodable(v: MessageView) -> bool {
    &&& v.collection.len() < MAX_FIELD_CHARS
    &&& v.token_id.len() < MAX_FIELD_CHARS
    &&& v.sender_addr.len() < MAX_FIELD_CHARS
    &&& v.receiver_addr.len() < MAX_FIELD_CHARS
}

/// The encoding of a wire message.
pub open spec fn spec_encode(v: MessageView) -> Seq<char> {
    seq![if v.transfer { 'T' } else { 'R' }] + field_block(v.collection) + field_block(v.token_id)
        + field_block(v.sender_addr) + field_block(v.receiver_addr)
}

/// The decoding of a payload: the unique message it encodes, if any.
pub open spec fn spec_decode(p: Seq<char>) -> Option<MessageView> {
    if exists|v: MessageView| encodable(v) && spec_encode(v) == p {
        Some(choose|v: MessageView| encodable(v) && spec_encode(v) == p)
    } else {
        None
    }
}

/// The encoding of an acknowledgement envelope.
pub open spec fn spec_encode_ack(a: AckView) -> Seq<char> {
    seq![if a.success { 'S' } else { 'E' }] + a.data
}

/// Two field frames that open the same character sequence are the same
/// frame: the length digits fix the field length, the field the remainder.
proof fn lemma_field_block_prefix_unique(a: Seq<char>, b: Seq<char>, t1: Seq<char>, t2: Seq<char>)
    requires
        a.len() < MAX_FIELD_CHARS,
        b.len() < MAX_FIELD_CHARS,
        field_block(a) + t1 == field_block(b) + t2,
    ensures
        a == b,
        t1 == t2,
{
    lemma_pow10_8();
    let s1 = field_block(a) + t1;
    let s2 = field_block(b) + t2;
    lemma_dec_rep_digits(a.len(), 8);
    lemma_dec_rep_digits(b.len(), 8);
    assert(forall|j: int| 0 <= j < 8 ==> s1[j] == #[trigger] dec_rep(a.len(), 8)[j]);
    assert(forall|j: int| 0 <= j < 8 ==> s2[j] == #[trigger] dec_rep(b.len(), 8)[j]);
    lemma_val_prefix_congruent(dec_rep(a.len(), 8), s1, 8);
    lemma_val_prefix_congruent(dec_rep(b.len(), 8), s2, 8);
    lemma_val_dec_rep(a.len(), 8);
    lemma_val_dec_rep(b.len(), 8);
    assert(val_prefix(s1, 8) == a.len());
    assert(val_prefix(s2, 8) == b.len());
    assert(a.len() == b.len());
    assert(field_block(a).len() == 8 + a.len());
    assert(field_block(b).len() == 8 + b.len());
    assert(s1.len() == 8 + a.len() + t1.len());
    assert(s2.len() == 8 + b.len() + t2.len());
    assert(t1.len() == t2.len());
    assert_seqs_equal!(a, b, j => {
        assert(a[j] == s1[8 + j]);
        assert(b[j] == s2[8 + j]);
    });
    assert_seqs_equal!(t1, t2, j => {
        assert(t1[j] == s1[8 + a.len() + j]);
        assert(t2[j] == s2[8 + b.len() + j]);
    });
}

/// The encoding is injective: distinct messages have distinct payloads.
pub proof fn lemma_encode_injective(v1: MessageView, v2: MessageView)
    requires
        encodable(v1),
        encodable(v2),
        spec_encode(v1) == spec_encode(v2),
    ensures
        v1 == v2,
{
    let p1 = spec_encode(v1);
    let p2 = spec_encode(v2);
    assert(p1[0] == (if v1.transfer { 'T' } else { 'R' }));
    assert(p2[0] == (if v2.transfer { 'T' } else { 'R' }));
    assert(v1.transfer == v2.transfer);
    let r1 = field_block(v1.collection) + field_block(v1.token_id) + field_block(v1.sender_addr)
        + field_block(v1.receiver_addr);
    let r2 = field_block(v2.collection) + field_block(v2.token_id) + field_block(v2.sender_addr)
        + field_block(v2.receiver_addr);
    assert(p1 =~= seq![if v1.transfer { 'T' } else { 'R' }] + r1);
    assert(p2 =~= seq![if v2.transfer { 'T' } else { 'R' }] + r2);
    assert(r1.len() == p1.len() - 1);
    assert(r2.len() == p2.len() - 1);
    assert_seqs_equal!(r1, r2, j => {
        assert(r1[j] == p1[1 + j]);
        assert(r2[j] == p2[1 + j]);
    });
    let u1 = field_block(v1.token_id) + field_block(v1.sender_addr) + field_block(
        v1.receiver_addr,
    );
    let u2 = field_block(v2.token_id) + field_block(v2.sender_addr) + field_block(
        v2.receiver_addr,
    );
    assert(r1 =~= field_block(v1.collection) + u1);
    assert(r2 =~= field_block(v2.collection) + u2);
    lemma_field_block_prefix_unique(v1.collection, v2.collection, u1, u2);
    let w1 = field_block(v1.sender_addr) + field_block(v1.receiver_addr);
    let w2 = field_block(v2.sender_addr) + field_block(v2.receiver_addr);
    assert(u1 =~= field_block(v1.token_id) + w1);
    assert(u2 =~= field_block(v2.token_id) + w2);
    lemma_field_block_prefix_unique(v1.token_id, v2.token_id, w1, w2);
    lemma_field_block_prefix_unique(v1.sender_addr, v2.sender_addr, field_block(v1.receiver_addr),
        field_block(v2.receiver_addr));
    lemma_field_block_prefix_unique(v1.receiver_addr, v2.receiver_addr, Seq::empty(), Seq::empty());
    assert(field_block(v1.receiver_addr) =~= field_block(v1.receiver_addr) + Seq::<char>::empty());
    assert(field_block(v2.receiver_addr) =~= field_block(v2.receiver_addr) + Seq::<char>::empty());
}

/// A payload deserializes to exactly the message it was serialized from.
pub proof fn lemma_decode_encode(v: MessageView)
    requires
        encodable(v),
    ensures
        spec_decode(spec_encode(v)) == Some(v),
{
    let p = spec_encode(v);
    assert(exists|w: MessageView| encodable(w) && spec_encode(w) == p);
    let w = choose|w: MessageView| encodable(w) && spec_encode(w) == p;
    lemma_encode_injective(v, w);
}

fn digit_str(d: u64) -> (r: &'static str)
    requires
        d < 10,
    ensures
        r@ == seq![digit_char(d as int)],
{
    proof {
        reveal_strlit("0");
        reveal_strlit("1");
        reveal_strlit("2");
        reveal_strlit("3");
        reveal_strlit("4");
        reveal_strlit("5");
        reveal_strlit("6");
        reveal_strlit("7");
        reveal_strlit("8");
        reveal_strlit("9");
    }
    let r = match d {
        0 => "0",
        1 => "1",
        2 => "2",
        3 => "3",
        4 => "4",
        5 => "5",
        6 => "6",
        7 => "7",
        8 => "8",
        _ => "9",
    };
    proof {
        assert_seqs_equal!(r@, seq![digit_char(d as int)]);
    }
    r
}

/// Appends `n` written big-endian as exactly `k` decimal digits.
fn append_dec(out: &mut String, n: u64, k: u64)
    ensures
        final(out)@ == old(out)@ + dec_rep(n as nat, k as nat),
    decreases k,
{
    if k == 0 {
        proof {
            assert(old(out)@ + dec_rep(n as nat, 0) =~= old(out)@);
        }
    } else {
        append_dec(out, n / 10, k - 1);
        out.append(digit_str(n % 10));
        proof {
            assert(final(out)@ =~= old(out)@ + dec_rep(n as nat, k as nat));
        }
    }
}

/// Appends the frame of one field.
fn append_field_block(out: &mut String, f: &String)
    requires
        f@.len() < MAX_FIELD_CHARS,
    ensures
        final(out)@ == old(out)@ + field_block(f@),
{
    let len = f.as_str().unicode_len();
    append_dec(out, len as u64, 8);
    out.append(f.as_str());
    proof {
        assert(final(out)@ =~= old(out)@ + field_block(f@));
    }
}

/// Serializes a wire message into a packet payload.
///
/// Succeeds exactly when every field fits the frame; the payload is then
/// the message's unique encoding.
pub fn encode_message(m: &IbcMessage) -> (r: Option<String>)
    ensures
        r is Some <==> encodable(m@),
        r matches Some(p) ==> p@ == spec_encode(m@),
{
    proof {
        reveal_strlit("T");
        reveal_strlit("R");
    }
    let (transfer, collection, token_id, sender_addr, receiver_addr) = match m {
        IbcMessage::TransferName { collection, token_id, sender_addr, receiver_addr } => (
            true,
            collection,
            token_id,
            sender_addr,
            receiver_addr,
        ),
        IbcMessage::ReturnName { collection, token_id, sender_addr, receiver_addr } => (
            false,
            collection,
            token_id,
            sender_addr,
            receiver_addr,
        ),
    };
    if collection.as_str().unicode_len() >= MAX_FIELD_CHARS || token_id.as_str().unicode_len()
        >= MAX_FIELD_CHARS || sender_addr.as_str().unicode_len() >= MAX_FIELD_CHARS
        || receiver_addr.as_str().unicode_len() >= MAX_FIELD_CHARS {
        return None;
    }
    let mut out = if transfer {
        String::from_str("T")
    } else {
        String::from_str("R")
    };
    proof {
        assert(out@ =~= seq![if m@.transfer { 'T' } else { 'R' }]);
    }
    append_field_block(&mut out, collection);
    append_field_block(&mut out, token_id);
    append_field_block(&mut out, sender_addr);
    append_field_block(&mut out, receiver_addr);
    proof {
        assert(out@ =~= spec_encode(m@));
    }
    Some(out)
}

proof fn lemma_pow10_pos(k: nat)
    ensures
        pow10(k) >= 1,
    decreases k,
{
    if k > 0 {
        lemma_pow10_pos((k - 1) as nat);
    }
}

/// `10^a <= 10^b` for `a <= b`.
proof fn lemma_pow10_mono(a: nat, b: nat)
    requires
        a <= b,
    ensures
        pow10(a) <= pow10(b),
        pow10(a) >= 1,
    decreases b,
{
    lemma_pow10_pos(a);
    if b > 0 && a < b {
        lemma_pow10_mono(a, (b - 1) as nat);
        lemma_pow10_pos((b - 1) as nat);
    }
}

/// The length of one field's frame.
spec fn block_len(f: Seq<char>) -> int {
    8 + f.len() as int
}

/// The fields of a message in wire order.
spec fn field_of(v: MessageView, idx: int) -> Seq<char> {
    if idx == 1 {
        v.collection
    } else if idx == 2 {
        v.token_id
    } else if idx == 3 {
        v.sender_addr
    } else {
        v.receiver_addr
    }
}

/// Where the frame of field `idx` starts inside the encoding.
spec fn pos_of(v: MessageView, idx: int) -> int
    decreases idx,
{
    if idx <= 1 {
        1
    } else {
        pos_of(v, idx - 1) + block_len(field_of(v, idx - 1))
    }
}

/// The tail of the encoding from field `idx` on.
spec fn rest_of(v: MessageView, idx: int) -> Seq<char>
    decreases 5 - idx,
{
    if idx > 4 || idx < 1 {
        Seq::empty()
    } else {
        field_block(field_of(v, idx)) + rest_of(v, idx + 1)
    }
}

/// The encoding splits at the field positions.
proof fn lemma_encode_blocks(v: MessageView, p: Seq<char>)
    requires
        encodable(v),
        spec_encode(v) == p,
    ensures
        pos_of(v, 5) == p.len(),
        p.subrange(pos_of(v, 1), p.len() as int) == rest_of(v, 1),
        p.subrange(pos_of(v, 2), p.len() as int) == rest_of(v, 2),
        p.subrange(pos_of(v, 3), p.len() as int) == rest_of(v, 3),
        p.subrange(pos_of(v, 4), p.len() as int) == rest_of(v, 4),
{
    lemma_dec_rep_digits(v.collection.len(), 8);
    lemma_dec_rep_digits(v.token_id.len(), 8);
    lemma_dec_rep_digits(v.sender_addr.len(), 8);
    lemma_dec_rep_digits(v.receiver_addr.len(), 8);
    assert(field_block(v.collection).len() == block_len(v.collection));
    assert(field_block(v.token_id).len() == block_len(v.token_id));
    assert(field_block(v.sender_addr).len() == block_len(v.sender_addr));
    assert(field_block(v.receiver_addr).len() == block_len(v.receiver_addr));
    assert(pos_of(v, 1) == 1);
    assert(pos_of(v, 2) == 1 + block_len(v.collection));
    assert(pos_of(v, 3) == pos_of(v, 2) + block_len(v.token_id));
    assert(pos_of(v, 4) == pos_of(v, 3) + block_len(v.sender_addr));
    assert(pos_of(v, 5) == pos_of(v, 4) + block_len(v.receiver_addr));
    assert(p.len() == 1 + block_len(v.collection) + block_len(v.token_id) + block_len(
        v.sender_addr,
    ) + block_len(v.receiver_addr));
    assert(rest_of(v, 5) =~= Seq::<char>::empty());
    assert(p.subrange(pos_of(v, 4), p.len() as int) =~= rest_of(v, 4));
    assert(p.subrange(pos_of(v, 3), p.len() as int) =~= rest_of(v, 3));
    assert(p.subrange(pos_of(v, 2), p.len() as int) =~= rest_of(v, 2));
    assert(p.subrange(pos_of(v, 1), p.len() as int) =~= rest_of(v, 1));
}

/// Field `idx` has its frame at its position inside the encoding.
proof fn lemma_block_at(v: MessageView, p: Seq<char>, idx: int)
    requires
        encodable(v),
        spec_encode(v) == p,
        1 <= idx <= 4,
    ensures
        field_of(v, idx).len() < MAX_FIELD_CHARS,
        pos_of(v, idx) >= 0,
        pos_of(v, idx) + 8 + field_of(v, idx).len() <= p.len(),
        p.subrange(pos_of(v, idx), pos_of(v, idx) + 8 + field_of(v, idx).len()) == field_block(
            field_of(v, idx),
        ),
{
    lemma_encode_blocks(v, p);
    lemma_dec_rep_digits(field_of(v, idx).len(), 8);
    let pos = pos_of(v, idx);
    let rest = rest_of(v, idx);
    assert(p.subrange(pos, p.len() as int) == rest);
    assert(rest == field_block(field_of(v, idx)) + rest_of(v, idx + 1));
    assert(pos_of(v, 2) == 1 + block_len(v.collection));
    assert(pos_of(v, 3) == pos_of(v, 2) + block_len(v.token_id));
    assert(pos_of(v, 4) == pos_of(v, 3) + block_len(v.sender_addr));
    assert(pos_of(v, 5) == pos_of(v, 4) + block_len(v.receiver_addr));
    assert(pos + 8 + field_of(v, idx).len() <= p.len());
    assert(p.subrange(pos, pos + 8 + field_of(v, idx).len()) =~= field_block(field_of(v, idx)))
        by {
        assert(forall|j: int|
            0 <= j < rest.len() ==> rest[j] == #[trigger] p.subrange(pos, p.len() as int)[j]);
    }
}

/// A frame read at the position of field `idx` reads exactly that field.
proof fn lemma_chain(
    v: MessageView,
    p: Seq<char>,
    parsed: Seq<char>,
    start: int,
    end: int,
    idx: int,
)
    requires
        encodable(v),
        spec_encode(v) == p,
        1 <= idx <= 4,
        start == pos_of(v, idx),
        parsed.len() < MAX_FIELD_CHARS,
        end == start + 8 + parsed.len(),
        end <= p.len(),
        p.subrange(start, end) == field_block(parsed),
    ensures
        parsed == field_of(v, idx),
        end == pos_of(v, idx + 1),
{
    lemma_encode_blocks(v, p);
    lemma_dec_rep_digits(parsed.len(), 8);
    lemma_dec_rep_digits(field_of(v, idx).len(), 8);
    let rest = rest_of(v, idx);
    let tail = p.subrange(end, p.len() as int);
    assert(p.subrange(start, p.len() as int) == rest);
    assert(rest == field_block(field_of(v, idx)) + rest_of(v, idx + 1));
    assert(p.subrange(start, p.len() as int) =~= field_block(parsed) + tail) by {
        assert(forall|j: int|
            start <= j < end ==> p[j] == #[trigger] field_block(parsed)[j - start]);
    }
    lemma_field_block_prefix_unique(parsed, field_of(v, idx), tail, rest_of(v, idx + 1));
    assert(pos_of(v, idx + 1) == pos_of(v, idx) + block_len(field_of(v, idx)));
}

/// Reads one field frame starting at character `i`.
///
/// On success returns the field and the position just past the frame; the
/// consumed range is exactly the field's frame. On failure, no field at all
/// has its frame at `i`.
fn parse_field(p: &String, plen: usize, i: usize) -> (r: Option<(String, usize)>)
    requires
        plen == p@.len(),
        i <= plen,
    ensures
        r matches Some(s_j) ==> {
            &&& s_j.0@.len() < MAX_FIELD_CHARS
            &&& i + 8 + s_j.0@.len() == s_j.1 <= plen
            &&& p@.subrange(i as int, s_j.1 as int) == field_block(s_j.0@)
        },
        r is None ==> forall|f: Seq<char>|
            f.len() < MAX_FIELD_CHARS ==> !(i + 8 + f.len() <= plen && p@.subrange(
                i as int,
                i + 8 + f.len(),
            ) == #[trigger] field_block(f)),
{
    proof {
        lemma_pow10_8();
    }
    if plen - i < 8 {
        return None;
    }
    let ghost digits = p@.subrange(i as int, i + 8);
    let mut acc: u64 = 0;
    let mut k: usize = 0;
    while k < 8
        invariant
            plen == p@.len(),
            i + 8 <= plen,
            k <= 8,
            digits == p@.subrange(i as int, i + 8),
            forall|j: int| 0 <= j < k ==> is_digit(#[trigger] digits[j]),
            acc == val_prefix(digits, k as nat),
            acc < pow10(k as nat),
            pow10(8) == 100000000,
        decreases 8 - k,
    {
        proof {
            lemma_pow10_8();
        }
        let c = p.as_str().get_char(i + k);
        let v = c as u32;
        if v < 48 || v > 57 {
            proof {
                assert(digits[k as int] == c);
                assert(!is_digit(c));
                assert forall|f: Seq<char>|
                    f.len() < MAX_FIELD_CHARS implies !(i + 8 + f.len() <= plen && p@.subrange(
                    i as int,
                    i + 8 + f.len(),
                ) == #[trigger] field_block(f)) by {
                    if i + 8 + f.len() <= plen && p@.subrange(i as int, i + 8 + f.len())
                        == field_block(f) {
                        lemma_dec_rep_digits(f.len(), 8);
                        let blk = p@.subrange(i as int, i + 8 + f.len());
                        assert(blk[k as int] == dec_rep(f.len(), 8)[k as int]);
                        assert(blk[k as int] == p@[i + k]);
                        assert(is_digit(c));
                    }
                }
            }
            return None;
        }
        proof {
            assert(is_digit(c));
            assert(digits[k as int] == c);
            assert(digit_val(c) == v - 48);
            assert(val_prefix(digits, (k + 1) as nat) == acc * 10 + (v - 48));
            lemma_pow10_mono((k + 1) as nat, 8);
            assert(acc * 10 + (v - 48) < pow10((k + 1) as nat));
        }
        acc = acc * 10 + (v - 48) as u64;
        k += 1;
    }
    let rem = plen - (i + 8);
    if acc > rem as u64 {
        proof {
            assert forall|f: Seq<char>|
                f.len() < MAX_FIELD_CHARS implies !(i + 8 + f.len() <= plen && p@.subrange(
                i as int,
                i + 8 + f.len(),
            ) == #[trigger] field_block(f)) by {
                if i + 8 + f.len() <= plen && p@.subrange(i as int, i + 8 + f.len())
                    == field_block(f) {
                    let blk = p@.subrange(i as int, i + 8 + f.len());
                    lemma_dec_rep_digits(f.len(), 8);
                    assert(forall|j: int|
                        0 <= j < 8 ==> digits[j] == #[trigger] dec_rep(f.len(), 8)[j]);
                    lemma_val_prefix_congruent(digits, dec_rep(f.len(), 8), 8);
                    lemma_val_dec_rep(f.len(), 8);
                    assert(f.len() == acc);
                    assert(i + 8 + f.len() > plen);
                }
            }
        }
        return None;
    }
    let flen = acc as usize;
    let s = p.as_str().substring_char(i + 8, i + 8 + flen).to_owned();
    proof {
        lemma_dec_rep_of_digits(digits, 8);
        assert(digits.subrange(0, 8) =~= digits);
        assert(dec_rep(acc as nat, 8) == digits);
        assert(s@ == p@.subrange(i + 8, i + 8 + flen));
        assert(p@.subrange(i as int, i + 8 + flen) =~= digits + s@);
        assert(field_block(s@) == dec_rep(acc as nat, 8) + s@);
    }
    Some((s, i + 8 + flen))
}

/// Deserializes a packet payload.
///
/// Returns the unique wire message the payload encodes, or `None` when the
/// payload is no message's encoding.
pub fn decode_message(p: &String) -> (r: Option<IbcMessage>)
    ensures
        r matches Some(m) ==> spec_decode(p@) == Some(m@),
        r is None ==> spec_decode(p@) is None,
{
    proof {
        reveal_strlit("T");
        reveal_strlit("R");
        lemma_pow10_8();
    }
    let plen = p.as_str().unicode_len();
    if plen == 0 {
        proof {
            assert forall|v: MessageView| !(encodable(v) && spec_encode(v) == p@) by {
                assert(spec_encode(v).len() >= 1);
            }
        }
        return None;
    }
    let tag = p.as_str().get_char(0);
    let transfer = if tag == 'T' {
        true
    } else if tag == 'R' {
        false
    } else {
        proof {
            assert forall|v: MessageView| !(encodable(v) && spec_encode(v) == p@) by {
                if encodable(v) && spec_encode(v) == p@ {
                    assert(p@[0] == (if v.transfer { 'T' } else { 'R' }));
                }
            }
        }
        return None;
    };
    // For any message this payload might encode, its tag is already fixed,
    // and each frame read pins the next field. `rest(v)` is what must
    // follow the fields read so far.
    let r1 = parse_field(p, plen, 1);
    let (collection, i1) = match r1 {
        Some(x) => x,
        None => {
            proof {
                assert forall|v: MessageView| !(encodable(v) && spec_encode(v) == p@) by {
                    if encodable(v) && spec_encode(v) == p@ {
                        lemma_block_at(v, p@, 1);
                        assert(pos_of(v, 1) == 1);
                    }
                }
            }
            return None;
        },
    };
    let r2 = parse_field(p, plen, i1);
    let (token_id, i2) = match r2 {
        Some(x) => x,
        None => {
            proof {
                assert forall|v: MessageView| !(encodable(v) && spec_encode(v) == p@) by {
                    if encodable(v) && spec_encode(v) == p@ {
                        assert(pos_of(v, 1) == 1);
                        lemma_chain(v, p@, collection@, 1, i1 as int, 1);
                        lemma_block_at(v, p@, 2);
                    }
                }
            }
            return None;
        },
    };
    let r3 = parse_field(p, plen, i2);
    let (sender_addr, i3) = match r3 {
        Some(x) => x,
        None => {
            proof {
                assert forall|v: MessageView| !(encodable(v) && spec_encode(v) == p@) by {
                    if encodable(v) && spec_encode(v) == p@ {
                        assert(pos_of(v, 1) == 1);
                        lemma_chain(v, p@, collection@, 1, i1 as int, 1);
                        lemma_chain(v, p@, token_id@, i1 as int, i2 as int, 2);
                        lemma_block_at(v, p@, 3);
                    }
                }
            }
            return None;
        },
    };
    let r4 = parse_field(p, plen, i3);
    let (receiver_addr, i4) = match r4 {
        Some(x) => x,
        None => {
            proof {
                assert forall|v: MessageView| !(encodable(v) && spec_encode(v) == p@) by {
                    if encodable(v) && spec_encode(v) == p@ {
                        assert(pos_of(v, 1) == 1);
                        lemma_chain(v, p@, collection@, 1, i1 as int, 1);
                        lemma_chain(v, p@, token_id@, i1 as int, i2 as int, 2);
                        lemma_chain(v, p@, sender_addr@, i2 as int, i3 as int, 3);
                        lemma_block_at(v, p@, 4);
                    }
                }
            }
            return None;
        },
    };
    if i4 != plen {
        proof {
            assert forall|v: MessageView| !(encodable(v) && spec_encode(v) == p@) by {
                if encodable(v) && spec_encode(v) == p@ {
                    lemma_encode_blocks(v, p@);
                    assert(pos_of(v, 1) == 1);
                    lemma_chain(v, p@, collection@, 1, i1 as int, 1);
                    lemma_chain(v, p@, token_id@, i1 as int, i2 as int, 2);
                    lemma_chain(v, p@, sender_addr@, i2 as int, i3 as int, 3);
                    lemma_chain(v, p@, receiver_addr@, i3 as int, i4 as int, 4);
                    assert(i4 == pos_of(v, 5) == p@.len());
                }
            }
        }
        return None;
    }
    let m = if transfer {
        IbcMessage::TransferName { collection, token_id, sender_addr, receiver_addr }
    } else {
        IbcMessage::ReturnName { collection, token_id, sender_addr, receiver_addr }
    };
    proof {
        assert(p@ =~= seq![if m@.transfer { 'T' } else { 'R' }] + field_block(m@.collection)
            + field_block(m@.token_id) + field_block(m@.sender_addr) + field_block(
            m@.receiver_addr,
        ));
        assert(spec_encode(m@) == p@);
        lemma_decode_encode(m@);
    }
    Some(m)
}

/// Serializes an acknowledgement envelope.
pub fn encode_ack(a: &Ack) -> (r: String)
    ensures
        r@ == spec_encode_ack(a@),
{
    proof {
        reveal_strlit("S");
        reveal_strlit("E");
    }
    let mut out = match a {
        Ack::Success(_) => String::from_str("S"),
        Ack::Error(_) => String::from_str("E"),
    };
    match a {
        Ack::Success(data) => out.append(data.as_str()),
        Ack::Error(data) => out.append(data.as_str()),
    }
    proof {
        assert(out@ =~= spec_encode_ack(a@));
    }
    out
}

/// The acknowledgement encoding is injective.
pub proof fn lemma_encode_ack_injective(a1: AckView, a2: AckView)
    requires
        spec_encode_ack(a1) == spec_encode_ack(a2),
    ensures
        a1 == a2,
{
    let p1 = spec_encode_ack(a1);
    let p2 = spec_encode_ack(a2);
    assert(p1[0] == (if a1.success { 'S' } else { 'E' }));
    assert(p2[0] == (if a2.success { 'S' } else { 'E' }));
    assert(a1.success == a2.success);
    assert(p1.len() == 1 + a1.data.len());
    assert(p2.len() == 1 + a2.data.len());
    assert(a1.data.len() == a2.data.len());
    assert_seqs_equal!(a1.data, a2.data, j => {
        assert(a1.data[j] == p1[1 + j]);
        assert(a2.data[j] == p2[1 + j]);
    });
}

/// Deserializes an acknowledgement envelope.
///
/// Returns the unique envelope the payload encodes, or `None` when the
/// payload is no envelope's encoding.
pub fn decode_ack(p: &String) -> (r: Option<Ack>)
    ensures
        r matches Some(a) ==> p@ == spec_encode_ack(a@),
        r is None ==> forall|a: AckView| p@ != spec_encode_ack(a),
{
    proof {
        reveal_strlit("S");
        reveal_strlit("E");
    }
    let plen = p.as_str().unicode_len();
    if plen == 0 {
        proof {
            assert forall|a: AckView| p@ != spec_encode_ack(a) by {
                assert(spec_encode_ack(a).len() >= 1);
            }
        }
        return None;
    }
    let tag = p.as_str().get_char(0);
    if tag == 'S' {
        let data = p.as_str().substring_char(1, plen).to_owned();
        let a = Ack::Success(data);
        proof {
            assert(p@ =~= spec_encode_ack(a@));
        }
        Some(a)
    } else if tag == 'E' {
        let data = p.as_str().substring_char(1, plen).to_owned();
        let a = Ack::Error(data);
        proof {
            assert(p@ =~= spec_encode_ack(a@));
        }
        Some(a)
    } else {
        proof {
            assert forall|a: AckView| p@ != spec_encode_ack(a) by {
                if p@ == spec_encode_ack(a) {
                    assert(p@[0] == (if a.success { 'S' } else { 'E' }));
                }
            }
        }
        None
    }
}

} // verus!
