//! The wire as a string of bits: what the bit operations of the decoder and
//! the encoder do to it, and the round trip of any run of bit fields.

use vstd::prelude::*;
use vstd::arithmetic::div_mod::{lemma_fundamental_div_mod, lemma_mod_bound};
use vstd::arithmetic::power2::{lemma2_to64, lemma_pow2_adds, lemma_pow2_pos, pow2};
use crate::decoder::DecoderState;
use crate::encoder::EncoderState;
use crate::error::Error;
use crate::wire::lemma_div_bound;

verus! {

/// The `k` low bits of `x`, most significant first.
pub open spec fn num_bits(x: nat, k: nat) -> Seq<bool>
    decreases k,
{
    if k == 0 {
        Seq::empty()
    } else {
        num_bits(x / 2, (k - 1) as nat).push(x % 2 == 1)
    }
}

/// The bits of the bytes, each byte most significant bit first.
pub open spec fn bytes_bits(bytes: Seq<u8>) -> Seq<bool>
    decreases bytes.len(),
{
    if bytes.len() == 0 {
        Seq::empty()
    } else {
        bytes_bits(bytes.drop_last()) + num_bits(bytes.last() as nat, 8)
    }
}

/// The bits that a decoder has yet to hand out: those it has buffered, then
/// those of the bytes ahead.
pub open spec fn dec_bits(d: DecoderState) -> Seq<bool> {
    num_bits(d.bits, d.valid_bits) + bytes_bits(d.bytes)
}

/// The bits that an encoder has taken: those of the bytes written, then
/// those that wait.
pub open spec fn enc_bits(e: EncoderState) -> Seq<bool> {
    bytes_bits(e.bytes) + num_bits(e.bits, e.valid_bits)
}

pub proof fn lemma_num_bits_len(x: nat, k: nat)
    ensures
        num_bits(x, k).len() == k,
    decreases k,
{
    if k > 0 {
        lemma_num_bits_len(x / 2, (k - 1) as nat);
    }
}

/// The bits of two numbers side by side are the bits of the one number
/// that holds the first above the second.
pub proof fn lemma_num_bits_concat(x: nat, j: nat, y: nat, k: nat)
    requires
        y < pow2(k),
    ensures
        num_bits(x * pow2(k) + y, j + k) == num_bits(x, j) + num_bits(y, k),
    decreases k,
{
    lemma2_to64();
    if k == 0 {
        assert(x * pow2(0) + y == x) by (nonlinear_arith)
            requires
                pow2(0) == 1,
                y == 0,
        ;
        assert(num_bits(x, j) + Seq::<bool>::empty() =~= num_bits(x, j));
    } else {
        let p = pow2((k - 1) as nat);
        vstd::arithmetic::power2::lemma_pow2_unfold(k);
        let t = x * p;
        let z = x * pow2(k) + y;
        assert(x * pow2(k) == 2 * t) by (nonlinear_arith)
            requires
                pow2(k) == 2 * p,
                t == x * p,
        ;
        assert(z / 2 == t + y / 2);
        assert(z % 2 == y % 2);
        lemma_num_bits_concat(x, j, y / 2, (k - 1) as nat);
        let a = num_bits(x, j);
        let b = num_bits(y / 2, (k - 1) as nat);
        assert((j + k - 1) as nat == j + (k - 1) as nat);
        assert((a + b).push(y % 2 == 1) =~= a + b.push(y % 2 == 1));
    }
}

/// Numbers with the same bits are the same.
pub proof fn lemma_num_bits_inj(x: nat, y: nat, k: nat)
    requires
        x < pow2(k),
        y < pow2(k),
        num_bits(x, k) == num_bits(y, k),
    ensures
        x == y,
    decreases k,
{
    lemma2_to64();
    if k > 0 {
        vstd::arithmetic::power2::lemma_pow2_unfold(k);
        let a = num_bits(x / 2, (k - 1) as nat);
        let b = num_bits(y / 2, (k - 1) as nat);
        assert(a.push(x % 2 == 1).last() == b.push(y % 2 == 1).last());
        assert(a.push(x % 2 == 1).drop_last() =~= a);
        assert(b.push(y % 2 == 1).drop_last() =~= b);
        lemma_num_bits_inj(x / 2, y / 2, (k - 1) as nat);
    }
}

/// Equal strings that are cut at the same place are equal on both sides.
pub proof fn lemma_split_equal(a: Seq<bool>, b: Seq<bool>, c: Seq<bool>, d: Seq<bool>)
    requires
        a + b == c + d,
        a.len() == c.len(),
    ensures
        a == c,
        b == d,
{
    assert((a + b).take(a.len() as int) =~= a);
    assert((c + d).take(c.len() as int) =~= c);
    assert((a + b).skip(a.len() as int) =~= b);
    assert((c + d).skip(c.len() as int) =~= d);
}

pub proof fn lemma_bytes_bits_len(bytes: Seq<u8>)
    ensures
        bytes_bits(bytes).len() == 8 * bytes.len(),
    decreases bytes.len(),
{
    if bytes.len() > 0 {
        lemma_bytes_bits_len(bytes.drop_last());
        lemma_num_bits_len(bytes.last() as nat, 8);
    }
}

/// The bits of bytes side by side are the bits of each side by side.
pub proof fn lemma_bytes_bits_concat(a: Seq<u8>, b: Seq<u8>)
    ensures
        bytes_bits(a + b) == bytes_bits(a) + bytes_bits(b),
    decreases b.len(),
{
    if b.len() == 0 {
        assert(a + b =~= a);
        assert(bytes_bits(a) + Seq::<bool>::empty() =~= bytes_bits(a));
    } else {
        assert((a + b).drop_last() =~= a + b.drop_last());
        lemma_bytes_bits_concat(a, b.drop_last());
        let last = num_bits(b.last() as nat, 8);
        assert((bytes_bits(a) + bytes_bits(b.drop_last())) + last =~= bytes_bits(a) + (bytes_bits(
            b.drop_last(),
        ) + last));
    }
}

/// Bytes with the same bits are the same.
pub proof fn lemma_bytes_bits_inj(a: Seq<u8>, b: Seq<u8>)
    requires
        bytes_bits(a) == bytes_bits(b),
    ensures
        a == b,
    decreases a.len(),
{
    lemma_bytes_bits_len(a);
    lemma_bytes_bits_len(b);
    lemma2_to64();
    if a.len() > 0 {
        lemma_bytes_bits_len(a.drop_last());
        lemma_bytes_bits_len(b.drop_last());
        lemma_split_equal(
            bytes_bits(a.drop_last()),
            num_bits(a.last() as nat, 8),
            bytes_bits(b.drop_last()),
            num_bits(b.last() as nat, 8),
        );
        lemma_num_bits_inj(a.last() as nat, b.last() as nat, 8);
        lemma_bytes_bits_inj(a.drop_last(), b.drop_last());
        assert(a =~= a.drop_last().push(a.last()));
        assert(b =~= b.drop_last().push(b.last()));
    } else {
        assert(a =~= b);
    }
}

/// Filling the accumulator of a decoder moves bits from the bytes into the
/// accumulator and changes nothing of the string. It fails only where the
/// string is shorter than what is asked for.
pub proof fn lemma_fill(d: DecoderState, n: nat)
    requires
        d.bits < pow2(d.valid_bits),
        d.valid_bits < n + 8,
    ensures
        match d.fill(n) {
            Ok(f) => dec_bits(f) == dec_bits(d) && f.valid_bits >= n && f.valid_bits < n + 8
                && f.bits < pow2(f.valid_bits),
            Err(_) => dec_bits(d).len() < n,
        },
    decreases n + 8 - d.valid_bits,
{
    lemma2_to64();
    lemma_num_bits_len(d.bits, d.valid_bits);
    lemma_bytes_bits_len(d.bytes);
    if d.valid_bits < n && d.bytes.len() > 0 {
        let b = d.bytes[0];
        let next = DecoderState {
            bytes: d.bytes.skip(1),
            bits: d.bits * 256 + b as nat,
            valid_bits: d.valid_bits + 8,
        };
        lemma_pow2_adds(d.valid_bits, 8);
        assert(next.bits < pow2(next.valid_bits)) by (nonlinear_arith)
            requires
                next.bits == d.bits * 256 + b as nat,
                b < 256,
                d.bits < pow2(d.valid_bits),
                pow2(next.valid_bits) == pow2(d.valid_bits) * 256,
        ;
        lemma_num_bits_concat(d.bits, d.valid_bits, b as nat, 8);
        assert(d.bytes =~= seq![b] + d.bytes.skip(1));
        lemma_bytes_bits_concat(seq![b], d.bytes.skip(1));
        reveal_with_fuel(bytes_bits, 2);
        assert(seq![b].drop_last() =~= Seq::<u8>::empty());
        assert(seq![b].last() == b);
        assert(bytes_bits(seq![b]) =~= num_bits(b as nat, 8));
        assert(dec_bits(next) =~= dec_bits(d));
        lemma_fill(next, n);
    }
}

/// Reading bits takes them from the front of the string: where the string
/// begins with the `n` bits of `x`, those are read as `x`, and the rest of
/// the string is left.
pub proof fn lemma_read_bits(d: DecoderState, n: nat, x: nat, rest: Seq<bool>)
    requires
        d.wf(),
        n >= 1,
        x < pow2(n),
        dec_bits(d) == num_bits(x, n) + rest,
    ensures
        d.read_bits(n) is Ok,
        d.read_bits(n)->Ok_0.0 == x,
        d.read_bits(n)->Ok_0.1.wf(),
        dec_bits(d.read_bits(n)->Ok_0.1) == rest,
{
    lemma_num_bits_len(x, n);
    lemma_fill(d, n);
    let f = d.fill(n)->Ok_0;
    let r = (f.valid_bits - n) as nat;
    let out = f.bits / pow2(r);
    let rem = f.bits % pow2(r);
    lemma_pow2_pos(r);
    lemma_fundamental_div_mod(f.bits as int, pow2(r) as int);
    lemma_mod_bound(f.bits as int, pow2(r) as int);
    lemma_pow2_adds(n, r);
    lemma_div_bound(f.bits, pow2(r), pow2(n));
    assert(f.bits == out * pow2(r) + rem) by (nonlinear_arith)
        requires
            f.bits == pow2(r) * out + rem,
    ;
    lemma_num_bits_concat(out, n, rem, r);
    lemma_num_bits_len(out, n);
    let tail = num_bits(rem, r) + bytes_bits(f.bytes);
    assert(dec_bits(f) =~= num_bits(out, n) + tail);
    lemma_split_equal(num_bits(out, n), tail, num_bits(x, n), rest);
    lemma_num_bits_inj(out, x, n);
}

/// Flushing the accumulator of an encoder moves bits from the accumulator
/// into the bytes and changes nothing of the string.
pub proof fn lemma_flush(e: EncoderState)
    requires
        e.bits < pow2(e.valid_bits),
    ensures
        enc_bits(e.flush()) == enc_bits(e),
        e.flush().wf(),
    decreases e.valid_bits,
{
    lemma2_to64();
    if e.valid_bits >= 8 {
        let r = (e.valid_bits - 8) as nat;
        let b = e.bits / pow2(r);
        let rem = e.bits % pow2(r);
        lemma_pow2_pos(r);
        lemma_fundamental_div_mod(e.bits as int, pow2(r) as int);
        lemma_mod_bound(e.bits as int, pow2(r) as int);
        lemma_pow2_adds(8, r);
        lemma_div_bound(e.bits, pow2(r), 256);
        assert(e.bits == b * pow2(r) + rem) by (nonlinear_arith)
            requires
                e.bits == pow2(r) * b + rem,
        ;
        let next = EncoderState { bytes: e.bytes.push(b as u8), bits: rem, valid_bits: r };
        lemma_num_bits_concat(b, 8, rem, r);
        assert(next.bytes.drop_last() =~= e.bytes);
        assert(enc_bits(next) =~= enc_bits(e));
        lemma_flush(next);
    }
}

/// Writing bits appends them to the string: the `n` low bits of the value.
pub proof fn lemma_write_bits(e: EncoderState, value: nat, n: nat)
    requires
        e.wf(),
    ensures
        enc_bits(e.write_bits(value, n)) == enc_bits(e) + num_bits(value % pow2(n), n),
        e.write_bits(value, n).wf(),
{
    lemma_pow2_pos(n);
    lemma_mod_bound(value as int, pow2(n) as int);
    let low = value % pow2(n);
    let full = EncoderState {
        bytes: e.bytes,
        bits: e.bits * pow2(n) + low,
        valid_bits: e.valid_bits + n,
    };
    lemma_pow2_adds(e.valid_bits, n);
    assert(full.bits < pow2(full.valid_bits)) by (nonlinear_arith)
        requires
            full.bits == e.bits * pow2(n) + low,
            low < pow2(n),
            e.bits < pow2(e.valid_bits),
            pow2(full.valid_bits) == pow2(e.valid_bits) * pow2(n),
    ;
    lemma_num_bits_concat(e.bits, e.valid_bits, low, n);
    assert(enc_bits(full) =~= enc_bits(e) + num_bits(low, n));
    lemma_flush(full);
}

/// A run of bit fields, each a value and a width in bits, written in order.
pub open spec fn write_bit_fields(e: EncoderState, fields: Seq<(nat, nat)>) -> EncoderState
    decreases fields.len(),
{
    if fields.len() == 0 {
        e
    } else {
        write_bit_fields(e.write_bits(fields[0].0, fields[0].1), fields.drop_first())
    }
}

/// A run of bit fields of the given widths, read in order.
pub open spec fn read_bit_fields(d: DecoderState, widths: Seq<nat>) -> Result<
    (Seq<nat>, DecoderState),
    Error,
>
    decreases widths.len(),
{
    if widths.len() == 0 {
        Ok((Seq::empty(), d))
    } else {
        match d.read_bits(widths[0]) {
            Err(e) => Err(e),
            Ok((x, d1)) => match read_bit_fields(d1, widths.drop_first()) {
                Err(e) => Err(e),
                Ok((xs, d2)) => Ok((seq![x] + xs, d2)),
            },
        }
    }
}

/// The bits of a run of fields: of each value its low bits, as many as its width.
pub open spec fn fields_bits(fields: Seq<(nat, nat)>) -> Seq<bool>
    decreases fields.len(),
{
    if fields.len() == 0 {
        Seq::empty()
    } else {
        num_bits(fields[0].0 % pow2(fields[0].1), fields[0].1) + fields_bits(fields.drop_first())
    }
}

/// The widths of the fields.
pub open spec fn widths_of(fields: Seq<(nat, nat)>) -> Seq<nat> {
    Seq::new(fields.len(), |i: int| fields[i].1)
}

/// What the fields hold on the wire: of each value the low bits that its
/// width has room for.
pub open spec fn values_of(fields: Seq<(nat, nat)>) -> Seq<nat>
    decreases fields.len(),
{
    if fields.len() == 0 {
        Seq::empty()
    } else {
        seq![fields[0].0 % pow2(fields[0].1)] + values_of(fields.drop_first())
    }
}

/// Writing a run of fields appends the bits of the fields to the string.
pub proof fn lemma_write_bit_fields(e: EncoderState, fields: Seq<(nat, nat)>)
    requires
        e.wf(),
    ensures
        enc_bits(write_bit_fields(e, fields)) == enc_bits(e) + fields_bits(fields),
        write_bit_fields(e, fields).wf(),
    decreases fields.len(),
{
    if fields.len() == 0 {
        assert(enc_bits(e) + Seq::<bool>::empty() =~= enc_bits(e));
    } else {
        let e1 = e.write_bits(fields[0].0, fields[0].1);
        lemma_write_bits(e, fields[0].0, fields[0].1);
        lemma_write_bit_fields(e1, fields.drop_first());
        let first = num_bits(fields[0].0 % pow2(fields[0].1), fields[0].1);
        assert((enc_bits(e) + first) + fields_bits(fields.drop_first()) =~= enc_bits(e) + (first
            + fields_bits(fields.drop_first())));
    }
}

/// From a string that begins with the bits of a run of fields, the fields
/// are read back, and the rest of the string is left.
pub proof fn lemma_read_bit_fields(d: DecoderState, fields: Seq<(nat, nat)>, rest: Seq<bool>)
    requires
        d.wf(),
        forall|i: int| 0 <= i < fields.len() ==> (#[trigger] fields[i]).1 >= 1,
        dec_bits(d) == fields_bits(fields) + rest,
    ensures
        read_bit_fields(d, widths_of(fields)) is Ok,
        read_bit_fields(d, widths_of(fields))->Ok_0.0 == values_of(fields),
        read_bit_fields(d, widths_of(fields))->Ok_0.1.wf(),
        dec_bits(read_bit_fields(d, widths_of(fields))->Ok_0.1) == rest,
    decreases fields.len(),
{
    if fields.len() == 0 {
        assert(fields_bits(fields) + rest =~= rest);
        assert(widths_of(fields).len() == 0);
    } else {
        let v = fields[0].0;
        let w = fields[0].1;
        let tail = fields.drop_first();
        lemma_pow2_pos(w);
        lemma_mod_bound(v as int, pow2(w) as int);
        let x = v % pow2(w);
        assert(dec_bits(d) =~= num_bits(x, w) + (fields_bits(tail) + rest));
        lemma_read_bits(d, w, x, fields_bits(tail) + rest);
        let d1 = d.read_bits(w)->Ok_0.1;
        assert forall|i: int| 0 <= i < tail.len() implies (#[trigger] tail[i]).1 >= 1 by {
            assert(tail[i] == fields[i + 1]);
        }
        lemma_read_bit_fields(d1, tail, rest);
        assert(widths_of(fields)[0] == w);
        assert(widths_of(fields).drop_first() =~= widths_of(tail));
        assert(widths_of(fields).len() == fields.len());
    }
}

/// A decoder that holds less than a byte of bits and has whole bytes left
/// to hand out stands on the byte boundary in front of them.
pub proof fn lemma_on_boundary(d: DecoderState, bytes: Seq<u8>)
    requires
        d.wf(),
        dec_bits(d) == bytes_bits(bytes),
    ensures
        d == DecoderState::start(bytes),
{
    lemma2_to64();
    lemma_num_bits_len(d.bits, d.valid_bits);
    lemma_bytes_bits_len(d.bytes);
    lemma_bytes_bits_len(bytes);
    assert(d.valid_bits == 0);
    assert(d.bits == 0);
    assert(dec_bits(d) =~= bytes_bits(d.bytes));
    lemma_bytes_bits_inj(d.bytes, bytes);
}

/// Any run of bit fields that starts and ends on a byte boundary makes the
/// round trip: the bytes that writing the fields appends are read back as
/// the fields, whatever follows them, and the decoder then stands on the
/// byte boundary behind them. What comes back of a value are the low bits
/// that its width has room for.
pub proof fn lemma_bit_fields_roundtrip(e: EncoderState, fields: Seq<(nat, nat)>, next: Seq<u8>)
    requires
        e.aligned(),
        write_bit_fields(e, fields).aligned(),
        forall|i: int| 0 <= i < fields.len() ==> (#[trigger] fields[i]).1 >= 1,
    ensures
        e.bytes.is_prefix_of(write_bit_fields(e, fields).bytes),
        read_bit_fields(
            DecoderState::start(
                write_bit_fields(e, fields).bytes.skip(e.bytes.len() as int) + next,
            ),
            widths_of(fields),
        ) == Ok::<(Seq<nat>, DecoderState), Error>((values_of(fields), DecoderState::start(next))),
{
    lemma2_to64();
    let end = write_bit_fields(e, fields);
    lemma_write_bit_fields(e, fields);
    lemma_bytes_bits_len(e.bytes);
    lemma_bytes_bits_len(end.bytes);
    assert(enc_bits(e) =~= bytes_bits(e.bytes));
    assert(enc_bits(end) =~= bytes_bits(end.bytes));
    let n = e.bytes.len() as int;
    let head = end.bytes.take(n);
    let written = end.bytes.skip(n);
    assert(end.bytes =~= head + written);
    lemma_bytes_bits_concat(head, written);
    lemma_bytes_bits_len(head);
    lemma_split_equal(bytes_bits(head), bytes_bits(written), bytes_bits(e.bytes), fields_bits(fields));
    lemma_bytes_bits_inj(head, e.bytes);
    let d = DecoderState::start(written + next);
    lemma_bytes_bits_concat(written, next);
    assert(dec_bits(d) =~= fields_bits(fields) + bytes_bits(next));
    lemma_read_bit_fields(d, fields, bytes_bits(next));
    lemma_on_boundary(read_bit_fields(d, widths_of(fields))->Ok_0.1, next);
}

} // verus!
