//! The encoder: a growing buffer with a bit accumulator, parameter headers,
//! and TLV parameters whose length is filled in when they end.

use vstd::prelude::*;
use vstd::arithmetic::power2::pow2;
use crate::bits::BitContainer;
use crate::decoder::ParameterType;
use crate::wire::be_bytes;

verus! {

/// What an encoder has produced: the bytes written, and the bits that wait
/// for a byte to fill up.
pub struct EncoderState {
    pub bytes: Seq<u8>,
    /// The waiting bits, as a number below `2^valid_bits`.
    pub bits: nat,
    pub valid_bits: nat,
}

impl EncoderState {
    /// The state that continues `bytes`, with nothing waiting.
    pub open spec fn start(bytes: Seq<u8>) -> EncoderState {
        EncoderState { bytes, bits: 0, valid_bits: 0 }
    }

    /// Less than a byte is waiting, and `bits` holds no more than that.
    pub open spec fn wf(self) -> bool {
        self.valid_bits < 8 && self.bits < pow2(self.valid_bits)
    }

    /// No bit is waiting: the next field starts on a byte boundary.
    pub open spec fn aligned(self) -> bool {
        self.valid_bits == 0 && self.bits == 0
    }

    pub open spec fn with_bytes(self, bytes: Seq<u8>) -> EncoderState {
        EncoderState { bytes, ..self }
    }

    /// Appends whole bytes; waiting bits stay as they are.
    pub open spec fn write_bytes(self, bytes: Seq<u8>) -> EncoderState {
        self.with_bytes(self.bytes + bytes)
    }

    /// Appends `x` as `n` bytes, most significant first.
    pub open spec fn write_uint(self, x: nat, n: nat) -> EncoderState {
        self.write_bytes(be_bytes(x, n))
    }

    /// Moves whole bytes out of the accumulator, high bits first.
    pub open spec fn flush(self) -> EncoderState
        decreases self.valid_bits,
    {
        if self.valid_bits < 8 {
            self
        } else {
            let rest = (self.valid_bits - 8) as nat;
            EncoderState {
                bytes: self.bytes.push((self.bits / pow2(rest)) as u8),
                bits: self.bits % pow2(rest),
                valid_bits: rest,
            }.flush()
        }
    }

    /// Appends the `n` low bits of `value` behind the waiting bits, and
    /// writes out every byte that has filled up.
    pub open spec fn write_bits(self, value: nat, n: nat) -> EncoderState {
        EncoderState {
            bytes: self.bytes,
            bits: self.bits * pow2(n) + value % pow2(n),
            valid_bits: self.valid_bits + n,
        }.flush()
    }

    /// Appends a parameter header: for TV the id with the high bit set, for
    /// TLV the two type bytes.
    pub open spec fn write_param_type(self, ty: ParameterType) -> EncoderState {
        match ty {
            ParameterType::Tv(id) => self.write_bytes(seq![(id % 128 + 128) as u8]),
            ParameterType::Tlv(id) => self.write_uint(id as nat, 2),
        }
    }

    /// The state in which the body of the TLV parameter `tlv_id` starts: the
    /// type is written and two bytes are reserved for the length.
    pub open spec fn tlv_open(self, tlv_id: u16) -> EncoderState {
        self.write_uint(tlv_id as nat, 2).write_bytes(seq![0u8, 0u8])
    }

    /// The number of bytes of a TLV parameter that started in state `self`
    /// and whose body ended in `body`, header included.
    pub open spec fn tlv_len(self, body: EncoderState) -> nat {
        (body.bytes.len() - self.bytes.len()) as nat
    }

    /// Closes a TLV parameter that was opened in state `self` and whose body
    /// ended in `body`: the reserved bytes get the parameter's length, as far
    /// as sixteen bits hold it. A body that gave up the reserved bytes is
    /// left as it is.
    pub open spec fn tlv_close(self, body: EncoderState) -> EncoderState {
        body.tlv_patch(self.bytes.len())
    }

    /// Puts the length of what was written from position `start` on into the
    /// length field of the TLV header that starts there.
    pub open spec fn tlv_patch(self, start: nat) -> EncoderState {
        let at = start as int + 2;
        let len = be_bytes(((self.bytes.len() - start) % 0x1_0000) as nat, 2);
        if self.bytes.len() >= start + 4 {
            self.with_bytes(self.bytes.update(at, len[0]).update(at + 1, len[1]))
        } else {
            self
        }
    }
}

/// Appends a copy of `bytes` to `buffer`.
pub fn append_bytes(buffer: &mut Vec<u8>, bytes: &[u8])
    ensures
        final(buffer)@ == old(buffer)@ + bytes@,
{
    let mut i: usize = 0;
    while i < bytes.len()
        invariant
            i <= bytes.len(),
            buffer@ == old(buffer)@ + bytes@.take(i as int),
        decreases bytes.len() - i,
    {
        buffer.push(bytes[i]);
        i += 1;
        assert(buffer@ =~= old(buffer)@ + bytes@.take(i as int));
    }
    assert(bytes@.take(bytes@.len() as int) =~= bytes@);
}

/// Appends to a byte buffer, with an accumulator for fields narrower than a byte.
pub struct Encoder {
    buffer: Vec<u8>,
    acc: BitContainer,
}

impl View for Encoder {
    type V = EncoderState;

    closed spec fn view(&self) -> EncoderState {
        self.acc.behind(self.buffer@)
    }
}

impl Encoder {
    /// What an encoder has produced is always well formed: less than a byte
    /// of bits is waiting.
    pub proof fn lemma_wf(&self)
        ensures
            self@.wf(),
    {
        self.acc.lemma_bound();
    }

    /// An encoder that appends to `buffer`.
    pub fn new(buffer: Vec<u8>) -> (e: Encoder)
        ensures
            e@ == EncoderState::start(buffer@),
    {
        Encoder { buffer, acc: BitContainer::new() }
    }

    /// The buffer with everything written so far. Bits that have not filled a
    /// byte are dropped.
    pub fn finish(self) -> (buffer: Vec<u8>)
        ensures
            buffer@ == self@.bytes,
    {
        self.buffer
    }

    pub fn write_bytes(&mut self, bytes: &[u8])
        ensures
            final(self)@ == old(self)@.write_bytes(bytes@),
    {
        append_bytes(&mut self.buffer, bytes);
    }

    /// Appends the `num_bytes` low bytes of `value`, most significant first.
    pub fn write_uint(&mut self, value: u64, num_bytes: usize)
        requires
            num_bytes <= 8,
        ensures
            final(self)@ == old(self)@.write_uint(value as nat, num_bytes as nat),
    {
        let mut tmp: [u8; 8] = [0u8;8];
        let mut i: usize = 0;
        let mut x: u64 = value;
        while i < num_bytes
            invariant
                i <= num_bytes <= 8,
                tmp@.len() == 8,
                be_bytes(value as nat, num_bytes as nat) == be_bytes(x as nat, (num_bytes - i) as nat)
                    + tmp@.subrange(8 - i, 8),
            decreases num_bytes - i,
        {
            let ghost before = tmp@;
            tmp[7 - i] = (x % 256) as u8;
            proof {
                let n = (num_bytes - i) as nat;
                assert(be_bytes(x as nat, n) == be_bytes((x / 256) as nat, (n - 1) as nat).push(
                    (x % 256) as u8,
                ));
                assert(tmp@.subrange(8 - i - 1, 8) =~= seq![(x % 256) as u8] + before.subrange(
                    8 - i,
                    8,
                ));
                assert(be_bytes((x / 256) as nat, (n - 1) as nat).push((x % 256) as u8)
                    + before.subrange(8 - i, 8) =~= be_bytes((x / 256) as nat, (n - 1) as nat)
                    + tmp@.subrange(8 - i - 1, 8));
            }
            x = x / 256;
            i += 1;
        }
        let out = vstd::slice::slice_subrange(tmp.as_slice(), 8 - num_bytes, 8);
        assert(be_bytes(x as nat, 0) + tmp@.subrange(8 - num_bytes, 8) =~= tmp@.subrange(
            8 - num_bytes,
            8,
        ));
        append_bytes(&mut self.buffer, out);
    }

    /// Appends the `num_bits` low bits of `value`, most significant first.
    pub fn write_raw_bits(&mut self, value: u32, num_bits: u8)
        requires
            1 <= num_bits <= 15,
        ensures
            final(self)@ == old(self)@.write_bits(value as nat, num_bits as nat),
    {
        self.acc.write_bits(&mut self.buffer, value, num_bits);
    }

    /// Writes a parameter header.
    pub fn write_param_type(&mut self, type_num: ParameterType)
        ensures
            final(self)@ == old(self)@.write_param_type(type_num),
    {
        match type_num {
            ParameterType::Tv(id) => {
                assert((id | 0b1000_0000) == (id % 128 + 128) as u8) by (bit_vector);
                let header: [u8; 1] = [id | 0b1000_0000];
                assert(header@ =~= seq![(id % 128 + 128) as u8]);
                self.write_bytes(header.as_slice());
            },
            ParameterType::Tlv(id) => {
                self.write_uint(id as u64, 2);
            },
        }
    }

    /// Everything written so far.
    pub fn written(&self) -> (bytes: &[u8])
        ensures
            bytes@ == self@.bytes,
    {
        self.buffer.as_slice()
    }

    /// Starts the TLV parameter `tlv_id`: writes the type and reserves the
    /// length field. Gives the position of the header.
    pub fn tlv_begin(&mut self, tlv_id: u16) -> (start: usize)
        ensures
            final(self)@ == old(self)@.tlv_open(tlv_id),
            start == old(self)@.bytes.len(),
    {
        let start = self.buffer.len();
        self.write_param_type(ParameterType::Tlv(tlv_id));
        let zeros: [u8; 2] = [0u8, 0u8];
        assert(zeros@ =~= seq![0u8, 0u8]);
        self.write_bytes(zeros.as_slice());
        start
    }

    /// Ends the TLV parameter whose header stands at `start`: its length
    /// field gets the number of bytes written since.
    pub fn tlv_end(&mut self, start: usize)
        ensures
            final(self)@ == old(self)@.tlv_patch(start as nat),
    {
        if self.buffer.len() >= start && self.buffer.len() - start >= 4 {
            let total: usize = self.buffer.len() - start;
            let len: u16 = (total % 0x1_0000) as u16;
            proof {
                reveal_with_fuel(be_bytes, 3);
            }
            self.buffer.set(start + 2, (len / 256) as u8);
            self.buffer.set(start + 3, (len % 256) as u8);
        }
    }

    /// Writes the TLV parameter `tlv_id`: its header, the body that `encode`
    /// appends, and the length of both in the header's length field.
    pub fn tlv_param<F>(&mut self, tlv_id: u16, encode: F) where F: FnOnce(&mut Encoder)
        requires
            forall|e: &mut Encoder|
                (*e)@ == old(self)@.tlv_open(tlv_id) ==> call_requires(encode, (e,)),
        ensures
            exists|e: &mut Encoder|
                (*e)@ == old(self)@.tlv_open(tlv_id) && #[trigger] call_ensures(encode, (e,), ())
                    && final(self)@ == old(self)@.tlv_close((*final(e))@),
    {
        let start = self.tlv_begin(tlv_id);
        encode(self);
        self.tlv_end(start);
    }
}

/// Where no bit is waiting, a flag and seven reserved bits make one byte
/// with the flag in its high bit, and no bit is waiting behind it.
pub proof fn lemma_flag_written(s: EncoderState, flag: bool)
    requires
        s.aligned(),
    ensures
        s.write_bits(
            if flag {
                1
            } else {
                0
            },
            1,
        ).write_bits(0, 7) == s.write_bytes(seq![crate::decoder::flag_byte(flag)]),
{
    vstd::arithmetic::power2::lemma2_to64();
    reveal_with_fuel(EncoderState::flush, 3);
    let bit: nat = if flag {
        1
    } else {
        0
    };
    assert(pow2(0) == 1 && pow2(1) == 2 && pow2(7) == 128);
    assert(bit % 2 == bit);
    let one = EncoderState { bytes: s.bytes, bits: bit, valid_bits: 1 };
    assert(s.write_bits(bit, 1) == one.flush());
    assert(one.flush() == one);
    assert(0nat % 128 == 0);
    assert(bit * 128 == crate::decoder::flag_byte(flag));
    let full = EncoderState { bytes: s.bytes, bits: bit * 128, valid_bits: 8 };
    assert(one.write_bits(0, 7) == full.flush());
    let byte = crate::decoder::flag_byte(flag);
    assert((bit * 128) / 1 == byte && (bit * 128) % 1 == 0);
    let done = EncoderState { bytes: s.bytes.push(byte), bits: 0, valid_bits: 0 };
    assert(full.flush() == done.flush());
    assert(done.flush() == done);
    assert(s.bytes.push(byte) =~= s.bytes + seq![byte]);
}

} // verus!
