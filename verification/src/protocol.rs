//! DELTA-2 wire protocol: frame layout, the resynchronising assembler and
//! the measurement-frame decoder.
//!
//! Wire layout of one frame: a sync byte `0xAA`, two length-field bytes
//! (unused downstream), a protocol-version byte `0x01`, a frame-type byte
//! `0x61`, a command byte (`0xAD` measurement, `0xAE` health), a big-endian
//! 16-bit payload length `N`, the `N` payload bytes, and a trailing
//! big-endian 16-bit checksum: the modulo-65536 sum of every byte before it.

use vstd::prelude::*;

verus! {

/// Sync byte that opens every frame.
pub const FRAME_HEADER: u8 = 0xAA;
/// Required protocol-version byte at offset 3.
pub const FRAME_VERSION: u8 = 0x01;
/// Required frame-type byte at offset 4.
pub const FRAME_TYPE: u8 = 0x61;
/// Command byte tagging a measurement frame.
pub const CMD_MEASUREMENT: u8 = 0xAD;
/// Command byte tagging a device-health frame.
pub const CMD_HEALTH: u8 = 0xAE;

/// The value of a big-endian 16-bit field stored in two bytes.
pub open spec fn be_u16(hi: u8, lo: u8) -> int {
    hi as int * 256 + lo as int
}

/// Assembles a big-endian `u16` from its two bytes.
pub fn u16_from_be(hi: u8, lo: u8) -> (r: u16)
    ensures
        r as int == be_u16(hi, lo),
{
    hi as u16 * 256 + lo as u16
}

/// Whether the assembler accepts byte `d` when the buffer already holds
/// `pos` bytes: the sync, version, type and command positions are checked
/// against their required values, every other position accepts anything.
pub open spec fn byte_ok(pos: int, d: u8) -> bool {
    if pos == 0 {
        d == FRAME_HEADER
    } else if pos == 3 {
        d == FRAME_VERSION
    } else if pos == 4 {
        d == FRAME_TYPE
    } else if pos == 5 {
        d == CMD_MEASUREMENT || d == CMD_HEALTH
    } else {
        true
    }
}

/// Payload length declared by header bytes 6 and 7; meaningful once the
/// buffer holds at least 8 bytes.
pub open spec fn payload_len_spec(s: Seq<u8>) -> int {
    be_u16(s[6], s[7])
}

/// Total length of the frame that buffer `s` is part of: 8 header bytes,
/// the declared payload, and 2 checksum bytes.
pub open spec fn frame_len_spec(s: Seq<u8>) -> int {
    10 + payload_len_spec(s)
}

/// `s` is a buffer state the assembler can reach: every byte passed its
/// positional check, and the buffer has not grown past the frame length
/// declared by its own header.
pub open spec fn wf_data(s: Seq<u8>) -> bool {
    &&& forall|i: int| 0 <= i < s.len() ==> byte_ok(i, #[trigger] s[i])
    &&& s.len() >= 8 ==> s.len() <= frame_len_spec(s)
}

/// How many more bytes the assembler wants for buffer `s`: up to the
/// payload-length field first, then the rest of the declared frame.
pub open spec fn wanted_spec(s: Seq<u8>) -> int {
    if s.len() < 8 {
        8 - s.len()
    } else {
        frame_len_spec(s) - s.len()
    }
}

/// Buffer `s` holds a whole frame: the header was read and the length it
/// declares has been reached.
pub open spec fn complete_spec(s: Seq<u8>) -> bool {
    s.len() >= 8 && s.len() == frame_len_spec(s)
}

/// `f` is shaped like one whole frame on the wire: the checked positions
/// hold their required values and the length equals the one the header
/// declares. Nothing is said of the checksum.
pub open spec fn wire_shaped(f: Seq<u8>) -> bool {
    &&& f.len() >= 10
    &&& f.len() == frame_len_spec(f)
    &&& f[0] == FRAME_HEADER
    &&& f[3] == FRAME_VERSION
    &&& f[4] == FRAME_TYPE
    &&& (f[5] == CMD_MEASUREMENT || f[5] == CMD_HEALTH)
}

/// `f` is one whole valid frame: shaped like one and checksum-valid.
pub open spec fn valid_frame(f: Seq<u8>) -> bool {
    wire_shaped(f) && checksum_ok(f)
}

/// Sum of the bytes of `s`, unbounded.
pub open spec fn byte_sum(s: Seq<u8>) -> int
    decreases s.len(),
{
    if s.len() == 0 {
        0
    } else {
        byte_sum(s.drop_last()) + s.last()
    }
}

/// The modulo-65536 sum of every byte before the trailing two equals the
/// big-endian value stored in the trailing two.
pub open spec fn checksum_ok(s: Seq<u8>) -> bool {
    byte_sum(s.take(s.len() - 2)) % 65536 == be_u16(s[s.len() - 2], s[s.len() - 1])
}

/// One assembler transition: an accepted byte is appended, a rejected byte
/// empties the buffer and is itself discarded.
pub open spec fn step(s: Seq<u8>, d: u8) -> Seq<u8> {
    if byte_ok(s.len() as int, d) {
        s.push(d)
    } else {
        Seq::empty()
    }
}

/// The buffer after feeding `input` byte by byte from state `s`; feeding
/// stops at the first byte offered to an already complete buffer.
pub open spec fn run(s: Seq<u8>, input: Seq<u8>) -> Seq<u8>
    decreases input.len(),
{
    if input.len() == 0 || complete_spec(s) {
        s
    } else {
        run(step(s, input[0]), input.skip(1))
    }
}

/// How many bytes of `input` the assembler takes from state `s` before it
/// stops: all of them, unless a buffer completes first.
pub open spec fn consumed(s: Seq<u8>, input: Seq<u8>) -> int
    decreases input.len(),
{
    if input.len() == 0 || complete_spec(s) {
        0
    } else {
        1 + consumed(step(s, input[0]), input.skip(1))
    }
}

/// Number of range samples carried by a frame with buffer `s`: the payload
/// holds 5 fixed bytes, then 3 bytes per sample.
pub open spec fn count_spec(s: Seq<u8>) -> int {
    if s.len() >= 8 && payload_len_spec(s) >= 5 {
        (payload_len_spec(s) - 5) / 3
    } else {
        0
    }
}

/// One range sample, in the device's integer wire units.
#[derive(Debug, Clone, Copy, PartialEq, Eq, Structural)]
pub struct Measurement {
    /// Received signal strength, 0 to 255.
    pub signal_quality: u8,
    /// Distance in quarter-millimetre steps: millimetres are `distance_q / 4`.
    pub distance_q: u16,
}

impl Default for Measurement {
    /// The zero sample.
    fn default() -> (r: Self)
        ensures
            r == (Measurement { signal_quality: 0, distance_q: 0 }),
    {
        Measurement { signal_quality: 0, distance_q: 0 }
    }
}

/// One decoded angular sector of a revolution.
///
/// The device sweeps a fixed 24-degree sector per frame, whatever the sample
/// density, so consecutive samples sit `24 / measurements.len()` degrees
/// apart, ascending from the start angle.
#[derive(Debug, Clone)]
pub struct MeasurementFrame {
    /// Rotor speed in revolutions per minute: the raw byte times 3, exact.
    pub rpm: u16,
    /// Start angle in centidegrees, within `[0, 36000)`: the raw centidegree
    /// field plus the 180-degree housing correction, wrapped.
    pub start_angle_cdeg: u16,
    /// Wall clock at the frame's sync byte, nanoseconds since the epoch.
    pub timestamp: u128,
    /// Range samples in ascending angular order from the start angle.
    pub measurements: Vec<Measurement>,
}

/// The sample read from the 3 payload bytes at offset `13 + 3i` of a
/// completed frame `s`: signal quality, then the big-endian distance.
pub open spec fn measurement_spec(s: Seq<u8>, i: int) -> Measurement {
    Measurement {
        signal_quality: s[13 + 3 * i],
        distance_q: be_u16(s[14 + 3 * i], s[15 + 3 * i]) as u16,
    }
}

/// Decoded start angle in centidegrees: the raw big-endian centidegree field
/// at payload offset 3 plus the 180-degree housing correction, wrapped into
/// `[0, 36000)`.
pub open spec fn start_angle_spec(s: Seq<u8>) -> int {
    (be_u16(s[11], s[12]) + 18000) % 36000
}

/// A buffer the decoder accepts: a complete, checksum-valid measurement
/// frame whose payload carries at least its 5 fixed bytes.
pub open spec fn decodable(s: Seq<u8>) -> bool {
    &&& complete_spec(s)
    &&& checksum_ok(s)
    &&& s[5] == CMD_MEASUREMENT
    &&& payload_len_spec(s) >= 5
}

/// `r` is the frame decoded from buffer `s` stamped `ts`: the rpm byte times
/// 3, the corrected and wrapped start angle, and one sample per 3 payload
/// bytes after the 5 fixed ones.
pub open spec fn decoded_ok(s: Seq<u8>, ts: u128, r: MeasurementFrame) -> bool {
    &&& r.rpm == 3 * s[8]
    &&& r.start_angle_cdeg == start_angle_spec(s)
    &&& r.start_angle_cdeg < 36000
    &&& r.timestamp == ts
    &&& r.measurements@.len() == count_spec(s)
    &&& forall|i: int| 0 <= i < count_spec(s) ==> r.measurements@[i] == measurement_spec(s, i)
}

/// The placeholder frame returned where decoding does not apply: zero
/// fields and a single zero sample.
pub open spec fn is_default_frame(r: MeasurementFrame) -> bool {
    &&& r.rpm == 0
    &&& r.start_angle_cdeg == 0
    &&& r.timestamp == 0
    &&& r.measurements@.len() == 1
    &&& r.measurements@[0] == (Measurement { signal_quality: 0, distance_q: 0 })
}

impl Default for MeasurementFrame {
    /// The placeholder frame.
    fn default() -> (r: Self)
        ensures
            is_default_frame(r),
    {
        let mut measurements: Vec<Measurement> = Vec::new();
        measurements.push(Measurement { signal_quality: 0, distance_q: 0 });
        MeasurementFrame { rpm: 0, start_angle_cdeg: 0, timestamp: 0, measurements }
    }
}

impl MeasurementFrame {
    /// Decodes a completed raw measurement frame into typed samples. Any
    /// buffer the decoder does not accept — unfinished, checksum-invalid,
    /// health-tagged, or declaring a payload shorter than its 5 fixed
    /// bytes — yields the placeholder frame instead.
    pub fn from_partial(p: &PartialFrame) -> (r: MeasurementFrame)
        requires
            p.wf(),
        ensures
            decodable(p.data@) ==> decoded_ok(p.data@, p.timestamp, r),
            !decodable(p.data@) ==> is_default_frame(r),
    {
        if !(p.finished() && p.is_measurement_type()) {
            return MeasurementFrame::default();
        }
        let pl: usize = p.payload_length();
        if pl < 5 {
            return MeasurementFrame::default();
        }
        let rpm: u16 = (p.data[8] as u16) * 3;
        let start_raw: u16 = u16_from_be(p.data[11], p.data[12]);
        let start_angle_cdeg: u16 = ((start_raw as u32 + 18000) % 36000) as u16;
        let count: u16 = p.measurements_count();
        proof {
            assert(3 * count_spec(p.data@) <= payload_len_spec(p.data@) - 5);
        }
        let mut measurements: Vec<Measurement> = Vec::new();
        let mut i: usize = 0;
        while i < count as usize
            invariant
                p.wf(),
                decodable(p.data@),
                pl as int == payload_len_spec(p.data@),
                p.data@.len() == 10 + pl as int,
                count as int == count_spec(p.data@),
                3 * count as int <= pl as int - 5,
                i <= count as int,
                measurements@.len() == i,
                forall|k: int| 0 <= k < i ==> measurements@[k] == measurement_spec(p.data@, k),
            decreases count as int - i,
        {
            let base: usize = 13 + 3 * i;
            let q: u8 = p.data[base];
            let dist: u16 = u16_from_be(p.data[base + 1], p.data[base + 2]);
            measurements.push(Measurement { signal_quality: q, distance_q: dist });
            i = i + 1;
        }
        MeasurementFrame { rpm, start_angle_cdeg, timestamp: p.timestamp, measurements }
    }
}

/// Reads the current wall clock.
///
/// Relies on `std::time::SystemTime::now`, read against
/// `std::time::UNIX_EPOCH` and converted with `Duration::as_nanos`: the
/// current instant as nanoseconds since the epoch, or 0 should the clock
/// stand before the epoch. Nothing is stated of the result: no two readings
/// of a wall clock relate in any way this library could rely on.
#[verifier::external_body]
pub fn get_nanos() -> u128 {
    match std::time::SystemTime::now().duration_since(std::time::UNIX_EPOCH) {
        Ok(d) => d.as_nanos(),
        Err(_) => 0,
    }
}

/// Reported by [`PartialFrame::write_all`] when bytes are offered beyond a
/// completed frame that has not been collected and reset: a caller-contract
/// slip, not a protocol error.
#[derive(Debug, Clone, Copy, PartialEq, Eq, Structural)]
pub struct FrameSaturated;

/// The assembler's working buffer: one partially (or wholly) received frame.
///
/// Created once, then reused: completion or any positional mismatch resets
/// it in place. `data` grows byte by byte, `bytes_wanted` counts down to the
/// next decision point, `bytes_written` reports how many bytes the most
/// recent [`PartialFrame::write_all`] call consumed, and `timestamp` is the
/// wall clock captured when the sync byte of the current frame was seen.
#[derive(Debug, Clone)]
pub struct PartialFrame {
    pub data: Vec<u8>,
    pub bytes_wanted: usize,
    pub bytes_written: usize,
    pub timestamp: u128,
}

impl Default for PartialFrame {
    /// An empty assembler waiting for a sync byte, stamped with the clock.
    fn default() -> (r: Self)
        ensures
            r.wf(),
            r.data@ == Seq::<u8>::empty(),
            r.bytes_wanted == 8,
            r.bytes_written == 0,
    {
        PartialFrame {
            data: Vec::new(),
            bytes_wanted: 8,
            bytes_written: 0,
            timestamp: get_nanos(),
        }
    }
}

impl PartialFrame {
    /// The struct's invariant: the buffer is a reachable assembler state and
    /// `bytes_wanted` agrees with it.
    pub open spec fn wf(&self) -> bool {
        &&& wf_data(self.data@)
        &&& self.bytes_wanted == wanted_spec(self.data@)
    }

    /// Creates an empty assembler waiting for a sync byte.
    pub fn new() -> (r: Self)
        ensures
            r.wf(),
            r.data@ == Seq::<u8>::empty(),
            r.bytes_wanted == 8,
            r.bytes_written == 0,
    {
        PartialFrame::default()
    }

    /// Empties the buffer and starts the header search over; the consumed
    /// counter and the timestamp keep their values.
    pub fn reset(&mut self)
        ensures
            final(self).wf(),
            final(self).data@ == Seq::<u8>::empty(),
            final(self).bytes_wanted == 8,
            final(self).bytes_written == old(self).bytes_written,
            final(self).timestamp == old(self).timestamp,
    {
        self.data.clear();
        self.bytes_wanted = 8;
    }

    /// A whole frame has been buffered and its checksum matches.
    pub fn finished(&self) -> (r: bool)
        requires
            self.wf(),
        ensures
            r == (complete_spec(self.data@) && checksum_ok(self.data@)),
    {
        self.bytes_wanted == 0 && self.crc_16_valid()
    }

    /// The buffered frame's command byte tags it as a measurement frame.
    pub fn is_measurement_type(&self) -> (r: bool)
        ensures
            r == (self.data@.len() >= 6 && self.data@[5] == CMD_MEASUREMENT),
    {
        if self.data.len() >= 6 {
            self.data[5] == CMD_MEASUREMENT
        } else {
            false
        }
    }

    /// The buffered frame's command byte tags it as a device-health frame.
    pub fn is_health_type(&self) -> (r: bool)
        ensures
            r == (self.data@.len() >= 6 && self.data@[5] == CMD_HEALTH),
    {
        if self.data.len() >= 6 {
            self.data[5] == CMD_HEALTH
        } else {
            false
        }
    }

    /// The payload-length field has been buffered.
    pub fn has_payload_length(&self) -> (r: bool)
        ensures
            r == (self.data@.len() >= 8),
    {
        self.data.len() >= 8
    }

    /// The payload length declared by the header, or 0 while the
    /// payload-length field is still outstanding.
    pub fn payload_length(&self) -> (r: usize)
        ensures
            r as int == if self.data@.len() >= 8 {
                payload_len_spec(self.data@)
            } else {
                0
            },
    {
        if self.has_payload_length() {
            let msb: u8 = self.data[6];
            let lsb: u8 = self.data[7];
            u16_from_be(msb, lsb) as usize
        } else {
            0
        }
    }

    /// How many range samples the buffered frame carries: `(N - 5) / 3` for
    /// declared payload length `N`, or 0 while the length field is still
    /// outstanding or declares fewer than the 5 fixed payload bytes.
    pub fn measurements_count(&self) -> (r: u16)
        ensures
            r as int == count_spec(self.data@),
    {
        if self.has_payload_length() {
            let pl: u16 = u16_from_be(self.data[6], self.data[7]);
            if pl >= 5 {
                (pl - 5) / 3
            } else {
                0
            }
        } else {
            0
        }
    }

    /// Feeds `buf` to the assembler byte by byte and returns how many bytes
    /// it took. Every byte is examined against its positional check: an
    /// accepted byte is appended, a rejected byte empties the buffer and is
    /// itself discarded. Feeding stops early only when the buffer holds a
    /// whole frame, so the caller can collect it and re-offer the remainder.
    pub fn write(&mut self, buf: &[u8]) -> (n: usize)
        requires
            old(self).wf(),
            old(self).bytes_written + buf@.len() <= usize::MAX,
        ensures
            final(self).wf(),
            final(self).data@ == run(old(self).data@, buf@),
            n == consumed(old(self).data@, buf@),
            n <= buf@.len(),
            final(self).bytes_written == old(self).bytes_written + n,
            n < buf@.len() ==> complete_spec(final(self).data@),
    {
        let ghost orig: Seq<u8> = self.data@;
        let ghost orig_bw: int = self.bytes_written as int;
        proof {
            assert(buf@.skip(0) =~= buf@);
        }
        let mut i: usize = 0;
        while i < buf.len() && self.bytes_wanted != 0
            invariant
                self.wf(),
                i <= buf@.len(),
                orig_bw + buf@.len() <= usize::MAX,
                self.bytes_written == orig_bw + i,
                run(orig, buf@) == run(self.data@, buf@.skip(i as int)),
                consumed(orig, buf@) == i + consumed(self.data@, buf@.skip(i as int)),
            decreases buf@.len() - i,
        {
            let ghost prev: Seq<u8> = self.data@;
            let d: u8 = buf[i];
            let len: usize = self.data.len();
            let accept: bool = if len == 0 {
                d == FRAME_HEADER
            } else if len == 3 {
                d == FRAME_VERSION
            } else if len == 4 {
                d == FRAME_TYPE
            } else if len == 5 {
                d == CMD_MEASUREMENT || d == CMD_HEALTH
            } else {
                true
            };
            proof {
                assert(accept == byte_ok(prev.len() as int, d));
                assert(!complete_spec(prev));
            }
            if accept {
                if len == 0 {
                    self.timestamp = get_nanos();
                }
                self.data.push(d);
                self.bytes_wanted = self.bytes_wanted - 1;
                if self.data.len() == 8 {
                    let pl: usize = self.payload_length();
                    self.bytes_wanted = pl + 2;
                }
                proof {
                    assert(self.data@ == step(prev, d));
                    assert forall|k: int| 0 <= k < self.data@.len() implies byte_ok(
                        k,
                        #[trigger] self.data@[k],
                    ) by {
                        if k < prev.len() {
                            assert(self.data@[k] == prev[k]);
                        }
                    }
                    if prev.len() >= 8 {
                        assert(self.data@[6] == prev[6]);
                        assert(self.data@[7] == prev[7]);
                    }
                }
            } else {
                self.reset();
                proof {
                    assert(self.data@ == step(prev, d));
                }
            }
            proof {
                assert(buf@.skip(i as int)[0] == buf@[i as int]);
                assert(buf@.skip(i as int).skip(1) =~= buf@.skip(i + 1));
                assert(run(prev, buf@.skip(i as int)) == run(self.data@, buf@.skip(i + 1)));
                assert(consumed(prev, buf@.skip(i as int)) == 1 + consumed(
                    self.data@,
                    buf@.skip(i + 1),
                ));
            }
            i = i + 1;
            self.bytes_written = self.bytes_written + 1;
        }
        proof {
            if i == buf@.len() {
                assert(buf@.skip(i as int) =~= Seq::<u8>::empty());
            }
        }
        i
    }

    /// Feeds the whole of `buf`, reporting in `bytes_written` how many bytes
    /// this call consumed. Returns `Err(FrameSaturated)` when bytes were
    /// offered beyond a completed frame that the caller has not yet collected
    /// and reset: the leftover bytes are not consumed, and the caller should
    /// re-offer them after resetting.
    pub fn write_all(&mut self, buf: &[u8]) -> (r: Result<(), FrameSaturated>)
        requires
            old(self).wf(),
        ensures
            final(self).wf(),
            final(self).data@ == run(old(self).data@, buf@),
            final(self).bytes_written == consumed(old(self).data@, buf@),
            r is Ok <==> consumed(old(self).data@, buf@) == buf@.len(),
            r is Err ==> complete_spec(final(self).data@),
    {
        self.bytes_written = 0;
        let avail: usize = buf.len();
        let n: usize = self.write(buf);
        if n == avail {
            Ok(())
        } else {
            Err(FrameSaturated)
        }
    }

    /// The frame to hand on to a consumer, if any: a completed,
    /// checksum-valid measurement frame decodes to `Some`. An unfinished
    /// buffer, a failed checksum or a completed health frame yields `None`,
    /// so health frames never reach the consumer.
    pub fn completed_frame(&self) -> (r: Option<MeasurementFrame>)
        requires
            self.wf(),
        ensures
            (r is Some) == decodable(self.data@),
            r matches Some(m) ==> decoded_ok(self.data@, self.timestamp, m),
    {
        if self.finished() && self.is_measurement_type() && self.payload_length() >= 5 {
            Some(MeasurementFrame::from_partial(self))
        } else {
            None
        }
    }

    /// A whole frame has been buffered and the modulo-65536 sum of its bytes
    /// before the trailing checksum equals the checksum.
    pub fn crc_16_valid(&self) -> (r: bool)
        requires
            self.wf(),
        ensures
            r == (complete_spec(self.data@) && checksum_ok(self.data@)),
    {
        if self.bytes_wanted == 0 {
            let end: usize = self.data.len();
            let msb: u8 = self.data[end - 2];
            let lsb: u8 = self.data[end - 1];
            let crc_expected: u16 = u16_from_be(msb, lsb);
            let mut acc: u64 = 0;
            let mut i: usize = 0;
            while i < end - 2
                invariant
                    self.wf(),
                    complete_spec(self.data@),
                    end == self.data@.len(),
                    0 <= i <= end - 2,
                    acc == byte_sum(self.data@.take(i as int)),
                    acc <= 255 * i,
                decreases end - 2 - i,
            {
                let b: u8 = self.data[i];
                proof {
                    assert(self.data@.take(i + 1).drop_last() =~= self.data@.take(i as int));
                    assert(self.data@.take(i + 1).last() == self.data@[i as int]);
                }
                acc = acc + b as u64;
                i = i + 1;
            }
            proof {
                assert(self.data@.take((end - 2) as int) == self.data@.take(self.data@.len() - 2));
            }
            (acc % 65536) as u16 == crc_expected
        } else {
            false
        }
    }
}

} // verus!
