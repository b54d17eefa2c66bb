//! Laws of the frame assembler: proved facts about feeding byte streams to
//! the state machine in [`crate::protocol`].

use vstd::prelude::*;

use crate::protocol::byte_ok;
use crate::protocol::byte_sum;
use crate::protocol::checksum_ok;
use crate::protocol::complete_spec;
use crate::protocol::consumed;
use crate::protocol::decodable;
use crate::protocol::frame_len_spec;
use crate::protocol::FRAME_HEADER;
use crate::protocol::run;
use crate::protocol::step;
use crate::protocol::valid_frame;
use crate::protocol::wire_shaped;
use crate::protocol::CMD_HEALTH;

verus! {

/// Feeding a stream in chunks equals feeding it whole: the buffer reached
/// through `a` then `b` is the buffer reached through `a + b`, and the
/// consumed counts add up. Splitting a stream at any boundary — down to one
/// byte at a time — therefore changes nothing about what is assembled.
pub proof fn lemma_run_append(s: Seq<u8>, a: Seq<u8>, b: Seq<u8>)
    ensures
        run(s, a + b) == run(run(s, a), b),
        consumed(s, a + b) == consumed(s, a) + consumed(run(s, a), b),
    decreases a.len(),
{
    if a.len() == 0 {
        assert(a + b =~= b);
    } else if complete_spec(s) {
    } else {
        assert((a + b)[0] == a[0]);
        assert((a + b).skip(1) =~= a.skip(1) + b);
        lemma_run_append(step(s, a[0]), a.skip(1), b);
    }
}

/// The assembler takes every byte offered to it unless a completed frame
/// stops it: an end state that is not complete means nothing was left over.
pub proof fn lemma_consumed_all(s: Seq<u8>, input: Seq<u8>)
    requires
        !complete_spec(run(s, input)),
    ensures
        consumed(s, input) == input.len(),
    decreases input.len(),
{
    if input.len() == 0 {
    } else if complete_spec(s) {
        assert(false);
    } else {
        lemma_consumed_all(step(s, input[0]), input.skip(1));
    }
}

/// A buffer holding a whole frame takes nothing more: once complete it stays
/// exactly as it is, however many bytes follow, until the caller resets it.
/// Together with `lemma_frame_assembles` this makes completion a one-time
/// event per frame.
pub proof fn lemma_complete_consumes_nothing(s: Seq<u8>, input: Seq<u8>)
    requires
        complete_spec(s),
    ensures
        run(s, input) == s,
        consumed(s, input) == 0,
{
}

/// Every proper prefix of a frame, fed from position `k`, runs on to the
/// whole frame without a reset or an early completion.
proof fn lemma_prefix_runs(f: Seq<u8>, k: int)
    requires
        wire_shaped(f),
        0 <= k <= f.len(),
    ensures
        run(f.take(k), f.skip(k)) == f,
        consumed(f.take(k), f.skip(k)) == f.len() - k,
    decreases f.len() - k,
{
    if k == f.len() {
        assert(f.take(k) =~= f);
        assert(f.skip(k) =~= Seq::<u8>::empty());
    } else {
        let p = f.take(k);
        if k >= 8 {
            assert(p[6] == f[6]);
            assert(p[7] == f[7]);
            assert(frame_len_spec(p) == frame_len_spec(f));
        }
        assert(!complete_spec(p));
        assert(byte_ok(k, f[k]));
        assert(step(p, f[k]) =~= f.take(k + 1));
        assert(f.skip(k)[0] == f[k]);
        assert(f.skip(k).skip(1) =~= f.skip(k + 1));
        lemma_prefix_runs(f, k + 1);
    }
}

/// A whole wire-shaped frame fed to an empty assembler is taken byte for
/// byte and ends buffered complete, and no proper prefix of it is reported
/// complete along the way: completion happens exactly once, at the last
/// byte.
pub proof fn lemma_frame_assembles(f: Seq<u8>)
    requires
        wire_shaped(f),
    ensures
        run(Seq::<u8>::empty(), f) == f,
        consumed(Seq::<u8>::empty(), f) == f.len(),
        complete_spec(f),
        forall|k: int| 0 <= k < f.len() ==> !complete_spec(#[trigger] f.take(k)),
{
    assert(f.take(0) =~= Seq::<u8>::empty());
    assert(f.skip(0) =~= f);
    lemma_prefix_runs(f, 0);
    assert forall|k: int| 0 <= k < f.len() implies !complete_spec(#[trigger] f.take(k)) by {
        if k >= 8 {
            assert(f.take(k)[6] == f[6]);
            assert(f.take(k)[7] == f[7]);
        }
    }
}

/// Noise without a single sync byte is discarded wholesale: every byte fails
/// the header check and the assembler stays empty. One sufficient way to
/// meet the premise of `lemma_resync`.
pub proof fn lemma_headerless_noise_ignored(noise: Seq<u8>)
    requires
        forall|i: int| 0 <= i < noise.len() ==> noise[i] != FRAME_HEADER,
    ensures
        run(Seq::<u8>::empty(), noise) == Seq::<u8>::empty(),
    decreases noise.len(),
{
    if noise.len() > 0 {
        assert(step(Seq::<u8>::empty(), noise[0]) =~= Seq::<u8>::empty());
        lemma_headerless_noise_ignored(noise.skip(1));
        assert(forall|i: int| 0 <= i < noise.skip(1).len() ==> noise.skip(1)[i] != FRAME_HEADER);
    }
}

/// Resynchronisation: noise that leaves the assembler empty, followed by one
/// whole valid frame, yields exactly that frame — complete and
/// checksum-valid, every byte of noise and frame consumed, and no other
/// frame surfacing in between.
pub proof fn lemma_resync(noise: Seq<u8>, f: Seq<u8>)
    requires
        run(Seq::<u8>::empty(), noise) == Seq::<u8>::empty(),
        valid_frame(f),
    ensures
        run(Seq::<u8>::empty(), noise + f) == f,
        consumed(Seq::<u8>::empty(), noise + f) == noise.len() + f.len(),
        complete_spec(f),
        checksum_ok(f),
{
    lemma_run_append(Seq::<u8>::empty(), noise, f);
    lemma_consumed_all(Seq::<u8>::empty(), noise);
    lemma_frame_assembles(f);
}

/// The byte sum is never negative.
proof fn lemma_byte_sum_nonneg(s: Seq<u8>)
    ensures
        0 <= byte_sum(s),
    decreases s.len(),
{
    if s.len() > 0 {
        lemma_byte_sum_nonneg(s.drop_last());
    }
}

/// Replacing one byte moves the byte sum by exactly the difference.
proof fn lemma_byte_sum_update(s: Seq<u8>, i: int, v: u8)
    requires
        0 <= i < s.len(),
    ensures
        byte_sum(s.update(i, v)) == byte_sum(s) - s[i] + v,
    decreases s.len(),
{
    let t = s.update(i, v);
    if i == s.len() - 1 {
        assert(t.drop_last() =~= s.drop_last());
        assert(t.last() == v);
    } else {
        assert(t.drop_last() =~= s.drop_last().update(i, v));
        assert(t.last() == s.last());
        lemma_byte_sum_update(s.drop_last(), i, v);
    }
}

/// Two non-negative numbers that differ, but by less than the modulus, leave
/// different remainders.
proof fn lemma_mod_differs(a: int, b: int, m: int)
    requires
        0 <= a,
        0 <= b,
        a != b,
        -m < a - b < m,
        m > 0,
    ensures
        a % m != b % m,
{
    vstd::arithmetic::div_mod::lemma_fundamental_div_mod(a, m);
    vstd::arithmetic::div_mod::lemma_fundamental_div_mod(b, m);
    if a % m == b % m {
        let x = a / m;
        let y = b / m;
        let q = x - y;
        assert(a - b == m * x - m * y);
        assert(m * x - m * y == m * q) by (nonlinear_arith)
            requires
                q == x - y,
        ;
        if q >= 1 {
            assert(m * q >= m) by (nonlinear_arith)
                requires
                    q >= 1,
                    m > 0,
            ;
        } else if q <= -1 {
            assert(m * q <= -m) by (nonlinear_arith)
                requires
                    q <= -1,
                    m > 0,
            ;
        }
        assert(q == 0);
        assert(false);
    }
}

/// Corrupting any single payload byte of a valid frame breaks its checksum:
/// the corrupted bytes still assemble into a complete buffer — the changed
/// byte sits at an unchecked position — but the stored checksum no longer
/// matches, so the frame is discarded rather than reported finished.
pub proof fn lemma_corrupt_payload_fails_checksum(f: Seq<u8>, i: int, v: u8)
    requires
        valid_frame(f),
        8 <= i < f.len() - 2,
        v != f[i],
    ensures
        !checksum_ok(f.update(i, v)),
        wire_shaped(f.update(i, v)),
        run(Seq::<u8>::empty(), f.update(i, v)) == f.update(i, v),
        complete_spec(f.update(i, v)),
{
    let g = f.update(i, v);
    let len = f.len() as int;
    assert(g[6] == f[6] && g[7] == f[7]);
    assert(wire_shaped(g));
    lemma_frame_assembles(g);
    assert(g.take(len - 2) =~= f.take(len - 2).update(i, v));
    lemma_byte_sum_update(f.take(len - 2), i, v);
    lemma_byte_sum_nonneg(f.take(len - 2));
    lemma_byte_sum_nonneg(g.take(len - 2));
    let a = byte_sum(f.take(len - 2));
    let b = byte_sum(g.take(len - 2));
    assert(f.take(len - 2)[i] == f[i]);
    assert(b == a - f[i] + v);
    lemma_mod_differs(a, b, 65536);
    assert(g[len - 2] == f[len - 2] && g[len - 1] == f[len - 1]);
}

/// A structurally valid, checksum-valid health frame assembles and is
/// reported complete like any other, yet is never decodable, so the
/// publishing filter holds it back from the consumer.
pub proof fn lemma_health_frame_not_published(f: Seq<u8>)
    requires
        valid_frame(f),
        f[5] == CMD_HEALTH,
    ensures
        run(Seq::<u8>::empty(), f) == f,
        complete_spec(f),
        checksum_ok(f),
        !decodable(f),
{
    lemma_frame_assembles(f);
}

} // verus!


