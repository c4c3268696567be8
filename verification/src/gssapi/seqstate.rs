//! Sequence and replay tracking of received messages.
//!
//! GAP, UNSEQ, OLD and DUPLICATE are supplementary statuses: the message is
//! still returned to the caller, so they come back as a [`SeqStatus`] rather
//! than an error.
use vstd::prelude::*;

verus! {

/// Per-message sequence outcome.
#[derive(Debug, Clone, Copy, PartialEq, Eq, Structural)]
pub enum SeqStatus {
    /// Accepted in order (GSS_S_COMPLETE).
    Complete,
    /// Earlier sequence numbers were skipped (GSS_S_GAP_TOKEN).
    Gap,
    /// Out-of-order arrival under sequence checking (GSS_S_UNSEQ_TOKEN).
    Unseq,
    /// Too old for the replay window, without sequence checking
    /// (GSS_S_OLD_TOKEN).
    Old,
    /// Already seen under replay checking (GSS_S_DUPLICATE_TOKEN).
    Duplicate,
}

impl View for SeqStatus {
    type V = SeqStatus;

    open spec fn view(&self) -> SeqStatus {
        *self
    }
}

/// Sequence-number state for received per-message tokens.
#[derive(Debug)]
pub struct SeqState {
    pub do_replay: bool,
    pub do_sequence: bool,
    /// 64-bit sequence numbers, else 32-bit.
    pub wide: bool,
    pub base: u64,
    pub next: u64,
    pub recvmap: u64,
}

/// Model of [`SeqState`]: `recv[k]` tells whether number `next - 1 - k`,
/// counted from `base`, came in.
pub struct SeqStateV {
    pub do_replay: bool,
    pub do_sequence: bool,
    pub wide: bool,
    pub base: u64,
    pub next: u64,
    pub recv: Seq<bool>,
}

/// Bit `k` of `m`.
pub open spec fn bit(m: u64, k: u64) -> bool {
    (m >> k) & 1 == 1
}

impl View for SeqState {
    type V = SeqStateV;

    open spec fn view(&self) -> SeqStateV {
        SeqStateV {
            do_replay: self.do_replay,
            do_sequence: self.do_sequence,
            wide: self.wide,
            base: self.base,
            next: self.next,
            recv: Seq::new(64, |k: int| bit(self.recvmap, k as u64)),
        }
    }
}

/// The state before any message.
pub open spec fn fresh_seq_state(base: u64, do_replay: bool, do_sequence: bool, wide: bool) -> SeqStateV {
    SeqStateV { do_replay, do_sequence, wide, base, next: 0, recv: Seq::new(64, |k: int| false) }
}

impl SeqStateV {
    /// How many sequence numbers there are.
    pub open spec fn modulus(self) -> int {
        if self.wide { 0x1_0000_0000_0000_0000 } else { 0x1_0000_0000 }
    }

    /// A sequence number counted from the base.
    pub open spec fn rel(self, seq: u64) -> int {
        (seq - self.base) % self.modulus()
    }

    /// A window of 64 numbers.
    pub open spec fn ok(self) -> bool {
        self.recv.len() == 64
    }

    /// Whether relative number `rel` is in the window and came in.
    pub open spec fn seen(self, rel: int) -> bool {
        rel < self.next <= rel + 64 && self.recv[self.next - rel - 1]
    }
}

/// What receipt of `seq` does to the state and reports.
pub open spec fn seq_check_spec(s: SeqStateV, seq: u64) -> (SeqStateV, SeqStatus) {
    let rel = s.rel(seq);
    if !s.do_replay && !s.do_sequence {
        (s, SeqStatus::Complete)
    } else if rel >= s.next {
        // Newer than all before: the window moves up to it.
        let skipped = rel - s.next;
        (
            SeqStateV {
                next: ((rel + 1) % s.modulus()) as u64,
                recv: Seq::new(64, |k: int| k == 0 || (k > skipped && s.recv[k - skipped - 1])),
                ..s
            },
            if skipped > 0 && s.do_sequence { SeqStatus::Gap } else { SeqStatus::Complete },
        )
    } else {
        let age = s.next - rel;
        if age > 64 {
            (s, if s.do_sequence { SeqStatus::Unseq } else { SeqStatus::Old })
        } else if s.do_replay && s.recv[age - 1] {
            (s, SeqStatus::Duplicate)
        } else {
            (
                SeqStateV { recv: s.recv.update(age - 1, true), ..s },
                if s.do_sequence { SeqStatus::Unseq } else { SeqStatus::Complete },
            )
        }
    }
}

/// A number that came in, and is still in the window, is reported as a
/// duplicate when it comes again under replay checking.
pub proof fn law_seen_is_duplicate(s: SeqStateV, seq: u64)
    requires
        s.do_replay,
        s.seen(s.rel(seq)),
    ensures
        seq_check_spec(s, seq) == (s, SeqStatus::Duplicate),
{
}

/// Receipt of a number within reach of the window puts it on record, but for
/// the very last number before the counter wraps round.
pub proof fn law_receipt_recorded(s: SeqStateV, seq: u64)
    requires
        s.ok(),
        s.do_replay || s.do_sequence,
        s.next <= s.rel(seq) + 64,
        s.rel(seq) + 1 < s.modulus(),
    ensures
        seq_check_spec(s, seq).0.seen(s.rel(seq)),
        seq_check_spec(s, seq).0.base == s.base,
{
}

/// What is on record stays there until it leaves the window: receipt of
/// another number, short of the wrap-round, never forgets one in the window.
pub proof fn law_record_kept(s: SeqStateV, seq: u64, rel: int)
    requires
        s.seen(rel),
        0 <= rel,
        s.ok(),
        s.rel(seq) + 1 < s.modulus(),
    ensures
        seq_check_spec(s, seq).0.seen(rel) || seq_check_spec(s, seq).0.next > rel + 64,
{
}

proof fn lemma_shift(m: u64, s: u64, k: u64)
    requires
        1 <= s < 64,
        k < 64,
    ensures
        bit((m << s) | 1, k) == (k == 0 || (k >= s && bit(m, (k - s) as u64))),
{
    if k == 0 {
        assert((((m << s) | 1) >> 0) & 1 == 1) by (bit_vector);
    } else if k < s {
        assert((((m << s) | 1) >> k) & 1 == 0) by (bit_vector)
            requires
                0 < k < s < 64,
        ;
    } else {
        let j = (k - s) as u64;
        assert((((m << s) | 1) >> k) & 1 == (m >> j) & 1) by (bit_vector)
            requires
                k == j + s,
                1 <= s < 64,
                k < 64,
        ;
    }
}

proof fn lemma_set(m: u64, b: u64, k: u64)
    requires
        b < 64,
        k < 64,
    ensures
        bit(m | (1u64 << b), k) == (k == b || bit(m, k)),
        (m & (1u64 << b) != 0) == bit(m, b),
{
    assert(((m | (1u64 << b)) >> k) & 1 == (if k == b { 1u64 } else { (m >> k) & 1 })) by (bit_vector)
        requires
            b < 64,
            k < 64,
    ;
    assert((m & (1u64 << b) != 0) == ((m >> b) & 1 == 1)) by (bit_vector)
        requires
            b < 64,
    ;
}

impl SeqState {
    /// `base` is the initial sequence number; `wide` selects 64-bit sequence
    /// numbers vs 32-bit.
    pub fn new(base: u64, do_replay: bool, do_sequence: bool, wide: bool) -> (r: Self)
        ensures
            r@ == fresh_seq_state(base, do_replay, do_sequence, wide),
    {
        let r = SeqState { do_replay, do_sequence, wide, base, next: 0, recvmap: 0 };
        assert forall|k: u64| k < 64 implies !#[trigger] bit(0, k) by {
            assert((0u64 >> k) & 1 == 0) by (bit_vector);
        }
        assert(r@.recv =~= Seq::new(64, |k: int| false));
        r
    }

    fn rel(&self, seq: u64) -> (r: u64)
        ensures
            r == self@.rel(seq),
    {
        let d: u64 = seq.wrapping_sub(self.base);
        proof {
            if !self.wide {
                let m: int = 0x1_0000_0000;
                vstd::arithmetic::div_mod::lemma_mod_multiples_vanish(
                    if seq >= self.base { 0 } else { m },
                    (seq - self.base) as int,
                    m,
                );
            }
        }
        if self.wide { d } else { d % 0x1_0000_0000 }
    }

    /// Record receipt of `seq` and report the supplementary status.
    pub fn check(&mut self, seq: u64) -> (r: SeqStatus)
        ensures
            (final(self)@, r) == seq_check_spec(old(self)@, seq),
    {
        if !self.do_replay && !self.do_sequence {
            return SeqStatus::Complete;
        }
        let rel: u64 = self.rel(seq);
        let ghost before = self@;
        let ghost map = self.recvmap;
        if rel >= self.next {
            let skipped: u64 = rel - self.next;
            self.recvmap = if skipped >= 63 { 1 } else { (self.recvmap << (skipped + 1)) | 1 };
            self.next = if self.wide { rel.wrapping_add(1) } else { (rel + 1) % 0x1_0000_0000 };
            proof {
                let after = Seq::new(64, |k: int| k == 0 || (k > skipped && before.recv[k - skipped - 1]));
                assert forall|k: int| 0 <= k < 64 implies self@.recv[k] == after[k] by {
                    if skipped >= 63 {
                        let kk = k as u64;
                        assert((1u64 >> kk) & 1 == (if kk == 0 { 1u64 } else { 0 })) by (bit_vector);
                    } else {
                        lemma_shift(map, (skipped + 1) as u64, k as u64);
                    }
                }
                assert(self@.recv =~= after);
            }
            return if skipped > 0 && self.do_sequence { SeqStatus::Gap } else { SeqStatus::Complete };
        }
        let age: u64 = self.next - rel;
        if age > 64 {
            return if self.do_sequence { SeqStatus::Unseq } else { SeqStatus::Old };
        }
        let b: u64 = 1u64 << (age - 1);
        proof {
            lemma_set(map, (age - 1) as u64, 0);
        }
        if self.do_replay && (self.recvmap & b) != 0 {
            return SeqStatus::Duplicate;
        }
        self.recvmap = self.recvmap | b;
        proof {
            assert forall|k: int| 0 <= k < 64 implies self@.recv[k] == before.recv.update(age - 1, true)[k] by {
                lemma_set(map, (age - 1) as u64, k as u64);
            }
            assert(self@.recv =~= before.recv.update(age - 1, true));
        }
        if self.do_sequence { SeqStatus::Unseq } else { SeqStatus::Complete }
    }
}

} // verus!
