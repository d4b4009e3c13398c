//! The instruction sequences of the bus protocol: sending and reading one byte,
//! the acknowledge handshake, and the start and stop conditions of the 2-wire bus.
use vstd::prelude::*;

use crate::bus::{instr_ok, wire_ops, Instr, Op, Pin};

verus! {

/// Bit `k` of `b` (bit 0 is the least significant).
pub open spec fn bit_of(b: u8, k: int) -> bool {
    (b >> (k as u8)) & 1u8 == 1u8
}

/// Every instruction of `s` can be executed.
pub open spec fn all_ok(s: Seq<Instr>) -> bool {
    forall|j: int| 0 <= j < s.len() ==> instr_ok(#[trigger] s[j])
}

/// One bit on the wire: clock low, data to the bit, clock high, a pause after each.
pub open spec fn send_bit_instrs(level: bool) -> Seq<Instr> {
    seq![
        Instr::Drive(Pin::Clk, false),
        Instr::Pause,
        Instr::Drive(Pin::Dio, level),
        Instr::Pause,
        Instr::Drive(Pin::Clk, true),
        Instr::Pause,
    ]
}

/// Bits `k` to 7 of `b`, least significant first.
pub open spec fn send_bits(b: u8, k: nat) -> Seq<Instr>
    decreases 8 - k,
{
    if k >= 8 {
        Seq::empty()
    } else {
        send_bit_instrs(bit_of(b, k as int)) + send_bits(b, k + 1)
    }
}

/// A whole byte, least significant bit first.
pub open spec fn send_byte_instrs(b: u8) -> Seq<Instr> {
    send_bits(b, 0)
}

/// One bit read: clock low, pause, clock high, sample, pause.
pub open spec fn read_bit_instrs(k: u8) -> Seq<Instr> {
    seq![
        Instr::Drive(Pin::Clk, false),
        Instr::Pause,
        Instr::Drive(Pin::Clk, true),
        Instr::ReadBit(k),
        Instr::Pause,
    ]
}

/// Bits `k` to 7 of a byte read, most significant first.
pub open spec fn read_bits(k: nat) -> Seq<Instr>
    decreases 8 - k,
{
    if k >= 8 {
        Seq::empty()
    } else {
        read_bit_instrs(k as u8) + read_bits(k + 1)
    }
}

/// A whole byte read, most significant bit first.
pub open spec fn read_byte_instrs() -> Seq<Instr> {
    read_bits(0)
}

/// The acknowledge handshake after a byte: release data, clock low, the chip
/// must pull data low (code + 1) and keep it low over the ninth clock pulse
/// (code + 2), then, when `verify_final`, release it again (code + 3).
pub open spec fn ack_instrs(code: u8, verify_final: bool) -> Seq<Instr>
    recommends
        code <= 252,
{
    let s = seq![
        Instr::Drive(Pin::Dio, true),
        Instr::Drive(Pin::Clk, false),
        Instr::Pause,
        Instr::Await(false, (code + 1) as u8),
        Instr::Drive(Pin::Clk, true),
        Instr::Pause,
        Instr::Await(false, (code + 2) as u8),
        Instr::Drive(Pin::Clk, false),
        Instr::Pause,
    ];
    if verify_final {
        s.push(Instr::Await(true, (code + 3) as u8))
    } else {
        s
    }
}

/// The code of a failed release check in the stop condition.
pub const STOP_ACK_CODE: u8 = 255;

/// Start condition of the 2-wire bus: data falls while the clock is high.
pub open spec fn start_instrs() -> Seq<Instr> {
    seq![Instr::Drive(Pin::Clk, true), Instr::Drive(Pin::Dio, false), Instr::Pause]
}

/// Stop condition of the 2-wire bus: data rises while the clock is high, and
/// must be seen high.
pub open spec fn stop_instrs() -> Seq<Instr> {
    seq![
        Instr::Drive(Pin::Dio, false),
        Instr::Pause,
        Instr::Drive(Pin::Clk, true),
        Instr::Pause,
        Instr::Drive(Pin::Dio, true),
        Instr::Await(true, STOP_ACK_CODE),
        Instr::Pause,
    ]
}

/// The bits that a receiver sees on the wire when it latches the data line on
/// each rising clock edge, the data line standing at `dio` before the first
/// operation.
pub open spec fn latched(ops: Seq<Op>, dio: bool) -> Seq<bool>
    decreases ops.len(),
{
    if ops.len() == 0 {
        Seq::empty()
    } else {
        let rest = ops.drop_first();
        match ops[0] {
            Op::Drive(Pin::Dio, level) => latched(rest, level),
            Op::Drive(Pin::Clk, true) => seq![dio] + latched(rest, dio),
            _ => latched(rest, dio),
        }
    }
}

/// The number that bits spell, least significant first.
pub open spec fn lsb_value(bits: Seq<bool>) -> nat
    decreases bits.len(),
{
    if bits.len() == 0 {
        0
    } else {
        (if bits[0] {
            1nat
        } else {
            0nat
        }) + 2 * lsb_value(bits.drop_first())
    }
}

proof fn lemma_latched_bit(level: bool, rest: Seq<Op>, dio: bool, delay: u16)
    ensures
        latched(wire_ops(send_bit_instrs(level), delay) + rest, dio) == seq![level] + latched(
            rest,
            level,
        ),
{
    let s0 = wire_ops(send_bit_instrs(level), delay) + rest;
    let s1 = s0.drop_first();
    let s2 = s1.drop_first();
    let s3 = s2.drop_first();
    let s4 = s3.drop_first();
    let s5 = s4.drop_first();
    let s6 = s5.drop_first();
    assert(s0[0] == Op::Drive(Pin::Clk, false));
    assert(s1[0] == Op::Delay(delay));
    assert(s2[0] == Op::Drive(Pin::Dio, level));
    assert(s3[0] == Op::Delay(delay));
    assert(s4[0] == Op::Drive(Pin::Clk, true));
    assert(s5[0] == Op::Delay(delay));
    assert(s6 =~= rest);
    assert(latched(s5, level) == latched(s6, level));
    assert(latched(s4, level) == seq![level] + latched(s5, level));
    assert(latched(s3, level) == latched(s4, level));
    assert(latched(s2, dio) == latched(s3, level));
    assert(latched(s1, dio) == latched(s2, dio));
    assert(latched(s0, dio) == latched(s1, dio));
}

proof fn lemma_latched_bits(b: u8, k: nat, dio: bool, delay: u16)
    requires
        k <= 8,
    ensures
        latched(wire_ops(send_bits(b, k), delay), dio) == Seq::new(
            (8 - k) as nat,
            |j: int| bit_of(b, k + j),
        ),
    decreases 8 - k,
{
    if k == 8 {
        assert(wire_ops(send_bits(b, k), delay) =~= Seq::<Op>::empty());
        assert(latched(wire_ops(send_bits(b, k), delay), dio) =~= Seq::new(
            0,
            |j: int| bit_of(b, k + j),
        ));
    } else {
        let head = send_bit_instrs(bit_of(b, k as int));
        let tail = send_bits(b, k + 1);
        assert(wire_ops(send_bits(b, k), delay) =~= wire_ops(head, delay) + wire_ops(tail, delay));
        lemma_latched_bit(bit_of(b, k as int), wire_ops(tail, delay), dio, delay);
        lemma_latched_bits(b, k + 1, bit_of(b, k as int), delay);
        assert(seq![bit_of(b, k as int)] + Seq::new(
            (8 - (k + 1)) as nat,
            |j: int| bit_of(b, k + 1 + j),
        ) =~= Seq::new((8 - k) as nat, |j: int| bit_of(b, k + j)));
    }
}

proof fn lemma_lsb_value_bits(b: u8, k: u8)
    requires
        k <= 8,
    ensures
        lsb_value(Seq::new((8 - k) as nat, |j: int| bit_of(b, k + j))) == (b >> k) as nat,
    decreases 8 - k,
{
    let bits = Seq::new((8 - k) as nat, |j: int| bit_of(b, k + j));
    if k == 8 {
        assert(b >> 8u8 == 0u8) by (bit_vector);
    } else {
        let k1: u8 = (k + 1) as u8;
        lemma_lsb_value_bits(b, k1);
        assert(bits.drop_first() =~= Seq::new((8 - k1) as nat, |j: int| bit_of(b, k1 + j)));
        assert(bits[0] == bit_of(b, k as int));
        assert((b >> k) as nat == ((b >> k) & 1u8) as nat + 2 * ((b >> k1) as nat)) by (bit_vector)
            requires
                k < 8,
                k1 == k + 1,
        ;
        assert(((b >> k) & 1u8) == 1u8 || ((b >> k) & 1u8) == 0u8) by (bit_vector);
    }
}

/// Sending a byte puts its eight bits on the wire, least significant first,
/// each one standing on the data line when the clock rises: a receiver that
/// latches the line on each rising edge rebuilds the byte exactly.
pub proof fn lemma_send_byte_loopback(b: u8, dio: bool, delay: u16)
    ensures
        latched(wire_ops(send_byte_instrs(b), delay), dio) == Seq::new(8, |k: int| bit_of(b, k)),
        lsb_value(latched(wire_ops(send_byte_instrs(b), delay), dio)) == b,
{
    lemma_latched_bits(b, 0, dio, delay);
    assert(Seq::new(8, |j: int| bit_of(b, 0 + j)) =~= Seq::new(8, |k: int| bit_of(b, k)));
    lemma_lsb_value_bits(b, 0);
    assert(b >> 0u8 == b) by (bit_vector);
}

/// Appends a byte's transfer.
pub(crate) fn push_send_byte(prog: &mut Vec<Instr>, b: u8)
    requires
        all_ok(old(prog)@),
    ensures
        final(prog)@ == old(prog)@ + send_byte_instrs(b),
        all_ok(final(prog)@),
{
    let mut k: u8 = 0;
    while k < 8
        invariant
            k <= 8,
            old(prog)@ + send_bits(b, 0) == prog@ + send_bits(b, k as nat),
            all_ok(prog@),
        decreases 8 - k,
    {
        let high = (b >> k) & 1 == 1;
        let ghost before = prog@;
        prog.push(Instr::Drive(Pin::Clk, false));
        prog.push(Instr::Pause);
        prog.push(Instr::Drive(Pin::Dio, high));
        prog.push(Instr::Pause);
        prog.push(Instr::Drive(Pin::Clk, true));
        prog.push(Instr::Pause);
        proof {
            assert(prog@ =~= before + send_bit_instrs(bit_of(b, k as int)));
            assert(send_bits(b, k as nat) == send_bit_instrs(bit_of(b, k as int)) + send_bits(
                b,
                (k + 1) as nat,
            ));
            assert(before + send_bits(b, k as nat) =~= prog@ + send_bits(b, (k + 1) as nat));
            assert forall|j: int| 0 <= j < prog@.len() implies instr_ok(#[trigger] prog@[j]) by {
                if j < before.len() {
                    assert(prog@[j] == before[j]);
                }
            }
        }
        k = k + 1;
    }
    assert(send_bits(b, 8) =~= Seq::<Instr>::empty());
    assert(prog@ =~= old(prog)@ + send_byte_instrs(b));
}

/// Appends a byte's read.
pub(crate) fn push_read_byte(prog: &mut Vec<Instr>)
    requires
        all_ok(old(prog)@),
    ensures
        final(prog)@ == old(prog)@ + read_byte_instrs(),
        all_ok(final(prog)@),
{
    let mut k: u8 = 0;
    while k < 8
        invariant
            k <= 8,
            old(prog)@ + read_bits(0) == prog@ + read_bits(k as nat),
            all_ok(prog@),
        decreases 8 - k,
    {
        let ghost before = prog@;
        prog.push(Instr::Drive(Pin::Clk, false));
        prog.push(Instr::Pause);
        prog.push(Instr::Drive(Pin::Clk, true));
        prog.push(Instr::ReadBit(k));
        prog.push(Instr::Pause);
        proof {
            assert(prog@ =~= before + read_bit_instrs(k));
            assert(read_bits(k as nat) == read_bit_instrs(k) + read_bits((k + 1) as nat));
            assert(before + read_bits(k as nat) =~= prog@ + read_bits((k + 1) as nat));
            assert forall|j: int| 0 <= j < prog@.len() implies instr_ok(#[trigger] prog@[j]) by {
                if j < before.len() {
                    assert(prog@[j] == before[j]);
                }
            }
        }
        k = k + 1;
    }
    assert(read_bits(8) =~= Seq::<Instr>::empty());
    assert(prog@ =~= old(prog)@ + read_byte_instrs());
}

/// Appends the acknowledge handshake.
pub(crate) fn push_ack(prog: &mut Vec<Instr>, code: u8, verify_final: bool)
    requires
        all_ok(old(prog)@),
        code <= 252,
    ensures
        final(prog)@ == old(prog)@ + ack_instrs(code, verify_final),
        all_ok(final(prog)@),
{
    prog.push(Instr::Drive(Pin::Dio, true));
    prog.push(Instr::Drive(Pin::Clk, false));
    prog.push(Instr::Pause);
    prog.push(Instr::Await(false, code + 1));
    prog.push(Instr::Drive(Pin::Clk, true));
    prog.push(Instr::Pause);
    prog.push(Instr::Await(false, code + 2));
    prog.push(Instr::Drive(Pin::Clk, false));
    prog.push(Instr::Pause);
    if verify_final {
        prog.push(Instr::Await(true, code + 3));
    }
    assert(prog@ =~= old(prog)@ + ack_instrs(code, verify_final));
    assert forall|j: int| 0 <= j < prog@.len() implies instr_ok(#[trigger] prog@[j]) by {
        if j < old(prog)@.len() {
            assert(prog@[j] == old(prog)@[j]);
        }
    }
}

/// Appends the start condition.
pub(crate) fn push_start(prog: &mut Vec<Instr>)
    requires
        all_ok(old(prog)@),
    ensures
        final(prog)@ == old(prog)@ + start_instrs(),
        all_ok(final(prog)@),
{
    prog.push(Instr::Drive(Pin::Clk, true));
    prog.push(Instr::Drive(Pin::Dio, false));
    prog.push(Instr::Pause);
    assert(prog@ =~= old(prog)@ + start_instrs());
    assert forall|j: int| 0 <= j < prog@.len() implies instr_ok(#[trigger] prog@[j]) by {
        if j < old(prog)@.len() {
            assert(prog@[j] == old(prog)@[j]);
        }
    }
}

/// Appends the stop condition.
pub(crate) fn push_stop(prog: &mut Vec<Instr>)
    requires
        all_ok(old(prog)@),
    ensures
        final(prog)@ == old(prog)@ + stop_instrs(),
        all_ok(final(prog)@),
{
    prog.push(Instr::Drive(Pin::Dio, false));
    prog.push(Instr::Pause);
    prog.push(Instr::Drive(Pin::Clk, true));
    prog.push(Instr::Pause);
    prog.push(Instr::Drive(Pin::Dio, true));
    prog.push(Instr::Await(true, STOP_ACK_CODE));
    prog.push(Instr::Pause);
    assert(prog@ =~= old(prog)@ + stop_instrs());
    assert forall|j: int| 0 <= j < prog@.len() implies instr_ok(#[trigger] prog@[j]) by {
        if j < old(prog)@.len() {
            assert(prog@[j] == old(prog)@[j]);
        }
    }
}

} // verus!
