//! Frames on the two bus topologies.
//!
//! On the 2-wire bus (clock and data) a frame is framed by start and stop
//! conditions and each byte is acknowledged by the chip. On the 3-wire bus the
//! strobe line, held low for the frame, replaces both.
use vstd::prelude::*;

use crate::bus::{initial, Instr, Pin, Transfer, TransferView};
use crate::program::{
    ack_instrs, all_ok, push_ack, push_read_byte, push_send_byte, push_start, push_stop,
    read_byte_instrs, send_byte_instrs, start_instrs, stop_instrs,
};
use crate::{TmError, COM_DATA_READ};

verus! {

/// The longest frame that the 2-wire bus can send: the acknowledge codes of
/// its bytes must fit in a byte.
pub const MAX_FRAME_2WIRE: usize = 25;

/// Acknowledge code base of the key-scan read command on the 2-wire bus.
pub const READ_COMMAND_ACK_CODE: u8 = 230;

/// Acknowledge code base of the key-scan byte read on the 2-wire bus.
pub const READ_DATA_ACK_CODE: u8 = 240;

/// The most bytes that one 3-wire key-scan read returns.
pub const MAX_READ_3WIRE: u8 = 4;

/// A transfer made of a prologue, a body and a cleanup, handing out nothing yet.
pub open spec fn layout(
    prologue: Seq<Instr>,
    body: Seq<Instr>,
    cleanup: Seq<Instr>,
    delay: u16,
    fault: Option<TmError>,
) -> TransferView {
    initial(
        prologue + body + cleanup,
        prologue.len(),
        prologue.len() + body.len(),
        delay,
        fault,
    )
}

/// The fault that an empty frame is reported with.
pub open spec fn empty_fault(bytes: Seq<u8>) -> Option<TmError> {
    if bytes.len() == 0 {
        Some(TmError::Input)
    } else {
        None
    }
}

/// Whether `b` is the key-scan read command: a data command (top bits `01`)
/// with the read bit set.
pub open spec fn is_key_read(b: u8) -> bool {
    b & 0b1100_0010u8 == COM_DATA_READ
}

/// The acknowledge code base of the byte at index `i`: `10 * (i + 1)`.
pub open spec fn ack_base(i: int) -> u8 {
    (10 * (i + 1)) as u8
}

/// Whether the release of the data line is checked after the byte at index `i`:
/// always, except after a key-scan read command, where the chip goes on
/// driving the line.
pub open spec fn checks_release(bytes: Seq<u8>, i: int) -> bool {
    !(i == 0 && is_key_read(bytes[0]))
}

/// The first `n` bytes of a 2-wire frame, each with its acknowledge.
pub open spec fn frame2_bytes(bytes: Seq<u8>, n: nat) -> Seq<Instr>
    decreases n,
{
    if n == 0 {
        Seq::empty()
    } else {
        frame2_bytes(bytes, (n - 1) as nat) + send_byte_instrs(bytes[n - 1]) + ack_instrs(
            ack_base(n - 1),
            checks_release(bytes, n - 1),
        )
    }
}

/// The first `n` bytes of a 3-wire frame.
pub open spec fn frame3_bytes(bytes: Seq<u8>, n: nat) -> Seq<Instr>
    decreases n,
{
    if n == 0 {
        Seq::empty()
    } else {
        frame3_bytes(bytes, (n - 1) as nat) + send_byte_instrs(bytes[n - 1])
    }
}

/// `n` byte reads.
pub open spec fn read_bytes(n: nat) -> Seq<Instr>
    decreases n,
{
    if n == 0 {
        Seq::empty()
    } else {
        read_bytes((n - 1) as nat) + read_byte_instrs()
    }
}

/// The body of a 2-wire key-scan read: the command, acknowledged without the
/// release check, then the byte read and acknowledged.
pub open spec fn read2_body() -> Seq<Instr> {
    send_byte_instrs(COM_DATA_READ) + ack_instrs(READ_COMMAND_ACK_CODE, false)
        + read_byte_instrs() + ack_instrs(READ_DATA_ACK_CODE, true)
}

/// Opening of a 3-wire frame: strobe low between two pauses.
pub open spec fn strobe_open() -> Seq<Instr> {
    seq![Instr::Pause, Instr::Drive(Pin::Stb, false), Instr::Pause]
}

/// All three lines back to idle (high).
pub open spec fn park() -> Seq<Instr> {
    seq![Instr::Drive(Pin::Stb, true), Instr::Drive(Pin::Clk, true), Instr::Drive(Pin::Dio, true)]
}

/// The body of a 3-wire key-scan read of `count` bytes: the command, then the
/// data line released and a pause before the first bit.
pub open spec fn read3_body(count: nat) -> Seq<Instr> {
    send_byte_instrs(COM_DATA_READ) + seq![Instr::Drive(Pin::Dio, true), Instr::Pause]
        + read_bytes(count)
}

fn is_key_read_command(b: u8) -> (r: bool)
    ensures
        r == is_key_read(b),
{
    b & 0b1100_0010u8 == COM_DATA_READ
}

fn push_park(prog: &mut Vec<Instr>)
    requires
        all_ok(old(prog)@),
    ensures
        final(prog)@ == old(prog)@ + park(),
        all_ok(final(prog)@),
{
    prog.push(Instr::Drive(Pin::Stb, true));
    prog.push(Instr::Drive(Pin::Clk, true));
    prog.push(Instr::Drive(Pin::Dio, true));
    assert(prog@ =~= old(prog)@ + park());
    assert forall|j: int| 0 <= j < prog@.len() implies crate::bus::instr_ok(#[trigger] prog@[j]) by {
        if j < old(prog)@.len() {
            assert(prog@[j] == old(prog)@[j]);
        }
    }
}

fn push_strobe_open(prog: &mut Vec<Instr>)
    requires
        all_ok(old(prog)@),
    ensures
        final(prog)@ == old(prog)@ + strobe_open(),
        all_ok(final(prog)@),
{
    prog.push(Instr::Pause);
    prog.push(Instr::Drive(Pin::Stb, false));
    prog.push(Instr::Pause);
    assert(prog@ =~= old(prog)@ + strobe_open());
    assert forall|j: int| 0 <= j < prog@.len() implies crate::bus::instr_ok(#[trigger] prog@[j]) by {
        if j < old(prog)@.len() {
            assert(prog@[j] == old(prog)@[j]);
        }
    }
}

/// The bytes of a 3-wire key-scan read in the fixed four-byte response, the
/// remaining entries zero.
pub fn key_response(bytes: &[u8]) -> (r: [u8; 4])
    requires
        bytes@.len() <= MAX_READ_3WIRE,
    ensures
        r@ == bytes@ + Seq::new((4 - bytes@.len()) as nat, |j: int| 0u8),
{
    let mut response = [0u8;4];
    let mut i: usize = 0;
    while i < bytes.len()
        invariant
            i <= bytes@.len() <= 4,
            response@.len() == 4,
            forall|j: int| 0 <= j < i ==> response@[j] == bytes@[j],
            forall|j: int| i <= j < 4 ==> response@[j] == 0u8,
        decreases bytes@.len() - i,
    {
        response[i] = bytes[i];
        i = i + 1;
    }
    assert(response@ =~= bytes@ + Seq::new((4 - bytes@.len()) as nat, |j: int| 0u8));
    response
}

impl Transfer {
    /// Sends a frame on the 2-wire bus: start; each byte followed by its
    /// acknowledge, with code base `10 * (index + 1)`, up to the first failure;
    /// then stop, which runs whatever happened before. A failed start ends the
    /// transfer at once. The result is the first error of the bytes, else that of
    /// the stop; an empty frame is reported as `TmError::Input`.
    pub fn send_2wire(delay: u16, bytes: &[u8]) -> (t: Transfer)
        requires
            bytes@.len() <= MAX_FRAME_2WIRE,
        ensures
            t@ == layout(
                start_instrs(),
                frame2_bytes(bytes@, bytes@.len()),
                stop_instrs(),
                delay,
                empty_fault(bytes@),
            ),
            t@.wf(),
    {
        let mut prog: Vec<Instr> = Vec::new();
        push_start(&mut prog);
        let body = prog.len();
        let mut i: usize = 0;
        while i < bytes.len()
            invariant
                i <= bytes@.len() <= MAX_FRAME_2WIRE,
                body == start_instrs().len(),
                prog@ == start_instrs() + frame2_bytes(bytes@, i as nat),
                all_ok(prog@),
            decreases bytes@.len() - i,
        {
            let checks = !(i == 0 && is_key_read_command(bytes[0]));
            push_send_byte(&mut prog, bytes[i]);
            push_ack(&mut prog, 10 * (i as u8 + 1), checks);
            proof {
                assert(ack_base(i as int) == 10 * (i as u8 + 1));
                assert(prog@ =~= start_instrs() + frame2_bytes(bytes@, (i + 1) as nat));
            }
            i = i + 1;
        }
        let cleanup = prog.len();
        push_stop(&mut prog);
        assert(prog@ =~= start_instrs() + frame2_bytes(bytes@, bytes@.len()) + stop_instrs());
        let fault = if bytes.len() == 0 {
            Some(TmError::Input)
        } else {
            None
        };
        Transfer::new(prog, body, cleanup, delay, fault)
    }

    /// Reads one key-scan byte on the 2-wire bus: start; the key-scan read
    /// command, acknowledged without the release check; the byte, most
    /// significant bit first, acknowledged; stop, which runs whatever happened
    /// before. The result is the byte, or the first error of the frame, else that
    /// of the stop.
    pub fn read_2wire(delay: u16) -> (t: Transfer)
        ensures
            t@ == layout(start_instrs(), read2_body(), stop_instrs(), delay, None),
            t@.wf(),
    {
        let mut prog: Vec<Instr> = Vec::new();
        push_start(&mut prog);
        let body = prog.len();
        push_send_byte(&mut prog, COM_DATA_READ);
        push_ack(&mut prog, READ_COMMAND_ACK_CODE, false);
        push_read_byte(&mut prog);
        push_ack(&mut prog, READ_DATA_ACK_CODE, true);
        let cleanup = prog.len();
        push_stop(&mut prog);
        assert(prog@ =~= start_instrs() + read2_body() + stop_instrs());
        Transfer::new(prog, body, cleanup, delay, None)
    }

    /// Sends a frame on the 3-wire bus: pause, strobe low, pause; the bytes, up
    /// to the first failure; then a pause and strobe, clock and data parked high,
    /// whatever happened before. A failure to lower the strobe ends the transfer
    /// at once. The result is the first error of the bytes, else that of the
    /// parking; an empty frame is reported as `TmError::Input`.
    pub fn send_3wire(delay: u16, bytes: &[u8]) -> (t: Transfer)
        ensures
            t@ == layout(
                strobe_open(),
                frame3_bytes(bytes@, bytes@.len()),
                seq![Instr::Pause] + park(),
                delay,
                empty_fault(bytes@),
            ),
            t@.wf(),
    {
        let mut prog: Vec<Instr> = Vec::new();
        push_strobe_open(&mut prog);
        let body = prog.len();
        let mut i: usize = 0;
        while i < bytes.len()
            invariant
                i <= bytes@.len(),
                body == strobe_open().len(),
                prog@ == strobe_open() + frame3_bytes(bytes@, i as nat),
                all_ok(prog@),
            decreases bytes@.len() - i,
        {
            push_send_byte(&mut prog, bytes[i]);
            assert(prog@ =~= strobe_open() + frame3_bytes(bytes@, (i + 1) as nat));
            i = i + 1;
        }
        let cleanup = prog.len();
        let ghost pre = prog@;
        prog.push(Instr::Pause);
        assert forall|j: int| 0 <= j < prog@.len() implies crate::bus::instr_ok(#[trigger] prog@[j]) by {
            if j < pre.len() {
                assert(prog@[j] == pre[j]);
            }
        }
        push_park(&mut prog);
        assert(prog@ =~= strobe_open() + frame3_bytes(bytes@, bytes@.len()) + (seq![Instr::Pause] + park()));
        let fault = if bytes.len() == 0 {
            Some(TmError::Input)
        } else {
            None
        };
        Transfer::new(prog, body, cleanup, delay, fault)
    }

    /// Reads `count` key-scan bytes on the 3-wire bus. A count outside `1..=4`
    /// is refused with `TmError::Input` before any transfer exists, so no pin is
    /// touched. Otherwise: pause, strobe low, pause; the key-scan read command;
    /// data released and a pause; the bytes, most significant bit first, up to
    /// the first failure; then strobe, clock and data parked high, whatever
    /// happened before. The result is the bytes read, or the first error of the
    /// frame, else that of the parking.
    pub fn read_3wire(delay: u16, count: u8) -> (r: Result<Transfer, TmError>)
        ensures
            (count == 0 || count > MAX_READ_3WIRE) <==> r is Err,
            r is Err ==> r == Err::<Transfer, TmError>(TmError::Input),
            r matches Ok(t) ==> t@ == layout(strobe_open(), read3_body(count as nat), park(), delay, None)
                && t@.wf(),
    {
        if count == 0 || count > MAX_READ_3WIRE {
            return Err(TmError::Input);
        }
        let mut prog: Vec<Instr> = Vec::new();
        push_strobe_open(&mut prog);
        let body = prog.len();
        push_send_byte(&mut prog, COM_DATA_READ);
        let ghost pre = prog@;
        prog.push(Instr::Drive(Pin::Dio, true));
        prog.push(Instr::Pause);
        let ghost released = prog@;
        assert forall|j: int| 0 <= j < prog@.len() implies crate::bus::instr_ok(#[trigger] prog@[j]) by {
            if j < pre.len() {
                assert(prog@[j] == pre[j]);
            }
        }
        let mut n: u8 = 0;
        while n < count
            invariant
                n <= count <= MAX_READ_3WIRE,
                body == strobe_open().len(),
                prog@ == released + read_bytes(n as nat),
                all_ok(prog@),
            decreases count - n,
        {
            push_read_byte(&mut prog);
            assert(prog@ =~= released + read_bytes((n + 1) as nat));
            n = n + 1;
        }
        let cleanup = prog.len();
        push_park(&mut prog);
        assert(released =~= strobe_open() + send_byte_instrs(COM_DATA_READ) + seq![
            Instr::Drive(Pin::Dio, true),
            Instr::Pause,
        ]);
        assert(prog@ =~= strobe_open() + read3_body(count as nat) + park());
        Ok(Transfer::new(prog, body, cleanup, delay, None))
    }
}

} // verus!
