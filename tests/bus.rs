use tmledkey_hal_drv::bus::{Event, Op, Pin, Step, Transfer};
use tmledkey_hal_drv::wire::{key_response, MAX_FRAME_2WIRE};
use tmledkey_hal_drv::{TmError, COM_DATA_ADDRESS_ADD, COM_DATA_READ, COM_DISPLAY_ON};

/// Runs a transfer to its end, answering each operation with `respond`.
fn run(t: &mut Transfer, mut respond: impl FnMut(Op) -> Event) -> (Result<Vec<u8>, TmError>, Vec<Op>) {
    let mut ops = Vec::new();
    let mut step = t.begin();
    loop {
        match step {
            Step::Act(op) => {
                ops.push(op);
                assert!(ops.len() < 100_000);
                let ev = respond(op);
                step = t.step(ev);
            }
            Step::Finish(r) => {
                assert!(t.is_finished());
                return (r, ops);
            }
        }
    }
}

/// A 2-wire chip: it watches the lines, pulls the data line low over the
/// acknowledge clock of each byte it accepts, and drives the bits of `reply`
/// when asked for key-scan data.
struct Chip {
    clk: bool,
    dio: bool,
    pull: bool,
    rises: u32,
    byte: usize,
    acks: Vec<bool>,
    reply: u8,
    reading: bool,
    sent_bits: Vec<bool>,
}

impl Chip {
    fn new(acks: Vec<bool>, reply: u8) -> Chip {
        Chip {
            clk: true,
            dio: true,
            pull: false,
            rises: 0,
            byte: 0,
            acks,
            reply,
            reading: false,
            sent_bits: Vec::new(),
        }
    }

    fn line(&self) -> bool {
        self.dio && !self.pull
    }

    fn respond(&mut self, op: Op) -> Event {
        match op {
            Op::Drive(Pin::Clk, level) => {
                if level && !self.clk {
                    self.rises += 1;
                    if self.rises <= 8 && !self.reading {
                        self.sent_bits.push(self.dio);
                    }
                }
                if !level && self.clk {
                    if self.rises == 8 {
                        self.pull = *self.acks.get(self.byte).unwrap_or(&false);
                    } else if self.rises == 9 {
                        self.pull = false;
                        if self.byte == 0 && self.sent_bits == bits_lsb(COM_DATA_READ) {
                            self.reading = true;
                        } else {
                            self.reading = false;
                        }
                        self.rises = 0;
                        self.byte += 1;
                        self.sent_bits.clear();
                    }
                    if self.reading && self.rises < 8 {
                        let bit = self.reply & (0x80 >> self.rises) != 0;
                        self.pull = !bit;
                    }
                }
                self.clk = level;
                Event::Done
            }
            Op::Drive(Pin::Dio, level) => {
                if self.clk && self.dio && !level {
                    self.rises = 0;
                    self.byte = 0;
                    self.sent_bits.clear();
                    self.reading = false;
                }
                self.dio = level;
                Event::Done
            }
            Op::Drive(Pin::Stb, _) => Event::Done,
            Op::Sample => Event::Level(self.line()),
            Op::Delay(_) => Event::Done,
        }
    }
}

fn bits_lsb(b: u8) -> Vec<bool> {
    (0..8).map(|k| b >> k & 1 == 1).collect()
}

/// What a receiver latches from the data line on each rising clock edge while
/// the strobe is low.
fn loopback(ops: &[Op]) -> Vec<bool> {
    let (mut clk, mut dio, mut stb) = (true, true, true);
    let mut bits = Vec::new();
    for op in ops {
        match *op {
            Op::Drive(Pin::Clk, level) => {
                if level && !clk && !stb {
                    bits.push(dio);
                }
                clk = level;
            }
            Op::Drive(Pin::Dio, level) => dio = level,
            Op::Drive(Pin::Stb, level) => stb = level,
            _ => {}
        }
    }
    bits
}

#[test]
fn send_byte_loopback_all_bytes() {
    for b in 0..=255u8 {
        let mut t = Transfer::send_3wire(1, &[b]);
        let (r, ops) = run(&mut t, |_| Event::Done);
        assert_eq!(r, Ok(vec![]));
        let bits = loopback(&ops);
        assert_eq!(bits, bits_lsb(b));
        let value = bits.iter().rev().fold(0u8, |acc, bit| acc << 1 | *bit as u8);
        assert_eq!(value, b);
    }
}

#[test]
fn send_3wire_parks_lines_after_frame() {
    let mut t = Transfer::send_3wire(7, &[0x40, 0xC0]);
    let (r, ops) = run(&mut t, |_| Event::Done);
    assert_eq!(r, Ok(vec![]));
    assert_eq!(&ops[..3], &[Op::Delay(7), Op::Drive(Pin::Stb, false), Op::Delay(7)]);
    let n = ops.len();
    assert_eq!(
        &ops[n - 4..],
        &[
            Op::Delay(7),
            Op::Drive(Pin::Stb, true),
            Op::Drive(Pin::Clk, true),
            Op::Drive(Pin::Dio, true)
        ]
    );
    assert_eq!(n, 3 + 2 * 48 + 4);
}

#[test]
fn send_3wire_clock_failure_still_parks() {
    let mut t = Transfer::send_3wire(1, &[1, 2, 3]);
    let mut clocks = 0;
    let (r, ops) = run(&mut t, |op| match op {
        Op::Drive(Pin::Clk, false) => {
            clocks += 1;
            if clocks == 10 {
                Event::Failed
            } else {
                Event::Done
            }
        }
        _ => Event::Done,
    });
    assert_eq!(r, Err(TmError::Clk));
    let n = ops.len();
    assert_eq!(ops[n - 3], Op::Drive(Pin::Stb, true));
}

#[test]
fn send_3wire_strobe_failure_ends_at_once() {
    let mut t = Transfer::send_3wire(1, &[1]);
    let (r, ops) = run(&mut t, |op| match op {
        Op::Drive(Pin::Stb, false) => Event::Failed,
        _ => Event::Done,
    });
    assert_eq!(r, Err(TmError::Stb));
    assert_eq!(ops.len(), 2);
}

#[test]
fn send_3wire_empty_frame_is_input_error() {
    let mut t = Transfer::send_3wire(1, &[]);
    let (r, ops) = run(&mut t, |_| Event::Done);
    assert_eq!(r, Err(TmError::Input));
    assert_eq!(ops.len(), 3 + 4);
}

#[test]
fn send_3wire_error_of_frame_beats_error_of_parking() {
    let mut t = Transfer::send_3wire(1, &[9]);
    let (r, _) = run(&mut t, |op| match op {
        Op::Drive(Pin::Dio, _) => Event::Failed,
        _ => Event::Done,
    });
    assert_eq!(r, Err(TmError::Dio));
}

#[test]
fn send_2wire_acknowledged_frame() {
    let mut chip = Chip::new(vec![true, true, true], 0);
    let mut t = Transfer::send_2wire(475, &[COM_DATA_ADDRESS_ADD, 0x3F, 0x06]);
    let (r, ops) = run(&mut t, |op| chip.respond(op));
    assert_eq!(r, Ok(vec![]));
    assert!(chip.clk && chip.line());
    assert_eq!(&ops[..3], &[Op::Drive(Pin::Clk, true), Op::Drive(Pin::Dio, false), Op::Delay(475)]);
}

#[test]
fn send_2wire_unacknowledged_second_byte() {
    let mut chip = Chip::new(vec![true, false, true], 0);
    let mut t = Transfer::send_2wire(1, &[COM_DATA_ADDRESS_ADD, 0x3F, 0x06]);
    let (r, ops) = run(&mut t, |op| chip.respond(op));
    assert_eq!(r, Err(TmError::Ack(21)));
    // the stop condition ran and left the bus released
    assert!(chip.clk && chip.dio && chip.line());
    let n = ops.len();
    assert_eq!(
        &ops[n - 7..],
        &[
            Op::Drive(Pin::Dio, false),
            Op::Delay(1),
            Op::Drive(Pin::Clk, true),
            Op::Delay(1),
            Op::Drive(Pin::Dio, true),
            Op::Sample,
            Op::Delay(1)
        ]
    );
    // the third byte was never sent
    let sampled = ops.iter().filter(|op| **op == Op::Sample).count();
    assert_eq!(sampled, 3 + 5 + 1);
}

#[test]
fn send_2wire_empty_frame_is_input_error() {
    let mut chip = Chip::new(vec![], 0);
    let mut t = Transfer::send_2wire(1, &[]);
    let (r, ops) = run(&mut t, |op| chip.respond(op));
    assert_eq!(r, Err(TmError::Input));
    assert_eq!(ops.len(), 3 + 7);
}

#[test]
fn send_2wire_start_failure_skips_stop() {
    let mut t = Transfer::send_2wire(1, &[COM_DISPLAY_ON]);
    let (r, ops) = run(&mut t, |op| match op {
        Op::Drive(Pin::Clk, true) => Event::Failed,
        _ => Event::Done,
    });
    assert_eq!(r, Err(TmError::Clk));
    assert_eq!(ops.len(), 1);
}

#[test]
fn send_2wire_stop_release_failure() {
    // a line stuck low: every acknowledge passes but the release checks fail
    let mut t = Transfer::send_2wire(1, &[COM_DATA_READ]);
    let (r, _) = run(&mut t, |op| match op {
        Op::Sample => Event::Level(false),
        _ => Event::Done,
    });
    assert_eq!(r, Err(TmError::Ack(255)));
}

#[test]
fn send_2wire_release_check_failure_code() {
    let mut t = Transfer::send_2wire(1, &[COM_DISPLAY_ON]);
    let (r, _) = run(&mut t, |op| match op {
        Op::Sample => Event::Level(false),
        _ => Event::Done,
    });
    assert_eq!(r, Err(TmError::Ack(13)));
}

#[test]
fn send_2wire_longest_frame() {
    let bytes = [0u8; MAX_FRAME_2WIRE];
    let mut acks = vec![true; MAX_FRAME_2WIRE];
    acks[24] = false;
    let mut chip = Chip::new(acks, 0);
    let mut t = Transfer::send_2wire(1, &bytes);
    let (r, _) = run(&mut t, |op| chip.respond(op));
    assert_eq!(r, Err(TmError::Ack(251)));
}

#[test]
fn wait_level_polls_at_most_five_times() {
    // the chip answers the first acknowledge on poll k
    for k in 1..=6usize {
        let mut samples = 0;
        let mut t = Transfer::send_2wire(1, &[COM_DISPLAY_ON]);
        let (r, ops) = run(&mut t, |op| match op {
            Op::Sample => {
                samples += 1;
                if samples < k {
                    Event::Level(true)
                } else if samples == k {
                    Event::Level(false)
                } else {
                    Event::Level(samples > k + 1)
                }
            }
            _ => Event::Done,
        });
        let sampled = ops.iter().filter(|op| **op == Op::Sample).count();
        if k <= 5 {
            assert_eq!(r, Ok(vec![]), "poll {}", k);
            assert_eq!(sampled, k + 3);
        } else {
            // five misses, then the stop condition finds the line released
            assert_eq!(r, Err(TmError::Ack(11)));
            assert_eq!(sampled, 5 + 3);
        }
    }
}

#[test]
fn wait_level_sample_failure_is_dio_error() {
    let mut t = Transfer::send_2wire(1, &[COM_DISPLAY_ON]);
    let (r, _) = run(&mut t, |op| match op {
        Op::Sample => Event::Failed,
        _ => Event::Done,
    });
    assert_eq!(r, Err(TmError::Dio));
}

#[test]
fn read_2wire_returns_key_byte() {
    let mut chip = Chip::new(vec![true, true], 0b1010_0110);
    let mut t = Transfer::read_2wire(1);
    let (r, _) = run(&mut t, |op| chip.respond(op));
    assert_eq!(r, Ok(vec![0b1010_0110]));
}

#[test]
fn read_2wire_unacknowledged_command() {
    let mut chip = Chip::new(vec![false], 0);
    let mut t = Transfer::read_2wire(1);
    let (r, _) = run(&mut t, |op| chip.respond(op));
    assert_eq!(r, Err(TmError::Ack(231)));
}

#[test]
fn read_3wire_rejects_bad_count() {
    for count in [0u8, 5, 200] {
        let r = Transfer::read_3wire(1, count);
        assert!(matches!(r, Err(TmError::Input)));
    }
}

#[test]
fn read_3wire_reads_bytes_msb_first() {
    let reply = [0x81u8, 0x00, 0x7E];
    let mut t = Transfer::read_3wire(1, 3).unwrap();
    let mut samples = 0usize;
    let (r, ops) = run(&mut t, |op| match op {
        Op::Sample => {
            let byte = reply[samples / 8];
            let bit = byte & (0x80 >> (samples % 8)) != 0;
            samples += 1;
            Event::Level(bit)
        }
        _ => Event::Done,
    });
    let bytes = r.unwrap();
    assert_eq!(bytes, vec![0x81, 0x00, 0x7E]);
    assert_eq!(key_response(&bytes), [0x81, 0x00, 0x7E, 0]);
    assert_eq!(loopback(&ops)[..8], bits_lsb(COM_DATA_READ)[..]);
}

#[test]
fn read_3wire_failure_keeps_first_error() {
    let mut t = Transfer::read_3wire(1, 4).unwrap();
    let (r, ops) = run(&mut t, |op| match op {
        Op::Sample => Event::Failed,
        Op::Drive(Pin::Stb, true) => Event::Failed,
        _ => Event::Done,
    });
    assert_eq!(r, Err(TmError::Dio));
    assert_eq!(ops[ops.len() - 1], Op::Drive(Pin::Stb, true));
}
