//! A demonstration sequence: a sliding text and a spinner, with a moving dot and
//! a brightness that steps up every ten frames.
//!
//! The demo decides what to show; whoever owns the bus sends the frames it
//! returns and reports back with [`Demo::after_frame`].
use vstd::prelude::*;

use crate::fx::{
    ring_segment, scrolled_out, slide_frame, slide_next, spin_output, Animate, SlideType, Slider, SliderView,
    Spinner, SpinnerView,
};
use crate::{
    CHAR_0, CHAR_1, CHAR_2, CHAR_3, CHAR_4, CHAR_5, CHAR_6, CHAR_7, CHAR_8, CHAR_9, CHAR_A,
    CHAR_BRACKET_LEFT, CHAR_BRACKET_RIGHT, CHAR_C, CHAR_CYR_B, CHAR_CYR_E, CHAR_DEGREE, CHAR_E,
    CHAR_F, CHAR_G, CHAR_H, CHAR_I, CHAR_J, CHAR_L, CHAR_MINUS, CHAR_N, CHAR_O, CHAR_P, CHAR_R,
    CHAR_S, CHAR_U, CHAR_UNDERSCORE, CHAR_a, CHAR_b, CHAR_c, CHAR_d, CHAR_e, CHAR_h, CHAR_i,
    CHAR_l, CHAR_n, CHAR_o, CHAR_q, CHAR_r, CHAR_t, CHAR_u, CHAR_y, COM_ADDRESS,
    COM_DATA_ADDRESS_ADD, COM_DISPLAY_ON, DISPLAY_BRIGHTNESS_MASK, SEG_1, SEG_10, SEG_11, SEG_12,
    SEG_8, SEG_9,
};

verus! {

/// List of all available characters including numbers
pub const CHARS: [u8; 47] = [
    CHAR_0,
    CHAR_1,
    CHAR_2,
    CHAR_3,
    CHAR_4,
    CHAR_5,
    CHAR_6,
    CHAR_7,
    CHAR_8,
    CHAR_9,
    CHAR_A,
    CHAR_a,
    CHAR_b,
    CHAR_C,
    CHAR_c,
    CHAR_d,
    CHAR_E,
    CHAR_e,
    CHAR_F,
    CHAR_G,
    CHAR_H,
    CHAR_h,
    CHAR_I,
    CHAR_i,
    CHAR_J,
    CHAR_L,
    CHAR_l,
    CHAR_N,
    CHAR_n,
    CHAR_O,
    CHAR_o,
    CHAR_P,
    CHAR_q,
    CHAR_R,
    CHAR_r,
    CHAR_S,
    CHAR_t,
    CHAR_U,
    CHAR_u,
    CHAR_y,
    CHAR_CYR_E,
    CHAR_CYR_B,
    CHAR_DEGREE,
    CHAR_MINUS,
    CHAR_UNDERSCORE,
    CHAR_BRACKET_LEFT,
    CHAR_BRACKET_RIGHT,
];

/// The most displays a demo can drive: the text must scroll through within the
/// slider's 255 steps.
pub const MAX_DEMO_DISPLAYS: u8 = 209;

/// Frames counted modulo this, a multiple of every period the demo uses.
const ITER_PERIOD: usize = 60;

pub struct DemoView {
    pub spin: SpinnerView,
    pub slide: SliderView,
    pub slide_last: Seq<u8>,
    pub displays: nat,
    pub iter: nat,
    pub brightness: nat,
}

impl DemoView {
    pub open spec fn wf(self) -> bool {
        &&& self.spin.wf()
        &&& self.slide.tp == SlideType::Cycle
        &&& self.slide.word == CHARS@
        &&& self.slide.width + CHARS@.len() <= 255
        &&& self.slide.count < self.slide.width + CHARS@.len()
        &&& self.slide_last.len() <= self.slide.width
        &&& self.iter < 60
        &&& self.brightness < 8
    }
}

/// `base` with the dot segment added on every fourth display, shifted by the
/// frame number.
pub open spec fn dotted(base: Seq<u8>, iter: nat) -> Seq<u8> {
    Seq::new(
        base.len(),
        |i: int|
            if (i + iter % 4) % 4 == 0 {
                base[i] | SEG_8
            } else {
                base[i]
            },
    )
}

/// The displays of a frame: the text, then the spinner when there is more than
/// one display.
pub open spec fn demo_displays(d: DemoView, text: Seq<u8>) -> Seq<u8> {
    if d.displays > 1 {
        text.push(spin_output(d.spin, 0))
    } else {
        text
    }
}

/// The text shown by the frame that `d` computes next.
pub open spec fn demo_text(d: DemoView) -> Seq<u8> {
    if d.iter % 3 == 0 {
        slide_frame(d.slide.word, d.slide.width, d.slide.count)
    } else {
        d.slide_last
    }
}

/// The demo after it computed a frame.
pub open spec fn demo_stepped(d: DemoView) -> DemoView {
    DemoView {
        spin: if d.displays > 1 {
            SpinnerView { offset: (d.spin.offset + 1) % 6, ..d.spin }
        } else {
            d.spin
        },
        slide: if d.iter % 3 == 0 {
            slide_next(d.slide)
        } else {
            d.slide
        },
        slide_last: demo_text(d),
        ..d
    }
}

/// The frame that `d` computes next.
pub open spec fn demo_frame(d: DemoView) -> Seq<u8> {
    dotted(demo_displays(d, demo_text(d)), d.iter)
}

/// The 3-wire form of a frame: each display byte followed by the byte of the
/// extra segments, lit on one display in ten, moving with the frame number.
pub open spec fn wide_frame(out: Seq<u8>, iter: nat) -> Seq<u8> {
    Seq::new(
        2 * out.len(),
        |j: int|
            if j % 2 == 0 {
                out[j / 2]
            } else if (j / 2 + 10 - iter % 10) % 10 == 0 {
                SEG_9 | SEG_10 | SEG_11 | SEG_12
            } else {
                0u8
            },
    )
}

/// The brightness command for level `b`.
pub open spec fn brightness_command(b: nat) -> u8 {
    COM_DISPLAY_ON | ((b as u8) & DISPLAY_BRIGHTNESS_MASK)
}

/// A demo over a number of displays.
pub struct Demo {
    spin: Spinner,
    slide: Slider,
    slide_last: Vec<u8>,
    displays: usize,
    iter: usize,
    brightness: u8,
}

impl View for Demo {
    type V = DemoView;

    closed spec fn view(&self) -> DemoView {
        DemoView {
            spin: self.spin@,
            slide: self.slide@,
            slide_last: self.slide_last@,
            displays: self.displays as nat,
            iter: self.iter as nat,
            brightness: self.brightness as nat,
        }
    }
}

impl Demo {
    /// A demo for `displays` displays: the text slides over all but the last,
    /// where the spinner turns (a single display shows the text only).
    pub fn new(displays: u8) -> (r: Demo)
        requires
            displays <= MAX_DEMO_DISPLAYS,
        ensures
            r@.wf(),
            r@.displays == displays,
            r@.iter == 0,
            r@.brightness == 0,
            r@.slide_last == Seq::<u8>::empty(),
            r@.spin == (SpinnerView {
                mask: Seq::new(6, |i: int| SEG_1 & ring_segment(i) != 0),
                offset: 0,
                cw: true,
            }),
            r@.slide == (SliderView {
                tp: SlideType::Cycle,
                count: 0,
                width: if displays <= 1 {
                    1nat
                } else {
                    (displays - 1) as nat
                },
                word: CHARS@,
            }),
    {
        let d = if displays <= 1 {
            1
        } else {
            displays - 1
        };
        let chars = CHARS;
        Demo {
            spin: Spinner::new(SEG_1, true),
            slide: Slider::new(SlideType::Cycle, d, vstd::array::array_as_slice(&chars)),
            slide_last: Vec::new(),
            displays: displays as usize,
            iter: 0,
            brightness: 0,
        }
    }

    /// Computes the next frame, one byte per display: every third frame the
    /// text slides one step, the spinner (when shown) turns on every frame, and
    /// the dot segment lights every fourth display, moving with the frame number.
    pub fn next_state(&mut self) -> (r: Vec<u8>)
        requires
            old(self)@.wf(),
        ensures
            r@ == demo_frame(old(self)@),
            r@.len() <= 256,
            final(self)@ == demo_stepped(old(self)@),
            final(self)@.wf(),
    {
        let ghost d = self@;
        if self.iter % 3 == 0 {
            let next = self.slide.next();
            match next {
                Some(frame) => {
                    self.slide_last = frame;
                },
                None => {},
            }
        }
        let mut result = self.slide_last.clone();
        if self.displays > 1 {
            let turned = self.spin.next();
            match turned {
                Some(b) => result.push(b),
                None => {},
            }
        }
        let ghost base = result@;
        assert(base == demo_displays(d, demo_text(d)));
        assert(base.len() <= 256);
        let off = self.iter % 4;
        let mut i: usize = 0;
        while i < result.len()
            invariant
                off == d.iter % 4,
                base.len() <= 256,
                result@.len() == base.len(),
                i <= base.len(),
                forall|j: int| 0 <= j < i ==> result@[j] == dotted(base, d.iter)[j],
                forall|j: int| i <= j < base.len() ==> result@[j] == base[j],
            decreases base.len() - i,
        {
            if (i + off) % 4 == 0 {
                let b = result[i] | SEG_8;
                result.set(i, b);
            }
            i = i + 1;
        }
        assert(result@ =~= dotted(base, d.iter));
        result
    }

    /// The next frame for the 2-wire bus: the address command, then one byte per
    /// display. Once it is sent, call [`Demo::after_frame`]; a failed send leaves
    /// the frame count as it is.
    pub fn next_2wire(&mut self) -> (r: Vec<u8>)
        requires
            old(self)@.wf(),
        ensures
            r@ == seq![COM_ADDRESS] + demo_frame(old(self)@),
            final(self)@ == demo_stepped(old(self)@),
            final(self)@.wf(),
    {
        let mut out = self.next_state();
        let mut bytes: Vec<u8> = Vec::new();
        bytes.push(COM_ADDRESS);
        bytes.append(&mut out);
        bytes
    }

    /// The next frame for the 3-wire bus: the address command, then two bytes
    /// per display, the second lighting the extra segments of one display in
    /// ten. Whether or not it was sent, call [`Demo::after_frame`] next.
    pub fn next_3wire(&mut self) -> (r: Vec<u8>)
        requires
            old(self)@.wf(),
        ensures
            r@ == seq![COM_ADDRESS] + wide_frame(demo_frame(old(self)@), old(self)@.iter),
            final(self)@ == demo_stepped(old(self)@),
            final(self)@.wf(),
    {
        let out = self.next_state();
        let mut bytes: Vec<u8> = Vec::new();
        bytes.push(COM_ADDRESS);
        let off = self.iter % 10;
        let mut i: usize = 0;
        while i < out.len()
            invariant
                off == self@.iter % 10,
                off < 10,
                out@.len() <= 256,
                i <= out@.len(),
                bytes@ == seq![COM_ADDRESS] + wide_frame(out@, self@.iter).take(2 * i),
            decreases out@.len() - i,
        {
            bytes.push(out[i]);
            bytes.push(
                if (i + 10 - off) % 10 == 0 {
                    SEG_9 | SEG_10 | SEG_11 | SEG_12
                } else {
                    0
                },
            );
            i = i + 1;
            assert(bytes@ =~= seq![COM_ADDRESS] + wide_frame(out@, self@.iter).take(2 * i));
        }
        assert(wide_frame(out@, self@.iter).take(2 * i) =~= wide_frame(out@, self@.iter));
        bytes
    }

    /// Counts a frame as shown. Every tenth frame the brightness steps up
    /// (wrapping after the eighth level), and the command that sets it is
    /// returned, to be sent next.
    pub fn after_frame(&mut self) -> (r: Option<u8>)
        requires
            old(self)@.wf(),
        ensures
            final(self)@ == (DemoView {
                iter: (old(self)@.iter + 1) % 60,
                brightness: if (old(self)@.iter + 1) % 10 == 0 {
                    (old(self)@.brightness + 1) % 8
                } else {
                    old(self)@.brightness
                },
                ..old(self)@
            }),
            r == if (old(self)@.iter + 1) % 10 == 0 {
                Some(brightness_command(final(self)@.brightness))
            } else {
                None
            },
            final(self)@.wf(),
    {
        self.iter = (self.iter + 1) % ITER_PERIOD;
        if self.iter % 10 == 0 {
            self.brightness = (self.brightness + 1) % 8;
            Some(COM_DISPLAY_ON | (self.brightness & DISPLAY_BRIGHTNESS_MASK))
        } else {
            None
        }
    }

    /// The frames that set up a chip on the 2-wire bus, sent in turn until one
    /// fails: address auto-increment, then display on.
    pub fn init_2wire(&self) -> (r: Vec<Vec<u8>>)
        ensures
            r@.len() == 2,
            r@[0]@ == seq![COM_DATA_ADDRESS_ADD],
            r@[1]@ == seq![COM_DISPLAY_ON],
    {
        init_frames()
    }

    /// The frames that set up a chip on the 3-wire bus, sent in turn until one
    /// fails: address auto-increment, then display on.
    pub fn init_3wire(&self) -> (r: Vec<Vec<u8>>)
        ensures
            r@.len() == 2,
            r@[0]@ == seq![COM_DATA_ADDRESS_ADD],
            r@[1]@ == seq![COM_DISPLAY_ON],
    {
        init_frames()
    }
}

fn init_frames() -> (r: Vec<Vec<u8>>)
    ensures
        r@.len() == 2,
        r@[0]@ == seq![COM_DATA_ADDRESS_ADD],
        r@[1]@ == seq![COM_DISPLAY_ON],
{
    let mut frames: Vec<Vec<u8>> = Vec::new();
    let mut first: Vec<u8> = Vec::new();
    first.push(COM_DATA_ADDRESS_ADD);
    frames.push(first);
    let mut second: Vec<u8> = Vec::new();
    second.push(COM_DISPLAY_ON);
    frames.push(second);
    assert(frames@[0]@ =~= seq![COM_DATA_ADDRESS_ADD]);
    assert(frames@[1]@ =~= seq![COM_DISPLAY_ON]);
    frames
}

} // verus!
