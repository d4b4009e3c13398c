//! Animations: generators that produce the next frame on each call.
use vstd::prelude::*;

verus! {

/// An iterator-like animation: each call gives the next frame to show, or
/// `None` once the animation is over. Endless animations always give a frame.
pub trait Animate<R> {
    fn next(&mut self) -> Option<R>;
}

/// The segment bit of position `i` of the outer ring (A to F, the path of a zero).
pub open spec fn ring_segment(i: int) -> u8 {
    1u8 << (i as u8)
}

/// The mask position that ring position `i` shows at rotation `offset`.
pub open spec fn ring_source(cw: bool, offset: int, i: int) -> int {
    if cw {
        (6 + i - offset) % 6
    } else {
        (i + offset) % 6
    }
}

/// The segments of the first `n` ring positions at rotation `offset`.
pub open spec fn ring_frame(mask: Seq<bool>, cw: bool, offset: int, n: nat) -> u8
    decreases n,
{
    if n == 0 {
        0
    } else {
        ring_frame(mask, cw, offset, (n - 1) as nat) | (if mask[ring_source(cw, offset, n - 1)] {
            ring_segment(n - 1)
        } else {
            0u8
        })
    }
}

/// The frame of the mask turned by `offset` positions.
pub open spec fn spin_frame(mask: Seq<bool>, cw: bool, offset: int) -> u8 {
    ring_frame(mask, cw, offset, 6)
}

pub struct SpinnerView {
    pub mask: Seq<bool>,
    pub offset: nat,
    pub cw: bool,
}

impl SpinnerView {
    pub open spec fn wf(self) -> bool {
        self.mask.len() == 6 && self.offset < 6
    }
}

/// The frame that a spinner in state `s` gives on its `n + 1`-th call from now.
pub open spec fn spin_output(s: SpinnerView, n: nat) -> u8 {
    spin_frame(s.mask, s.cw, ((s.offset + n) % 6) as int)
}

/// Segments of the outer ring going round and round, along the path of a zero.
#[derive(Debug)]
pub struct Spinner {
    offset: u8,
    cw: bool,
    mask: [bool; 6],
}

impl View for Spinner {
    type V = SpinnerView;

    closed spec fn view(&self) -> SpinnerView {
        SpinnerView { mask: self.mask@, offset: self.offset as nat, cw: self.cw }
    }
}

impl Spinner {
    #[verifier::type_invariant]
    spec fn inv(&self) -> bool {
        self.offset < 6
    }

    /// A spinner that starts from the ring segments set in `initial_mask` (think of
    /// a zero with one segment missing, or a single segment) and turns clockwise
    /// when `clockwise`.
    pub fn new(initial_mask: u8, clockwise: bool) -> (r: Spinner)
        ensures
            r@ == (SpinnerView {
                mask: Seq::new(6, |i: int| initial_mask & ring_segment(i) != 0),
                offset: 0,
                cw: clockwise,
            }),
            r@.wf(),
    {
        let mut init = [false;6];
        let mut s: usize = 0;
        while s < 6
            invariant
                s <= 6,
                init@.len() == 6,
                forall|i: int| 0 <= i < s ==> init@[i] == (initial_mask & ring_segment(i) != 0),
            decreases 6 - s,
        {
            init[s] = initial_mask & (1u8 << (s as u8)) != 0;
            s = s + 1;
        }
        assert(init@ =~= Seq::new(6, |i: int| initial_mask & ring_segment(i) != 0));
        Spinner { offset: 0, cw: clockwise, mask: init }
    }
}

impl Animate<u8> for Spinner {
    /// The mask turned by the current offset; the offset then moves one step
    /// (wrapping after six). Never ends.
    fn next(&mut self) -> (r: Option<u8>)
        ensures
            old(self)@.wf(),
            r == Some(spin_output(old(self)@, 0)),
            final(self)@ == (SpinnerView { offset: (old(self)@.offset + 1) % 6, ..old(self)@ }),
    {
        proof {
            use_type_invariant(&*self);
        }
        let mut res: u8 = 0;
        let mut i: usize = 0;
        while i < 6
            invariant
                i <= 6,
                self.offset < 6,
                self.mask@.len() == 6,
                res == ring_frame(self.mask@, self.cw, self.offset as int, i as nat),
            decreases 6 - i,
        {
            let off = self.offset as usize;
            let ii = if self.cw {
                (6 + i - off) % 6
            } else {
                (i + off) % 6
            };
            if self.mask[ii] {
                res = res | (1u8 << (i as u8));
            } else {
                assert(res | 0u8 == res) by (bit_vector);
            }
            i = i + 1;
        }
        assert(((self.offset + 0) % 6) as int == self.offset as int);
        self.offset = (self.offset + 1) % 6;
        Some(res)
    }
}

proof fn lemma_ring_mirror(mask: Seq<bool>, k: int, n: nat)
    requires
        0 <= k < 6,
        n <= 6,
    ensures
        ring_frame(mask, true, k, n) == ring_frame(mask, false, (6 - k) % 6, n),
    decreases n,
{
    if n > 0 {
        lemma_ring_mirror(mask, k, (n - 1) as nat);
        assert(ring_source(true, k, n - 1) == ring_source(false, (6 - k) % 6, n - 1));
    }
}

/// A spinner's frames repeat every six calls: each one is the initial mask
/// turned by the number of calls so far, modulo six.
pub proof fn lemma_spin_period(s: SpinnerView, n: nat)
    requires
        s.wf(),
    ensures
        spin_output(s, n + 6) == spin_output(s, n),
{
    assert((s.offset + n + 6) % 6 == (s.offset + n) % 6);
}

/// Turning the mask clockwise by `k` positions gives the frame of turning it
/// counter-clockwise by `6 - k`.
pub proof fn lemma_spin_mirror(mask: Seq<bool>, k: int)
    requires
        0 <= k < 6,
    ensures
        spin_frame(mask, true, k) == spin_frame(mask, false, (6 - k) % 6),
{
    lemma_ring_mirror(mask, k, 6);
}

/// How a [`Slider`] behaves at the end of its word.
#[derive(Clone, Copy, Debug, PartialEq, Eq, Structural)]
pub enum SlideType {
    /// Slides in from behind the last display, stops once the first character
    /// has reached the first display.
    StopAtFirstChar,
    /// Slides in from behind the last display, stops once the last character
    /// has moved out past the first display.
    StopAfterLastChar,
    /// Slides through again and again, with a blank gap as wide as the displays.
    Cycle,
}

pub struct SliderView {
    pub tp: SlideType,
    pub count: nat,
    pub width: nat,
    pub word: Seq<u8>,
}

/// The window of `width` displays after `count` steps: the word enters from
/// the right, blanks (0) on either side of it.
pub open spec fn slide_frame(word: Seq<u8>, width: nat, count: nat) -> Seq<u8> {
    Seq::new(
        width,
        |j: int|
            {
                let p = j + count - width;
                if 0 <= p < word.len() {
                    word[p]
                } else {
                    0u8
                }
            },
    )
}

/// How many characters have left the window on the left.
pub open spec fn scrolled_out(s: SliderView) -> int {
    if s.count > s.width {
        s.count - s.width
    } else {
        0
    }
}

/// Whether the slider yields no frame: the step counter is exhausted, or the
/// boundary of its policy is met.
pub open spec fn slide_stopped(s: SliderView) -> bool {
    ||| s.count == 255
    ||| s.tp == SlideType::StopAtFirstChar && scrolled_out(s) > 0
    ||| s.tp == SlideType::StopAfterLastChar && scrolled_out(s) >= s.word.len()
}

/// The state after one call.
pub open spec fn slide_next(s: SliderView) -> SliderView {
    if slide_stopped(s) {
        s
    } else if s.tp == SlideType::Cycle && scrolled_out(s) + 1 >= s.word.len() {
        SliderView { count: 0, ..s }
    } else {
        SliderView { count: s.count + 1, ..s }
    }
}

/// The state after `n` calls.
pub open spec fn slide_after(s: SliderView, n: nat) -> SliderView
    decreases n,
{
    if n == 0 {
        s
    } else {
        slide_next(slide_after(s, (n - 1) as nat))
    }
}

/// Bytes sliding along the displays, from the last display to the first.
#[derive(Debug)]
pub struct Slider {
    tp: SlideType,
    count: u8,
    result_len: u8,
    word: Vec<u8>,
}

impl View for Slider {
    type V = SliderView;

    closed spec fn view(&self) -> SliderView {
        SliderView {
            tp: self.tp,
            count: self.count as nat,
            width: self.result_len as nat,
            word: self.word@,
        }
    }
}

impl Slider {
    /// A slider of `bytes_to_slide` over `displays_count` displays.
    pub fn new(slide_type: SlideType, displays_count: u8, bytes_to_slide: &[u8]) -> (r: Slider)
        ensures
            r@ == (SliderView {
                tp: slide_type,
                count: 0,
                width: displays_count as nat,
                word: bytes_to_slide@,
            }),
    {
        let mut word: Vec<u8> = Vec::new();
        let mut i: usize = 0;
        while i < bytes_to_slide.len()
            invariant
                i <= bytes_to_slide@.len(),
                word@ == bytes_to_slide@.take(i as int),
            decreases bytes_to_slide@.len() - i,
        {
            word.push(bytes_to_slide[i]);
            i = i + 1;
            assert(word@ =~= bytes_to_slide@.take(i as int));
        }
        assert(word@ =~= bytes_to_slide@);
        Slider { tp: slide_type, count: 0, result_len: displays_count, word }
    }
}

impl Animate<Vec<u8>> for Slider {
    /// The window at the current step, then one step further (or back to the
    /// start, for a cycling slider whose word has gone by). `None`, with the
    /// state unchanged, once the slider has stopped.
    fn next(&mut self) -> (r: Option<Vec<u8>>)
        ensures
            final(self)@ == slide_next(old(self)@),
            r is None <==> slide_stopped(old(self)@),
            r matches Some(frame) ==> frame@ == slide_frame(
                old(self)@.word,
                old(self)@.width,
                old(self)@.count,
            ),
    {
        if self.count == 255 {
            return None;
        }
        let w = self.result_len as usize;
        let c = self.count as usize;
        let len = self.word.len();
        let off_in: usize = if c > w {
            c - w
        } else {
            0
        };
        match self.tp {
            SlideType::StopAtFirstChar => {
                if off_in > 0 {
                    return None;
                }
            },
            SlideType::StopAfterLastChar => {
                if off_in >= len {
                    return None;
                }
            },
            SlideType::Cycle => {},
        }
        let mut out: Vec<u8> = Vec::new();
        let mut j: usize = 0;
        while j < w
            invariant
                j <= w,
                w == self.result_len,
                c == self.count,
                len == self.word@.len(),
                out@ == slide_frame(self.word@, w as nat, c as nat).take(j as int),
            decreases w - j,
        {
            let v = if j + c >= w && j + c - w < len {
                self.word[j + c - w]
            } else {
                0
            };
            out.push(v);
            j = j + 1;
            assert(out@ =~= slide_frame(self.word@, w as nat, c as nat).take(j as int));
        }
        assert(out@ =~= slide_frame(self.word@, w as nat, c as nat));
        if self.tp == SlideType::Cycle && off_in + 1 >= len {
            self.count = 0;
        } else {
            self.count = self.count + 1;
        }
        Some(out)
    }
}

proof fn lemma_cycle_count(s: SliderView, n: nat)
    requires
        s.tp == SlideType::Cycle,
        s.count == 0,
        s.width + s.word.len() <= 255,
        n <= s.width + s.word.len(),
    ensures
        slide_after(s, n) == (SliderView {
            count: if s.word.len() <= 1 || n == s.width + s.word.len() {
                0
            } else {
                n
            },
            ..s
        }),
    decreases n,
{
    if n > 0 {
        lemma_cycle_count(s, (n - 1) as nat);
    }
}

/// A cycling slider whose width and word length add up to at most 255 never
/// stops, and after `width + word length` calls it is back at its start, whose
/// frame is all blank.
pub proof fn lemma_cycle_period(s: SliderView, n: nat)
    requires
        s.tp == SlideType::Cycle,
        s.count == 0,
        s.width + s.word.len() <= 255,
    ensures
        !slide_stopped(slide_after(s, n)),
        slide_after(s, s.width + s.word.len()) == s,
        slide_frame(s.word, s.width, 0) == Seq::new(s.width, |j: int| 0u8),
    decreases n,
{
    let p = s.width + s.word.len();
    lemma_cycle_count(s, p);
    assert(slide_after(s, p) == s);
    lemma_cycle_stays(s, n);
    assert(slide_frame(s.word, s.width, 0) =~= Seq::new(s.width, |j: int| 0u8));
}

proof fn lemma_cycle_stays(s: SliderView, n: nat)
    requires
        s.tp == SlideType::Cycle,
        s.count == 0,
        s.width + s.word.len() <= 255,
    ensures
        !slide_stopped(slide_after(s, n)),
        slide_after(s, n).count < s.width + s.word.len() || slide_after(s, n).count == 0,
        slide_after(s, n).tp == s.tp && slide_after(s, n).width == s.width
            && slide_after(s, n).word == s.word,
    decreases n,
{
    if n > 0 {
        lemma_cycle_stays(s, (n - 1) as nat);
    }
}

} // verus!
