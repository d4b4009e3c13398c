//! Turning numbers into segment patterns.
use vstd::prelude::*;

use crate::{
    CHAR_0, CHAR_1, CHAR_2, CHAR_3, CHAR_4, CHAR_5, CHAR_6, CHAR_7, CHAR_8, CHAR_9, CHAR_MINUS,
    DIGITS,
};

verus! {

/// The segment pattern of decimal digit `d`.
pub open spec fn digit_pattern(d: int) -> u8 {
    if d == 0 {
        CHAR_0
    } else if d == 1 {
        CHAR_1
    } else if d == 2 {
        CHAR_2
    } else if d == 3 {
        CHAR_3
    } else if d == 4 {
        CHAR_4
    } else if d == 5 {
        CHAR_5
    } else if d == 6 {
        CHAR_6
    } else if d == 7 {
        CHAR_7
    } else if d == 8 {
        CHAR_8
    } else {
        CHAR_9
    }
}

fn digit(d: u32) -> (r: u8)
    requires
        d < 10,
    ensures
        r == digit_pattern(d as int),
{
    DIGITS[d as usize]
}

/// The digits of `n`, most significant first; none for zero.
pub open spec fn digits_of(n: nat) -> Seq<u8>
    decreases n,
{
    if n == 0 {
        Seq::empty()
    } else {
        digits_of(n / 10).push(digit_pattern((n % 10) as int))
    }
}

/// The patterns that show `v`: a minus sign when negative, then its digits.
pub open spec fn int_pattern(v: int) -> Seq<u8> {
    let a: nat = if v < 0 {
        (-v) as nat
    } else {
        v as nat
    };
    (if v < 0 {
        seq![CHAR_MINUS]
    } else {
        Seq::empty()
    }) + (if a == 0 {
        seq![CHAR_0]
    } else {
        digits_of(a)
    })
}

/// Every pattern of `s` followed by a blank byte.
pub open spec fn doubled(s: Seq<u8>) -> Seq<u8> {
    Seq::new(
        2 * s.len(),
        |j: int|
            if j % 2 == 0 {
                s[j / 2]
            } else {
                0u8
            },
    )
}

pub open spec fn pow10(k: nat) -> nat
    decreases k,
{
    if k == 0 {
        1
    } else {
        10 * pow10((k - 1) as nat)
    }
}

proof fn lemma_digits_len(n: nat, k: nat)
    requires
        n < pow10(k),
    ensures
        digits_of(n).len() <= k,
    decreases k,
{
    if n > 0 {
        assert(k > 0);
        assert(n / 10 < pow10((k - 1) as nat));
        lemma_digits_len(n / 10, (k - 1) as nat);
    }
}

const INT_CONVERT_MAX_SIZE: usize = 11;

/// The patterns of a converted integer, at most eleven (a sign and ten digits).
/// It dereferences to a slice.
#[derive(Debug)]
pub struct IntConvertResult {
    offset: usize,
    bytes: [u8; 11],
}

impl View for IntConvertResult {
    type V = Seq<u8>;

    closed spec fn view(&self) -> Seq<u8> {
        self.bytes@.subrange(self.offset as int, 11)
    }
}

impl IntConvertResult {
    #[verifier::type_invariant]
    spec fn inv(&self) -> bool {
        self.offset <= INT_CONVERT_MAX_SIZE
    }

    /// An empty result.
    pub fn new() -> (r: IntConvertResult)
        ensures
            r@ == Seq::<u8>::empty(),
    {
        let r = IntConvertResult { offset: INT_CONVERT_MAX_SIZE, bytes: [0;11] };
        assert(r@ =~= Seq::<u8>::empty());
        r
    }

    /// The number of patterns held.
    pub fn len(&self) -> (r: usize)
        ensures
            r == self@.len(),
            r <= 11,
    {
        proof {
            use_type_invariant(self);
        }
        INT_CONVERT_MAX_SIZE - self.offset
    }

    /// Whether no pattern is held.
    pub fn is_empty(&self) -> (r: bool)
        ensures
            r == (self@.len() == 0),
    {
        self.len() == 0
    }

    /// The last pattern.
    pub fn last(&self) -> (r: u8)
        ensures
            self@.len() > 0 ==> r == self@.last(),
    {
        proof {
            use_type_invariant(self);
        }
        self.bytes[INT_CONVERT_MAX_SIZE - 1]
    }

    /// Replaces the last pattern; nothing changes when there is none.
    pub fn set_last(&mut self, byte: u8)
        ensures
            final(self)@ == if old(self)@.len() > 0 {
                old(self)@.update(old(self)@.len() - 1, byte)
            } else {
                old(self)@
            },
    {
        proof {
            use_type_invariant(&*self);
        }
        self.bytes[INT_CONVERT_MAX_SIZE - 1] = byte;
        proof {
            if old(self)@.len() > 0 {
                assert(self@ =~= old(self)@.update(old(self)@.len() - 1, byte));
            } else {
                assert(self@ =~= old(self)@);
            }
        }
    }

    /// Puts a pattern in front; nothing changes when eleven are held.
    pub fn add_first(&mut self, byte: u8)
        ensures
            final(self)@ == if old(self)@.len() < 11 {
                seq![byte] + old(self)@
            } else {
                old(self)@
            },
    {
        proof {
            use_type_invariant(&*self);
        }
        if self.offset == 0 {
            return;
        }
        self.offset = self.offset - 1;
        let o = self.offset;
        self.bytes[o] = byte;
        assert(self@ =~= seq![byte] + old(self)@);
    }

    /// Puts a pattern at the end; nothing changes when eleven are held.
    pub fn add_last(&mut self, byte: u8)
        ensures
            final(self)@ == if old(self)@.len() < 11 {
                old(self)@.push(byte)
            } else {
                old(self)@
            },
    {
        proof {
            use_type_invariant(&*self);
        }
        if self.offset == 0 {
            return;
        }
        let ghost before = self@;
        self.offset = self.offset - 1;
        let mut i: usize = self.offset;
        while i < INT_CONVERT_MAX_SIZE - 1
            invariant
                1 <= self.offset + 1 <= i + 1 <= INT_CONVERT_MAX_SIZE,
                self.offset + before.len() == 10,
                self.bytes@.len() == 11,
                forall|j: int| self.offset <= j < i ==> self.bytes@[j] == before[j - self.offset],
                forall|j: int| i < j < 11 ==> self.bytes@[j] == before[j - self.offset - 1],
            decreases INT_CONVERT_MAX_SIZE - i,
        {
            let b = self.bytes[i + 1];
            self.bytes[i] = b;
            i = i + 1;
        }
        self.bytes[INT_CONVERT_MAX_SIZE - 1] = byte;
        assert(self@ =~= before.push(byte));
    }

    /// Drops the last pattern; nothing changes when there is none.
    pub fn remove_last(&mut self)
        ensures
            final(self)@ == if old(self)@.len() > 0 {
                old(self)@.drop_last()
            } else {
                old(self)@
            },
    {
        proof {
            use_type_invariant(&*self);
        }
        if self.is_empty() {
            return;
        }
        let ghost before = self@;
        let mut i: usize = INT_CONVERT_MAX_SIZE - 1;
        while i > self.offset
            invariant
                self.offset < 11,
                self.offset <= i <= 10,
                self.offset + before.len() == 11,
                self.bytes@.len() == 11,
                forall|j: int| self.offset <= j <= i ==> self.bytes@[j] == before[j - self.offset],
                forall|j: int| i < j < 11 ==> self.bytes@[j] == before[j - self.offset - 1],
            decreases i,
        {
            let b = self.bytes[i - 1];
            self.bytes[i] = b;
            i = i - 1;
        }
        self.offset = self.offset + 1;
        assert(self@ =~= before.drop_last());
    }

    /// The patterns held, as a slice.
    pub fn as_slice(&self) -> (r: &[u8])
        ensures
            r@ == self@,
    {
        proof {
            use_type_invariant(self);
        }
        vstd::slice::slice_subrange(vstd::array::array_as_slice(&self.bytes), self.offset, INT_CONVERT_MAX_SIZE)
    }
}

impl core::ops::Deref for IntConvertResult {
    type Target = [u8];

    fn deref(&self) -> &[u8] {
        self.as_slice()
    }
}

/// The patterns of `value`: a minus sign when negative, then its decimal digits.
pub fn int_to_bytes(value: i32) -> (r: IntConvertResult)
    ensures
        r@ == int_pattern(value as int),
{
    let mut result = IntConvertResult::new();
    let mut v: u32 = if value < 0 {
        (0i64 - value as i64) as u32
    } else {
        value as u32
    };
    let ghost a = v as nat;
    proof {
        reveal_with_fuel(pow10, 11);
        lemma_digits_len(a, 10);
    }
    while v > 0
        invariant
            digits_of(a) == digits_of(v as nat) + result@,
            digits_of(a).len() <= 10,
        decreases v,
    {
        result.add_first(digit(v % 10));
        proof {
            assert(digits_of(v as nat) == digits_of((v / 10) as nat).push(digit_pattern((v % 10) as int)));
            assert(digits_of(a) =~= digits_of((v / 10) as nat) + result@);
        }
        v = v / 10;
    }
    assert(digits_of(0) =~= Seq::<u8>::empty());
    assert(result@ =~= digits_of(a));
    if value < 0 {
        result.add_first(CHAR_MINUS);
    }
    if result.is_empty() {
        result.add_first(digit(0));
    }
    assert(result@ =~= int_pattern(value as int));
    result
}

/// The patterns of a converted fraction (whole part, dot and fractional part),
/// at most twenty-two. It dereferences to a slice.
#[derive(Debug)]
pub struct DoubleConvertResult {
    offset: usize,
    bytes: [u8; 22],
}

impl View for DoubleConvertResult {
    type V = Seq<u8>;

    closed spec fn view(&self) -> Seq<u8> {
        self.bytes@.subrange(self.offset as int, 22)
    }
}

impl DoubleConvertResult {
    #[verifier::type_invariant]
    spec fn inv(&self) -> bool {
        self.offset <= 2 * INT_CONVERT_MAX_SIZE
    }

    /// `head` followed by `tail`, or nothing when together they are longer than
    /// twenty-two.
    pub fn new(head: &[u8], tail: &[u8]) -> (r: DoubleConvertResult)
        ensures
            r@ == if head@.len() + tail@.len() <= 22 {
                head@ + tail@
            } else {
                Seq::<u8>::empty()
            },
    {
        let mut offset: usize = 2 * INT_CONVERT_MAX_SIZE;
        let mut bytes = [0u8;22];
        if head.len() <= 22 && tail.len() <= 22 - head.len() {
            let len = head.len() + tail.len();
            offset = offset - len;
            let mut idx = offset;
            let mut i: usize = 0;
            while i < head.len()
                invariant
                    offset + head@.len() + tail@.len() == 22,
                    i <= head@.len(),
                    idx == offset + i,
                    bytes@.len() == 22,
                    forall|j: int| offset <= j < idx ==> bytes@[j] == head@[j - offset],
                decreases head@.len() - i,
            {
                bytes[idx] = head[i];
                idx = idx + 1;
                i = i + 1;
            }
            let mut i: usize = 0;
            while i < tail.len()
                invariant
                    offset + head@.len() + tail@.len() == 22,
                    i <= tail@.len(),
                    idx == offset + head@.len() + i,
                    bytes@.len() == 22,
                    forall|j: int| offset <= j < offset + head@.len() ==> bytes@[j] == head@[j - offset],
                    forall|j: int| offset + head@.len() <= j < idx ==> bytes@[j] == tail@[j - offset - head@.len()],
                decreases tail@.len() - i,
            {
                bytes[idx] = tail[i];
                idx = idx + 1;
                i = i + 1;
            }
            let r = DoubleConvertResult { offset, bytes };
            assert(r@ =~= head@ + tail@);
            r
        } else {
            let r = DoubleConvertResult { offset, bytes };
            assert(r@ =~= Seq::<u8>::empty());
            r
        }
    }

    /// The patterns held, as a slice.
    pub fn as_slice(&self) -> (r: &[u8])
        ensures
            r@ == self@,
    {
        proof {
            use_type_invariant(self);
        }
        vstd::slice::slice_subrange(vstd::array::array_as_slice(&self.bytes), self.offset, 2 * INT_CONVERT_MAX_SIZE)
    }
}

impl core::ops::Deref for DoubleConvertResult {
    type Target = [u8];

    fn deref(&self) -> &[u8] {
        self.as_slice()
    }
}

/// Each pattern followed by a blank byte: on the 3-wire bus a TM1638 takes two
/// bytes per display.
pub fn double_bytes(input: &[u8]) -> (r: Vec<u8>)
    ensures
        r@ == doubled(input@),
{
    let mut double_byte: Vec<u8> = Vec::new();
    let mut i: usize = 0;
    while i < input.len()
        invariant
            i <= input@.len(),
            double_byte@ == doubled(input@.take(i as int)),
        decreases input@.len() - i,
    {
        let ghost before = double_byte@;
        double_byte.push(input[i]);
        double_byte.push(0);
        i = i + 1;
        assert(double_byte@ =~= doubled(input@.take(i as int))) by {
            assert(before =~= doubled(input@.take(i - 1)));
        }
    }
    assert(input@.take(i as int) =~= input@);
    double_byte
}

} // verus!
