use tmledkey_hal_drv::fx::{Animate, SlideType, Slider, Spinner};
use tmledkey_hal_drv::{
    CHAR_0, CHAR_1, CHAR_2, CHAR_3, CHAR_4, CHAR_5, CHAR_6, CHAR_7, CHAR_8, CHAR_9, SEG_1, SEG_2,
    SEG_3, SEG_4, SEG_5, SEG_6,
};

fn animate_next<R>(ani: &mut dyn Animate<R>, steps: usize) -> Option<R> {
    let mut last = None;
    for _ in 0..steps {
        last = ani.next();
    }
    last
}

fn animate_none<R>(ani: &mut dyn Animate<R>, steps: usize) {
    for s in 0..steps {
        if let Some(_) = ani.next() {
            assert!(false, "Resultis not None at step {}", s);
        }
    }
}

#[test]
fn spinner_test() {
    let init = CHAR_0 & !SEG_1;

    let mut scw = Spinner::new(init.clone(), true);
    assert_eq!(animate_next(&mut scw, 2).unwrap(), CHAR_0 & !SEG_2);
    assert_eq!(animate_next(&mut scw, 4).unwrap(), CHAR_0 & !SEG_6);
    assert_eq!(animate_next(&mut scw, 6).unwrap(), CHAR_0 & !SEG_6);
    assert_eq!(animate_next(&mut scw, 3).unwrap(), CHAR_0 & !SEG_3);

    let mut sccw = Spinner::new(init.clone(), false);
    assert_eq!(animate_next(&mut sccw, 2).unwrap(), CHAR_0 & !SEG_6);
    assert_eq!(animate_next(&mut sccw, 5).unwrap(), CHAR_0 & !SEG_1);
    assert_eq!(animate_next(&mut sccw, 6).unwrap(), CHAR_0 & !SEG_1);
    assert_eq!(animate_next(&mut sccw, 3).unwrap(), CHAR_0 & !SEG_4);
}

#[test]
fn slide_test() {
    let init = [
        CHAR_0, CHAR_1, CHAR_2, CHAR_3, CHAR_4, CHAR_5, CHAR_6, CHAR_7, CHAR_8, CHAR_9,
    ];

    let mut sstop = Slider::new(SlideType::StopAtFirstChar, 5, &init);
    assert_eq!(animate_next(&mut sstop, 1).unwrap(), [0; 5]);
    assert_eq!(animate_next(&mut sstop, 1).unwrap(), [0, 0, 0, 0, CHAR_0]);
    assert_eq!(
        animate_next(&mut sstop, 4).unwrap(),
        [CHAR_0, CHAR_1, CHAR_2, CHAR_3, CHAR_4]
    );
    animate_none(&mut sstop, 15);

    let mut sstopaft = Slider::new(SlideType::StopAfterLastChar, 5, &init);
    assert_eq!(animate_next(&mut sstopaft, 1).unwrap(), [0; 5]);
    assert_eq!(
        animate_next(&mut sstopaft, 1).unwrap(),
        [0, 0, 0, 0, CHAR_0]
    );
    assert_eq!(
        animate_next(&mut sstopaft, 4).unwrap(),
        [CHAR_0, CHAR_1, CHAR_2, CHAR_3, CHAR_4]
    );
    assert_eq!(
        animate_next(&mut sstopaft, 3).unwrap(),
        [CHAR_3, CHAR_4, CHAR_5, CHAR_6, CHAR_7]
    );
    assert_eq!(
        animate_next(&mut sstopaft, 2).unwrap(),
        [CHAR_5, CHAR_6, CHAR_7, CHAR_8, CHAR_9]
    );
    assert_eq!(
        animate_next(&mut sstopaft, 4).unwrap(),
        [CHAR_9, 0, 0, 0, 0]
    );
    animate_none(&mut sstop, 15);

    let mut cycle = Slider::new(SlideType::Cycle, 5, &init);
    assert_eq!(animate_next(&mut cycle, 1).unwrap(), [0; 5]);
    assert_eq!(
        animate_next(&mut cycle, 3 * (init.len() + 5)).unwrap(),
        [0; 5]
    );
    assert_eq!(
        animate_next(&mut cycle, 5).unwrap(),
        [CHAR_0, CHAR_1, CHAR_2, CHAR_3, CHAR_4]
    );
    assert_eq!(
        animate_next(&mut cycle, 5).unwrap(),
        [CHAR_5, CHAR_6, CHAR_7, CHAR_8, CHAR_9]
    );
}

const RING: [u8; 6] = [SEG_1, SEG_2, SEG_3, SEG_4, SEG_5, SEG_6];

fn spin_frames(mask: u8, cw: bool, n: usize) -> Vec<u8> {
    let mut s = Spinner::new(mask, cw);
    (0..n).map(|_| s.next().unwrap()).collect()
}

#[test]
fn spinner_repeats_every_six_calls() {
    for mask in 0u8..64 {
        for cw in [true, false] {
            let frames = spin_frames(mask, cw, 18);
            for k in 0..12 {
                assert_eq!(frames[k], frames[k + 6]);
            }
            assert_eq!(frames[0], mask & 0b11_1111);
        }
    }
}

#[test]
fn spinner_clockwise_mirrors_counter_clockwise() {
    for mask in 0u8..64 {
        let cw = spin_frames(mask, true, 6);
        let ccw = spin_frames(mask, false, 6);
        for k in 0..6 {
            assert_eq!(cw[k], ccw[(6 - k) % 6]);
        }
    }
}

#[test]
fn spinner_single_segment_walks_the_ring() {
    let cw = spin_frames(SEG_1, true, 7);
    assert_eq!(cw, vec![SEG_1, SEG_2, SEG_3, SEG_4, SEG_5, SEG_6, SEG_1]);
    let ccw = spin_frames(SEG_1, false, 7);
    assert_eq!(ccw, vec![SEG_1, SEG_6, SEG_5, SEG_4, SEG_3, SEG_2, SEG_1]);
    for (i, seg) in RING.iter().enumerate() {
        assert_eq!(spin_frames(*seg, true, i + 1)[i], SEG_1 << (2 * i % 6));
    }
}

#[test]
fn spinner_ignores_dot_and_middle_segments() {
    assert_eq!(spin_frames(0b1100_0000, true, 3), vec![0, 0, 0]);
}

fn word10() -> [u8; 10] {
    [
        CHAR_0, CHAR_1, CHAR_2, CHAR_3, CHAR_4, CHAR_5, CHAR_6, CHAR_7, CHAR_8, CHAR_9,
    ]
}

#[test]
fn slider_stop_at_first_char_ends_when_first_char_leaves() {
    let word = word10();
    let mut s = Slider::new(SlideType::StopAtFirstChar, 5, &word);
    let frames: Vec<Vec<u8>> = (0..6).map(|_| s.next().unwrap()).collect();
    assert_eq!(frames[0], vec![0; 5]);
    assert_eq!(frames[4], vec![0, CHAR_0, CHAR_1, CHAR_2, CHAR_3]);
    assert_eq!(frames[5], vec![CHAR_0, CHAR_1, CHAR_2, CHAR_3, CHAR_4]);
    assert_eq!(s.next(), None);
    assert_eq!(s.next(), None);
}

#[test]
fn slider_stop_after_last_char_yields_fifteen_frames() {
    let word = word10();
    let mut s = Slider::new(SlideType::StopAfterLastChar, 5, &word);
    let mut n = 0;
    while let Some(_) = s.next() {
        n += 1;
        assert!(n < 100);
    }
    assert_eq!(n, 15);
}

#[test]
fn slider_cycle_period_is_width_plus_length() {
    let word = word10();
    let mut s = Slider::new(SlideType::Cycle, 5, &word);
    let first: Vec<Vec<u8>> = (0..15).map(|_| s.next().unwrap()).collect();
    let second: Vec<Vec<u8>> = (0..15).map(|_| s.next().unwrap()).collect();
    assert_eq!(first, second);
    assert_eq!(first[0], vec![0; 5]);
    for _ in 0..1000 {
        assert!(s.next().is_some());
    }
}

#[test]
fn slider_too_long_word_stops() {
    let word = [CHAR_8; 300];
    let mut s = Slider::new(SlideType::Cycle, 5, &word);
    let mut n = 0;
    while let Some(_) = s.next() {
        n += 1;
        assert!(n < 1000);
    }
    assert_eq!(n, 255);
}

#[test]
fn slider_empty_word_is_blank() {
    let mut s = Slider::new(SlideType::Cycle, 3, &[]);
    for _ in 0..10 {
        assert_eq!(s.next().unwrap(), vec![0, 0, 0]);
    }
    let mut t = Slider::new(SlideType::StopAfterLastChar, 3, &[]);
    assert_eq!(t.next(), None);
}
