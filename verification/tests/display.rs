use servo4257::display::{FrameBuf, I2cLog, I2cWrite, Ssd1306, ADDR};
use std::cell::RefCell;
use std::rc::Rc;

struct Bus {
    log: Rc<RefCell<Vec<(u8, Vec<u8>)>>>,
}

impl I2cWrite for Bus {
    type Error = ();
    // The transfer record exists for the proofs only; nothing runs it.
    fn writes(&self) -> I2cLog<()> {
        unreachable!()
    }
    fn write(&mut self, addr: u8, bytes: &[u8]) -> Result<(), ()> {
        self.log.borrow_mut().push((addr, bytes.to_vec()));
        Ok(())
    }
}

#[test]
fn flush_sends_window_then_pages() {
    let log = Rc::new(RefCell::new(Vec::new()));
    let mut d = Ssd1306::new(Bus { log: log.clone() }).unwrap();
    let mut fb = FrameBuf::new();
    fb.set(3, 9, true);
    d.flush(&fb).unwrap();
    let l = log.borrow();
    assert_eq!(l.len(), 11);
    assert_eq!(l[0].0, ADDR);
    assert_eq!(l[1].1, vec![0x00, 0x21, 0, 127]);
    assert_eq!(l[2].1, vec![0x00, 0x22, 0, 7]);
    assert_eq!(l[4].1[0], 0x40);
    assert_eq!(l[4].1[1 + 3], 0x02);
}

struct Flaky {
    fail_at: usize,
    n: usize,
}

impl I2cWrite for Flaky {
    type Error = u8;
    // The transfer record exists for the proofs only; nothing runs it.
    fn writes(&self) -> I2cLog<u8> {
        unreachable!()
    }
    fn write(&mut self, _addr: u8, _bytes: &[u8]) -> Result<(), u8> {
        self.n += 1;
        if self.n == self.fail_at { Err(7) } else { Ok(()) }
    }
}

#[test]
fn init_sends_command_stream() {
    let log = Rc::new(RefCell::new(Vec::new()));
    let _d = Ssd1306::new(Bus { log: log.clone() }).unwrap();
    let l = log.borrow();
    assert_eq!(l.len(), 1);
    assert_eq!(l[0].1.len(), 26);
    assert_eq!(l[0].1[0], 0x00);
    assert_eq!(l[0].1[1], 0xAE);
    assert_eq!(l[0].1[25], 0xAF);
    assert!(Ssd1306::new(Flaky { fail_at: 1, n: 0 }).is_err());
    let mut d = Ssd1306::new(Flaky { fail_at: 3, n: 0 }).unwrap();
    assert_eq!(d.flush(&FrameBuf::new()), Err(7));
}

fn pixels_of(fb: &FrameBuf) -> Vec<(i32, i32)> {
    let b = fb.as_bytes();
    let mut v = Vec::new();
    for y in 0..64 {
        for x in 0..128 {
            if b[(y / 8) * 128 + x] >> (y % 8) & 1 == 1 {
                v.push((x as i32, y as i32));
            }
        }
    }
    v
}

#[test]
fn set_and_clear_pixels() {
    let mut fb = FrameBuf::new();
    fb.set(0, 0, true);
    fb.set(127, 63, true);
    fb.set(-1, 5, true);
    fb.set(128, 5, true);
    fb.set(5, 64, true);
    assert_eq!(pixels_of(&fb), vec![(0, 0), (127, 63)]);
    fb.set(0, 0, false);
    assert_eq!(pixels_of(&fb), vec![(127, 63)]);
    fb.clear();
    assert!(pixels_of(&fb).is_empty());
}

#[test]
fn shapes() {
    let mut fb = FrameBuf::new();
    fb.fill_circle(10, 10, 1, true);
    assert_eq!(pixels_of(&fb), vec![(10, 9), (9, 10), (10, 10), (11, 10), (10, 11)]);
    fb.clear();
    fb.rect(0, 0, 2, 2, true);
    assert_eq!(pixels_of(&fb).len(), 8);
    assert!(!pixels_of(&fb).contains(&(1, 1)));
    fb.clear();
    fb.fill_rect(3, 4, 5, 4, true);
    assert_eq!(pixels_of(&fb), vec![(3, 4), (4, 4)]);
    fb.fill_circle(0, 0, -1, true);
    assert_eq!(pixels_of(&fb).len(), 2);
    fb.fill_circle(-3, 70, 200, true);
    assert_eq!(pixels_of(&fb).len(), 128 * 64);
}

#[test]
fn fill_rect_leaves_right_column_out() {
    let mut fb = FrameBuf::new();
    fb.fill_rect(0, 0, 2, 0, true);
    assert_eq!(pixels_of(&fb), vec![(0, 0), (1, 0)]);
    fb.fill_rect(5, 1, 5, 3, true);
    assert_eq!(pixels_of(&fb).len(), 2);
    fb.fill_rect(10, 2, 12, 3, true);
    assert_eq!(pixels_of(&fb).len(), 6);
}

struct Recorder {
    log: Rc<RefCell<Vec<(u8, Vec<u8>)>>>,
    fail_at: usize,
}

impl I2cWrite for Recorder {
    type Error = usize;
    // The transfer record exists for the proofs only; nothing runs it.
    fn writes(&self) -> I2cLog<usize> {
        unreachable!()
    }
    fn write(&mut self, addr: u8, bytes: &[u8]) -> Result<(), usize> {
        let mut l = self.log.borrow_mut();
        l.push((addr, bytes.to_vec()));
        if l.len() == self.fail_at { Err(l.len()) } else { Ok(()) }
    }
}

#[test]
fn flush_stops_at_first_refused_write() {
    let log = Rc::new(RefCell::new(Vec::new()));
    let d = Ssd1306::new(Recorder { log: log.clone(), fail_at: 1 });
    assert_eq!(d.err(), Some(1));
    assert_eq!(log.borrow().len(), 1);

    let log = Rc::new(RefCell::new(Vec::new()));
    let mut d = Ssd1306::new(Recorder { log: log.clone(), fail_at: 6 }).unwrap();
    let mut fb = FrameBuf::new();
    fb.set(0, 16, true);
    assert_eq!(d.flush(&fb), Err(6));
    let l = log.borrow();
    assert_eq!(l.len(), 6);
    assert_eq!(l[1], (ADDR, vec![0x00, 0x21, 0, 127]));
    assert_eq!(l[2], (ADDR, vec![0x00, 0x22, 0, 7]));
    assert_eq!(l[5].1.len(), 129);
    assert_eq!(l[5].1[0], 0x40);
    assert_eq!(l[5].1[1], 0x01);
}

#[test]
fn flush_sends_all_ten_when_accepted() {
    let log = Rc::new(RefCell::new(Vec::new()));
    let mut d = Ssd1306::new(Recorder { log: log.clone(), fail_at: 0 }).unwrap();
    assert_eq!(d.flush(&FrameBuf::new()), Ok(()));
    assert_eq!(log.borrow().len(), 11);
}

#[test]
fn fill_circle_at_coordinate_limits() {
    let mut fb = FrameBuf::new();
    fb.fill_circle(i32::MAX - 5, i32::MIN + 5, 5, true);
    fb.fill_circle(0, 0, -46340, true);
    assert!(pixels_of(&fb).is_empty());
}
