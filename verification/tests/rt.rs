use servo4257::canopen::frame::Frame;
use servo4257::rt::can::{drain_step, RxOutcome, DRAIN_MAX};
use servo4257::ball::{Ball, XMAX, XMIN, YMAX, YMIN};
use servo4257::rt::i2c::{i2c_timing, ErFlags, Error, EvAction, EvFlags, State};
use servo4257::rt::time_driver::{alarm_plan, coherent, prescaler, ticks, tim2_input_hz, AlarmPlan};

fn ev(startbf: bool, addrf: bool, txdate: bool, bsf: bool, rxdatne: bool) -> EvFlags {
    EvFlags { startbf, addrf, txdate, bsf, rxdatne }
}

#[test]
fn i2c_write_transfer() {
    let mut s = State::new();
    assert_eq!(s.begin_write(0x3C, &[0; 257]), Err(Error::TooLong));
    assert_eq!(s.begin_write(0x3C, &[0xAA, 0xBB]), Ok(()));
    assert_eq!(s.begin_write(0x3C, &[1]), Err(Error::Busy));
    assert_eq!(s.begin_read(0x3C, 1), Err(Error::Busy));
    assert_eq!(s.on_event(ev(true, false, false, false, false), 0), EvAction::SendAddress(0x78));
    assert_eq!(s.on_event(ev(false, true, false, false, false), 0), EvAction::ClearAddr);
    assert_eq!(s.on_event(ev(false, false, true, false, false), 0), EvAction::SendData(0xAA));
    assert_eq!(s.on_event(ev(false, false, true, false, false), 0), EvAction::SendData(0xBB));
    assert_eq!(s.on_event(ev(false, false, true, false, false), 0), EvAction::AwaitBtf);
    assert_eq!(s.take_result(), None);
    assert_eq!(s.on_event(ev(false, false, true, true, false), 0), EvAction::StopDone);
    assert_eq!(s.take_result(), Some(Ok(())));
    assert_eq!(s.take_result(), None);
    assert_eq!(s.on_event(ev(false, false, true, true, false), 0), EvAction::MaskAll);
}

#[test]
fn i2c_empty_write_and_errors() {
    let mut s = State::new();
    assert_eq!(s.begin_write(0x10, &[]), Ok(()));
    assert_eq!(s.on_event(ev(false, true, false, false, false), 0), EvAction::ClearAddrStopDone);
    assert_eq!(s.take_result(), Some(Ok(())));
    assert_eq!(s.begin_write(0x10, &[1]), Ok(()));
    assert_eq!(s.on_error(ErFlags { ackfail: true, arlost: true, overrun: false }), Error::Nack);
    assert_eq!(s.take_result(), Some(Err(Error::Nack)));
    assert_eq!(s.begin_read(0x10, 2), Ok(()));
    assert_eq!(s.on_error(ErFlags { ackfail: false, arlost: true, overrun: true }), Error::Arbitration);
    assert_eq!(s.begin_read(0x10, 2), Ok(()));
    assert_eq!(s.on_error(ErFlags { ackfail: false, arlost: false, overrun: true }), Error::Overrun);
    assert_eq!(s.begin_read(0x10, 2), Ok(()));
    assert_eq!(s.on_error(ErFlags { ackfail: false, arlost: false, overrun: false }), Error::Bus);
    assert_eq!(s.begin_read(0x10, 0), Err(Error::TooLong));
    assert_eq!(s.begin_read(0x10, 257), Err(Error::TooLong));
}

#[test]
fn i2c_read_transfer() {
    let mut s = State::new();
    assert_eq!(s.begin_read(0x50, 3), Ok(()));
    let f = ev(false, false, false, false, true);
    assert!(!s.needs_data(ev(true, false, false, false, true)));
    assert_eq!(s.on_event(ev(true, false, false, false, false), 0), EvAction::SendAddress(0xA1));
    assert_eq!(s.on_event(ev(false, true, false, false, false), 0), EvAction::ClearAddr);
    assert!(s.needs_data(f));
    assert_eq!(s.on_event(f, 7), EvAction::Continue);
    assert_eq!(s.on_event(f, 8), EvAction::NackStop);
    assert_eq!(s.on_event(f, 9), EvAction::Done);
    assert_eq!(s.take_result(), Some(Ok(())));
    assert_eq!(s.received(), vec![7, 8, 9]);
    assert_eq!(s.begin_read(0x50, 1), Ok(()));
    assert_eq!(s.on_event(ev(false, true, false, false, false), 0), EvAction::NackClearAddrStop);
}

#[test]
fn i2c_bus_timing() {
    let t = i2c_timing(16_000_000, 100_000);
    assert_eq!((t.clkfreq, t.tmrise, t.ccr), (16, 17, 80));
    let t = i2c_timing(4_000_000, 1_000_000);
    assert_eq!(t.ccr, 4);
}

#[test]
fn time_base() {
    assert_eq!(ticks(3, 0x10), 3 * 65536 + 16);
    assert!(coherent(4, 4));
    assert!(!coherent(4, 5));
    assert_eq!(alarm_plan(u64::MAX, 0), AlarmPlan::Disarm);
    assert_eq!(alarm_plan(0x1_0005, 0x1_0000), AlarmPlan::Arm { compare: 5, enable: true });
    assert_eq!(alarm_plan(0x3_0005, 0x1_0000), AlarmPlan::Arm { compare: 5, enable: false });
    assert_eq!(alarm_plan(10, 20), AlarmPlan::Arm { compare: 10, enable: true });
    assert_eq!(tim2_input_hz(16_000_000, 64_000_000), 32_000_000);
    assert_eq!(tim2_input_hz(4_000_000, 4_000_000), 4_000_000);
    assert_eq!(prescaler(32_000_000), 31);
    assert_eq!(prescaler(500_000), 0);
}

#[test]
fn ball_bounces_inside() {
    let mut b = Ball::new();
    assert_eq!((b.x, b.y, b.vx, b.vy), (640, 384, 37, 23));
    for _ in 0..10_000 {
        b.step();
        assert!(XMIN <= b.x && b.x <= XMAX && YMIN <= b.y && b.y <= YMAX);
        assert_eq!(b.vx.abs(), 37);
        assert_eq!(b.vy.abs(), 23);
    }
}

#[test]
fn can_drain_policy() {
    let f = Frame::new(0x601, &[1, 2]).unwrap();
    let s = drain_step(0, RxOutcome::Received(Some(f)));
    assert_eq!(s.deliver.map(|g| (g.id, g.len)), Some((0x601, 2)));
    assert!(s.again);
    let s = drain_step(DRAIN_MAX - 1, RxOutcome::Received(Some(f)));
    assert!(s.deliver.is_some() && !s.again);
    let s = drain_step(2, RxOutcome::Received(None));
    assert!(s.deliver.is_none() && s.again);
    let s = drain_step(2, RxOutcome::Overrun);
    assert!(s.deliver.is_none() && s.again);
    let s = drain_step(0, RxOutcome::Empty);
    assert!(s.deliver.is_none() && !s.again);
    assert_eq!(DRAIN_MAX, 8);
}
