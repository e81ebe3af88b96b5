use servo4257::boot::{is_enter_update, listen_step, listen_window, listen_window_wants_stay, ListenStep, LISTEN_BUDGET};
use servo4257::canopen::download::{FlashBackend, WriteStep, APP_FLASH_OFFSET, META_FLASH_OFFSET, PAGE_SIZE};
use servo4257::canopen::frame::Frame;
use servo4257::canopen::mgmt::{reset_flag, Iwdg, FLAG_BOOT_APP, FLAG_STAY_IN_BOOT, IWDG_KEY, IWDG_RLR, KEY_FEED};
use servo4257::canopen::od::{self, MgmtAction, OdErr, Params, Telemetry};
use servo4257::canopen::sdo::{abort, handle_sdo, SdoOutcome};
use servo4257::canopen::transport::{convert_rx, telem_payload, telemetry_frame, tx_parts, TransportError};

fn params() -> Params {
    Params {
        enable: false,
        mode: 0,
        amplitude: 0,
        lead_angle: 16384,
        direction: 0,
        offset: 0,
        pole_pairs: 50,
        ol_angle: 0,
        ol_rate: 0,
        shape: 0,
    }
}

fn telem() -> Telemetry {
    Telemetry { pos: -2, theta_e: 0x1234, vel: 70000, iq: -5, id: 3, faults: 9 }
}

#[test]
fn abort_codes() {
    assert_eq!(OdErr::NoSuchObject.abort_code(), 0x0602_0000);
    assert_eq!(OdErr::ReadOnly.abort_code(), 0x0601_0002);
}

#[test]
fn od_write_then_read_back() {
    let mut p = params();
    let t = telem();
    assert_eq!(od::write(&mut p, 0x2000, 0x03, 0xFFFF_8001), Ok(None));
    assert_eq!(p.amplitude, -32767);
    assert_eq!(od::read(&p, &t, 0, 0x2000, 0x03), Ok((0x8001, 2)));
    assert_eq!(od::write(&mut p, 0x2000, 0x01, 5), Ok(None));
    assert_eq!(od::read(&p, &t, 0, 0x2000, 0x01), Ok((1, 1)));
    assert_eq!(od::write(&mut p, 0x2000, 0x02, 0x1_02), Ok(None));
    assert_eq!(od::read(&p, &t, 0, 0x2000, 0x02), Ok((2, 1)));
    assert_eq!(od::write(&mut p, 0x2000, 0x09, 0xFFFF), Ok(None));
    assert_eq!(p.ol_rate, -1);
    assert_eq!(od::read(&p, &t, 0, 0x2000, 0x09), Ok((0xFFFF, 2)));
    assert_eq!(od::read(&p, &t, 0, 0x2000, 0x07), Ok((50, 2)));
}

#[test]
fn od_telemetry_and_status() {
    let mut p = params();
    let t = telem();
    assert_eq!(od::read(&p, &t, 0, 0x2001, 0x01), Ok((0xFFFF_FFFE, 4)));
    assert_eq!(od::read(&p, &t, 0, 0x2001, 0x02), Ok((0x1234, 2)));
    assert_eq!(od::read(&p, &t, 0, 0x2001, 0x04), Ok((0xFFFB, 2)));
    assert_eq!(od::read(&p, &t, 0, 0x2001, 0x06), Ok((9, 2)));
    assert_eq!(od::read(&p, &t, 0xB007_57A4, 0x2F00, 0x05), Ok((0xB007_57A4, 4)));
    assert_eq!(od::read(&p, &t, 0, 0x2001, 0x07), Err(OdErr::NoSuchObject));
    assert_eq!(od::read(&p, &t, 0, 0x2000, 0x0B), Err(OdErr::NoSuchObject));
    assert_eq!(od::write(&mut p, 0x2001, 0x03, 1), Err(OdErr::ReadOnly));
    assert_eq!(od::write(&mut p, 0x2F00, 0x05, 1), Err(OdErr::ReadOnly));
    assert_eq!(od::write(&mut p, 0x2002, 0x01, 1), Err(OdErr::NoSuchObject));
    assert_eq!(p, params());
}

#[test]
fn od_management_triggers() {
    let mut p = params();
    assert_eq!(od::write(&mut p, 0x2F00, 0x01, 1), Ok(Some(MgmtAction::Reboot)));
    assert_eq!(od::write(&mut p, 0x2F00, 0x02, 1), Ok(Some(MgmtAction::StayInBoot)));
    assert_eq!(od::write(&mut p, 0x2F00, 0x03, 7), Ok(Some(MgmtAction::BootApp)));
    assert_eq!(od::write(&mut p, 0x2F00, 0x04, 1), Ok(Some(MgmtAction::InvalidateApp)));
    assert_eq!(od::write(&mut p, 0x2F00, 0x02, 0), Ok(None));
    assert_eq!(reset_flag(MgmtAction::Reboot), None);
    assert_eq!(reset_flag(MgmtAction::StayInBoot), Some(FLAG_STAY_IN_BOOT));
    assert_eq!(reset_flag(MgmtAction::InvalidateApp), Some(FLAG_STAY_IN_BOOT));
    assert_eq!(reset_flag(MgmtAction::BootApp), Some(FLAG_BOOT_APP));
}

fn reply(o: SdoOutcome) -> [u8; 8] {
    match o {
        SdoOutcome::Reply(f) => f,
        _ => panic!("expected a reply"),
    }
}

#[test]
fn sdo_upload_download_and_abort() {
    let mut p = params();
    let t = telem();
    let f = reply(handle_sdo(&mut p, &t, 0, &[0x40, 0x00, 0x20, 0x04, 0, 0, 0, 0]));
    assert_eq!(f, [0x4B, 0x00, 0x20, 0x04, 0x00, 0x40, 0, 0]);
    let f = reply(handle_sdo(&mut p, &t, 0, &[0x23, 0x00, 0x20, 0x06, 0x34, 0x12, 0, 0]));
    assert_eq!(f, [0x60, 0x00, 0x20, 0x06, 0, 0, 0, 0]);
    assert_eq!(p.offset, 0x1234);
    let f = reply(handle_sdo(&mut p, &t, 0, &[0x40, 0x00, 0x20, 0x06, 0, 0, 0, 0]));
    assert_eq!(f, [0x4B, 0x00, 0x20, 0x06, 0x34, 0x12, 0, 0]);
    let f = reply(handle_sdo(&mut p, &t, 0, &[0x40, 0x00, 0x20, 0x01, 0, 0, 0, 0]));
    assert_eq!(f, [0x4F, 0x00, 0x20, 0x01, 0, 0, 0, 0]);
    let f = reply(handle_sdo(&mut p, &t, 0x55, &[0x40, 0x00, 0x2F, 0x05, 0, 0, 0, 0]));
    assert_eq!(f, [0x43, 0x00, 0x2F, 0x05, 0x55, 0, 0, 0]);
    let f = reply(handle_sdo(&mut p, &t, 0, &[0x40, 0x99, 0x30, 0x01, 0, 0, 0, 0]));
    assert_eq!(f, [0x80, 0x99, 0x30, 0x01, 0x00, 0x00, 0x02, 0x06]);
    let f = reply(handle_sdo(&mut p, &t, 0, &[0x2B, 0x01, 0x20, 0x02, 1, 0, 0, 0]));
    assert_eq!(f, abort(0x2001, 2, 0x0601_0002));
    match handle_sdo(&mut p, &t, 0, &[0x2F, 0x00, 0x2F, 0x02, 1, 0, 0, 0]) {
        SdoOutcome::Mgmt(a, f) => {
            assert_eq!(a, MgmtAction::StayInBoot);
            assert_eq!(f, [0x60, 0x00, 0x2F, 0x02, 0, 0, 0, 0]);
        }
        _ => panic!("expected a management action"),
    }
    assert!(matches!(handle_sdo(&mut p, &t, 0, &[0x80, 0, 0, 0, 0, 0, 0, 0]), SdoOutcome::Ignore));
}

#[test]
fn frames_and_transport() {
    assert!(Frame::new(0x601, &[0; 9]).is_none());
    let f = Frame::new(0x601, &[0x2F, 0x51, 0x1F, 0]).unwrap();
    assert_eq!(f.payload(), &[0x2F, 0x51, 0x1F, 0]);
    assert_eq!(f.data, [0x2F, 0x51, 0x1F, 0, 0, 0, 0, 0]);
    assert!(is_enter_update(f.id, f.payload()));
    assert!(listen_window_wants_stay(&f));
    let stay = Frame::new(0x601, &[0x2F, 0x00, 0x2F, 0x02, 1]).unwrap();
    assert!(listen_window_wants_stay(&stay));
    let other = Frame::new(0x602, &[0x2F, 0x51, 0x1F]).unwrap();
    assert!(!listen_window_wants_stay(&other));
    assert!(!is_enter_update(0x601, &[0x2F, 0x51]));

    assert_eq!(tx_parts(&f), Ok((0x601, vec![0x2F, 0x51, 0x1F, 0])));
    let wide = Frame::new(0x800, &[1]).unwrap();
    assert_eq!(tx_parts(&wide), Err(TransportError::NotReady));
    assert!(telemetry_frame(0x800, &[1, 2]).is_none());
    let t = telemetry_frame(0x181, &[1, 2, 3]).unwrap();
    assert_eq!(t.payload(), &[1, 2, 3]);
    let e = telemetry_frame(0x181, &[0; 10]).unwrap();
    assert_eq!(e.len, 0);

    assert!(convert_rx(None, Some(&[1])).is_none());
    assert!(convert_rx(Some(0x601), None).is_none());
    let r = convert_rx(Some(0x601), Some(&[7, 8])).unwrap();
    assert_eq!(r.id, 0x601);
    assert_eq!(r.payload(), &[7, 8]);
}

#[test]
fn lazy_erase_steps() {
    let mut b = FlashBackend::new();
    assert_eq!(b.erase(), Ok(()));
    // A 3000-byte segment at offset 1000 touches pages 0 and 1.
    let mut erased = Vec::new();
    loop {
        match b.write_step(1000, 3000) {
            WriteStep::Erase { page, from, to } => {
                assert_eq!(from, APP_FLASH_OFFSET + page * PAGE_SIZE);
                assert_eq!(to, from + PAGE_SIZE);
                erased.push(page);
                b.mark_erased(page);
            }
            WriteStep::Program { at } => {
                assert_eq!(at, APP_FLASH_OFFSET + 1000);
                break;
            }
        }
    }
    assert_eq!(erased, vec![0, 1]);
    assert_eq!(b.erased_through(), Some(1));
    // The next segment within page 1 needs no erase; one reaching page 2 does.
    assert_eq!(b.write_step(4000, 96), WriteStep::Program { at: APP_FLASH_OFFSET + 4000 });
    assert!(matches!(b.write_step(4000, 200), WriteStep::Erase { page: 2, .. }));
    assert_eq!(b.write_step(5000, 0), WriteStep::Program { at: APP_FLASH_OFFSET + 5000 });
    assert_eq!(FlashBackend::meta_erase_range(), (META_FLASH_OFFSET, META_FLASH_OFFSET + 32));
    assert_eq!(META_FLASH_OFFSET, 0x1F800);
}

#[test]
fn watchdog_register_program() {
    let d = Iwdg::start_1s();
    assert_eq!(d.reload(), 156);
    let w = d.start_writes();
    assert_eq!(w[0], (IWDG_KEY, 0xCCCC));
    assert_eq!(w[1], (IWDG_KEY, 0x5555));
    assert_eq!(w[2].1, 0b110);
    assert_eq!(w[3], (IWDG_RLR, 156));
    assert_eq!(d.feed(), (IWDG_KEY, KEY_FEED));
    assert_eq!(Iwdg::start(0xF123).reload(), 0x123);
}

#[test]
fn bench_telemetry_payload_layout() {
    assert_eq!(
        telem_payload(3, 0x1234, -1, 0x0102),
        [3, 0, 0x34, 0x12, 0xFF, 0xFF, 0x02, 0x01]
    );
    assert_eq!(telem_payload(0, 0, i16::MIN, 0), [0, 0, 0, 0, 0x00, 0x80, 0, 0]);
}

#[test]
fn listen_window_over_polls() {
    let stay = Frame::new(0x601, &[0x2F, 0x51, 0x1F, 0x00, 0x01, 0, 0, 0]).unwrap();
    let mgmt = Frame::new(0x601, &[0x2F, 0x00, 0x2F, 0x02, 0x01, 0, 0, 0]).unwrap();
    let other = Frame::new(0x602, &[0x2F, 0x51, 0x1F, 0x00]).unwrap();
    assert_eq!(listen_step(3, None), ListenStep::KeepPolling(2));
    assert_eq!(listen_step(3, Some(&other)), ListenStep::KeepPolling(2));
    assert_eq!(listen_step(1, None), ListenStep::GiveUp);
    assert_eq!(listen_step(1, Some(&stay)), ListenStep::Stay);
    assert_eq!(listen_step(LISTEN_BUDGET, Some(&mgmt)), ListenStep::Stay);
    let polls = [None, Some(other), Some(stay)];
    assert!(listen_window(&polls, 3));
    assert!(listen_window(&polls, LISTEN_BUDGET));
    assert!(!listen_window(&polls, 2));
    assert!(!listen_window(&polls, 0));
    assert!(!listen_window(&[None, Some(other)], LISTEN_BUDGET));
    assert!(listen_window(&[Some(mgmt)], 1));
}

#[test]
fn download_erases_each_page_once_in_order() {
    let mut b = FlashBackend::new();
    assert_eq!(b.erase(), Ok(()));
    let segs: [(u32, u32); 6] = [(0, 7), (7, 2041), (2048, 0), (2048, 5000), (100, 10), (7048, 2)];
    let mut erased = Vec::new();
    for (off, len) in segs {
        loop {
            match b.write_step(off, len) {
                WriteStep::Erase { page, .. } => {
                    erased.push(page);
                    b.mark_erased(page);
                }
                WriteStep::Program { at } => {
                    assert_eq!(at, APP_FLASH_OFFSET + off);
                    if len > 0 {
                        let last = (off + len - 1) / PAGE_SIZE;
                        assert!(b.erased_through().unwrap() >= last);
                    }
                    break;
                }
            }
        }
    }
    assert_eq!(erased, vec![0, 1, 2, 3]);
}
