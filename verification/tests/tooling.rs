//! The bench tooling: the flash writer, the probe's registers, the user
//! page, placing BOOT, and the command line.

use samd5_boot::cli::{parse_addr, parse_dec_or_hex, parse_size, NotASize, NotAnAddress};
use samd5_boot::flash;
use samd5_boot::flash::{HeadMismatch, HeadStep, SwapProgress};
use samd5_boot::flash_writer::{pages, words, FlashError, FlashOp, FlashWriter};
use samd5_boot::image;
use samd5_boot::image::{corrupt_body, Artifacts, Transport};
use samd5_boot::manifest::{read_version, StampError};
use samd5_boot::persist::BootStore;
use samd5_boot::probe;
use samd5_boot::probe::{Cmd, CmdProgress, Mode, Param, Status};
use samd5_boot::provision;
use samd5_boot::provision::session::{Came, Outcome, Session, Stage, Step};
use samd5_boot::provision::{Backup, Fuses, PageOp, ProvisionError, Request, Todo, UserPage};
use samd5_boot::text::{parse_number, starts_with, to_decimal, trim};

/// Whole, or through one page buffer: the same pages.
#[test]
fn an_image_streams_page_by_page() {
    for len in [0, 1, 511, 512, 513, 1024, 5000] {
        let image: Vec<u8> = (0..len).map(|i: usize| (i * 7) as u8).collect();
        let streamed: Vec<_> = image.chunks(512).flat_map(|chunk| pages(&words(chunk))).collect();
        assert_eq!(streamed.len(), (len + 511) / 512);
        assert!(streamed == pages(&words(&image)));
    }
}

#[test]
fn bytes_become_padded_words_and_pages() {
    assert_eq!(words(&[]), Vec::<u32>::new());
    assert_eq!(words(&[1, 2, 3, 4, 5]), vec![0x0403_0201, 0xFFFF_FF05]);
    let p = pages(&words(&vec![0xAB; 513]));
    assert_eq!(p.len(), 2);
    assert_eq!(p[0], [0xABAB_ABAB; 128]);
    assert_eq!((p[1][0], p[1][1], p[1][127]), (0xFFFF_FFAB, u32::MAX, u32::MAX));
}

#[test]
fn a_block_is_erased_before_its_first_page() {
    let writer = FlashWriter::new(0x8_8000, 0x8_8000 + 3 * 8192);
    let image: Vec<u32> = (0..17 * 128).collect();
    let (ops, fit) = writer.write(&pages(&image));
    assert_eq!(fit, Ok(()));
    assert_eq!(ops.len(), 19);
    assert_eq!(ops[0], FlashOp::EraseBlock { addr: 0x8_8000 });
    assert!(matches!(ops[1], FlashOp::WritePage { addr: 0x8_8000, .. }));
    assert!(matches!(ops[2], FlashOp::WritePage { addr: 0x8_8200, .. }));
    assert_eq!(ops[17], FlashOp::EraseBlock { addr: 0x8_A000 });
    assert!(matches!(ops[18], FlashOp::WritePage { addr: 0x8_A000, page } if page[0] == 16 * 128));
    let (ops, fit) = writer.write(&[]);
    assert!(ops.is_empty() && fit.is_ok());
}

#[test]
fn a_page_past_the_region_is_refused() {
    let writer = FlashWriter::new(0x8_8000, 0x8_8000 + 8192);
    assert_eq!(writer.write_page(16, &[0; 128]), Err(FlashError::ImageTooLarge));
    assert_eq!(writer.write_page(15, &[0; 128]).unwrap().len(), 1);
}

#[test]
fn registers_decode() {
    let param = Param::decode(0x0006_0800);
    assert_eq!((param.flash_size, param.page_size), (1024 * 1024, 512));
    let status = Status::decode(0x0B11);
    assert_eq!((status.bootprot, status.a_first, status.bpdis), (11, true, false));
    assert!(status.protected());
    assert_eq!(status.text(), "BOOTPROT=11 (32 KiB protected), active bank A");
    let open = Status::decode(0x0B20);
    assert!(!open.protected());
    assert_eq!(open.text(), "BOOTPROT=11 (32 KiB protected), active bank B, BPDIS set");
    assert!(!Status::decode(0x0F10).protected());
    assert_eq!(probe::see_sblk(0x0000_0123), 3);
    assert_eq!(probe::uncached_ctrla(0x0004), 0xC004);
}

#[test]
fn commands_carry_the_key() {
    assert_eq!(Cmd::Ep.ctrlb(), 0xA500);
    assert_eq!(Cmd::Wqw.ctrlb(), 0xA504);
    assert_eq!(Cmd::Pbc.ctrlb(), 0xA515);
    assert_eq!(Cmd::Bkswrst.ctrlb(), 0xA517);
    assert_eq!(Cmd::Bkswrst.name(), "BKSWRST (bank swap and reset)");
    assert!(Mode::of(false).writes() && !Mode::of(true).writes());
}

#[test]
fn a_command_fails_finishes_or_is_polled() {
    assert_eq!(probe::command_progress(0x0000, false), CmdProgress::Busy);
    assert_eq!(probe::command_progress(0x0000, true), CmdProgress::TimedOut);
    assert_eq!(probe::command_progress(0x0001, true), CmdProgress::Done);
    assert_eq!(probe::command_progress(0x0009, false), CmdProgress::Failed { flags: 0x0009 });
}

fn page() -> UserPage {
    let mut words = [0xFFFF_FFFFu32; 128];
    words[0] = 0xFE9A_9239;
    words[1] = 0xAEEC_FF80;
    UserPage { words }
}

fn fuses() -> Fuses {
    Fuses { boot_size: 0x8000, lock_boot: true, see_sblk: None }
}

#[test]
fn fields_sit_where_the_fuses_are() {
    let mut p = page();
    assert_eq!(p.bootprot(), 15);
    p.set_bootprot(11);
    assert_eq!(p.bootprot(), 11);
    assert_eq!(p.words[0], 0xEE9A_9239);
    assert_eq!(p.see_sblk(), 0);
    p.set_see_sblk(10);
    assert_eq!(p.words[1], 0xAEEC_FF8A);
    assert_eq!(p.see_sblk(), 10);
    p.set_locks(0x1234_5678);
    assert_eq!(p.locks(), 0x1234_5678);
    assert_eq!(p.words[2], 0x1234_5678);
    assert_eq!(p.quad(0), &p.words[0..4]);
}

#[test]
fn a_plan_changes_only_what_was_asked() {
    let before = page();
    let after = provision::plan(&before, &fuses(), 1024 * 1024).unwrap();
    assert_eq!(after.bootprot(), 11);
    assert_eq!(after.locks(), 0xFFFE_FFFE);
    assert_eq!(after.words[1], before.words[1]);
    assert_eq!(after.words[3..], before.words[3..]);
    let sblk = Fuses { see_sblk: Some(2), ..fuses() };
    assert_eq!(provision::plan(&before, &sblk, 1024 * 1024).unwrap().see_sblk(), 2);
}

#[test]
fn bad_requests_are_refused() {
    let bad_size = Fuses { boot_size: 0x4000, ..fuses() };
    assert_eq!(
        provision::plan(&page(), &bad_size, 1024 * 1024).err(),
        Some(ProvisionError::BootSize { boot_size: 0x4000, flash_size: 1024 * 1024 })
    );
    let bad_sblk = Fuses { see_sblk: Some(11), ..fuses() };
    assert_eq!(
        provision::plan(&page(), &bad_sblk, 1024 * 1024).err(),
        Some(ProvisionError::Sblk { sblk: 11 })
    );
    assert_eq!(
        UserPage::from_bytes(&[0; 511]).err(),
        Some(ProvisionError::PageSize { len: 511 })
    );
}

#[test]
fn a_saved_page_goes_back_word_for_word() {
    let saved = page().to_bytes();
    assert_eq!(saved.len(), 512);
    assert_eq!(&saved[..4], &[0x39, 0x92, 0x9A, 0xFE]);
    let req = Request::Restore(saved);
    let blank = UserPage { words: [u32::MAX; 128] };
    let after = provision::target(&blank, &req, 1024 * 1024).unwrap();
    assert_eq!(after.words, page().words);
    assert!(blank.is_blank() && !after.is_blank());
}

/// The page after its operations have been carried out.
fn carry_out(page: &UserPage, ops: &[PageOp]) -> [u32; 128] {
    let mut words = page.words;
    let mut buffer = [u32::MAX; 4];
    let mut addr = 0u32;
    for op in ops {
        match op {
            PageOp::SetAddr { addr: a } => addr = *a,
            PageOp::Fill { w0, w1, w2, w3, .. } => buffer = [*w0, *w1, *w2, *w3],
            PageOp::Command { cmd: Cmd::Ep } => words = [u32::MAX; 128],
            PageOp::Command { cmd: Cmd::Pbc } => buffer = [u32::MAX; 4],
            PageOp::Command { cmd: Cmd::Wqw } => {
                let at = (addr - 0x0080_4000) as usize / 4;
                words[at..at + 4].copy_from_slice(&buffer);
            }
            PageOp::Command { cmd: Cmd::Bkswrst } => panic!("no swap while provisioning"),
        }
    }
    words
}

#[test]
fn the_operations_leave_the_planned_page() {
    let before = page();
    let after = provision::plan(&before, &fuses(), 1024 * 1024).unwrap();
    let Todo::Write(ops) = provision::todo(&before, &after, Mode::Run) else { panic!() };
    assert_eq!(carry_out(&before, &ops), after.words);
    let Todo::Rehearse(dry) = provision::todo(&before, &after, Mode::DryRun) else { panic!() };
    assert_eq!(dry, ops);
    assert!(matches!(provision::todo(&after, &after, Mode::Run), Todo::Nothing));
}

#[test]
fn a_backup_is_never_overwritten() {
    assert!(matches!(provision::backup(true, &page()), Backup::KeepExisting));
    let blank = UserPage { words: [u32::MAX; 128] };
    assert!(matches!(provision::backup(false, &blank), Backup::SkipBlank));
    assert!(matches!(provision::backup(false, &page()), Backup::Save(b) if b == page().to_bytes()));
}

#[test]
fn what_did_not_take_is_reported() {
    let after = provision::plan(&page(), &fuses(), 1024 * 1024).unwrap();
    let mut other = UserPage { words: after.words };
    other.words[5] = 7;
    assert_eq!(
        provision::check_written(&other, &after),
        Err(ProvisionError::NotWritten { word: 5, reads: 7, want: u32::MAX })
    );
    assert_eq!(
        provision::check_kept(&other, &after),
        Err(ProvisionError::NotKept { word: 5, reads: 7, want: u32::MAX })
    );
    assert_eq!(provision::check_kept(&after, &after), Ok(()));
    let req = Request::Fuses(fuses());
    let latched = |bootprot, runlock| {
        let status = Status { bootprot, a_first: true, bpdis: false };
        provision::check_latched(&after, &req, 1024 * 1024, &status, runlock)
    };
    assert_eq!(latched(11, 0xFFFE_FFFE), Ok(()));
    assert_eq!(latched(15, 0), Err(ProvisionError::Bootprot { latched: 15, expected: 11 }));
    assert_eq!(
        latched(11, 0xFFFF_FFFE),
        Err(ProvisionError::Locks { runlock: 0xFFFF_FFFE, regions: 0x0001_0001 })
    );
}

/// A part that does what it is told, except for what is switched off.
struct Part {
    page: [u32; 128],
    backup: Option<Vec<u8>>,
    writes: bool,
    keeps: bool,
    latches: bool,
}

fn part() -> Part {
    Part { page: page().words, backup: None, writes: true, keeps: true, latches: true }
}

impl Part {
    fn perform(&mut self, step: &Step) -> Came {
        match step {
            Step::ReadPage => Came::Page(UserPage { words: self.page }),
            Step::Rehearse(_) => Came::Done,
            Step::LookForBackup => Came::Found(self.backup.is_some()),
            Step::SaveBackup(bytes) => {
                self.backup = Some(bytes.clone());
                Came::Done
            }
            Step::CarryOut(ops) => {
                assert!(self.backup.is_some() || self.page == [u32::MAX; 128]);
                if self.writes {
                    self.page = carry_out(&UserPage { words: self.page }, ops);
                }
                Came::Done
            }
            Step::Reset => {
                if !self.keeps {
                    self.page[7] = 1;
                }
                Came::Done
            }
            Step::ReadLatches => {
                let p = UserPage { words: self.page };
                let bootprot = if self.latches { p.bootprot() } else { 15 };
                Came::Latched {
                    status: Status { bootprot, a_first: true, bpdis: false },
                    runlock: p.locks(),
                }
            }
            Step::Stop(_) => panic!("the run is over"),
        }
    }

    fn provision(&mut self, req: Request, mode: Mode) -> Outcome {
        let (mut session, mut step) = Session::start(req, 1024 * 1024, mode);
        loop {
            if let Step::Stop(outcome) = step {
                assert_eq!(session.stage, Stage::Over);
                return outcome;
            }
            let came = self.perform(&step);
            step = session.next(came);
        }
    }
}

#[test]
fn a_part_is_provisioned_once() {
    let mut p = part();
    assert_eq!(p.provision(Request::Fuses(fuses()), Mode::Run), Outcome::Provisioned);
    assert_eq!(UserPage { words: p.page }.bootprot(), 11);
    let saved = p.backup.clone().unwrap();
    assert_eq!(saved, page().to_bytes());
    assert_eq!(p.provision(Request::Fuses(fuses()), Mode::Run), Outcome::Unchanged);
    assert_eq!(p.provision(Request::Restore(saved), Mode::Run), Outcome::Provisioned);
    assert_eq!(p.page, page().words);
}

#[test]
fn a_rehearsal_leaves_the_part_alone() {
    let mut p = part();
    assert_eq!(p.provision(Request::Fuses(fuses()), Mode::DryRun), Outcome::Rehearsed);
    assert_eq!(p.page, page().words);
    assert!(p.backup.is_none());
}

#[test]
fn a_run_that_fails_says_whether_the_page_is_gone() {
    let run = |mut p: Part, req: Request| p.provision(req, Mode::Run);
    let req = || Request::Fuses(fuses());
    assert_eq!(
        run(Part { writes: false, ..part() }, req()),
        Outcome::Failed {
            error: Some(ProvisionError::NotWritten {
                word: 0,
                reads: 0xFE9A_9239,
                want: 0xEE9A_9239,
            }),
            erased: true,
        }
    );
    assert_eq!(
        run(Part { keeps: false, ..part() }, req()),
        Outcome::Failed {
            error: Some(ProvisionError::NotKept { word: 7, reads: 1, want: u32::MAX }),
            erased: true,
        }
    );
    assert_eq!(
        run(Part { latches: false, ..part() }, req()),
        Outcome::Failed {
            error: Some(ProvisionError::Bootprot { latched: 15, expected: 11 }),
            erased: false,
        }
    );
    assert_eq!(
        run(part(), Request::Restore(vec![0; 3])),
        Outcome::Failed { error: Some(ProvisionError::PageSize { len: 3 }), erased: false }
    );
    let (mut session, step) = Session::start(req(), 1024 * 1024, Mode::Run);
    assert!(matches!(step, Step::ReadPage));
    assert!(matches!(
        session.next(Came::Failed),
        Step::Stop(Outcome::Failed { error: None, erased: false })
    ));
}

#[test]
fn a_blank_page_is_not_worth_keeping() {
    let mut p = Part { page: [u32::MAX; 128], ..part() };
    assert_eq!(p.provision(Request::Fuses(fuses()), Mode::Run), Outcome::Provisioned);
    assert!(p.backup.is_none());
}

#[test]
fn an_update_request_keeps_the_bookkeeping() {
    let mut record = BootStore::default();
    record.boot_state.boot_count = 2;
    record.seal();
    let (amended, words) = provision::request_update(record.to_words());
    assert!(amended);
    let after = BootStore::from_words(words).validated().unwrap();
    assert!(after.mailbox.request_update());
    assert_eq!(after.boot_state.boot_count, 2);
    let (amended, words) = provision::request_update([0xDEAD_BEEF; 4]);
    assert!(!amended);
    let after = BootStore::from_words(words).validated().unwrap();
    assert!(after.mailbox.request_update());
    assert_eq!(after.boot_state, BootStore::default().boot_state);
}

#[test]
fn a_protected_part_is_swapped_twice() {
    let inactive = 0x8_0000;
    let protected = Status { bootprot: 11, a_first: true, bpdis: false };
    assert_eq!(
        flash::place(&protected, inactive),
        vec![
            HeadStep::Write { base: inactive },
            HeadStep::Swap,
            HeadStep::Write { base: inactive },
            HeadStep::Swap,
            HeadStep::Verify { base: 0 },
            HeadStep::Verify { base: inactive },
            HeadStep::Release,
        ]
    );
    let open = Status { bootprot: 15, a_first: true, bpdis: false };
    assert_eq!(
        flash::place(&open, inactive),
        vec![
            HeadStep::Write { base: 0 },
            HeadStep::Write { base: inactive },
            HeadStep::Verify { base: 0 },
            HeadStep::Verify { base: inactive },
            HeadStep::Release,
        ]
    );
    assert_eq!(flash::swap(true, true), SwapProgress::Back);
    assert_eq!(flash::swap(false, true), SwapProgress::GaveUp);
    assert_eq!(flash::swap(false, false), SwapProgress::Waiting);
    assert_eq!(flash::verify(&[1, 2], &[1, 2]), Ok(()));
    assert_eq!(
        flash::verify(&[1, 9, 9], &[1, 2, 3]),
        Err(HeadMismatch { at: 1, on_part: 9, in_file: 2 })
    );
}

#[test]
fn images_are_padded_and_stamped() {
    let (stamped, report) = image::stamp(vec![0x11; 0x501], 6).unwrap();
    assert_eq!(stamped.len(), 0x504);
    assert_eq!((report.image_len, report.version), (0x504, 6));
    assert_eq!(read_version(&stamped), Some(6));
    assert!(matches!(image::stamp(vec![0; 4], 1), Err(StampError::TooShort { .. })));
    let mut bad = stamped.clone();
    assert_eq!(corrupt_body(&mut bad), 0x282);
    assert_eq!(bad[0x282], !stamped[0x282]);
    bad[0x282] = stamped[0x282];
    assert_eq!(bad, stamped);
}

#[test]
fn builds_name_their_features() {
    let list = |t: Transport, extra: &[&str]| {
        t.args(&extra.iter().map(|s| s.to_string()).collect()).join(" ")
    };
    assert_eq!(list(Transport::for_rs485(false), &[]), "build --release");
    assert_eq!(list(Transport::Rtt, &["noconfirm"]), "build --release --features noconfirm");
    assert_eq!(
        list(Transport::for_rs485(true), &["noconfirm", "see-store"]),
        "build --release --no-default-features --features noconfirm,see-store,rs485"
    );
    let a = Artifacts::in_demo_dir("/r");
    assert_eq!(a.boot, "/r/examples/update-rig/demo-boot.bin");
    assert_eq!(a.app, "/r/examples/update-rig/app.bin");
    assert_eq!(a.app_noconfirm, "/r/examples/update-rig/app-noconfirm.bin");
    assert_eq!(image::demo_dir("/r"), "/r/examples/update-rig");
}

#[test]
fn sizes_and_addresses_parse() {
    assert_eq!(parse_size("32k"), Ok(32768));
    assert_eq!(parse_size(" 16K "), Ok(16384));
    assert_eq!(parse_size("32768"), Ok(32768));
    assert_eq!(parse_size("k"), Err(NotASize));
    assert_eq!(parse_size("32kk"), Err(NotASize));
    assert_eq!(parse_size("99999999999999999999k"), Err(NotASize));
    assert_eq!(parse_addr("0x47000000"), Ok(0x4700_0000));
    assert_eq!(parse_addr("16"), Ok(16));
    assert_eq!(parse_addr("zz"), Err(NotAnAddress));
    assert_eq!(parse_dec_or_hex("0xff", 255), Some(255));
    assert_eq!(parse_dec_or_hex("0x100", 255), None);
    assert_eq!(parse_number("101", 2, 10), Some(5));
    assert_eq!(to_decimal(0), "0");
    assert_eq!(to_decimal(4_294_967_295), "4294967295");
    assert_eq!(trim("  a b "), "a b");
    assert!(starts_with("--pad", "--") && !starts_with("-", "--"));
}
