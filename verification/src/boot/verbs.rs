//! What the verbs of a boot do, taken one by one.

use vstd::prelude::*;

use crate::boot::outcomes;
use crate::boot::{
    Aborted, BodyCheck, Boot, Condemned, Departure, Downloaded, DownloadError, DsuError,
    InstallError, Intact, Parts, SlotCheck, SlotState, Unverified, Verified, VerifyError,
};
use crate::flash_writer::{FlashError, FlashOp, FlashWriter};
use crate::manifest::AppManifest;
use crate::persist::{BankState, BootStorage, BootStore, PhysicalBank};

verus! {

// ── Vocabulary ──────────────────────────────────────────────────────────

/// Bytes an application may occupy: what BOOT and two blocks of 8 KiB per
/// SBLK leave of a bank.
pub open spec fn room(parts: Parts) -> int {
    outcomes::bank_bytes(parts.layout.density) - parts.layout.boot_size - 16_384 * parts.see_sblk
}

/// Where a downloaded application starts.
pub open spec fn target(parts: Parts) -> int {
    outcomes::bank_bytes(parts.layout.density) + parts.layout.boot_size
}

/// `after` is `before`, sealed, with `bank` condemned and nothing else
/// changed.
pub open spec fn condemns_only(before: BootStore, after: BootStore, bank: PhysicalBank) -> bool {
    &&& outcomes::same_elsewhere(before, after)
    &&& outcomes::same_flags(before, after)
    &&& outcomes::says(after, bank) == BankState::Invalid
    &&& outcomes::says(after, outcomes::opposite(bank)) == outcomes::says(
        before,
        outcomes::opposite(bank),
    )
    &&& after.boot_state.boot_count == before.boot_state.boot_count
    &&& after.boot_state.revert_reason == before.boot_state.revert_reason
}

/// `after` is `before`, sealed, with the image of `bank` on trial, alone in
/// that, none of its attempts spent and no verdict on it.
pub open spec fn starts_trial(before: BootStore, after: BootStore, bank: PhysicalBank) -> bool {
    &&& outcomes::same_elsewhere(before, after)
    &&& outcomes::says(after, bank) == BankState::New
    &&& outcomes::says(after, outcomes::opposite(bank)) != BankState::New
    &&& outcomes::says(before, outcomes::opposite(bank)) != BankState::New ==> outcomes::says(
        after,
        outcomes::opposite(bank),
    ) == outcomes::says(before, outcomes::opposite(bank))
    &&& after.boot_state.boot_count == 0
    &&& after.boot_state.revert_reason == before.boot_state.revert_reason
    &&& outcomes::requested(after) == outcomes::requested(before)
    &&& !outcomes::confirmed(after)
    &&& !outcomes::rejected(after)
}

// ── Installing ──────────────────────────────────────────────────────────

/// Condemning writes once: the record with the bank mapped high condemned and
/// nothing else changed. It succeeds exactly if the store took it, and then
/// carries that record and that bank on.
pub proof fn condemning_touches_the_target_only<St: BootStorage>(
    parts: Parts,
    record: BootStore,
    pre: St,
    post: St,
    r: Result<Condemned, St::WriteErr>,
)
    requires
        crate::boot::condemns(parts, record, pre, post, r),
    ensures
        ({
            let bank = outcomes::opposite(parts.first_bank);
            match r {
                Ok(c) => {
                    &&& c.spec_bank() == bank
                    &&& condemns_only(record, c.spec_record().sealed(), bank)
                    &&& St::writes(pre, c.spec_record().sealed(), post, Ok(()))
                },
                Err(e) => exists|after: BootStore| #[trigger]
                    condemns_only(record, after, bank) && St::writes(pre, after, post, Err(e)),
            }
        }),
{
    let bank = outcomes::opposite(parts.first_bank);
    outcomes::what_the_verbs_write(
        record,
        bank,
        crate::persist::RevertReason::NoRevert,
    );
    assert(condemns_only(record, crate::boot::condemned(record, bank).sealed(), bank));
}

/// An image that was downloaded and found intact is put on trial and swapped
/// in, unless the store refuses the record. One that was not touches neither
/// store nor banks, and its failure is handed on as it is. Whatever fails, the
/// boot comes back.
pub proof fn what_became_of_a_download_decides_the_install<S: SlotState, St: BootStorage>(
    boot: Boot<S>,
    before: BootStore,
    download: Result<Downloaded, DownloadError>,
    pre: St,
    post: St,
    r: Result<Departure, Aborted<InstallError<St::WriteErr>, Boot<S>>>,
)
    requires
        crate::boot::installs(boot, before, download, pre, post, r),
    ensures
        download is Err ==> post == pre && r is Err,
        r matches Err(a) ==> a.boot == boot,
        r matches Ok(d) ==> d == Departure::Swap && download is Ok && exists|after: BootStore|
            #[trigger] starts_trial(before, after, outcomes::opposite(boot@.first_bank)) && St::writes(
                pre,
                after,
                post,
                Ok(()),
            ),
        r matches Err(a) ==> match a.error {
            InstallError::Flash(e) => download == Err::<Downloaded, _>(DownloadError::Flash(e)),
            InstallError::Verify(e) => download == Err::<Downloaded, _>(DownloadError::Verify(e)),
            InstallError::Write(e) => download is Ok && exists|after: BootStore|
                #[trigger] starts_trial(before, after, outcomes::opposite(boot@.first_bank)) && St::writes(
                    pre,
                    after,
                    post,
                    Err(e),
                ),
        },
{
    let bank = outcomes::opposite(boot@.first_bank);
    outcomes::what_the_verbs_write(
        before,
        bank,
        crate::persist::RevertReason::NoRevert,
    );
    assert(starts_trial(before, crate::boot::installed(before, bank).sealed(), bank));
}

/// A download is done exactly if every operation went well, the slot was found
/// intact and something was delivered. A flash fault is what is reported
/// first; a source that delivered nothing is a bad length, however the slot
/// verified.
pub proof fn when_a_download_is_done<S: SlotState>(
    boot: Boot<S>,
    delivered: usize,
    flash: Result<(), FlashError>,
    check: Result<Intact, VerifyError>,
    r: Result<Downloaded, DownloadError>,
)
    requires
        crate::boot::speaks_of(check, outcomes::bank_bytes(boot@.layout.density)),
        call_ensures(Boot::<S>::downloaded, (&boot, delivered, flash, check), r),
    ensures
        r is Ok <==> flash is Ok && check is Ok && delivered > 0,
        r matches Ok(done) ==> done.spec_base() == outcomes::bank_bytes(boot@.layout.density),
        flash matches Err(e) ==> r == Err::<Downloaded, _>(DownloadError::Flash(e)),
        flash is Ok && delivered == 0 ==> r == Err::<Downloaded, _>(
            DownloadError::Verify(VerifyError::BadLen),
        ),
        flash is Ok && delivered > 0 && check is Err ==> r == Err::<Downloaded, _>(
            DownloadError::Verify(check->Err_0),
        ),
{
}

/// The region a download may write is the room for an application in the upper
/// bank: BOOT below it and the SmartEEPROM above it stay out.
pub proof fn where_a_download_goes<S: SlotState>(
    boot: Boot<S>,
    condemned: Condemned,
    writer: FlashWriter,
    begin: usize,
    len: usize,
)
    requires
        boot.wf(),
        condemned.spec_bank() == outcomes::opposite(boot@.first_bank),
        call_ensures(Boot::<S>::download_region, (&boot, &condemned), writer),
        call_ensures(Boot::<S>::app_region_len, (&boot,), len),
    ensures
        writer.begin == target(boot@),
        writer.end == target(boot@) + room(boot@),
        writer.end + 16_384 * boot@.see_sblk == 2 * outcomes::bank_bytes(boot@.layout.density),
        len == room(boot@),
        call_ensures(Boot::<S>::app_begin, (&boot, 0usize), begin) ==> begin
            == boot@.layout.boot_size,
        call_ensures(
            Boot::<S>::app_begin,
            (&boot, outcomes::bank_bytes(boot@.layout.density) as usize),
            begin,
        ) ==> begin == target(boot@),
{
}

/// An image is taken exactly if it is no longer than the room for it. Carried
/// out, the download then leaves the image in the region; and whether it fits
/// or not, no byte outside the region changes.
pub proof fn what_a_download_leaves<S: SlotState>(
    boot: Boot<S>,
    condemned: Condemned,
    source: &[u8],
    r: (Vec<FlashOp>, Result<(), FlashError>),
    flash: Seq<u8>,
    k: int,
    a: int,
)
    requires
        boot.wf(),
        condemned.spec_bank() == outcomes::opposite(boot@.first_bank),
        call_ensures(Boot::<S>::download, (&boot, &condemned, source), r),
        flash.len() == 2 * outcomes::bank_bytes(boot@.layout.density),
        0 <= k < source@.len(),
        0 <= a < flash.len(),
        !(target(boot@) <= a < target(boot@) + room(boot@)),
    ensures
        r.1 is Ok <==> source@.len() <= room(boot@),
        r.1 is Err ==> r.1 == Err::<(), FlashError>(FlashError::ImageTooLarge),
        r.1 is Ok ==> crate::flash_writer::apply_all(flash, r.0@)[target(boot@) + k] == source@[k],
        crate::flash_writer::apply_all(flash, r.0@)[a] == flash[a],
{
    let parts = boot@;
    crate::boot::laws::lemma_region(parts);
    let writer = crate::boot::laws::region(parts);
    let bytes = source@;
    let n = crate::flash_writer::pages_of(crate::flash_writer::words_of(bytes)).len();
    assert(room(parts) == parts.region_len());
    assert(target(parts) == writer.begin);
    assert(n * 512 >= bytes.len() && (n - 1) * 512 < bytes.len());
    let image = choose|image: Seq<crate::flash_writer::Page>|
        {
            &&& #[trigger] crate::flash_writer::page_views(image) == crate::flash_writer::pages_of(
                crate::flash_writer::words_of(bytes),
            )
            &&& r.0@ == crate::flash_writer::ops_of(
                parts.layout.spec_bank_size() + parts.layout.boot_size,
                image,
                if r.1 is Ok {
                    image.len()
                } else {
                    (parts.region_len() / 512) as nat
                },
            )
        };
    assert(crate::flash_writer::page_views(image).len() == image.len());
    if r.1 is Ok {
        crate::flash_writer::a_written_image_is_what_the_region_holds(
            flash,
            writer,
            bytes,
            image,
            target(parts) + k,
        );
        crate::flash_writer::a_written_image_is_what_the_region_holds(
            flash,
            writer,
            bytes,
            image,
            a,
        );
    } else {
        crate::flash_writer::an_oversized_image_stays_inside_the_region(flash, writer, image, a);
    }
}

// ── Verifying ───────────────────────────────────────────────────────────

/// A slot goes on to its checksums exactly if its manifest has the magic, a
/// layout this build reads, and a whole number of words that hold the manifest
/// and fit the room.
pub proof fn when_a_slot_is_worth_its_checksums<S: SlotState>(
    boot: Boot<S>,
    base: usize,
    m: AppManifest,
    r: Result<SlotCheck, VerifyError>,
)
    requires
        boot.wf(),
        base == 0 || base == outcomes::bank_bytes(boot@.layout.density),
        call_ensures(Boot::<S>::check_slot, (&boot, base, &m), r),
    ensures
        ({
            let len = m.body.image_len as int;
            &&& r == Err::<SlotCheck, _>(VerifyError::BadMagic) <==> m.body.magic != 0xa55a_f00b
            &&& r == Err::<SlotCheck, _>(VerifyError::VersionMismatch) <==> m.body.magic
                == 0xa55a_f00b && m.body.fmt_version == 0
            &&& r == Err::<SlotCheck, _>(VerifyError::BadLen) <==> m.body.magic == 0xa55a_f00b
                && m.body.fmt_version >= 1 && (len < 0x460 || len > room(boot@) || len % 4 != 0)
            &&& r is Ok <==> m.body.magic == 0xa55a_f00b && m.body.fmt_version >= 1 && 0x460 <= len
                <= room(boot@) && len % 4 == 0
            &&& r matches Ok(check) ==> {
                &&& check.spec_base() == base
                &&& check.spec_ranges().vec_table.addr == base + boot@.layout.boot_size
                &&& check.spec_ranges().vec_table.len == 0x400
                &&& check.spec_ranges().vec_table.expected == m.head.crc32_vec_table
                &&& check.spec_ranges().image.addr == base + boot@.layout.boot_size + 0x408
                &&& check.spec_ranges().image.len == len - 0x408
                &&& check.spec_ranges().image.expected == m.head.crc32_image
            }
        }),
{
}

/// Each checksum passes exactly if the DSU finds it as the manifest claims,
/// and an intact slot is one that passed both, at the base it was checked at.
pub proof fn each_checksum_must_be_as_claimed(
    check: SlotCheck,
    first: Result<u32, DsuError>,
    half: Result<BodyCheck, VerifyError>,
    body: BodyCheck,
    second: Result<u32, DsuError>,
    whole: Result<Intact, VerifyError>,
)
    requires
        call_ensures(SlotCheck::vec_table, (check, first), half),
        call_ensures(BodyCheck::image, (body, second), whole),
    ensures
        half is Ok <==> first == Ok::<u32, DsuError>(check.spec_ranges().vec_table.expected),
        first matches Err(e) ==> half == Err::<BodyCheck, _>(VerifyError::Dsu(e)),
        first is Ok && half is Err ==> half == Err::<BodyCheck, _>(VerifyError::BadCrc),
        half matches Ok(next) ==> next.spec_base() == check.spec_base() && next.spec_ranges()
            == check.spec_ranges(),
        whole is Ok <==> second == Ok::<u32, DsuError>(body.spec_ranges().image.expected),
        second matches Err(e) ==> whole == Err::<Intact, _>(VerifyError::Dsu(e)),
        second is Ok && whole is Err ==> whole == Err::<Intact, _>(VerifyError::BadCrc),
        whole matches Ok(intact) ==> intact.spec_base() == body.spec_base(),
{
}

/// A boot is unlocked exactly by a slot found intact, and is the same boot
/// either way.
pub proof fn only_an_intact_slot_unlocks_a_boot(
    boot: Boot<Unverified>,
    check: Result<Intact, VerifyError>,
    r: Result<Boot<Verified>, Aborted<VerifyError, Boot<Unverified>>>,
)
    requires
        crate::boot::speaks_of(check, 0),
        call_ensures(Boot::<Unverified>::verify, (boot, check), r),
    ensures
        r is Ok <==> check is Ok,
        r matches Ok(b) ==> b@ == boot@,
        r matches Err(a) ==> check == Err::<Intact, _>(a.error) && a.boot == boot,
{
}

// ── Leaving ─────────────────────────────────────────────────────────────

/// A verified boot jumps to the application, whose vector table comes right
/// behind BOOT; one that is denounced stays the boot it was.
pub proof fn how_a_boot_leaves(
    boot: Boot<Verified>,
    jump: Departure,
    swap: Departure,
    back: Boot<Unverified>,
    parts: Parts,
)
    requires
        call_ensures(Boot::<Verified>::boot_active, (boot,), jump),
        call_ensures(Boot::<Verified>::swap_reboot, (boot,), swap),
        call_ensures(Boot::<Verified>::denounce, (boot,), back),
        call_ensures(Boot::<Verified>::free, (boot,), parts),
    ensures
        jump == (Departure::Jump { vector_table: boot@.layout.boot_size }),
        swap == Departure::Swap,
        back@ == boot@,
        parts == boot@,
{
}

} // verus!
