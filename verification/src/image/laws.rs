//! What a build is asked for, and what stamping makes of its image.

use vstd::prelude::*;

use crate::image::{demo_dir, stamp, Artifacts, Transport};
use crate::manifest::{StampError, Stamped};

verus! {

/// The number of bytes up to the next whole word.
pub open spec fn words_up(len: int) -> int {
    (len + 3) / 4 * 4
}

/// An image is stamped exactly if a manifest fits once it is a whole number of
/// words, whatever it holds. What was linked outside the manifest stays, and
/// what was added is erased bytes.
pub proof fn an_image_is_filled_up_and_stamped(
    image: Vec<u8>,
    version: u16,
    r: Result<(Vec<u8>, Stamped), StampError>,
    i: int,
)
    requires
        call_ensures(stamp, (image, version), r),
        image@.len() + 3 <= u32::MAX,
    ensures
        r is Ok <==> words_up(image@.len() as int) >= 0x460,
        r matches Err(e) ==> e == (StampError::TooShort {
            len: words_up(image@.len() as int) as usize,
            need: 0x460,
        }),
        r matches Ok((out, stamped)) ==> {
            &&& out@.len() == words_up(image@.len() as int)
            &&& 0 <= i < image@.len() && (i < 0x400 || i >= 0x460) ==> out@[i] == image@[i]
            &&& image@.len() <= i < out@.len() && i >= 0x460 ==> out@[i] == 0xFF
            &&& stamped.version == version
            &&& stamped.image_len == out@.len()
            &&& stamped.crc32_vec_table == crate::crc32::checksum(out@.subrange(0, 0x400))
            &&& stamped.crc32_image == crate::crc32::checksum(
                out@.subrange(0x408, out@.len() as int),
            )
            &&& crate::manifest::version_of(out@) == Some(version)
        },
{
    let padded = image@ + crate::manifest_tool::padding(image@.len());
    assert(padded.len() == words_up(image@.len() as int));
    if padded.len() >= 0x460 {
        crate::manifest::a_stamped_version_reads_back(padded, version);
        if 0 <= i < padded.len() {
            crate::manifest::laws::what_a_stamp_writes(padded, version, i);
        }
    }
}

/// The two builds of the demo have the versions the bench tells them apart by.
pub proof fn the_builds_differ_in_version()
    ensures
        crate::image::APP_VERSION == 1,
        crate::image::APP_NOCONFIRM_VERSION == 2,
{
}

/// A build for RTT is a plain release build, with its features if it has
/// any; one for RS485 drops the defaults and adds its own feature last.
pub proof fn what_a_build_is_asked_for(
    transport: Transport,
    extra: Vec<String>,
    args: Vec<String>,
)
    requires
        call_ensures(Transport::args, (transport, &extra), args),
    ensures
        args@.len() >= 2,
        args@[0]@ == "build"@,
        args@[1]@ == "--release"@,
        transport is Rtt && extra@.len() == 0 ==> args@.len() == 2,
        transport is Rtt && extra@.len() > 0 ==> {
            &&& args@.len() == 4
            &&& args@[2]@ == "--features"@
            &&& extra@.len() == 1 ==> args@[3]@ == extra@[0]@
            &&& extra@.len() == 2 ==> args@[3]@ == extra@[0]@ + ","@ + extra@[1]@
        },
        transport is Rs485 ==> {
            &&& args@.len() == 5
            &&& args@[2]@ == "--no-default-features"@
            &&& args@[3]@ == "--features"@
            &&& extra@.len() == 0 ==> args@[4]@ == "rs485"@
            &&& extra@.len() == 1 ==> args@[4]@ == extra@[0]@ + ","@ + "rs485"@
        },
{
    reveal_with_fuel(crate::image::joined, 3);
    let names = crate::manifest_tool::views(extra@);
    let out = crate::manifest_tool::views(args@);
    assert(out == transport.spec_args(names));
    assert(out.len() == args@.len());
    assert forall|i: int| 0 <= i < args@.len() implies out[i] == #[trigger] args@[i]@ by {}
    assert forall|i: int| 0 <= i < extra@.len() implies names[i] == #[trigger] extra@[i]@ by {}
    let listed = transport.features(names);
    if listed.len() == 2 {
        assert(listed.drop_last().len() == 1 && listed.drop_last()[0] == listed[0]);
    }
}

/// One more feature is one more comma and its name.
pub proof fn features_are_joined_by_commas(parts: Seq<Seq<char>>, last: Seq<char>)
    ensures
        parts.len() == 0 ==> crate::image::joined(parts.push(last)) == last,
        parts.len() > 0 ==> crate::image::joined(parts.push(last)) == crate::image::joined(parts)
            + ","@ + last,
{
    assert(parts.push(last).drop_last() =~= parts);
}

/// The demo's images are named by what they are, in one directory.
pub proof fn where_the_images_are(root: &str, dir: String, a: Artifacts)
    requires
        call_ensures(demo_dir, (root,), dir),
        call_ensures(Artifacts::in_demo_dir, (root,), a),
    ensures
        dir@ == root@ + "/examples/update-rig"@,
        a.boot@ == dir@ + "/demo-boot.bin"@,
        a.app@ == dir@ + "/app.bin"@,
        a.app_noconfirm@ == dir@ + "/app-noconfirm.bin"@,
{
}

/// RTT is spoken unless RS485 is asked for.
pub proof fn rtt_is_the_default(rs485: bool, t: Transport)
    requires
        call_ensures(Transport::for_rs485, (rs485,), t),
    ensures
        t is Rs485 <==> rs485,
{
}

} // verus!
