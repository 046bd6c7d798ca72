//! Application images on the bench: stamping a linked image, naming the
//! demo's artifacts, and damaging one on purpose.

use vstd::prelude::*;
use vstd::string::*;

pub mod laws;

use crate::manifest::{StampError, Stamped};
use crate::manifest_tool::pad_to_word;

verus! {

/// Stamped into the manifest of the confirming build.
pub const APP_VERSION: u16 = 1;

/// Stamped into the manifest of the build that never confirms itself.
pub const APP_NOCONFIRM_VERSION: u16 = 2;

/// Pad a linked image with `0xFF` to a whole number of words, because
/// `image_len` bounds a CRC the DSU walks in words, and stamp a manifest
/// into it. An image that has not been through this will not verify.
pub fn stamp(image: Vec<u8>, version: u16) -> (r: Result<(Vec<u8>, Stamped), StampError>)
    ensures
        ({
            let padded = image@ + crate::manifest_tool::padding(image@.len());
            match r {
                Ok((out, stamped)) => {
                    &&& padded.len() >= crate::manifest::MIN_IMAGE_LEN
                    &&& out@ == crate::manifest::stamped_image(padded, version)
                    &&& stamped.image_len == padded.len() as u32
                    &&& stamped.version == version
                    &&& stamped.crc32_vec_table == crate::manifest::vec_table_crc(out@)
                    &&& stamped.crc32_image == crate::manifest::image_crc(out@)
                },
                Err(e) => {
                    &&& padded.len() < crate::manifest::MIN_IMAGE_LEN
                    &&& e == (StampError::TooShort {
                        len: padded.len() as usize,
                        need: crate::manifest::MIN_IMAGE_LEN,
                    })
                },
            }
        }),
{
    let mut image: Vec<u8> = image;
    pad_to_word(&mut image);
    match crate::manifest::stamp(image.as_mut_slice(), version) {
        Ok(stamped) => Ok((image, stamped)),
        Err(e) => Err(e),
    }
}

/// Invert one byte in the middle of the image and return its offset.
///
/// The midpoint of a demo image is past the vector table and inside the
/// range `crc32_image` covers, so the device fails it in verification.
pub fn corrupt_body(image: &mut [u8]) -> (at: usize)
    requires
        old(image)@.len() > 0,
    ensures
        at == old(image)@.len() / 2,
        final(image)@ == old(image)@.update(at as int, !old(image)@[at as int]),
{
    let at: usize = image.len() / 2;
    let byte: u8 = image[at];
    assert(byte ^ 0xFF == !byte) by (bit_vector);
    image[at] = byte ^ 0xFF;
    at
}

/// A corrupted image of ordinary size no longer carries the checksums it was
/// stamped with: its middle is past the manifest, so the byte is covered.
pub proof fn a_corrupted_body_is_noticed(image: Seq<u8>)
    requires
        image.len() >= 2 * crate::manifest::MIN_IMAGE_LEN,
    ensures
        crate::manifest::image_crc(
            image.update(image.len() as int / 2, !image[image.len() as int / 2]),
        ) != crate::manifest::image_crc(image),
{
    let at = image.len() as int / 2;
    let off = crate::manifest::OFF_BODY as int;
    let damaged = image.update(at, !image[at]);
    let b = image[at];
    assert(!b != b) by (bit_vector);
    crate::crc32::one_byte_of_damage_is_detected(
        damaged.subrange(off, damaged.len() as int),
        image.subrange(off, image.len() as int),
        at - off,
    );
}

/// The images a demo build leaves, by path.
#[derive(Debug)]
pub struct Artifacts {
    pub boot: String,
    pub app: String,
    pub app_noconfirm: String,
}

/// The demo's directory below the repository root.
pub fn demo_dir(root: &str) -> (dir: String)
    ensures
        dir@ == root@ + "/examples/update-rig"@,
{
    let mut dir: String = root.to_owned();
    dir.append("/examples/update-rig");
    dir
}

impl Artifacts {
    /// Where a demo build puts them, for callers that skipped the build.
    pub fn in_demo_dir(root: &str) -> (a: Artifacts)
        ensures
            a.boot@ == root@ + "/examples/update-rig"@ + "/demo-boot.bin"@,
            a.app@ == root@ + "/examples/update-rig"@ + "/app.bin"@,
            a.app_noconfirm@ == root@ + "/examples/update-rig"@ + "/app-noconfirm.bin"@,
    {
        let mut boot: String = demo_dir(root);
        boot.append("/demo-boot.bin");
        let mut app: String = demo_dir(root);
        app.append("/app.bin");
        let mut app_noconfirm: String = demo_dir(root);
        app_noconfirm.append("/app-noconfirm.bin");
        Artifacts { boot, app, app_noconfirm }
    }
}

/// Which link the firmware is built to speak. RTT needs only the probe, so
/// it is the default; RS485 additionally needs a transceiver, and both
/// images plus the host must agree.
#[derive(Clone, Copy, PartialEq, Eq, Structural, Debug)]
pub enum Transport {
    Rtt,
    Rs485,
}

/// Strings joined by commas.
pub open spec fn joined(parts: Seq<Seq<char>>) -> Seq<char>
    decreases parts.len(),
{
    if parts.len() == 0 {
        Seq::empty()
    } else if parts.len() == 1 {
        parts[0]
    } else {
        joined(parts.drop_last()) + ","@ + parts.last()
    }
}

impl Transport {
    /// The features a build for this transport selects.
    pub open spec fn features(self, extra: Seq<Seq<char>>) -> Seq<Seq<char>> {
        match self {
            Transport::Rtt => extra,
            Transport::Rs485 => extra.push("rs485"@),
        }
    }

    /// The arguments of a build for this transport.
    pub open spec fn spec_args(self, extra: Seq<Seq<char>>) -> Seq<Seq<char>> {
        let features = self.features(extra);
        let plain = seq!["build"@, "--release"@];
        let selected = if self == Transport::Rs485 {
            plain.push("--no-default-features"@)
        } else {
            plain
        };
        if features.len() == 0 {
            selected
        } else {
            selected.push("--features"@).push(joined(features))
        }
    }

    pub fn for_rs485(rs485: bool) -> (t: Transport)
        ensures
            t == (if rs485 {
                Transport::Rs485
            } else {
                Transport::Rtt
            }),
    {
        if rs485 {
            Transport::Rs485
        } else {
            Transport::Rtt
        }
    }

    /// Build arguments selecting this transport, plus any extra features.
    pub fn args(self, extra: &Vec<String>) -> (args: Vec<String>)
        ensures
            crate::manifest_tool::views(args@) == self.spec_args(
                crate::manifest_tool::views(extra@),
            ),
    {
        let mut args: Vec<String> = Vec::new();
        let build: String = "build".to_owned();
        let release: String = "--release".to_owned();
        args.push(build);
        args.push(release);
        if self == Transport::Rs485 {
            let no_default: String = "--no-default-features".to_owned();
            args.push(no_default);
        }
        let ghost names = crate::manifest_tool::views(extra@);
        let mut list: String = String::new();
        let mut i: usize = 0;
        assert(names.subrange(0, 0) =~= Seq::<Seq<char>>::empty());
        while i < extra.len()
            invariant
                i <= extra@.len(),
                names == crate::manifest_tool::views(extra@),
                list@ == joined(names.subrange(0, i as int)),
            decreases extra@.len() - i,
        {
            let ghost before = list@;
            if i > 0 {
                list.append(",");
            }
            list.append(extra[i].as_str());
            proof {
                let more = names.subrange(0, i + 1);
                assert(more.drop_last() =~= names.subrange(0, i as int));
                assert(more.last() == extra@[i as int]@);
                if i == 0 {
                    assert(list@ =~= more[0]);
                } else {
                    assert(list@ =~= before + ","@ + more.last());
                }
            }
            i = i + 1;
        }
        assert(names.subrange(0, names.len() as int) =~= names);
        if self == Transport::Rs485 {
            let ghost before = list@;
            if extra.len() > 0 {
                list.append(",");
            }
            list.append("rs485");
            proof {
                let more = names.push("rs485"@);
                assert(more.drop_last() =~= names);
                if names.len() == 0 {
                    assert(list@ =~= "rs485"@);
                } else {
                    assert(list@ =~= before + ","@ + "rs485"@);
                }
            }
        }
        if extra.len() > 0 || self == Transport::Rs485 {
            let features: String = "--features".to_owned();
            args.push(features);
            args.push(list);
        }
        assert(crate::manifest_tool::views(args@) =~= self.spec_args(names));
        args
    }
}

} // verus!
