//! Post-link stamping from the command line: the arguments of
//! `manifest-tool <input.bin> <output.bin> --version <N> [--pad]` and the
//! patch they ask for.

use vstd::prelude::*;

pub mod laws;

use crate::cli::parse_dec_or_hex;
use crate::manifest::{stamp, StampError, MIN_IMAGE_LEN};
use crate::text::{same, starts_with};

verus! {

/// Why the tool stopped.
#[derive(Debug)]
pub enum PatchError {
    /// The image cannot hold the manifest.
    TooShort { len: usize },
    /// The image is not a whole number of words and was not to be padded.
    Unaligned { len: usize },
    /// `--version` came last.
    VersionNeedsValue,
    /// The value of `--version` is not a number up to 65535.
    InvalidVersion { raw: String },
    /// The usage text was asked for.
    Help,
    UnknownFlag { flag: String },
    /// Not exactly an input and an output.
    Positional { count: usize },
    /// `--version` was not given.
    VersionRequired,
}

/// What the command line asked for.
#[derive(Debug)]
pub struct Args {
    pub input: String,
    pub output: String,
    pub version: u16,
    pub pad: bool,
}

// ── Definition ──────────────────────────────────────────────────────────

/// Why a command line is refused.
pub enum Refusal {
    VersionNeedsValue,
    InvalidVersion(Seq<char>),
    Help,
    UnknownFlag(Seq<char>),
    Positional(nat),
    VersionRequired,
}

/// What has been read of a command line.
pub struct Scanned {
    pub positional: Seq<Seq<char>>,
    pub version: Option<u16>,
    pub pad: bool,
}

/// The strings of a command line.
pub open spec fn views(argv: Seq<String>) -> Seq<Seq<char>> {
    Seq::new(argv.len(), |i: int| argv[i]@)
}

/// The version an argument spells, if it is one.
pub open spec fn version_value(raw: Seq<char>) -> Option<u16> {
    match crate::cli::dec_or_hex(raw) {
        Some(v) => if v <= 65535 {
            Some(v as u16)
        } else {
            None
        },
        None => None,
    }
}

/// The command line from argument `at` on, added to what was read before it.
pub open spec fn scan(argv: Seq<Seq<char>>, at: int, seen: Scanned) -> Result<Scanned, Refusal>
    decreases argv.len() - at,
{
    if at >= argv.len() {
        Ok(seen)
    } else if argv[at] == "--version"@ {
        if at + 1 >= argv.len() {
            Err(Refusal::VersionNeedsValue)
        } else {
            match version_value(argv[at + 1]) {
                Some(v) => scan(argv, at + 2, Scanned { version: Some(v), ..seen }),
                None => Err(Refusal::InvalidVersion(argv[at + 1])),
            }
        }
    } else if argv[at] == "--pad"@ {
        scan(argv, at + 1, Scanned { pad: true, ..seen })
    } else if argv[at] == "-h"@ || argv[at] == "--help"@ {
        Err(Refusal::Help)
    } else if crate::text::has_prefix(argv[at], "--"@) {
        Err(Refusal::UnknownFlag(argv[at]))
    } else {
        scan(argv, at + 1, Scanned { positional: seen.positional.push(argv[at]), ..seen })
    }
}

/// Nothing read yet.
pub open spec fn nothing() -> Scanned {
    Scanned { positional: Seq::empty(), version: None, pad: false }
}

/// What a whole command line asks for: exactly two positional arguments and
/// a version.
pub open spec fn asked(argv: Seq<Seq<char>>) -> Result<(Seq<char>, Seq<char>, u16, bool), Refusal> {
    match scan(argv, 0, nothing()) {
        Err(e) => Err(e),
        Ok(seen) => if seen.positional.len() != 2 {
            Err(Refusal::Positional(seen.positional.len()))
        } else {
            match seen.version {
                None => Err(Refusal::VersionRequired),
                Some(v) => Ok((seen.positional[0], seen.positional[1], v, seen.pad)),
            }
        },
    }
}

impl PatchError {
    /// The error is this refusal of a command line.
    pub open spec fn refuses(self, refusal: Refusal) -> bool {
        match (self, refusal) {
            (PatchError::VersionNeedsValue, Refusal::VersionNeedsValue) => true,
            (PatchError::InvalidVersion { raw }, Refusal::InvalidVersion(r)) => raw@ == r,
            (PatchError::Help, Refusal::Help) => true,
            (PatchError::UnknownFlag { flag }, Refusal::UnknownFlag(f)) => flag@ == f,
            (PatchError::Positional { count }, Refusal::Positional(n)) => count == n,
            (PatchError::VersionRequired, Refusal::VersionRequired) => true,
            _ => false,
        }
    }
}

/// The bytes that bring an image to a whole number of words.
pub open spec fn padding(len: nat) -> Seq<u8> {
    Seq::new(((4 - len % 4) % 4) as nat, |i: int| 0xFFu8)
}

/// What stamping an image in place comes to.
pub open spec fn patches(
    before: Seq<u8>,
    version: u16,
    after: Seq<u8>,
    r: Result<(), PatchError>,
) -> bool {
    match r {
        Ok(_) => after == crate::manifest::stamped_image(before, version) && before.len()
            >= MIN_IMAGE_LEN && before.len() % 4 == 0,
        Err(PatchError::TooShort { len }) => after == before && len == before.len() && before.len()
            < MIN_IMAGE_LEN,
        Err(PatchError::Unaligned { len }) => after == before && len == before.len()
            && before.len() >= MIN_IMAGE_LEN && before.len() % 4 != 0,
        Err(_) => false,
    }
}

// ── Functions ───────────────────────────────────────────────────────────

/// Parse a version: a number up to 65535, decimal or 0x hexadecimal.
pub fn parse_u16(raw: &str) -> (r: Result<u16, PatchError>)
    ensures
        match r {
            Ok(v) => version_value(raw@) == Some(v),
            Err(e) => version_value(raw@) is None && e.refuses(Refusal::InvalidVersion(raw@)),
        },
{
    match parse_dec_or_hex(raw, 65535) {
        Some(v) => Ok(v as u16),
        None => Err(PatchError::InvalidVersion { raw: raw.to_owned() }),
    }
}

/// Parse the tool's arguments.
pub fn parse_args(argv: &Vec<String>) -> (r: Result<Args, PatchError>)
    ensures
        match r {
            Ok(args) => asked(views(argv@)) == Ok::<(Seq<char>, Seq<char>, u16, bool), Refusal>(
                (args.input@, args.output@, args.version, args.pad),
            ),
            Err(e) => asked(views(argv@)) matches Err(refusal) && e.refuses(refusal),
        },
{
    let mut positional: Vec<String> = Vec::new();
    let mut version: Option<u16> = None;
    let mut pad: bool = false;
    let ghost all = views(argv@);
    let mut i: usize = 0;
    assert(views(positional@) =~= Seq::<Seq<char>>::empty());
    while i < argv.len()
        invariant
            i <= argv@.len(),
            all == views(argv@),
            scan(all, 0, nothing()) == scan(
                all,
                i as int,
                Scanned { positional: views(positional@), version, pad },
            ),
        decreases argv@.len() - i,
    {
        let a: &String = &argv[i];
        if same(a.as_str(), "--version") {
            if i + 1 >= argv.len() {
                return Err(PatchError::VersionNeedsValue);
            }
            match parse_u16(argv[i + 1].as_str()) {
                Ok(v) => version = Some(v),
                Err(e) => return Err(e),
            }
            i = i + 1;
        } else if same(a.as_str(), "--pad") {
            pad = true;
        } else if same(a.as_str(), "-h") || same(a.as_str(), "--help") {
            return Err(PatchError::Help);
        } else if starts_with(a.as_str(), "--") {
            return Err(PatchError::UnknownFlag { flag: a.clone() });
        } else {
            let ghost before = positional@;
            positional.push(a.clone());
            assert(views(positional@) =~= views(before).push(all[i as int]));
        }
        i = i + 1;
    }
    assert(views(positional@).len() == positional@.len());
    if positional.len() != 2 {
        return Err(PatchError::Positional { count: positional.len() });
    }
    assert(views(positional@)[0] == positional@[0]@ && views(positional@)[1] == positional@[1]@);
    match version {
        None => Err(PatchError::VersionRequired),
        Some(version) => Ok(
            Args { input: positional[0].clone(), output: positional[1].clone(), version, pad },
        ),
    }
}

/// 0xFF-pad an image up to a whole number of words.
pub fn pad_to_word(image: &mut Vec<u8>)
    ensures
        final(image)@ == old(image)@ + padding(old(image)@.len()),
        final(image)@.len() % 4 == 0,
{
    let ghost before = image@;
    assert(before + Seq::<u8>::empty() =~= before);
    while image.len() % 4 != 0
        invariant
            before.len() <= image@.len(),
            image@.len() <= before.len() + padding(before.len()).len(),
            image@ == before + Seq::new(
                (image@.len() - before.len()) as nat,
                |i: int| 0xFFu8,
            ),
        decreases before.len() + 4 - image@.len(),
    {
        let ghost prior = image@;
        image.push(0xFF);
        assert(image@ =~= before + Seq::new(
            (prior.len() + 1 - before.len()) as nat,
            |i: int| 0xFFu8,
        ));
    }
    assert(image@ =~= before + padding(before.len()));
}

/// Stamp a valid unsigned manifest into `image` in place.
///
/// The image must be a whole number of words (the caller pads first if asked
/// to) and hold the manifest; one that is not is left as it was.
pub fn patch(image: &mut [u8], version: u16) -> (r: Result<(), PatchError>)
    ensures
        patches(old(image)@, version, final(image)@, r),
{
    let len: usize = image.len();
    assert(len == image@.len());
    match stamp(image, version) {
        Ok(_) => Ok(()),
        Err(StampError::TooShort { len, .. }) => Err(PatchError::TooShort { len }),
        Err(StampError::Unaligned { len }) => Err(PatchError::Unaligned { len }),
    }
}

// ── Laws ────────────────────────────────────────────────────────────────

/// Padding leaves the image in front of it alone, adds at most three bytes,
/// and does nothing to an image that is already whole.
pub proof fn padding_is_minimal(len: nat)
    ensures
        padding(len).len() < 4,
        (len + padding(len).len()) % 4 == 0,
        len % 4 == 0 ==> padding(len).len() == 0,
{
}

} // verus!
