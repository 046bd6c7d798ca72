//! What a command line of the stamping tool means.
//!
//! The tool overwrites a file, so which argument is which is stated here by
//! place: an argument is the value of the `--version` before it, a flag, or
//! an operand, and the first operand is read and the second written.

use vstd::prelude::*;

use crate::manifest_tool::{Args, PatchError, Refusal, Scanned};

verus! {

// ── Vocabulary ──────────────────────────────────────────────────────────

/// Argument `i` is the value of the `--version` before it.
pub open spec fn is_value(argv: Seq<Seq<char>>, i: int) -> bool
    decreases i,
{
    0 < i <= argv.len() && argv[i - 1] == "--version"@ && !is_value(argv, i - 1)
}

/// Argument `i` is neither a flag nor the value of one.
pub open spec fn is_operand(argv: Seq<Seq<char>>, i: int) -> bool {
    &&& 0 <= i < argv.len()
    &&& !is_value(argv, i)
    &&& argv[i] != "--version"@
    &&& argv[i] != "--pad"@
}

/// Argument `i` asks for padding.
pub open spec fn asks_to_pad(argv: Seq<Seq<char>>, i: int) -> bool {
    0 <= i < argv.len() && !is_value(argv, i) && argv[i] == "--pad"@
}

/// Argument `i` announces a version.
pub open spec fn announces(argv: Seq<Seq<char>>, i: int) -> bool {
    0 <= i < argv.len() && !is_value(argv, i) && argv[i] == "--version"@
}

/// What is wrong with argument `i`, if anything.
pub open spec fn objection(argv: Seq<Seq<char>>, i: int) -> Option<Refusal> {
    if !(0 <= i < argv.len()) || is_value(argv, i) || argv[i] == "--pad"@ {
        None
    } else if argv[i] == "--version"@ {
        if i + 1 == argv.len() {
            Some(Refusal::VersionNeedsValue)
        } else if crate::manifest_tool::version_value(argv[i + 1]) is None {
            Some(Refusal::InvalidVersion(argv[i + 1]))
        } else {
            None
        }
    } else if argv[i] == "-h"@ || argv[i] == "--help"@ {
        Some(Refusal::Help)
    } else if argv[i].len() >= 2 && argv[i][0] == '-' && argv[i][1] == '-' {
        Some(Refusal::UnknownFlag(argv[i]))
    } else {
        None
    }
}

/// Nothing is wrong with any argument from `at` on.
pub open spec fn unobjectionable(argv: Seq<Seq<char>>, at: int) -> bool {
    forall|i: int| at <= i < argv.len() ==> #[trigger] objection(argv, i) is None
}

/// The operands from argument `at` on, in order.
pub open spec fn operands(argv: Seq<Seq<char>>, at: int) -> Seq<Seq<char>>
    decreases argv.len() - at,
{
    if at >= argv.len() {
        Seq::empty()
    } else if is_operand(argv, at) {
        seq![argv[at]] + operands(argv, at + 1)
    } else {
        operands(argv, at + 1)
    }
}

proof fn lemma_flags_differ(s: Seq<char>)
    ensures
        "--version"@ != "--pad"@,
        "--version"@ != "-h"@,
        "--version"@ != "--help"@,
        "--pad"@ != "-h"@,
        "--pad"@ != "--help"@,
        crate::text::has_prefix(s, "--"@) <==> s.len() >= 2 && s[0] == '-' && s[1] == '-',
{
    reveal_strlit("--version");
    reveal_strlit("--pad");
    reveal_strlit("-h");
    reveal_strlit("--help");
    reveal_strlit("--");
    assert("--version"@.len() == 9 && "--pad"@.len() == 5 && "-h"@.len() == 2 && "--help"@.len()
        == 6);
    if s.len() >= 2 {
        let two = s.subrange(0, 2);
        assert(two[0] == s[0] && two[1] == s[1]);
        if s[0] == '-' && s[1] == '-' {
            assert(two =~= "--"@);
        }
    }
}

// ── Refusals ────────────────────────────────────────────────────────────

/// A command line with something wrong in it is refused for the first thing
/// that is.
pub proof fn the_first_bad_argument_is_reported(argv: Seq<Seq<char>>, k: int, refusal: Refusal)
    requires
        0 <= k < argv.len(),
        objection(argv, k) == Some(refusal),
        forall|i: int| 0 <= i < k ==> #[trigger] objection(argv, i) is None,
    ensures
        crate::manifest_tool::asked(argv) == Err::<(Seq<char>, Seq<char>, u16, bool), _>(refusal),
{
    lemma_scan_stops(argv, 0, crate::manifest_tool::nothing(), k, refusal);
}

proof fn lemma_scan_stops(
    argv: Seq<Seq<char>>,
    at: int,
    seen: Scanned,
    k: int,
    refusal: Refusal,
)
    requires
        0 <= at <= k < argv.len(),
        !is_value(argv, at),
        objection(argv, k) == Some(refusal),
        forall|i: int| at <= i < k ==> #[trigger] objection(argv, i) is None,
    ensures
        crate::manifest_tool::scan(argv, at, seen) == Err::<Scanned, _>(refusal),
    decreases k - at,
{
    lemma_flags_differ(argv[at]);
    if at < k {
        assert(objection(argv, at) is None);
        if argv[at] == "--version"@ {
            let v = crate::manifest_tool::version_value(argv[at + 1]);
            assert(is_value(argv, at + 1));
            assert(at + 1 != k);
            assert(!is_value(argv, at + 2));
            lemma_scan_stops(
                argv,
                at + 2,
                Scanned { version: Some(v->Some_0), ..seen },
                k,
                refusal,
            );
        } else if argv[at] == "--pad"@ {
            assert(!is_value(argv, at + 1));
            lemma_scan_stops(argv, at + 1, Scanned { pad: true, ..seen }, k, refusal);
        } else {
            assert(!is_value(argv, at + 1));
            lemma_scan_stops(
                argv,
                at + 1,
                Scanned { positional: seen.positional.push(argv[at]), ..seen },
                k,
                refusal,
            );
        }
    }
}

// ── What is asked for ───────────────────────────────────────────────────

/// The version of the last announcement from argument `at` on.
pub open spec fn last_version(argv: Seq<Seq<char>>, at: int) -> Option<u16>
    decreases argv.len() - at,
{
    if at >= argv.len() {
        None
    } else if last_version(argv, at + 1) is Some {
        last_version(argv, at + 1)
    } else if announces(argv, at) {
        crate::manifest_tool::version_value(argv[at + 1])
    } else {
        None
    }
}

proof fn lemma_scan_reads(argv: Seq<Seq<char>>, at: int, seen: Scanned)
    requires
        0 <= at <= argv.len(),
        !is_value(argv, at),
        unobjectionable(argv, at),
    ensures
        ({
            let pads = exists|i: int| at <= i && #[trigger] asks_to_pad(argv, i);
            crate::manifest_tool::scan(argv, at, seen) == Ok::<Scanned, Refusal>(
                Scanned {
                    positional: seen.positional + operands(argv, at),
                    version: match last_version(argv, at) {
                        Some(v) => Some(v),
                        None => seen.version,
                    },
                    pad: seen.pad || pads,
                },
            )
        }),
    decreases argv.len() - at,
{
    if at < argv.len() {
        lemma_flags_differ(argv[at]);
        assert(objection(argv, at) is None);
        if argv[at] == "--version"@ {
            let v = crate::manifest_tool::version_value(argv[at + 1]);
            assert(is_value(argv, at + 1));
            assert(!is_value(argv, at + 2));
            lemma_scan_reads(argv, at + 2, Scanned { version: Some(v->Some_0), ..seen });
            assert(operands(argv, at) == operands(argv, at + 2)) by {
                assert(operands(argv, at) == operands(argv, at + 1));
            }
            assert(last_version(argv, at + 1) == last_version(argv, at + 2));
            assert forall|i: int| at <= i && #[trigger] asks_to_pad(argv, i) implies at + 2 <= i by {
                assert(!asks_to_pad(argv, at) && !asks_to_pad(argv, at + 1));
            }
        } else if argv[at] == "--pad"@ {
            assert(!is_value(argv, at + 1));
            assert(asks_to_pad(argv, at));
            lemma_scan_reads(argv, at + 1, Scanned { pad: true, ..seen });
        } else {
            assert(!is_value(argv, at + 1));
            assert(is_operand(argv, at));
            let more = Scanned { positional: seen.positional.push(argv[at]), ..seen };
            lemma_scan_reads(argv, at + 1, more);
            assert(more.positional + operands(argv, at + 1) =~= seen.positional + operands(
                argv,
                at,
            ));
            assert forall|i: int| at <= i && #[trigger] asks_to_pad(argv, i) implies at + 1 <= i by {
                assert(!asks_to_pad(argv, at));
            }
        }
    } else {
        assert(seen.positional + operands(argv, at) =~= seen.positional);
        assert(forall|i: int| at <= i ==> !#[trigger] asks_to_pad(argv, i));
    }
}

proof fn lemma_two_operands(argv: Seq<Seq<char>>, at: int, i: int, j: int)
    requires
        0 <= at <= argv.len(),
        i < j,
        is_operand(argv, i),
        is_operand(argv, j),
        forall|k: int| #[trigger] is_operand(argv, k) ==> k == i || k == j,
    ensures
        at <= i ==> operands(argv, at) == seq![argv[i], argv[j]],
        i < at <= j ==> operands(argv, at) == seq![argv[j]],
        j < at ==> operands(argv, at) == Seq::<Seq<char>>::empty(),
    decreases argv.len() - at,
{
    if at < argv.len() {
        lemma_two_operands(argv, at + 1, i, j);
        assert(is_operand(argv, at) ==> at == i || at == j);
        if at == i {
            assert(operands(argv, at) =~= seq![argv[i], argv[j]]);
        } else if at == j {
            assert(operands(argv, at) =~= seq![argv[j]]);
        }
    }
}

proof fn lemma_last_version(argv: Seq<Seq<char>>, at: int, m: int)
    requires
        0 <= at <= m,
        announces(argv, m),
        forall|k: int| m < k ==> !#[trigger] announces(argv, k),
        unobjectionable(argv, 0),
    ensures
        last_version(argv, at) == crate::manifest_tool::version_value(argv[m + 1]),
        last_version(argv, at) is Some,
    decreases m - at,
{
    lemma_flags_differ(argv[m]);
    assert(objection(argv, m) is None);
    if at < m {
        lemma_last_version(argv, at + 1, m);
    } else {
        lemma_no_version(argv, m + 1);
    }
}

proof fn lemma_no_version(argv: Seq<Seq<char>>, at: int)
    requires
        0 <= at,
        forall|k: int| at <= k ==> !#[trigger] announces(argv, k),
    ensures
        last_version(argv, at) is None,
    decreases argv.len() - at,
{
    if at < argv.len() {
        assert(!announces(argv, at));
        lemma_no_version(argv, at + 1);
    }
}

/// A command line with two operands and a version is taken, whatever order
/// its arguments come in: the first operand is the input, the second the
/// output, the version is the last one announced, and the image is padded
/// exactly when some argument asks for that.
pub proof fn the_first_operand_is_read_and_the_second_written(
    argv: Seq<Seq<char>>,
    i: int,
    j: int,
    m: int,
)
    requires
        unobjectionable(argv, 0),
        i < j,
        is_operand(argv, i),
        is_operand(argv, j),
        forall|k: int| #[trigger] is_operand(argv, k) ==> k == i || k == j,
        announces(argv, m),
        forall|k: int| m < k ==> !#[trigger] announces(argv, k),
    ensures
        crate::manifest_tool::asked(argv) matches Ok(asked) && {
            &&& asked.0 == argv[i]
            &&& asked.1 == argv[j]
            &&& crate::manifest_tool::version_value(argv[m + 1]) == Some(asked.2)
            &&& asked.3 <==> exists|k: int| #[trigger] asks_to_pad(argv, k)
        },
{
    lemma_scan_reads(argv, 0, crate::manifest_tool::nothing());
    lemma_two_operands(argv, 0, i, j);
    lemma_last_version(argv, 0, m);
    assert(Seq::<Seq<char>>::empty() + operands(argv, 0) =~= operands(argv, 0));
    assert((exists|k: int| #[trigger] asks_to_pad(argv, k)) <==> (exists|k: int|
        0 <= k && #[trigger] asks_to_pad(argv, k)));
}

/// A command line that is taken has exactly two operands, its input and its
/// output in that order, and nothing wrong with it.
pub proof fn a_taken_command_line_has_two_operands(
    argv: Seq<Seq<char>>,
    input: Seq<char>,
    output: Seq<char>,
    version: u16,
    pad: bool,
)
    requires
        crate::manifest_tool::asked(argv) == Ok::<_, Refusal>((input, output, version, pad)),
    ensures
        unobjectionable(argv, 0),
        operands(argv, 0) == seq![input, output],
        last_version(argv, 0) == Some(version),
        pad <==> exists|k: int| #[trigger] asks_to_pad(argv, k),
{
    if !unobjectionable(argv, 0) {
        let k = choose|k: int| 0 <= k < argv.len() && #[trigger] objection(argv, k) is Some;
        lemma_first_objection(argv, k);
    }
    lemma_scan_reads(argv, 0, crate::manifest_tool::nothing());
    assert(Seq::<Seq<char>>::empty() + operands(argv, 0) =~= operands(argv, 0));
    assert(operands(argv, 0) =~= seq![input, output]);
    assert((exists|k: int| #[trigger] asks_to_pad(argv, k)) <==> (exists|k: int|
        0 <= k && #[trigger] asks_to_pad(argv, k)));
}

proof fn lemma_first_objection(argv: Seq<Seq<char>>, k: int)
    requires
        0 <= k < argv.len(),
        objection(argv, k) is Some,
    ensures
        crate::manifest_tool::asked(argv) is Err,
    decreases k,
{
    if forall|i: int| 0 <= i < k ==> #[trigger] objection(argv, i) is None {
        the_first_bad_argument_is_reported(argv, k, objection(argv, k)->Some_0);
    } else {
        let i = choose|i: int| 0 <= i < k && #[trigger] objection(argv, i) is Some;
        lemma_first_objection(argv, i);
    }
}

/// With nothing wrong in it, a command line is refused only for the number of
/// its operands, or else for announcing no version.
pub proof fn a_command_line_needs_two_operands_and_a_version(argv: Seq<Seq<char>>)
    requires
        unobjectionable(argv, 0),
    ensures
        operands(argv, 0).len() != 2 ==> crate::manifest_tool::asked(argv) == Err::<
            (Seq<char>, Seq<char>, u16, bool),
            _,
        >(Refusal::Positional(operands(argv, 0).len())),
        operands(argv, 0).len() == 2 && (forall|k: int| !#[trigger] announces(argv, k))
            ==> crate::manifest_tool::asked(argv) == Err::<(Seq<char>, Seq<char>, u16, bool), _>(
            Refusal::VersionRequired,
        ),
{
    lemma_scan_reads(argv, 0, crate::manifest_tool::nothing());
    assert(Seq::<Seq<char>>::empty() + operands(argv, 0) =~= operands(argv, 0));
    if forall|k: int| !#[trigger] announces(argv, k) {
        lemma_no_version(argv, 0);
    }
}

/// `--pad` may stand anywhere but between `--version` and its value, and
/// wherever it is added it changes nothing else.
pub proof fn padding_may_be_asked_for_anywhere(
    argv: Seq<Seq<char>>,
    at: int,
    input: Seq<char>,
    output: Seq<char>,
    version: u16,
    pad: bool,
)
    requires
        crate::manifest_tool::asked(argv) == Ok::<_, Refusal>((input, output, version, pad)),
        0 <= at <= argv.len(),
        !is_value(argv, at),
    ensures
        crate::manifest_tool::asked(argv.insert(at, "--pad"@)) == Ok::<_, Refusal>(
            (input, output, version, true),
        ),
{
    let more = argv.insert(at, "--pad"@);
    a_taken_command_line_has_two_operands(argv, input, output, version, pad);
    lemma_flags_differ("--pad"@);
    assert forall|i: int| 0 <= i <= argv.len() implies #[trigger] is_value(
        more,
        moved(at, i),
    ) == is_value(argv, i) by {
        lemma_insert_values(argv, at, i);
    }
    lemma_insert_values(argv, at, at);
    assert(!is_value(more, at));
    assert(asks_to_pad(more, at));
    assert(unobjectionable(more, 0)) by {
        assert forall|k: int| 0 <= k < more.len() implies #[trigger] objection(more, k) is None by {
            if k != at {
                let i = if k < at {
                    k
                } else {
                    k - 1
                };
                assert(moved(at, i) == k);
                assert(is_value(more, moved(at, i)) == is_value(argv, i));
                assert(objection(argv, i) is None);
                lemma_flags_differ(argv[i]);
                if !is_value(argv, i) && argv[i] == "--version"@ {
                    assert(is_value(argv, i + 1));
                }
            }
        }
    }
    lemma_insert_operands(argv, at, 0);
    lemma_insert_version(argv, at, 0);
    lemma_scan_reads(more, 0, crate::manifest_tool::nothing());
    assert(Seq::<Seq<char>>::empty() + operands(more, 0) =~= operands(more, 0));
}

/// Where argument `i` stands once another was put in front of argument `at`.
pub open spec fn moved(at: int, i: int) -> int {
    if i < at {
        i
    } else {
        i + 1
    }
}

proof fn lemma_insert_values(argv: Seq<Seq<char>>, at: int, i: int)
    requires
        0 <= at <= argv.len(),
        0 <= i <= argv.len(),
        !is_value(argv, at),
    ensures
        is_value(argv.insert(at, "--pad"@), moved(at, i)) == is_value(argv, i),
        !is_value(argv.insert(at, "--pad"@), at),
    decreases i + at,
{
    let more = argv.insert(at, "--pad"@);
    lemma_flags_differ("--pad"@);
    assert(forall|k: int| 0 <= k < at ==> more[k] == argv[k]);
    assert(more[at] == "--pad"@);
    if at > 0 {
        lemma_insert_prefix(argv, at, at);
    }
    if i < at {
        lemma_insert_prefix(argv, at, i);
    } else if i == at {
        assert(!is_value(more, at + 1));
    } else {
        lemma_insert_values(argv, at, i - 1);
        assert(more[i] == argv[i - 1]);
    }
}

proof fn lemma_insert_prefix(argv: Seq<Seq<char>>, at: int, i: int)
    requires
        0 <= i <= at <= argv.len(),
    ensures
        is_value(argv.insert(at, "--pad"@), i) == is_value(argv, i),
    decreases i,
{
    if i > 0 {
        lemma_insert_prefix(argv, at, i - 1);
        assert(argv.insert(at, "--pad"@)[i - 1] == argv[i - 1]);
    }
}

proof fn lemma_insert_operands(argv: Seq<Seq<char>>, at: int, i: int)
    requires
        0 <= at <= argv.len(),
        0 <= i <= argv.len(),
        !is_value(argv, at),
    ensures
        operands(argv.insert(at, "--pad"@), moved(at, i)) == operands(argv, i),
        i == at ==> operands(argv.insert(at, "--pad"@), at) == operands(argv, at),
    decreases argv.len() - i,
{
    let more = argv.insert(at, "--pad"@);
    lemma_insert_values(argv, at, i);
    lemma_flags_differ("--pad"@);
    if i < argv.len() {
        lemma_insert_operands(argv, at, i + 1);
        assert(more[moved(at, i)] == argv[i]);
        assert(is_operand(more, moved(at, i)) == is_operand(argv, i));
    }
    if i == at {
        assert(!is_operand(more, at));
    }
}

proof fn lemma_insert_version(argv: Seq<Seq<char>>, at: int, i: int)
    requires
        0 <= at <= argv.len(),
        0 <= i <= argv.len(),
        !is_value(argv, at),
        unobjectionable(argv, 0),
    ensures
        last_version(argv.insert(at, "--pad"@), moved(at, i)) == last_version(argv, i),
        i == at ==> last_version(argv.insert(at, "--pad"@), at) == last_version(argv, at),
    decreases argv.len() - i,
{
    let more = argv.insert(at, "--pad"@);
    lemma_insert_values(argv, at, i);
    lemma_flags_differ("--pad"@);
    if i < argv.len() {
        lemma_insert_version(argv, at, i + 1);
        assert(more[moved(at, i)] == argv[i]);
        assert(announces(more, moved(at, i)) == announces(argv, i));
        if announces(argv, i) {
            assert(is_value(argv, i + 1));
            assert(objection(argv, i) is None);
            assert(more[moved(at, i) + 1] == argv[i + 1]);
        }
    }
    if i == at {
        assert(!announces(more, at));
    }
}

/// [`parse_args`](crate::manifest_tool::parse_args) takes exactly the command
/// lines that are asked for something, and hands out what they ask for.
pub proof fn what_the_tool_is_told(argv: Vec<String>, r: Result<Args, PatchError>)
    requires
        call_ensures(crate::manifest_tool::parse_args, (&argv,), r),
    ensures
        r matches Ok(args) ==> {
            let line = crate::manifest_tool::views(argv@);
            &&& unobjectionable(line, 0)
            &&& operands(line, 0) == seq![args.input@, args.output@]
            &&& last_version(line, 0) == Some(args.version)
            &&& args.pad <==> exists|k: int| #[trigger] asks_to_pad(line, k)
        },
        r is Err <==> {
            let line = crate::manifest_tool::views(argv@);
            ||| !unobjectionable(line, 0)
            ||| operands(line, 0).len() != 2
            ||| last_version(line, 0) is None
        },
{
    let line = crate::manifest_tool::views(argv@);
    if let Ok(args) = r {
        a_taken_command_line_has_two_operands(
            line,
            args.input@,
            args.output@,
            args.version,
            args.pad,
        );
    } else if unobjectionable(line, 0) {
        lemma_scan_reads(line, 0, crate::manifest_tool::nothing());
        assert(Seq::<Seq<char>>::empty() + operands(line, 0) =~= operands(line, 0));
    }
}

/// The plain form: an input, an output and a version, in that order.
pub proof fn an_input_an_output_and_a_version(
    a: Seq<char>,
    b: Seq<char>,
    n: Seq<char>,
    version: u16,
)
    requires
        !(a.len() > 0 && a[0] == '-'),
        !(b.len() > 0 && b[0] == '-'),
        crate::manifest_tool::version_value(n) == Some(version),
    ensures
        crate::manifest_tool::asked(seq![a, b, "--version"@, n]) == Ok::<_, Refusal>(
            (a, b, version, false),
        ),
{
    let argv = seq![a, b, "--version"@, n];
    lemma_flags_differ(a);
    lemma_flags_differ(b);
    reveal_strlit("--version");
    reveal_strlit("--pad");
    reveal_strlit("-h");
    reveal_strlit("--help");
    assert("--version"@[0] == '-' && "--pad"@[0] == '-' && "-h"@[0] == '-' && "--help"@[0] == '-');
    assert(argv[0] == a && argv[1] == b && argv[2] == "--version"@ && argv[3] == n);
    assert(!is_value(argv, 0));
    assert(!is_value(argv, 1));
    assert(!is_value(argv, 2));
    assert(is_value(argv, 3));
    assert(unobjectionable(argv, 0)) by {
        assert forall|i: int| 0 <= i < argv.len() implies #[trigger] objection(argv, i) is None by {
            assert(i == 0 || i == 1 || i == 2 || i == 3);
        }
    }
    assert(is_operand(argv, 0) && is_operand(argv, 1));
    assert forall|k: int| #[trigger] is_operand(argv, k) implies k == 0 || k == 1 by {
        assert(k == 0 || k == 1 || k == 2 || k == 3);
    }
    assert(announces(argv, 2));
    assert forall|k: int| 2 < k implies !#[trigger] announces(argv, k) by {
        assert(k == 3 || k > 3);
    }
    assert forall|k: int| !#[trigger] asks_to_pad(argv, k) by {
        assert(k < 0 || k == 0 || k == 1 || k == 2 || k == 3 || k > 3);
    }
    the_first_operand_is_read_and_the_second_written(argv, 0, 1, 2);
}

/// Padding adds the fewest `0xFF` bytes that make a whole number of words.
pub proof fn padding_is_erased_bytes(len: nat, i: int)
    requires
        0 <= i < crate::manifest_tool::padding(len).len(),
    ensures
        crate::manifest_tool::padding(len)[i] == 0xFF,
        crate::manifest_tool::padding(len).len() == (if len % 4 == 0 {
            0int
        } else {
            4 - len as int % 4
        }),
{
}

/// An image is stamped exactly if it is a whole number of words that hold a
/// manifest; it then says the version asked for and is as it was outside the
/// manifest. One that is refused is as it was throughout.
pub proof fn what_the_tool_does_to_an_image(
    before: Seq<u8>,
    version: u16,
    after: Seq<u8>,
    r: Result<(), PatchError>,
    i: int,
)
    requires
        crate::manifest_tool::patches(before, version, after, r),
        0 <= i < before.len(),
    ensures
        r is Ok <==> before.len() >= 0x460 && before.len() % 4 == 0,
        r is Err ==> after == before,
        r is Err && before.len() < 0x460 ==> r == Err::<(), _>(
            PatchError::TooShort { len: before.len() as usize },
        ),
        r is Err && before.len() >= 0x460 ==> r == Err::<(), _>(
            PatchError::Unaligned { len: before.len() as usize },
        ),
        r is Ok ==> {
            &&& after.len() == before.len()
            &&& i < 0x400 || i >= 0x460 ==> after[i] == before[i]
            &&& crate::manifest::version_of(after) == Some(version)
        },
{
    if r is Ok {
        crate::manifest::a_stamped_version_reads_back(before, version);
        crate::manifest::a_stamped_image_describes_itself(before, version);
        if i < 0x400 || i >= 0x460 {
            crate::manifest::stamping_touches_only_the_manifest(before, version, i);
        }
    }
}

} // verus!
