//! The check made once before any lifecycle operation: that the companion
//! command-line tool is installed in the required version, and the offer
//! to install it where it is not.
//!
//! The run decides; whoever drives it looks up the build tool, runs the
//! programs, and puts the question to the user.

use vstd::prelude::*;
use vstd::std_specs::iter::IteratorSpec;
use vstd::string::StringSliceAdditionalSpecFns;

verus! {

broadcast use vstd::string::group_string_axioms;

/// The version of the companion tool that the operations are written for.
pub const REQUIRED_VERSION: &'static str = "0.8.2";

/// What the companion tool prints, in that version, when asked for its
/// version.
pub const REQUIRED_BANNER: &'static str = "sqlx-cli-sqlx 0.8.2";

/// The bytes of `REQUIRED_BANNER`.
pub open spec fn required_banner() -> Seq<u8> {
    REQUIRED_BANNER.spec_bytes()
}

/// Whether `byte` is ASCII whitespace: space, tab, line feed, form feed or
/// carriage return.
pub open spec fn is_ascii_space(byte: u8) -> bool {
    byte == 0x20 || byte == 0x09 || byte == 0x0a || byte == 0x0c || byte == 0x0d
}

/// `bytes` without the ASCII whitespace at its end.
pub open spec fn without_trailing_ascii_space(bytes: Seq<u8>) -> Seq<u8>
    decreases bytes.len(),
{
    if bytes.len() > 0 && is_ascii_space(bytes.last()) {
        without_trailing_ascii_space(bytes.drop_last())
    } else {
        bytes
    }
}

/// Whether a version query that ended with the given success and standard
/// output shows the tool installed in the required version.
pub open spec fn shows_required_version(succeeded: bool, output: Seq<u8>) -> bool {
    succeeded && without_trailing_ascii_space(output) == required_banner()
}

/// Whether a version query shows the tool installed in the required
/// version: the query succeeded and printed the required banner, followed
/// by nothing but ASCII whitespace.
pub fn reports_required_version(succeeded: bool, output: &[u8]) -> (reports: bool)
    ensures
        reports == shows_required_version(succeeded, output@),
{
    if !succeeded {
        return false;
    }
    let mut end: usize = output.len();
    assert(output@.take(end as int) =~= output@);
    while end > 0 && (output[end - 1] == 0x20 || output[end - 1] == 0x09 || output[end - 1] == 0x0a
        || output[end - 1] == 0x0c || output[end - 1] == 0x0d)
        invariant
            end <= output.len(),
            without_trailing_ascii_space(output@) == without_trailing_ascii_space(
                output@.take(end as int),
            ),
        decreases end,
    {
        proof {
            assert(output@.take(end as int).last() == output@[end - 1]);
            assert(output@.take(end as int).drop_last() =~= output@.take(end - 1));
        }
        end -= 1;
    }
    let ghost trimmed = output@.take(end as int);
    proof {
        if end > 0 {
            assert(trimmed.last() == output@[end - 1]);
        }
        assert(without_trailing_ascii_space(output@) == trimmed);
    }
    let banner = REQUIRED_BANNER.as_bytes();
    if banner.len() != end {
        return false;
    }
    let mut i: usize = 0;
    while i < end
        invariant
            i <= end,
            end == banner@.len(),
            end <= output.len(),
            trimmed == output@.take(end as int),
            trimmed == without_trailing_ascii_space(output@),
            succeeded,
            banner@ == required_banner(),
            forall|j: int| 0 <= j < i ==> trimmed[j] == banner@[j],
        decreases end - i,
    {
        if output[i] != banner[i] {
            assert(trimmed[i as int] != banner@[i as int]);
            return false;
        }
        i += 1;
    }
    assert(trimmed =~= banner@);
    true
}

/// Whether `c` is whitespace in the sense of Unicode (White_Space).
pub open spec fn is_space(c: char) -> bool {
    ('\u{9}' <= c <= '\u{d}') || c == ' ' || c == '\u{85}' || c == '\u{a0}' || c == '\u{1680}' || (
    '\u{2000}' <= c <= '\u{200a}') || c == '\u{2028}' || c == '\u{2029}' || c == '\u{202f}' || c
        == '\u{205f}' || c == '\u{3000}'
}

/// `text` without the whitespace at its end.
pub open spec fn without_trailing_space(text: Seq<char>) -> Seq<char>
    decreases text.len(),
{
    if text.len() > 0 && is_space(text.last()) {
        without_trailing_space(text.drop_last())
    } else {
        text
    }
}

/// The user's answer to the offer to install.
#[derive(Debug, Clone, Copy, PartialEq, Eq, Structural)]
pub enum Answer {
    Yes,
    No,
    /// Neither; the question is put again.
    Unclear,
}

/// Whether `text` is `lower` but for the case of its letters, where
/// `upper` is `lower` in capitals.
pub open spec fn spells(text: Seq<char>, lower: Seq<char>, upper: Seq<char>) -> bool {
    text.len() == lower.len() && forall|i: int|
        0 <= i < text.len() ==> text[i] == lower[i] || text[i] == upper[i]
}

/// What a line of input answers. Whitespace at its end and the case of
/// ASCII letters do not count. An empty line, `y` and `yes` accept; `n`
/// and `no` decline.
pub open spec fn answer_of(line: Seq<char>) -> Answer {
    let text = without_trailing_space(line);
    if text.len() == 0 || spells(text, "y"@, "Y"@) || spells(text, "yes"@, "YES"@) {
        Answer::Yes
    } else if spells(text, "n"@, "N"@) || spells(text, "no"@, "NO"@) {
        Answer::No
    } else {
        Answer::Unclear
    }
}

/// The characters of `text`, in order.
fn characters(text: &str) -> (characters: Vec<char>)
    ensures
        characters@ == text@,
{
    let mut rest = text.chars();
    let mut characters: Vec<char> = Vec::new();
    loop
        invariant
            rest.decrease() is Some,
            characters@ + rest.remaining() == text@,
        ensures
            characters@ == text@,
        decreases rest.decrease()->0,
    {
        let ghost before = rest.remaining();
        match rest.next() {
            Some(c) => {
                characters.push(c);
                assert(characters@ + rest.remaining() =~= text@);
            },
            None => {
                assert(characters@ + before =~= characters@);
                break ;
            },
        }
    }
    characters
}

/// Whether `c` is whitespace in the sense of Unicode (White_Space).
fn is_whitespace(c: char) -> (space: bool)
    ensures
        space == is_space(c),
{
    ('\u{9}' <= c && c <= '\u{d}') || c == ' ' || c == '\u{85}' || c == '\u{a0}' || c == '\u{1680}'
        || ('\u{2000}' <= c && c <= '\u{200a}') || c == '\u{2028}' || c == '\u{2029}' || c
        == '\u{202f}' || c == '\u{205f}' || c == '\u{3000}'
}

/// Whether the first `end` of `characters` spell `lower`, in any case.
fn spelled(characters: &Vec<char>, end: usize, lower: &str, upper: &str) -> (same: bool)
    requires
        end <= characters.len(),
        lower@.len() == upper@.len(),
    ensures
        same == spells(characters@.take(end as int), lower@, upper@),
{
    let ghost text = characters@.take(end as int);
    if lower.unicode_len() != end {
        return false;
    }
    let mut i: usize = 0;
    while i < end
        invariant
            i <= end,
            end <= characters.len(),
            end == lower@.len(),
            end == upper@.len(),
            text == characters@.take(end as int),
            forall|j: int| 0 <= j < i ==> text[j] == lower@[j] || text[j] == upper@[j],
        decreases end - i,
    {
        let c = characters[i];
        if c != lower.get_char(i) && c != upper.get_char(i) {
            assert(text[i as int] == c);
            return false;
        }
        i += 1;
    }
    true
}

/// What a line of input answers to the offer to install.
pub fn classify(line: &str) -> (answer: Answer)
    ensures
        answer == answer_of(line@),
{
    let characters = characters(line);
    let mut end: usize = characters.len();
    assert(characters@.take(end as int) =~= characters@);
    while end > 0 && is_whitespace(characters[end - 1])
        invariant
            end <= characters.len(),
            without_trailing_space(characters@) == without_trailing_space(
                characters@.take(end as int),
            ),
        decreases end,
    {
        proof {
            assert(characters@.take(end as int).last() == characters@[end - 1]);
            assert(characters@.take(end as int).drop_last() =~= characters@.take(end - 1));
        }
        end -= 1;
    }
    proof {
        let text = characters@.take(end as int);
        if end > 0 {
            assert(text.last() == characters@[end - 1]);
        }
        assert(without_trailing_space(line@) == text);
        reveal_strlit("y");
        reveal_strlit("Y");
        reveal_strlit("yes");
        reveal_strlit("YES");
        reveal_strlit("n");
        reveal_strlit("N");
        reveal_strlit("no");
        reveal_strlit("NO");
    }
    if end == 0 || spelled(&characters, end, "y", "Y") || spelled(&characters, end, "yes", "YES") {
        Answer::Yes
    } else if spelled(&characters, end, "n", "N") || spelled(&characters, end, "no", "NO") {
        Answer::No
    } else {
        Answer::Unclear
    }
}

/// What the driver is to do next.
#[derive(Debug, Clone, Copy, PartialEq, Eq, Structural)]
pub enum ToolCommand {
    /// Find the build tool that started this program.
    LocateBuildTool,
    /// Ask the companion tool for its version.
    QueryVersion,
    /// Tell the user that the tool is missing and offer to install it.
    Offer,
    /// Tell the user to answer yes or no.
    OfferAgain,
    /// Install the companion tool in the required version.
    Install,
}

/// What came of a command.
#[derive(Debug)]
pub enum ToolEvent<C> {
    /// The build tool was found, or was not.
    BuildTool { found: bool },
    /// The version query ran, with this success and standard output.
    Queried { succeeded: bool, output: Vec<u8> },
    /// The user entered this line; it is empty at the end of input.
    Answered { line: String },
    /// The installer ran, with this success.
    Installed { succeeded: bool },
    /// The command could not be carried out.
    Failed(C),
}

/// Why the operations cannot go ahead.
#[derive(Debug, Clone, PartialEq, Eq)]
pub enum ToolError<C> {
    /// The program was not started through the build tool.
    BuildToolMissing,
    /// The user declined the installation.
    Declined,
    /// The installer reported failure.
    InstallFailed,
    /// The installer reported success, but the tool still does not show
    /// the required version.
    NotDetected,
    /// A command could not be carried out.
    Failed(C),
}

/// A check, by the command whose result it waits for.
#[derive(Debug, Clone, Copy, PartialEq, Eq, Structural)]
pub enum ToolCheck {
    Locating,
    Querying,
    Offering,
    OfferingAgain,
    Installing,
    Confirming,
}

/// A check after one event: still going, or over with its result.
#[derive(Debug)]
pub enum ToolTransition<C> {
    Continue(ToolCheck),
    Done(Result<(), ToolError<C>>),
}

/// The command that `check` waits on.
pub open spec fn tool_awaited(check: ToolCheck) -> ToolCommand {
    match check {
        ToolCheck::Locating => ToolCommand::LocateBuildTool,
        ToolCheck::Querying => ToolCommand::QueryVersion,
        ToolCheck::Offering => ToolCommand::Offer,
        ToolCheck::OfferingAgain => ToolCommand::OfferAgain,
        ToolCheck::Installing => ToolCommand::Install,
        ToolCheck::Confirming => ToolCommand::QueryVersion,
    }
}

/// Where an offer stands once the user has entered `line`.
pub open spec fn after_answer<C>(line: Seq<char>) -> ToolTransition<C> {
    match answer_of(line) {
        Answer::Yes => ToolTransition::Continue(ToolCheck::Installing),
        Answer::No => ToolTransition::Done(Err(ToolError::Declined)),
        Answer::Unclear => ToolTransition::Continue(ToolCheck::OfferingAgain),
    }
}

/// The rule of the check. A tool that shows the required version needs
/// nothing more. Otherwise the user is asked, again and again until the
/// answer is clear; the tool is installed only on a yes, and after the
/// installation it must show the required version. A command that cannot
/// be carried out ends the check. An event that does not answer the
/// awaited command leaves the check where it is.
pub open spec fn tool_next<C>(check: ToolCheck, event: ToolEvent<C>) -> ToolTransition<C> {
    match (check, event) {
        (_, ToolEvent::Failed(cause)) => ToolTransition::Done(Err(ToolError::Failed(cause))),
        (ToolCheck::Locating, ToolEvent::BuildTool { found }) => if found {
            ToolTransition::Continue(ToolCheck::Querying)
        } else {
            ToolTransition::Done(Err(ToolError::BuildToolMissing))
        },
        (ToolCheck::Querying, ToolEvent::Queried { succeeded, output }) => if shows_required_version(
            succeeded,
            output@,
        ) {
            ToolTransition::Done(Ok(()))
        } else {
            ToolTransition::Continue(ToolCheck::Offering)
        },
        (ToolCheck::Offering, ToolEvent::Answered { line }) => after_answer(line@),
        (ToolCheck::OfferingAgain, ToolEvent::Answered { line }) => after_answer(line@),
        (ToolCheck::Installing, ToolEvent::Installed { succeeded }) => if succeeded {
            ToolTransition::Continue(ToolCheck::Confirming)
        } else {
            ToolTransition::Done(Err(ToolError::InstallFailed))
        },
        (ToolCheck::Confirming, ToolEvent::Queried { succeeded, output }) => if shows_required_version(
            succeeded,
            output@,
        ) {
            ToolTransition::Done(Ok(()))
        } else {
            ToolTransition::Done(Err(ToolError::NotDetected))
        },
        (check, _) => ToolTransition::Continue(check),
    }
}

impl ToolCheck {
    /// A check that has asked for nothing yet.
    pub fn new() -> (check: ToolCheck)
        ensures
            check == ToolCheck::Locating,
    {
        ToolCheck::Locating
    }

    /// The command that this check waits on.
    pub fn command(&self) -> (command: ToolCommand)
        ensures
            command == tool_awaited(*self),
    {
        match self {
            ToolCheck::Locating => ToolCommand::LocateBuildTool,
            ToolCheck::Querying => ToolCommand::QueryVersion,
            ToolCheck::Offering => ToolCommand::Offer,
            ToolCheck::OfferingAgain => ToolCommand::OfferAgain,
            ToolCheck::Installing => ToolCommand::Install,
            ToolCheck::Confirming => ToolCommand::QueryVersion,
        }
    }

    /// Takes the result of the awaited command and moves on.
    pub fn step<C>(self, event: ToolEvent<C>) -> (transition: ToolTransition<C>)
        ensures
            transition == tool_next(self, event),
    {
        match (self, event) {
            (_, ToolEvent::Failed(cause)) => ToolTransition::Done(Err(ToolError::Failed(cause))),
            (ToolCheck::Locating, ToolEvent::BuildTool { found }) => if found {
                ToolTransition::Continue(ToolCheck::Querying)
            } else {
                ToolTransition::Done(Err(ToolError::BuildToolMissing))
            },
            (ToolCheck::Querying, ToolEvent::Queried { succeeded, output }) => {
                if reports_required_version(succeeded, output.as_slice()) {
                    ToolTransition::Done(Ok(()))
                } else {
                    ToolTransition::Continue(ToolCheck::Offering)
                }
            },
            (ToolCheck::Offering, ToolEvent::Answered { line }) => consider(line.as_str()),
            (ToolCheck::OfferingAgain, ToolEvent::Answered { line }) => consider(line.as_str()),
            (ToolCheck::Installing, ToolEvent::Installed { succeeded }) => if succeeded {
                ToolTransition::Continue(ToolCheck::Confirming)
            } else {
                ToolTransition::Done(Err(ToolError::InstallFailed))
            },
            (ToolCheck::Confirming, ToolEvent::Queried { succeeded, output }) => {
                if reports_required_version(succeeded, output.as_slice()) {
                    ToolTransition::Done(Ok(()))
                } else {
                    ToolTransition::Done(Err(ToolError::NotDetected))
                }
            },
            (check, _) => ToolTransition::Continue(check),
        }
    }
}

/// Nothing is installed without the user's consent: a check comes to wait
/// on the installer only from an offer, and only on a line that accepts.
pub proof fn law_install_needs_consent<C>(check: ToolCheck, event: ToolEvent<C>)
    requires
        check != ToolCheck::Installing,
        tool_next(check, event) == ToolTransition::<C>::Continue(ToolCheck::Installing),
    ensures
        check == ToolCheck::Offering || check == ToolCheck::OfferingAgain,
        event matches ToolEvent::Answered { line } && answer_of(line@) == Answer::Yes,
{
}

/// Where an offer stands once the user has entered `line`.
fn consider<C>(line: &str) -> (transition: ToolTransition<C>)
    ensures
        transition == after_answer::<C>(line@),
{
    match classify(line) {
        Answer::Yes => ToolTransition::Continue(ToolCheck::Installing),
        Answer::No => ToolTransition::Done(Err(ToolError::Declined)),
        Answer::Unclear => ToolTransition::Continue(ToolCheck::OfferingAgain),
    }
}

} // verus!
