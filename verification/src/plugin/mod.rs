//! Third-party detections, run in a sandbox.
//!
//! A plugin is a pure function from one dialog to findings. It imports nothing:
//! no clock, no files, no network. A plugin that traps, runs out of fuel, goes
//! past its memory or returns nonsense is an error against that dialog and
//! nothing more.
pub mod document;
pub mod host;
pub mod sandbox;
pub mod verdicts;

use crate::text::{chars_of, decimal, decimal_text, slice_of, text_of};
use crate::words::byte_len;
use vstd::prelude::*;
use vstd::string::*;
use vstd::utf8::*;

verus! {

/// The interface version this host speaks. A plugin that reports any other is
/// refused when it is loaded.
pub const ABI_VERSION: u32 = 1;

/// Instructions a plugin may execute per dialog.
pub const FUEL_PER_DIALOG: u64 = 50_000_000;

/// Most linear memory of a plugin, in pages.
pub const MAX_MEMORY_PAGES: usize = 256;

/// Bytes in a page of linear memory.
pub const WASM_PAGE_BYTES: usize = 65_536;

/// Largest document a plugin may return, in bytes.
pub const MAX_OUTPUT_BYTES: u32 = 4_194_304;

/// One finding reported by a plugin.
#[derive(Debug, Clone, PartialEq, Eq)]
pub struct PluginFinding {
    /// Which plugin said so: the host fills it in.
    pub plugin: String,
    /// The kind of finding, chosen by the plugin's author.
    pub id: String,
    /// One plain-language line.
    pub summary: String,
    /// Positions in the dialog's own message list.
    pub evidence: Vec<usize>,
}

/// What can go wrong with a plugin.
#[derive(Debug)]
pub enum PluginError {
    /// The file could not be read.
    Read(String),
    /// It is no valid module.
    Invalid(String),
    /// A required export is missing or has the wrong signature.
    Abi(String),
    /// It reports an interface version that this host does not speak.
    AbiVersion {
        /// The version it reported.
        found: u32,
        /// The version this host speaks.
        expected: u32,
    },
    /// It trapped, ran out of fuel, or went past its memory.
    Trap(String),
    /// It returned something that was not the agreed shape.
    BadOutput(String),
}

/// An error, as plain text and numbers.
pub ghost enum ErrorView {
    /// The file could not be read.
    Read(Seq<char>),
    /// It is no valid module.
    Invalid(Seq<char>),
    /// A required export is missing or has the wrong signature.
    Abi(Seq<char>),
    /// It reports another version.
    AbiVersion(u32, u32),
    /// It trapped.
    Trap(Seq<char>),
    /// It returned something that was not the agreed shape.
    BadOutput(Seq<char>),
}

impl View for PluginError {
    type V = ErrorView;

    open spec fn view(&self) -> ErrorView {
        match *self {
            PluginError::Read(m) => ErrorView::Read(m@),
            PluginError::Invalid(m) => ErrorView::Invalid(m@),
            PluginError::Abi(m) => ErrorView::Abi(m@),
            PluginError::AbiVersion { found, expected } => ErrorView::AbiVersion(found, expected),
            PluginError::Trap(m) => ErrorView::Trap(m@),
            PluginError::BadOutput(m) => ErrorView::BadOutput(m@),
        }
    }
}

/// How an error is put into words.
pub open spec fn error_text(e: PluginError) -> Seq<char> {
    match e {
        PluginError::Read(m) => "cannot read plugin: "@ + m@,
        PluginError::Invalid(m) => "not a valid WASM module: "@ + m@,
        PluginError::Abi(m) => "plugin ABI mismatch: "@ + m@,
        PluginError::AbiVersion { found, expected } => "plugin reports ABI version "@
            + decimal_text(found as nat) + ", this build speaks "@ + decimal_text(expected as nat),
        PluginError::Trap(m) => "plugin trapped: "@ + m@,
        PluginError::BadOutput(m) => "plugin returned malformed output: "@ + m@,
    }
}

impl PluginError {
    /// The error in words.
    pub fn to_string(&self) -> (r: String)
        ensures
            r@ == error_text(*self),
    {
        match self {
            PluginError::Read(m) => labelled("cannot read plugin: ", m),
            PluginError::Invalid(m) => labelled("not a valid WASM module: ", m),
            PluginError::Abi(m) => labelled("plugin ABI mismatch: ", m),
            PluginError::AbiVersion { found, expected } => {
                let mut s = String::from_str("plugin reports ABI version ");
                s.append(decimal(*found as u64).as_str());
                s.append(", this build speaks ");
                s.append(decimal(*expected as u64).as_str());
                s
            },
            PluginError::Trap(m) => labelled("plugin trapped: ", m),
            PluginError::BadOutput(m) => labelled("plugin returned malformed output: ", m),
        }
    }

    /// The error for a file that could not be read.
    pub fn unreadable(path: &str, error: &str) -> (r: PluginError)
        ensures
            r matches PluginError::Read(m) && m@ == path@ + ": "@ + error@,
    {
        PluginError::Read(placed(path, error))
    }
}

/// A label and what it is about.
pub(crate) fn labelled(label: &str, what: &str) -> (r: String)
    ensures
        r@ == label@ + what@,
{
    let mut s = String::from_str(label);
    s.append(what);
    s
}

/// What is said of a file.
pub(crate) fn placed(path: &str, what: &str) -> (r: String)
    ensures
        r@ == path@ + ": "@ + what@,
{
    let mut s = String::from_str(path);
    s.append(": ");
    s.append(what);
    s
}

/// Bytes one character takes in UTF-8.
pub open spec fn width(c: char) -> nat {
    encode_scalar(c as u32).len()
}

/// How many characters of a text fit into so many bytes, from the front.
pub open spec fn chars_within(s: Seq<char>, max: nat) -> nat
    decreases s.len(),
{
    if s.len() == 0 || width(s[0]) > max {
        0
    } else {
        1 + chars_within(s.skip(1), (max - width(s[0])) as nat)
    }
}

/// A text shortened to so many bytes, with an ellipsis where it was: whole
/// characters only.
pub open spec fn shortened(s: Seq<char>, max: nat) -> Seq<char> {
    if byte_len(s) <= max {
        s
    } else {
        s.take(chars_within(s, max) as int).push('…')
    }
}

/// Where every character fits, the text does.
proof fn all_within(s: Seq<char>, max: nat)
    ensures
        chars_within(s, max) <= s.len(),
        chars_within(s, max) == s.len() <==> byte_len(s) <= max,
    decreases s.len(),
{
    if s.len() > 0 {
        assert(s.skip(1) =~= s.drop_first());
        assert(byte_len(s) == width(s[0]) + byte_len(s.skip(1)));
        if width(s[0]) <= max {
            all_within(s.skip(1), (max - width(s[0])) as nat);
        }
    }
}

/// Bytes one character takes in UTF-8.
fn char_width(c: char) -> (r: usize)
    ensures
        r == width(c),
        1 <= r <= 4,
{
    let v: u32 = c as u32;
    proof {
        char_is_scalar(c);
    }
    if v < 0x80 {
        1
    } else if v < 0x800 {
        2
    } else if v < 0x10000 {
        3
    } else {
        4
    }
}

/// Shorten a text for a message without splitting a character.
pub fn truncate(s: &str, max: usize) -> (r: String)
    ensures
        r@ == shortened(s@, max as nat),
{
    let chars = chars_of(s);
    let mut left: usize = max;
    let mut n: usize = 0;
    assert(chars@.skip(0) =~= chars@);
    while n < chars.len() && char_width(chars[n]) <= left
        invariant
            n <= chars.len(),
            left <= max,
            chars_within(chars@, max as nat) == n + chars_within(
                chars@.skip(n as int),
                left as nat,
            ),
        decreases chars.len() - n,
    {
        proof {
            assert(chars@.skip(n as int)[0] == chars@[n as int]);
            assert(chars@.skip(n as int).skip(1) =~= chars@.skip(n + 1));
        }
        left -= char_width(chars[n]);
        n += 1;
    }
    proof {
        all_within(chars@, max as nat);
        if n < chars.len() {
            assert(chars@.skip(n as int)[0] == chars@[n as int]);
        }
    }
    if n == chars.len() {
        return String::from_str(s);
    }
    let part = slice_of(&chars, 0, n);
    assert(part@ =~= chars@.take(n as int));
    let mut out = text_of(&part);
    out.push('…');
    out
}

/// The first finding without evidence.
pub open spec fn first_baseless(findings: Seq<PluginFinding>) -> nat
    decreases findings.len(),
{
    if findings.len() == 0 || findings[0].evidence@.len() == 0 {
        0
    } else {
        1 + first_baseless(findings.skip(1))
    }
}

/// A finding as it is taken over: attributed to the plugin by the host,
/// whatever it said of itself, and otherwise what the plugin gave, with
/// evidence.
pub open spec fn attributed(
    name: Seq<char>,
    given: PluginFinding,
    accepted: PluginFinding,
) -> bool {
    &&& accepted.plugin@ == name
    &&& accepted.id == given.id
    &&& accepted.summary == given.summary
    &&& accepted.evidence == given.evidence
    &&& accepted.evidence@.len() > 0
}

/// What the message about a finding without evidence says.
pub open spec fn baseless_text(id: Seq<char>) -> Seq<char> {
    "finding `"@ + id
        + "` cites no evidence; every detection must name the messages it is drawn from"@
}

/// Take over a plugin's findings: each is attributed to the plugin by the host,
/// whatever it said of itself, and one without evidence refuses them all.
pub fn accept_findings(name: &str, findings: Vec<PluginFinding>) -> (r: Result<
    Vec<PluginFinding>,
    PluginError,
>)
    ensures
        r is Ok <==> first_baseless(findings@) == findings@.len(),
        r matches Ok(accepted) ==> accepted@.len() == findings@.len() && forall|i: int|
            0 <= i < accepted@.len() ==> attributed(name@, findings@[i], #[trigger] accepted@[i]),
        r matches Err(e) ==> e matches PluginError::BadOutput(m) && m@ == baseless_text(
            findings@[first_baseless(findings@) as int].id@,
        ),
{
    let ghost all = findings@;
    let mut kept = findings;
    let mut i: usize = 0;
    assert(all.skip(0) =~= all);
    while i < kept.len()
        invariant
            i <= kept.len(),
            all == findings@,
            kept@.len() == all.len(),
            first_baseless(all) == i + first_baseless(all.skip(i as int)),
            forall|k: int| i <= k < all.len() ==> #[trigger] kept@[k] == all[k],
            forall|k: int|
                0 <= k < i ==> attributed(name@, all[k], #[trigger] kept@[k]),
        decreases kept.len() - i,
    {
        assert(kept@[i as int] == all[i as int]);
        assert(all.skip(i as int)[0] == all[i as int]);
        assert(all.skip(i as int).skip(1) =~= all.skip(i + 1));
        if kept[i].evidence.len() == 0 {
            let mut m = String::from_str("finding `");
            m.append(kept[i].id.as_str());
            m.append(
                "` cites no evidence; every detection must name the messages it is drawn from",
            );
            return Err(PluginError::BadOutput(m));
        }
        let f = &mut kept[i];
        f.plugin = String::from_str(name);
        i += 1;
    }
    Ok(kept)
}

/// The error for output that does not parse: what the parser said, and the
/// beginning of the output.
pub fn malformed_output(error: &str, output: &str) -> (r: PluginError)
    ensures
        r matches PluginError::BadOutput(m) && m@ == error@ + "; got: "@ + shortened(output@, 200),
{
    let mut m = String::from_str(error);
    m.append("; got: ");
    m.append(truncate(output, 200).as_str());
    PluginError::BadOutput(m)
}

} // verus!
