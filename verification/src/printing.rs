//! Where the client writes on its terminal, and what it says of a newer
//! release.
use vstd::prelude::*;
use vstd::string::{StrSliceExecFns, StringExecFns};
use crate::text::same_chars;

verus! {

/// How long an info or error message stays on the terminal, in seconds.
pub const MESSAGE_SECONDS: u64 = 3;

/// The terminal rows of the client's messages.
#[derive(PartialEq, Eq, Structural, Clone, Copy, Debug)]
pub enum PrintRow {
    Version,
    Copyright,
    NewVersionNotify,
    ClientStatus,
    ActivityStatus,
    Info,
    Error,
    Binds,
}

/// The terminal row of each kind of message.
pub open spec fn row_of(r: PrintRow) -> u16 {
    match r {
        PrintRow::Version => 2,
        PrintRow::Copyright => 4,
        PrintRow::NewVersionNotify => 9,
        PrintRow::ClientStatus => 11,
        PrintRow::ActivityStatus => 12,
        PrintRow::Info => 14,
        PrintRow::Error => 15,
        PrintRow::Binds => 17,
    }
}

impl PrintRow {
    /// The terminal row where this kind of message is written.
    pub fn row(&self) -> (res: u16)
        ensures
            res == row_of(*self),
    {
        match self {
            PrintRow::Version => 2,
            PrintRow::Copyright => 4,
            PrintRow::NewVersionNotify => 9,
            PrintRow::ClientStatus => 11,
            PrintRow::ActivityStatus => 12,
            PrintRow::Info => 14,
            PrintRow::Error => 15,
            PrintRow::Binds => 17,
        }
    }
}

/// The version a release tag names: the tag without its first character
/// (`v1.2.0` names `1.2.0`).
pub open spec fn tag_version(tag: Seq<char>) -> Seq<char> {
    tag.skip(1)
}

/// What is said of a newer release whose version is `version`.
pub open spec fn notice_chars(version: Seq<char>) -> Seq<char> {
    "New version available! https://github.com/INikonI/ndrpc/releases/tag/v"@ + version
}

/// The notice of a newer release, where the latest release, tagged
/// `tag_name`, names a version other than `current`; `None` where it names
/// `current`.
pub fn new_version_notice(tag_name: &str, current: &str) -> (res: Option<String>)
    requires
        tag_name@.len() > 0,
        (tag_name@[0] as u32) < 0x80,
    ensures
        res is None <==> tag_version(tag_name@) == current@,
        res matches Some(m) ==> m@ == notice_chars(tag_version(tag_name@)),
{
    let n = tag_name.unicode_len();
    let latest = tag_name.substring_char(1, n);
    assert(latest@ =~= tag_version(tag_name@));
    if same_chars(latest, current) {
        None
    } else {
        let mut notice = "New version available! https://github.com/INikonI/ndrpc/releases/tag/v".to_owned();
        notice.append(latest);
        Some(notice)
    }
}

/// The rows go down the terminal in the order of the kinds: each kind of
/// message has a row of its own, below the one before it.
pub proof fn lemma_rows_go_down()
    ensures
        row_of(PrintRow::Version) < row_of(PrintRow::Copyright),
        row_of(PrintRow::Copyright) < row_of(PrintRow::NewVersionNotify),
        row_of(PrintRow::NewVersionNotify) < row_of(PrintRow::ClientStatus),
        row_of(PrintRow::ClientStatus) < row_of(PrintRow::ActivityStatus),
        row_of(PrintRow::ActivityStatus) < row_of(PrintRow::Info),
        row_of(PrintRow::Info) < row_of(PrintRow::Error),
        row_of(PrintRow::Error) < row_of(PrintRow::Binds),
{
}

/// The version a release tag names is all of the tag after its first
/// character: that character followed by the version gives the tag back.
pub proof fn lemma_tag_version_is_rest_of_tag(tag: Seq<char>)
    requires
        tag.len() > 0,
    ensures
        seq![tag[0]] + tag_version(tag) == tag,
        tag_version(tag).len() == tag.len() - 1,
{
    assert(seq![tag[0]] + tag.skip(1) =~= tag);
}

/// The notice of a newer release ends with the whole version it announces.
pub proof fn lemma_notice_ends_with_version(version: Seq<char>)
    ensures
        notice_chars(version).len() >= version.len(),
        notice_chars(version).skip(notice_chars(version).len() - version.len()) == version,
{
    let n = notice_chars(version);
    assert(n.skip(n.len() - version.len()) =~= version);
}

} // verus!
