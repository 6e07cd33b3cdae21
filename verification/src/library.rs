//! Which files a library scan indexes, and what it reports.
use vstd::prelude::*;
use vstd::string::StrSliceExecFns;

use crate::persistence::TrackChange;

verus! {

#[derive(Debug, Clone, PartialEq, Eq)]
pub struct ScanSummary {
    pub library_root_id: i64,
    pub root_path: String,
    pub discovered: usize,
    pub inserted: usize,
    pub modified: usize,
    pub restored: usize,
    pub unchanged: usize,
    pub missing: usize,
    pub metadata_failures: usize,
    pub traversal_errors: Vec<String>,
}

/// ASCII upper-case letters become lower case; every other character stays.
pub open spec fn ascii_lower(c: char) -> char {
    if 'A' <= c && c <= 'Z' {
        ((c as u32) + 32) as char
    } else {
        c
    }
}

pub open spec fn lowered(s: Seq<char>) -> Seq<char> {
    s.map_values(|c: char| ascii_lower(c))
}

/// The audio extensions a scan indexes, compared without ASCII case.
pub open spec fn supported_extension(extension: Seq<char>) -> bool {
    let l = lowered(extension);
    ||| l == "mp3"@
    ||| l == "wav"@
    ||| l == "flac"@
    ||| l == "aac"@
    ||| l == "m4a"@
    ||| l == "aif"@
    ||| l == "aiff"@
}

fn lower_char(c: char) -> (l: char)
    ensures
        l == ascii_lower(c),
{
    if 'A' <= c && c <= 'Z' {
        ((c as u8) + 32) as char
    } else {
        c
    }
}

fn matches_word(chars: &Vec<char>, word: &str) -> (same: bool)
    ensures
        same == (chars@ == word@),
{
    let n = word.unicode_len();
    if n != chars.len() {
        return false;
    }
    let mut i: usize = 0;
    while i < n
        invariant
            n == word@.len(),
            n == chars@.len(),
            0 <= i <= n,
            forall|k: int| 0 <= k < i ==> chars@[k] == word@[k],
        decreases n - i,
    {
        if chars[i] != word.get_char(i) {
            return false;
        }
        i = i + 1;
    }
    assert(chars@ =~= word@);
    true
}

/// Whether a file with this extension is indexed.
pub fn is_supported_extension(extension: &str) -> (supported: bool)
    ensures
        supported == supported_extension(extension@),
{
    let n = extension.unicode_len();
    let mut chars: Vec<char> = Vec::new();
    let mut i: usize = 0;
    while i < n
        invariant
            n == extension@.len(),
            0 <= i <= n,
            chars@ =~= lowered(extension@).take(i as int),
        decreases n - i,
    {
        chars.push(lower_char(extension.get_char(i)));
        i = i + 1;
    }
    assert(chars@ =~= lowered(extension@));
    matches_word(&chars, "mp3") || matches_word(&chars, "wav") || matches_word(&chars, "flac")
        || matches_word(&chars, "aac") || matches_word(&chars, "m4a") || matches_word(&chars, "aif")
        || matches_word(&chars, "aiff")
}

impl ScanSummary {
    /// A summary before any file has been looked at.
    pub fn new(library_root_id: i64, root_path: String, discovered: usize, traversal_errors: Vec<
        String,
    >) -> (summary: ScanSummary)
        ensures
            summary.library_root_id == library_root_id,
            summary.root_path == root_path,
            summary.discovered == discovered,
            summary.inserted == 0,
            summary.modified == 0,
            summary.restored == 0,
            summary.unchanged == 0,
            summary.missing == 0,
            summary.metadata_failures == 0,
            summary.traversal_errors == traversal_errors,
    {
        ScanSummary {
            library_root_id,
            root_path,
            discovered,
            inserted: 0,
            modified: 0,
            restored: 0,
            unchanged: 0,
            missing: 0,
            metadata_failures: 0,
            traversal_errors,
        }
    }

    /// Counts what an upsert did to one file's row.
    pub fn record(&mut self, change: TrackChange)
        requires
            old(self).inserted < usize::MAX,
            old(self).modified < usize::MAX,
            old(self).restored < usize::MAX,
            old(self).unchanged < usize::MAX,
        ensures
            final(self).inserted == old(self).inserted + if change == TrackChange::Inserted { 1int } else { 0 },
            final(self).modified == old(self).modified + if change == TrackChange::Modified { 1int } else { 0 },
            final(self).restored == old(self).restored + if change == TrackChange::Restored { 1int } else { 0 },
            final(self).unchanged == old(self).unchanged + if change == TrackChange::Unchanged { 1int } else { 0 },
            final(self).library_root_id == old(self).library_root_id,
            final(self).root_path == old(self).root_path,
            final(self).discovered == old(self).discovered,
            final(self).missing == old(self).missing,
            final(self).metadata_failures == old(self).metadata_failures,
            final(self).traversal_errors == old(self).traversal_errors,
    {
        match change {
            TrackChange::Inserted => self.inserted = self.inserted + 1,
            TrackChange::Modified => self.modified = self.modified + 1,
            TrackChange::Restored => self.restored = self.restored + 1,
            TrackChange::Unchanged => self.unchanged = self.unchanged + 1,
        }
    }

    /// Tracks of the root are marked missing only after a scan that could
    /// read every directory; otherwise an unreadable folder would hide files.
    pub fn may_mark_missing(&self) -> (allowed: bool)
        ensures
            allowed == (self.traversal_errors@.len() == 0),
    {
        self.traversal_errors.len() == 0
    }
}

} // verus!
