//! Which pnpm installs the plugins.
//!
//! From its tenth major version on, pnpm reads `autoInstallPeers` from
//! `pnpm-workspace.yaml` and adds to a workspace root without being asked twice.
//! The pnpm of the user is used only where it is that new; otherwise the bundled
//! one is, and is downloaded first where it is not there.

use crate::number::{decimal, is_digit, parse_u32, spelled_u32};
use crate::number_laws::{
    all_zeros, law_decimal_stands_for_its_number, law_spelled_number_is_its_decimal,
};
use crate::text::{
    before, chars_of, index_of, is_white_space, pieces, slice_views, split_at_either, string_of,
    trim, trimmed,
};
use crate::text_laws::{
    law_index_counts_what_stands_before, law_splitting_parts_at_separators,
    law_trimming_takes_white_space_off, lemma_pieces_concat,
};
use crate::text_lemmas::is_blank;
use vstd::prelude::*;

verus! {

/// The oldest major version of the user's pnpm that is used.
pub const MIN_TRUSTED_PNPM_MAJOR: u32 = 10;

/// What a command left behind.
pub struct CommandOutput {
    /// Whether it exited with success.
    pub success: bool,
    pub stdout: String,
}

/// The major version in the output of `pnpm --version`: the number before the
/// first dot.
pub open spec fn major_version(stdout: Seq<char>) -> Option<u32> {
    spelled_u32(trimmed(stdout.take(index_of(stdout, '.') as int)))
}

/// The major version of the user's pnpm: none where there is no such pnpm, where
/// it could not be run or failed, or where it printed something else.
pub open spec fn detected_major(probe: Option<CommandOutput>) -> Option<u32> {
    match probe {
        Some(output) => if output.success {
            major_version(output.stdout@)
        } else {
            None
        },
        None => None,
    }
}

/// The major version of the user's pnpm.
pub fn user_pnpm_major_version(probe: &Option<CommandOutput>) -> (major: Option<u32>)
    ensures
        major == detected_major(*probe),
{
    match probe {
        Some(output) => {
            if !output.success {
                return None;
            }
            let stdout = chars_of(output.stdout.as_str());
            parse_u32(trim(before(&stdout, '.')))
        },
        None => None,
    }
}

/// Whether the user's pnpm is new enough.
pub open spec fn is_trusted(major: Option<u32>) -> bool {
    major matches Some(m) && m >= MIN_TRUSTED_PNPM_MAJOR
}

/// Whether the user's pnpm is new enough.
pub fn trusts_user_pnpm(major: Option<u32>) -> (yes: bool)
    ensures
        yes == is_trusted(major),
{
    match major {
        Some(m) => m >= MIN_TRUSTED_PNPM_MAJOR,
        None => false,
    }
}

/// What went wrong on the way to the bundled pnpm.
pub enum PnpmFailure {
    /// There is no address to download it from.
    Address(String),
    /// It could not be downloaded.
    Download(String),
    /// It is not what was expected.
    Integrity(String),
    /// It could not be unpacked.
    Extract(String),
}

/// What is said of a failure.
pub open spec fn pnpm_failure_text(failure: PnpmFailure) -> Seq<char> {
    match failure {
        PnpmFailure::Address(e) => e@,
        PnpmFailure::Download(e) => "PNPM_DOWNLOAD_FAILED: "@ + e@,
        PnpmFailure::Integrity(e) => "PNPM_INTEGRITY_FAILED: "@ + e@,
        PnpmFailure::Extract(e) => "PNPM_EXTRACT_FAILED: "@ + e@,
    }
}

/// What is said of a failure.
pub fn describe_pnpm_failure(failure: PnpmFailure) -> (text: String)
    ensures
        text@ == pnpm_failure_text(failure),
{
    match failure {
        PnpmFailure::Address(e) => e,
        PnpmFailure::Download(e) => "PNPM_DOWNLOAD_FAILED: ".to_string().concat(e.as_str()),
        PnpmFailure::Integrity(e) => "PNPM_INTEGRITY_FAILED: ".to_string().concat(e.as_str()),
        PnpmFailure::Extract(e) => "PNPM_EXTRACT_FAILED: ".to_string().concat(e.as_str()),
    }
}

/// The name of the file that an address leads to: what follows its last slash.
pub open spec fn file_name(url: Seq<char>) -> Seq<char> {
    pieces(url, '/', '/').last()
}

/// The name of the file that an address leads to.
pub fn download_file_name(url: &str) -> (name: String)
    ensures
        name@ == file_name(url@),
{
    let chars = chars_of(url);
    let parts = split_at_either(&chars, '/', '/');
    let ghost views = slice_views(parts@);
    assert(views.len() > 0);
    assert(views.last() == parts@.last()@);
    string_of(parts[parts.len() - 1])
}

/// The archive of the bundled pnpm, as it was downloaded.
pub struct Archive {
    /// The name of the file.
    pub name: String,
    pub bytes: Vec<u8>,
}

/// The model of an archive.
pub struct ArchiveView {
    pub name: Seq<char>,
    pub bytes: Seq<u8>,
}

impl View for Archive {
    type V = ArchiveView;

    open spec fn view(&self) -> ArchiveView {
        ArchiveView { name: self.name@, bytes: self.bytes@ }
    }
}

/// The major version is the number that stands before the first dot, white space
/// aside.
pub proof fn law_major_version_stands_before_the_first_dot(part: Seq<char>, rest: Seq<char>)
    requires
        !part.contains('.'),
        rest.len() == 0 || rest[0] == '.',
    ensures
        major_version(part + rest) == spelled_u32(trimmed(part)),
{
    law_index_counts_what_stands_before(part, '.', '.', '.', rest.skip(1));
    if rest.len() > 0 {
        assert(part + rest == part + seq!['.'] + rest.skip(1));
    } else {
        assert(part + rest == part);
    }
    assert((part + rest).take(part.len() as int) == part);
}

/// The version that a working pnpm prints is read back, whatever number it is and
/// whatever follows the first dot.
pub proof fn law_printed_version_is_read_back(
    lead: Seq<char>,
    major: u32,
    trail: Seq<char>,
    rest: Seq<char>,
    output: CommandOutput,
)
    requires
        is_blank(lead),
        is_blank(trail),
        rest.len() == 0 || rest[0] == '.',
        output.success,
        output.stdout@ == lead + decimal(major as nat) + trail + rest,
    ensures
        detected_major(Some(output)) == Some(major),
{
    let digits = decimal(major as nat);
    let part = lead + digits + trail;
    let empty = Seq::<char>::empty();
    law_decimal_stands_for_its_number(major as nat);
    assert forall|i: int| 0 <= i < part.len() implies part[i] != '.' by {
        if i < lead.len() {
            assert(is_white_space(lead[i]));
        } else if i < lead.len() + digits.len() {
            assert(is_digit(digits[i - lead.len()]));
            assert(part[i] == digits[i - lead.len()]);
        } else {
            assert(is_white_space(trail[i - lead.len() - digits.len()]));
            assert(part[i] == trail[i - lead.len() - digits.len()]);
        }
    }
    assert(is_digit(digits[0]) && is_digit(digits[digits.len() - 1]));
    law_trimming_takes_white_space_off(lead, digits, trail);
    law_major_version_stands_before_the_first_dot(part, rest);
    assert(all_zeros(empty));
    assert(digits == empty + digits);
    law_spelled_number_is_its_decimal(digits, major);
}

/// Without a pnpm that exits with success there is no version.
pub proof fn law_failing_pnpm_has_no_version(output: CommandOutput)
    ensures
        detected_major(None) is None,
        !output.success ==> detected_major(Some(output)) is None,
        output.success ==> detected_major(Some(output)) == major_version(output.stdout@),
{
}

/// The user's pnpm is trusted exactly from its tenth major version on.
pub proof fn law_tenth_major_version_is_trusted(major: u32)
    ensures
        is_trusted(Some(major)) <==> major >= 10,
        !is_trusted(None),
{
}

/// The name of a file is what follows the last slash of its address.
pub proof fn law_file_name_follows_the_last_slash(before: Seq<char>, name: Seq<char>)
    requires
        !name.contains('/'),
    ensures
        file_name(before + seq!['/'] + name) == name,
        file_name(name) == name,
{
    lemma_pieces_concat(before, '/', '/', '/', name);
    law_splitting_parts_at_separators(name, '/', '/', '/', name);
    let all = pieces(before, '/', '/') + seq![name];
    assert(all.last() == name);
}

/// What went wrong is named, and what was said of it is passed on as it is.
pub proof fn law_pnpm_failures_are_named(e: String)
    ensures
        pnpm_failure_text(PnpmFailure::Address(e)) == e@,
        pnpm_failure_text(PnpmFailure::Download(e)) == "PNPM_DOWNLOAD_FAILED: "@ + e@,
        pnpm_failure_text(PnpmFailure::Integrity(e)) == "PNPM_INTEGRITY_FAILED: "@ + e@,
        pnpm_failure_text(PnpmFailure::Extract(e)) == "PNPM_EXTRACT_FAILED: "@ + e@,
{
}

/// The view of an archive is what it holds.
pub proof fn law_archive_is_seen_whole(archive: Archive)
    ensures
        archive@.name == archive.name@,
        archive@.bytes == archive.bytes@,
{
}

} // verus!
