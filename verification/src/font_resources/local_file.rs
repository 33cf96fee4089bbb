//! The rules for font files.

use vstd::prelude::*;

use crate::text::{chars_of, equal_ignoring_case, same_ignoring_case};

verus! {

/// Largest font file in bytes.
pub const MAX_FONT_BYTES: u64 = 16777216;

/// Whether the extension of a file is that of a font: `ttf` or `otf` without regard to case.
pub fn is_font_extension(extension: Option<&str>) -> (r: bool)
    ensures
        r == (match crate::config_schema::name_view(extension) {
            Some(text) => same_ignoring_case(text, "ttf"@) || same_ignoring_case(text, "otf"@),
            None => false,
        }),
{
    match extension {
        Some(text) => {
            let chars = chars_of(text);
            equal_ignoring_case(chars.as_slice(), "ttf") || equal_ignoring_case(
                chars.as_slice(),
                "otf",
            )
        },
        None => false,
    }
}

/// How a path begins.
#[derive(Debug, Clone, Copy, PartialEq, Eq, Structural)]
pub enum PathStart {
    /// With a drive letter.
    Drive,
    /// With a share, a device or another prefix.
    Remote,
    /// With no prefix.
    Relative,
}

/// Why a path is not that of a local file.
#[derive(Debug, Clone, Copy, PartialEq, Eq, Structural)]
pub enum LocalError {
    DriveRequired,
    AbsoluteRequired,
    RemoteDrive,
}

/// Whether a path is that of a local file: it begins with a drive, and the drive is removable,
/// fixed, optical or in memory. The type of the drive is that of the system.
pub fn require_local(start: PathStart, drive_type: u32) -> (r: Result<(), LocalError>)
    ensures
        r == (match start {
            PathStart::Remote => Err::<(), LocalError>(LocalError::DriveRequired),
            PathStart::Relative => Err(LocalError::AbsoluteRequired),
            PathStart::Drive => if drive_type == 2 || drive_type == 3 || drive_type == 5
                || drive_type == 6 {
                Ok(())
            } else {
                Err(LocalError::RemoteDrive)
            },
        }),
{
    match start {
        PathStart::Remote => Err(LocalError::DriveRequired),
        PathStart::Relative => Err(LocalError::AbsoluteRequired),
        PathStart::Drive => if drive_type == 2 || drive_type == 3 || drive_type == 5 || drive_type
            == 6 {
            Ok(())
        } else {
            Err(LocalError::RemoteDrive)
        },
    }
}

/// Whether the length of a font file is accepted, before and after it is read.
pub fn accepts_length(length: u64) -> (r: bool)
    ensures
        r == (1 <= length <= MAX_FONT_BYTES),
{
    length >= 1 && length <= MAX_FONT_BYTES
}

}
