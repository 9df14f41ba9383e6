use vstd::prelude::*;

verus! {

/// An Inno Setup version number, together with the text mode of the installer.
#[derive(Clone, Copy, PartialEq, Eq, Structural, Debug)]
pub struct InnoVersion {
    pub major: u8,
    pub minor: u8,
    pub patch: u8,
    pub revision: u8,
    /// Whether the installer stores its text as Unicode.
    pub unicode: bool,
}

/// The four parts of a version read as the digits of one number, so that a later release has the
/// larger number.
pub open spec fn release_number(major: u8, minor: u8, patch: u8, revision: u8) -> int {
    major * 0x100_0000 + minor * 0x1_0000 + patch * 0x100 + revision
}

impl InnoVersion {
    /// The number that orders versions. The text mode plays no part in it.
    pub open spec fn number(self) -> int {
        release_number(self.major, self.minor, self.patch, self.revision)
    }

    /// The newest release that can be read: every revision of 6.7, and nothing after it.
    pub open spec fn is_supported(self) -> bool {
        self.number() <= release_number(6, 7, 255, 255)
    }

    /// Returns the newest supported version.
    ///
    /// Inno Setup versions newer than this one are likely to have changes to the format that are
    /// not known here.
    pub fn max_supported() -> (version: InnoVersion)
        ensures
            version == (InnoVersion {
                major: 6,
                minor: 7,
                patch: 255,
                revision: 255,
                unicode: false,
            }),
    {
        InnoVersion { major: 6, minor: 7, patch: u8::MAX, revision: u8::MAX, unicode: false }
    }

    fn ordinal(&self) -> (n: u32)
        ensures
            n == self.number(),
    {
        self.major as u32 * 0x100_0000 + self.minor as u32 * 0x1_0000 + self.patch as u32 * 0x100
            + self.revision as u32
    }

    /// Returns `true` if this version was released after `other`.
    pub fn is_newer_than(&self, other: &InnoVersion) -> (newer: bool)
        ensures
            newer == (self.number() > other.number()),
            newer == {
                ||| self.major > other.major
                ||| self.major == other.major && self.minor > other.minor
                ||| self.major == other.major && self.minor == other.minor && self.patch
                    > other.patch
                ||| self.major == other.major && self.minor == other.minor && self.patch
                    == other.patch && self.revision > other.revision
            },
    {
        self.ordinal() > other.ordinal()
    }

    /// Returns `true` if this is release `major.minor` or a later one.
    pub fn is_at_least(&self, major: u8, minor: u8) -> (reached: bool)
        ensures
            reached == (self.number() >= release_number(major, minor, 0, 0)),
            reached == (self.major > major || self.major == major && self.minor >= minor),
    {
        self.ordinal() >= major as u32 * 0x100_0000 + minor as u32 * 0x1_0000
    }

    /// Returns `true` if the installer stores its text as Unicode.
    pub fn is_unicode(&self) -> (unicode: bool)
        ensures
            unicode == self.unicode,
    {
        self.unicode
    }
}

/// Versions are ordered part by part: the first part in which two versions differ decides, and
/// versions with the same parts are equally new.
pub proof fn versions_are_ordered_part_by_part(a: InnoVersion, b: InnoVersion)
    ensures
        a.number() < b.number() <==> {
            ||| a.major < b.major
            ||| a.major == b.major && a.minor < b.minor
            ||| a.major == b.major && a.minor == b.minor && a.patch < b.patch
            ||| a.major == b.major && a.minor == b.minor && a.patch == b.patch && a.revision
                < b.revision
        },
        a.number() == b.number() <==> a.major == b.major && a.minor == b.minor && a.patch == b.patch
            && a.revision == b.revision,
{
}

/// Exactly the releases up to and including every 6.7 are supported.
pub proof fn supported_up_to_6_7(version: InnoVersion)
    ensures
        version.is_supported() <==> version.major < 6 || version.major == 6 && version.minor <= 7,
{
}

/// A release is reached by its own revisions and by all later releases: the patch and the revision
/// of a version play no part in it.
pub proof fn releases_are_reached_by_major_and_minor(version: InnoVersion, major: u8, minor: u8)
    ensures
        version.number() >= release_number(major, minor, 0, 0) <==> version.major > major
            || version.major == major && version.minor >= minor,
{
}

} // verus!
