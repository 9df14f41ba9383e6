use vstd::prelude::*;

verus! {

/// Where the loader stub of an installer says that the installer's parts are.
#[derive(Clone, Copy, PartialEq, Eq, Structural, Debug)]
pub struct SetupLoader {
    /// Position of the header, as the signed number that the loader table holds.
    pub header_offset: i64,
}

impl SetupLoader {
    /// The position of the header from the start of the installer.
    pub open spec fn header_position(self) -> int {
        if self.header_offset < 0 {
            -self.header_offset
        } else {
            self.header_offset as int
        }
    }

    /// Returns the header offset as the loader table holds it.
    pub fn header_offset(&self) -> (offset: i64)
        ensures
            offset == self.header_offset,
    {
        self.header_offset
    }

    /// Returns the position to seek to for the header: the offset without its sign.
    pub fn seek_position(&self) -> (position: u64)
        ensures
            position == self.header_position(),
            self.header_offset >= 0 ==> position == self.header_offset,
            self.header_offset < 0 ==> position == -self.header_offset,
    {
        if self.header_offset >= 0 {
            self.header_offset as u64
        } else if self.header_offset == i64::MIN {
            0x8000_0000_0000_0000
        } else {
            (-self.header_offset) as u64
        }
    }
}

/// The header stands at the offset without its sign: at the offset itself where that is not negative,
/// at its negation where it is, and so at the same place for an offset and its negation.
pub proof fn header_stands_at_the_offset_without_sign(a: SetupLoader, b: SetupLoader)
    ensures
        a.header_offset >= 0 ==> a.header_position() == a.header_offset,
        a.header_offset < 0 ==> a.header_position() == -a.header_offset,
        a.header_position() == b.header_position() <==> a.header_offset == b.header_offset
            || a.header_offset == -b.header_offset,
{
}

} // verus!
