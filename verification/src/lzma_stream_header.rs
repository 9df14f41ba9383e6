use vstd::prelude::*;
use vstd::slice::slice_subrange;
use vstd::string::StringExecFns;

verus! {

/// Upper bound for the dictionary size in the 5-byte LZMA1 properties header.
///
/// The LZMA1 format allows dictionaries up to about 4 GiB, but real Inno Setup installers use small
/// dictionaries (Inno's default is 8 MiB). 256 MiB is far above anything produced in practice, while
/// still preventing a crafted installer from forcing the decompressor into a multi-gigabyte
/// allocation on construction.
pub const MAX_LZMA1_DICT_SIZE: u32 = 256 * 1024 * 1024;

/// The number of bytes in the header.
pub const HEADER_LEN: usize = 5;

/// Why an LZMA1 properties header could not be read.
#[derive(Clone, Copy, PartialEq, Eq, Structural, Debug)]
pub enum StreamHeaderError {
    /// The input ends before the header does.
    UnexpectedEof,
    /// The header announces a dictionary of this many bytes, which is more than the limit.
    DictionaryTooLarge(u32),
}

/// The number that four bytes hold in little-endian order.
pub open spec fn little_endian(b0: u8, b1: u8, b2: u8, b3: u8) -> int {
    b0 + b1 * 0x100 + b2 * 0x1_0000 + b3 * 0x100_0000
}

/// The dictionary size in a header.
pub open spec fn dictionary_size(header: Seq<u8>) -> int {
    little_endian(header[1], header[2], header[3], header[4])
}

/// The decimal digits of a number.
pub open spec fn decimal(n: nat) -> Seq<char>
    decreases n,
{
    let last = seq![('0' as int + n % 10) as char];
    if n < 10 {
        last
    } else {
        decimal(n / 10) + last
    }
}

/// Adds the decimal digits of a number to the end of a text.
fn push_decimal(text: &mut String, n: u32)
    ensures
        final(text)@ == old(text)@ + decimal(n as nat),
    decreases n,
{
    if n >= 10 {
        push_decimal(text, n / 10);
    }
    proof {
        reveal_strlit("0");
        reveal_strlit("1");
        reveal_strlit("2");
        reveal_strlit("3");
        reveal_strlit("4");
        reveal_strlit("5");
        reveal_strlit("6");
        reveal_strlit("7");
        reveal_strlit("8");
        reveal_strlit("9");
    }
    let digit: &str = match n % 10 {
        0 => "0",
        1 => "1",
        2 => "2",
        3 => "3",
        4 => "4",
        5 => "5",
        6 => "6",
        7 => "7",
        8 => "8",
        _ => "9",
    };
    assert(digit@ =~= seq![('0' as int + n % 10) as char]);
    text.append(digit);
    assert(text@ =~= old(text)@ + decimal(n as nat));
}

impl StreamHeaderError {
    /// Returns a description of the error.
    pub fn message(&self) -> (message: String)
        ensures
            message@ == (match self {
                StreamHeaderError::UnexpectedEof => "failed to fill whole buffer"@,
                StreamHeaderError::DictionaryTooLarge(dict_size) => {
                    "LZMA1 dictionary size too large: "@ + decimal(*dict_size as nat) + " bytes"@
                },
            }),
    {
        match self {
            StreamHeaderError::UnexpectedEof => "failed to fill whole buffer".to_owned(),
            StreamHeaderError::DictionaryTooLarge(dict_size) => {
                let mut message: String = "LZMA1 dictionary size too large: ".to_owned();
                push_decimal(&mut message, *dict_size);
                message.append(" bytes");
                message
            },
        }
    }
}

/// The header of a raw LZMA1 stream.
pub struct LzmaStreamHeader;

impl LzmaStreamHeader {
    /// What a header of five bytes says: the properties byte and the dictionary size, unless that is
    /// over the limit.
    pub open spec fn decoded(header: Seq<u8>) -> Result<(u8, u32), StreamHeaderError> {
        let dict_size = dictionary_size(header) as u32;
        if dict_size > MAX_LZMA1_DICT_SIZE {
            Err(StreamHeaderError::DictionaryTooLarge(dict_size))
        } else {
            Ok((header[0], dict_size))
        }
    }

    /// What the header at the front of an input says, if the input is long enough to hold one.
    pub open spec fn at_front(input: Seq<u8>) -> Result<(u8, u32), StreamHeaderError> {
        if input.len() < HEADER_LEN {
            Err(StreamHeaderError::UnexpectedEof)
        } else {
            Self::decoded(input.take(HEADER_LEN as int))
        }
    }

    /// Takes the five bytes of a header apart.
    ///
    /// A properties byte, which encodes lc, lp and pb, is followed by the dictionary size as a
    /// little-endian number (same layout as the `.lzma` format). A header whose dictionary size
    /// exceeds [`MAX_LZMA1_DICT_SIZE`] is rejected: the decompressor allocates a buffer of the
    /// declared size, so such a header could otherwise force a multi-gigabyte allocation.
    pub fn parse(properties: [u8; 5]) -> (header: Result<(u8, u32), StreamHeaderError>)
        ensures
            header == Self::decoded(properties@),
            ({
                let dict_size = properties@[1] + properties@[2] * 0x100 + properties@[3] * 0x1_0000
                    + properties@[4] * 0x100_0000;
                if dict_size <= 0x1000_0000 {
                    header == Ok::<(u8, u32), StreamHeaderError>(
                        (properties@[0], dict_size as u32),
                    )
                } else {
                    header == Err::<(u8, u32), _>(
                        StreamHeaderError::DictionaryTooLarge(dict_size as u32),
                    )
                }
            }),
    {
        let props: u8 = properties[0];
        let dict_size: u32 = properties[1] as u32 + properties[2] as u32 * 0x100
            + properties[3] as u32 * 0x1_0000 + properties[4] as u32 * 0x100_0000;
        if dict_size > MAX_LZMA1_DICT_SIZE {
            return Err(StreamHeaderError::DictionaryTooLarge(dict_size));
        }
        Ok((props, dict_size))
    }

    /// Reads the 5-byte raw LZMA1 properties header used by Inno Setup's LZMA1 streams from the
    /// front of `src`, and leaves `src` at what follows it.
    ///
    /// Where `src` is too short, it is read to its end.
    pub fn read(src: &mut &[u8]) -> (header: Result<(u8, u32), StreamHeaderError>)
        ensures
            header == Self::at_front(old(src)@),
            old(src)@.len() < 5 ==> header == Err::<(u8, u32), _>(StreamHeaderError::UnexpectedEof),
            old(src)@.len() >= 5 ==> {
                let dict_size = old(src)@[1] + old(src)@[2] * 0x100 + old(src)@[3] * 0x1_0000 + old(
                    src,
                )@[4] * 0x100_0000;
                if dict_size <= 0x1000_0000 {
                    header == Ok::<(u8, u32), StreamHeaderError>(
                        (old(src)@[0], dict_size as u32),
                    )
                } else {
                    header == Err::<(u8, u32), _>(
                        StreamHeaderError::DictionaryTooLarge(dict_size as u32),
                    )
                }
            },
            final(src)@ == (if old(src)@.len() < HEADER_LEN {
                seq![]
            } else {
                old(src)@.skip(HEADER_LEN as int)
            }),
    {
        let input: &[u8] = *src;
        let len: usize = input.len();
        if len < HEADER_LEN {
            *src = slice_subrange(input, len, len);
            return Err(StreamHeaderError::UnexpectedEof);
        }
        *src = slice_subrange(input, HEADER_LEN, len);
        assert(src@ =~= input@.skip(HEADER_LEN as int));
        let properties: [u8; 5] = [input[0], input[1], input[2], input[3], input[4]];
        assert(properties@ =~= input@.take(HEADER_LEN as int));
        Self::parse(properties)
    }
}

/// The bytes of a header.
pub open spec fn header_bytes(props: u8, dict_size: u32) -> Seq<u8> {
    seq![
        props,
        (dict_size % 0x100) as u8,
        (dict_size / 0x100 % 0x100) as u8,
        (dict_size / 0x1_0000 % 0x100) as u8,
        (dict_size / 0x100_0000) as u8,
    ]
}

/// A header gives back what it was made of if its dictionary is within the limit, and is rejected
/// with its dictionary size if not.
pub proof fn headers_read_back(props: u8, dict_size: u32)
    ensures
        LzmaStreamHeader::decoded(header_bytes(props, dict_size)) == (if dict_size
            <= MAX_LZMA1_DICT_SIZE {
            Ok::<(u8, u32), StreamHeaderError>((props, dict_size))
        } else {
            Err(StreamHeaderError::DictionaryTooLarge(dict_size))
        }),
{
    assert(dictionary_size(header_bytes(props, dict_size)) == dict_size);
}

/// No header that is accepted asks for a dictionary over the limit.
pub proof fn accepted_dictionaries_are_small(header: Seq<u8>)
    requires
        header.len() == HEADER_LEN,
    ensures
        LzmaStreamHeader::decoded(header) matches Ok((props, dict_size)) ==> props == header[0]
            && dict_size <= MAX_LZMA1_DICT_SIZE && dict_size == dictionary_size(header),
{
}

/// Two inputs with the same first five bytes give the same header, whatever the pieces in which
/// their bytes arrive and whatever follows them; and neither is taken for one that is too short.
pub proof fn header_is_its_first_five_bytes(a: Seq<Seq<u8>>, b: Seq<Seq<u8>>)
    requires
        a.flatten().len() >= HEADER_LEN,
        b.flatten().len() >= HEADER_LEN,
        a.flatten().take(HEADER_LEN as int) == b.flatten().take(HEADER_LEN as int),
    ensures
        LzmaStreamHeader::at_front(a.flatten()) == LzmaStreamHeader::at_front(b.flatten()),
        LzmaStreamHeader::at_front(a.flatten()) != Err::<(u8, u32), _>(
            StreamHeaderError::UnexpectedEof,
        ),
{
}

/// Reading an input that begins with a header gives back what the header was made of, whatever
/// follows it: the properties byte and the dictionary size, whose bytes stand lowest first. A
/// dictionary of more than 256 MiB is refused with its size.
pub proof fn inputs_read_back(props: u8, b0: u8, b1: u8, b2: u8, b3: u8, rest: Seq<u8>)
    ensures
        ({
            let dict_size = b0 + b1 * 0x100 + b2 * 0x1_0000 + b3 * 0x100_0000;
            LzmaStreamHeader::at_front(seq![props, b0, b1, b2, b3] + rest) == (if dict_size
                <= 256 * 1024 * 1024 {
                Ok::<(u8, u32), StreamHeaderError>((props, dict_size as u32))
            } else {
                Err(StreamHeaderError::DictionaryTooLarge(dict_size as u32))
            })
        }),
{
    assert((seq![props, b0, b1, b2, b3] + rest).take(5) =~= seq![props, b0, b1, b2, b3]);
}

/// The bytes of a header at the front of an input read back, for every properties byte and every
/// dictionary size.
pub proof fn written_headers_read_back(props: u8, dict_size: u32, rest: Seq<u8>)
    ensures
        LzmaStreamHeader::at_front(header_bytes(props, dict_size) + rest) == (if dict_size
            <= 256 * 1024 * 1024 {
            Ok::<(u8, u32), StreamHeaderError>((props, dict_size))
        } else {
            Err(StreamHeaderError::DictionaryTooLarge(dict_size))
        }),
{
    assert((header_bytes(props, dict_size) + rest).take(5) =~= header_bytes(props, dict_size));
    headers_read_back(props, dict_size);
}

/// An input holds a header if and only if it has five bytes.
pub proof fn inputs_of_five_bytes_hold_a_header(input: Seq<u8>)
    ensures
        LzmaStreamHeader::at_front(input) == Err::<(u8, u32), _>(StreamHeaderError::UnexpectedEof)
            <==> input.len() < 5,
{
}

/// A number's digits are those of its tenth followed by its last digit, and a number below ten is
/// its own digit.
pub proof fn numbers_are_written_digit_by_digit(n: nat, digit: nat)
    requires
        digit < 10,
    ensures
        decimal(digit) == seq![(48 + digit) as char],
        n > 0 ==> decimal(10 * n + digit) == decimal(n).push((48 + digit) as char),
{
    if n > 0 {
        assert((10 * n + digit) / 10 == n);
        assert((10 * n + digit) % 10 == digit);
        assert(decimal(10 * n + digit) =~= decimal(n).push((48 + digit) as char));
    }
}

} // verus!
