use flate2::read::ZlibDecoder;
use lzma_rust2::LzmaReader;
use std::io::Read;
use vstd::prelude::*;
use vstd::slice::slice_subrange;

verus! {

/// `flate2::read::ZlibDecoder`, a reader that decompresses what it reads from another reader.
#[verifier::external_type_specification]
#[verifier::external_body]
#[verifier::reject_recursive_types(R)]
pub struct ExZlibDecoder<R>(ZlibDecoder<R>);

/// `lzma_rust2::LzmaReader`, a reader that decompresses what it reads from another reader.
#[verifier::external_type_specification]
#[verifier::external_body]
#[verifier::reject_recursive_types(R)]
pub struct ExLzmaReader<R>(LzmaReader<R>);

/// `std::io::Error`, which is handed on as it is.
#[verifier::external_type_specification]
#[verifier::external_body]
pub struct ExIoError(std::io::Error);

/// `ZlibDecoder::into_inner`: gives up the underlying reader. Nothing is claimed here: which reader
/// that is, `ZlibDecoder::get_ref` says.
pub assume_specification<R>[ ZlibDecoder::<R>::into_inner ](decoder: ZlibDecoder<R>) -> (reader: R)
;

/// `ZlibDecoder::get_ref`: shows the underlying reader, the one and only that `into_inner` would
/// give up.
pub assume_specification<R>[ ZlibDecoder::<R>::get_ref ](decoder: &ZlibDecoder<R>) -> (reader: &R)
    ensures
        call_ensures(ZlibDecoder::<R>::into_inner, (*decoder,), *reader),
        forall|other: R|
            call_ensures(ZlibDecoder::<R>::into_inner, (*decoder,), other) ==> other == *reader,
;

/// `ZlibDecoder::get_mut`: lends the underlying reader, the one and only that `into_inner` would
/// give up before the call and, with what is done to it through the reference, after. Where the
/// reader is left as it was, so is the decoder.
pub assume_specification<R>[ ZlibDecoder::<R>::get_mut ](decoder: &mut ZlibDecoder<R>) -> (reader:
    &mut R)
    ensures
        call_ensures(ZlibDecoder::<R>::into_inner, (*old(decoder),), *reader),
        forall|other: R|
            call_ensures(ZlibDecoder::<R>::into_inner, (*old(decoder),), other) ==> other
                == *reader,
        call_ensures(ZlibDecoder::<R>::into_inner, (*final(decoder),), *final(reader)),
        forall|other: R|
            call_ensures(ZlibDecoder::<R>::into_inner, (*final(decoder),), other) ==> other
                == *final(reader),
        *final(reader) == *reader ==> *final(decoder) == *old(decoder),
;

/// `LzmaReader::into_inner`: gives up the underlying reader. Nothing is claimed here: which reader
/// that is, `LzmaReader::inner` says.
pub assume_specification<R>[ LzmaReader::<R>::into_inner ](decoder: LzmaReader<R>) -> (reader: R)
;

/// `LzmaReader::inner`: shows the underlying reader, the one and only that `into_inner` would give
/// up.
pub assume_specification<R>[ LzmaReader::<R>::inner ](decoder: &LzmaReader<R>) -> (reader: &R)
    ensures
        call_ensures(LzmaReader::<R>::into_inner, (*decoder,), *reader),
        forall|other: R|
            call_ensures(LzmaReader::<R>::into_inner, (*decoder,), other) ==> other == *reader,
;

/// `LzmaReader::inner_mut`: lends the underlying reader, the one and only that `into_inner` would
/// give up before the call and, with what is done to it through the reference, after. Where the
/// reader is left as it was, so is the decoder.
pub assume_specification<R>[ LzmaReader::<R>::inner_mut ](decoder: &mut LzmaReader<R>) -> (reader:
    &mut R)
    ensures
        call_ensures(LzmaReader::<R>::into_inner, (*old(decoder),), *reader),
        forall|other: R|
            call_ensures(LzmaReader::<R>::into_inner, (*old(decoder),), other) ==> other == *reader,
        call_ensures(LzmaReader::<R>::into_inner, (*final(decoder),), *final(reader)),
        forall|other: R|
            call_ensures(LzmaReader::<R>::into_inner, (*final(decoder),), other) ==> other
                == *final(reader),
        *final(reader) == *reader ==> *final(decoder) == *old(decoder),
;

/// The decompressed bytes that a zlib decoder has yet to hand out.
pub uninterp spec fn zlib_contents(decoder: ZlibDecoder<&[u8]>) -> Seq<u8>;

/// The bytes that a zlib stream decompresses to, as far as it can be decompressed.
pub uninterp spec fn inflated(stream: Seq<u8>) -> Seq<u8>;

/// Whether every read of a zlib decoder returns.
///
/// A decoder that has met the end of its input too early makes no progress any more. Where its
/// reader is then replaced by one with more input, a read tries for ever.
pub uninterp spec fn zlib_returns(decoder: ZlibDecoder<&[u8]>) -> bool;

/// What a read of a zlib decoder into a buffer of the given length comes to: the result, the decoder
/// after it, and the bytes that it writes to the front of the buffer.
pub uninterp spec fn zlib_read(decoder: ZlibDecoder<&[u8]>, buf_len: nat) -> (
    Result<usize, std::io::Error>,
    ZlibDecoder<&[u8]>,
    Seq<u8>,
);

/// The decompressed bytes that an LZMA decoder has yet to hand out.
pub uninterp spec fn lzma_contents(decoder: LzmaReader<&[u8]>) -> Seq<u8>;

/// What a read of an LZMA decoder into a buffer of the given length comes to where memory does not
/// run out: the result, the decoder after it, and the bytes that it writes to the front of the
/// buffer.
pub uninterp spec fn lzma_read(decoder: LzmaReader<&[u8]>, buf_len: nat) -> (
    Result<usize, std::io::Error>,
    LzmaReader<&[u8]>,
    Seq<u8>,
);

/// Whether an error is of the kind `std::io::ErrorKind::OutOfMemory`.
pub uninterp spec fn out_of_memory(error: std::io::Error) -> bool;

/// Whether a buffer is as it was but for the bytes written to its front.
pub open spec fn overwrites(buf: Seq<u8>, written: Seq<u8>, buf_after: Seq<u8>) -> bool {
    &&& written.len() <= buf.len()
    &&& buf_after == written + buf.skip(written.len() as int)
}

/// What it is to read `n` bytes into a buffer: they come off the front of the contents and stand at
/// the front of the buffer, the rest of the buffer is left alone, and there are none only where the
/// contents or the buffer are empty.
pub open spec fn hands_out(
    contents: Seq<u8>,
    contents_after: Seq<u8>,
    buf: Seq<u8>,
    buf_after: Seq<u8>,
    n: usize,
) -> bool {
    &&& n <= buf.len()
    &&& n <= contents.len()
    &&& buf_after == contents.take(n as int) + buf.skip(n as int)
    &&& contents_after == contents.skip(n as int)
    &&& n == 0 <==> buf.len() == 0 || contents.len() == 0
}

/// Whether every read of an LZMA decoder into a buffer that is not empty fails for want of memory.
pub open spec fn lzma_starved(decoder: LzmaReader<&[u8]>) -> bool {
    forall|buf_len: nat|
        buf_len > 0 ==> ((#[trigger] lzma_read(decoder, buf_len)).0 matches Err(error)
            && out_of_memory(error))
}

/// Whether a read came to what was determined: the result, the decoder after it, and the bytes
/// written to the front of the buffer.
pub open spec fn comes_to<D>(
    determined: (Result<usize, std::io::Error>, D, Seq<u8>),
    result: Result<usize, std::io::Error>,
    decoder_after: D,
    buf: Seq<u8>,
    buf_after: Seq<u8>,
) -> bool {
    &&& result == determined.0
    &&& decoder_after == determined.1
    &&& overwrites(buf, determined.2, buf_after)
}

/// `ZlibDecoder::new`: a decoder at the front of a zlib stream.
///
/// It is claimed that the decoder has to hand out what the stream decompresses to, that the given
/// reader is the one and only that `into_inner` would give up, and that reads of it return.
#[verifier::external_body]
fn new_zlib<'a>(stream: &'a [u8]) -> (decoder: ZlibDecoder<&'a [u8]>)
    ensures
        zlib_contents(decoder) == inflated(stream@),
        zlib_returns(decoder),
        call_ensures(ZlibDecoder::<&'a [u8]>::into_inner, (decoder,), stream),
        forall|other: &'a [u8]|
            call_ensures(ZlibDecoder::<&'a [u8]>::into_inner, (decoder,), other) ==> other
                == stream,
{
    ZlibDecoder::new(stream)
}

/// `<ZlibDecoder as Read>::read`: decompresses into a buffer.
///
/// It is claimed that what the call does, whether it fails or not, is determined by the decoder and
/// the length of the buffer; that it writes to nothing but the front of the buffer; that a call that
/// does not fail hands out the contents in order, and reads no bytes only where the buffer is empty
/// or the stream has ended; and that reads go on to return after it, for a slice that has ended
/// stays so. On which streams the call fails, with which error, and what the decoder holds after
/// that, is left to `zlib_read`.
#[verifier::external_body]
fn read_zlib(decoder: &mut ZlibDecoder<&[u8]>, buf: &mut [u8]) -> (result: Result<
    usize,
    std::io::Error,
>)
    requires
        zlib_returns(*old(decoder)),
    ensures
        zlib_returns(*final(decoder)),
        comes_to(
            zlib_read(*old(decoder), old(buf)@.len()),
            result,
            *final(decoder),
            old(buf)@,
            final(buf)@,
        ),
        result matches Ok(n) ==> hands_out(
            zlib_contents(*old(decoder)),
            zlib_contents(*final(decoder)),
            old(buf)@,
            final(buf)@,
            n,
        ),
{
    decoder.read(buf)
}

/// `<LzmaReader as Read>::read`: decompresses into a buffer.
///
/// It is claimed that what the call does, whether it fails or not, is determined by the decoder and
/// the length of the buffer, unless there is no memory for the dictionary; that it writes to nothing
/// but the front of the buffer; that a call that does not fail hands out the contents in order, and
/// reads no bytes only where the buffer is empty or the stream has ended; and that it does not fail
/// on an empty buffer. On which streams the call fails, with which error, and what the decoder holds
/// after that, is left to `lzma_read`.
///
/// Where memory runs out, the call fails for that reason, and what the decoder and the buffer hold
/// is left unsaid. A decoder that was told to keep errors back until the bytes before them are
/// handed out may keep back this one, too: the call then succeeds, and the next one fails.
#[verifier::external_body]
fn read_lzma(decoder: &mut LzmaReader<&[u8]>, buf: &mut [u8]) -> (result: Result<
    usize,
    std::io::Error,
>)
    ensures
        final(buf)@.len() == old(buf)@.len(),
        match result {
            Ok(_) => comes_to(
                lzma_read(*old(decoder), old(buf)@.len()),
                result,
                *final(decoder),
                old(buf)@,
                final(buf)@,
            ) || result == lzma_read(*old(decoder), old(buf)@.len()).0
                && lzma_starved(*final(decoder)),
            Err(error) => old(buf)@.len() > 0 && (comes_to(
                lzma_read(*old(decoder), old(buf)@.len()),
                result,
                *final(decoder),
                old(buf)@,
                final(buf)@,
            ) || out_of_memory(error)),
        },
        result matches Ok(n) ==> hands_out(
            lzma_contents(*old(decoder)),
            lzma_contents(*final(decoder)),
            old(buf)@,
            final(buf)@,
            n,
        ),
{
    decoder.read(buf)
}

/// Copies from the front of the source as much as the buffer holds.
fn read_stored(src: &mut &[u8], buf: &mut [u8]) -> (n: usize)
    ensures
        n == if old(buf)@.len() <= old(src)@.len() {
            old(buf)@.len()
        } else {
            old(src)@.len()
        },
        final(src)@ == old(src)@.skip(n as int),
        final(buf)@ == old(src)@.take(n as int) + old(buf)@.skip(n as int),
{
    let input: &[u8] = *src;
    let n: usize = if buf.len() <= input.len() {
        buf.len()
    } else {
        input.len()
    };
    let mut i: usize = 0;
    while i < n
        invariant
            i <= n,
            n <= input@.len(),
            n <= buf@.len() == old(buf)@.len(),
            buf@ == input@.take(i as int) + old(buf)@.skip(i as int),
        decreases n - i,
    {
        buf[i] = input[i];
        i = i + 1;
        assert(buf@ =~= input@.take(i as int) + old(buf)@.skip(i as int));
    }
    *src = slice_subrange(input, n, input.len());
    assert(src@ =~= input@.skip(n as int));
    n
}

/// A reader of data that are stored as they are or compressed.
#[verifier::reject_recursive_types(R)]
pub enum Decoder<R> {
    Stored(R),
    Zlib(ZlibDecoder<R>),
    LZMA1(LzmaReader<R>),
}

impl<R> Decoder<R> {
    /// The underlying reader.
    pub open spec fn reader(self) -> R {
        match self {
            Decoder::Stored(reader) => reader,
            Decoder::Zlib(decoder) => choose|reader: R|
                call_ensures(ZlibDecoder::<R>::into_inner, (decoder,), reader),
            Decoder::LZMA1(decoder) => choose|reader: R|
                call_ensures(LzmaReader::<R>::into_inner, (decoder,), reader),
        }
    }

    /// Whether two streams are compressed in the same way.
    pub open spec fn same_kind(self, other: Self) -> bool {
        match self {
            Decoder::Stored(_) => other is Stored,
            Decoder::Zlib(_) => other is Zlib,
            Decoder::LZMA1(_) => other is LZMA1,
        }
    }

    /// Returns `true` if the underlying stream is compressed.
    #[must_use]
    #[inline]
    pub fn is_compressed(&self) -> (compressed: bool)
        ensures
            compressed == (self is Zlib || self is LZMA1),
    {
        !self.is_stored()
    }

    /// Returns `true` if the stream is "stored". I.e, it is not compressed.
    #[must_use]
    #[inline]
    pub fn is_stored(&self) -> (stored: bool)
        ensures
            stored == (self is Stored),
    {
        matches!(self, Decoder::Stored(_))
    }

    /// Returns `true` if the stream is compressed with zlib.
    #[must_use]
    #[inline]
    pub fn is_zlib(&self) -> (zlib: bool)
        ensures
            zlib == (self is Zlib),
    {
        matches!(self, Decoder::Zlib(_))
    }

    /// Returns `true` if the stream is compressed with LZMA 1.
    #[must_use]
    #[inline]
    pub fn is_lzma1(&self) -> (lzma1: bool)
        ensures
            lzma1 == (self is LZMA1),
    {
        matches!(self, Decoder::LZMA1(_))
    }

    /// Gets a reference to the underlying reader.
    ///
    /// It is inadvisable to directly read from the underlying reader.
    #[must_use]
    pub fn get_ref(&self) -> (reader: &R)
        ensures
            *reader == self.reader(),
    {
        match self {
            Decoder::Stored(reader) => reader,
            Decoder::Zlib(decoder) => decoder.get_ref(),
            Decoder::LZMA1(decoder) => decoder.inner(),
        }
    }

    /// Gets a mutable reference to the underlying reader.
    ///
    /// It is inadvisable to directly read from the underlying reader.
    #[must_use]
    pub fn get_mut(&mut self) -> (reader: &mut R)
        ensures
            *reader == old(self).reader(),
            *final(reader) == final(self).reader(),
            old(self).same_kind(*final(self)),
            *final(reader) == *reader ==> *final(self) == *old(self),
    {
        match self {
            Decoder::Stored(reader) => reader,
            Decoder::Zlib(decoder) => decoder.get_mut(),
            Decoder::LZMA1(decoder) => decoder.inner_mut(),
        }
    }

    /// Consumes this decoder, returning the underlying reader.
    #[must_use]
    pub fn into_inner(self) -> (reader: R)
        ensures
            reader == self.reader(),
    {
        match self {
            Decoder::Stored(reader) => reader,
            Decoder::Zlib(decoder) => {
                // That the decoder shows one reader settles which one it gives up.
                let _shown: &R = decoder.get_ref();
                decoder.into_inner()
            },
            Decoder::LZMA1(decoder) => {
                let _shown: &R = decoder.inner();
                decoder.into_inner()
            },
        }
    }
}

impl<'a> Decoder<&'a [u8]> {
    /// The bytes that are yet to be read.
    pub open spec fn contents(self) -> Seq<u8> {
        match self {
            Decoder::Stored(reader) => reader@,
            Decoder::Zlib(decoder) => zlib_contents(decoder),
            Decoder::LZMA1(decoder) => lzma_contents(decoder),
        }
    }

    /// Whether every read returns.
    pub open spec fn always_returns(self) -> bool {
        self matches Decoder::Zlib(decoder) ==> zlib_returns(decoder)
    }

    /// Returns a decoder at the front of a zlib stream.
    pub fn zlib(stream: &'a [u8]) -> (decoder: Self)
        ensures
            decoder is Zlib,
            decoder.reader() == stream,
            decoder.contents() == inflated(stream@),
            decoder.always_returns(),
    {
        Decoder::Zlib(new_zlib(stream))
    }

    /// Reads some bytes into a buffer and returns how many.
    ///
    /// This is one read of what is underneath, with the whole buffer, and its result is handed on.
    /// Reading what is stored always succeeds and fills the buffer as far as the contents go.
    ///
    /// A zlib decoder whose reader was replaced after it met the end of its input may not return.
    pub fn read(&mut self, buf: &mut [u8]) -> (result: Result<usize, std::io::Error>)
        requires
            old(self).always_returns(),
        ensures
            final(self).always_returns(),
            old(self).same_kind(*final(self)),
            final(buf)@.len() == old(buf)@.len(),
            result matches Ok(n) ==> hands_out(
                old(self).contents(),
                final(self).contents(),
                old(buf)@,
                final(buf)@,
                n,
            ),
            match (*old(self), *final(self)) {
                (Decoder::Stored(reader), Decoder::Stored(reader_after)) => result matches Ok(n)
                    && n == (if old(buf)@.len() <= reader@.len() {
                    old(buf)@.len()
                } else {
                    reader@.len()
                }) && reader_after@ == reader@.skip(n as int) && final(buf)@ == reader@.take(
                    n as int,
                ) + old(buf)@.skip(n as int),
                (Decoder::Zlib(decoder), Decoder::Zlib(decoder_after)) => comes_to(
                    zlib_read(decoder, old(buf)@.len()),
                    result,
                    decoder_after,
                    old(buf)@,
                    final(buf)@,
                ),
                (Decoder::LZMA1(decoder), Decoder::LZMA1(decoder_after)) => match result {
                    Ok(_) => comes_to(
                        lzma_read(decoder, old(buf)@.len()),
                        result,
                        decoder_after,
                        old(buf)@,
                        final(buf)@,
                    ) || result == lzma_read(decoder, old(buf)@.len()).0
                        && lzma_starved(decoder_after),
                    Err(error) => old(buf)@.len() > 0 && (comes_to(
                        lzma_read(decoder, old(buf)@.len()),
                        result,
                        decoder_after,
                        old(buf)@,
                        final(buf)@,
                    ) || out_of_memory(error)),
                },
                _ => false,
            },
    {
        match self {
            Decoder::Stored(reader) => Ok(read_stored(reader, buf)),
            Decoder::Zlib(decoder) => read_zlib(decoder, buf),
            Decoder::LZMA1(decoder) => read_lzma(decoder, buf),
        }
    }
}

/// A stream is compressed in exactly one of two ways, or stored.
pub proof fn one_kind_of_stream<R>(decoder: Decoder<R>)
    ensures
        decoder is Stored <==> !(decoder is Zlib || decoder is LZMA1),
        !(decoder is Zlib && decoder is LZMA1),
{
}

/// Reads hand out the contents in order, without gaps or repetitions: what successive reads gave,
/// put together and followed by what is yet to be read, are the contents before the first of them.
pub proof fn reads_hand_out_the_contents(
    decoders: Seq<Decoder<&[u8]>>,
    bufs: Seq<Seq<u8>>,
    bufs_after: Seq<Seq<u8>>,
    counts: Seq<usize>,
)
    requires
        decoders.len() == counts.len() + 1,
        bufs.len() == counts.len(),
        bufs_after.len() == counts.len(),
        forall|i: int|
            0 <= i < counts.len() ==> hands_out(
                #[trigger] decoders[i].contents(),
                decoders[i + 1].contents(),
                bufs[i],
                bufs_after[i],
                counts[i],
            ),
    ensures
        decoders[0].contents() == Seq::new(
            counts.len(),
            |i: int| bufs_after[i].take(counts[i] as int),
        ).flatten() + decoders.last().contents(),
    decreases counts.len(),
{
    let reads = Seq::new(counts.len(), |i: int| bufs_after[i].take(counts[i] as int));
    if counts.len() == 0 {
        assert(reads.flatten() =~= seq![]);
    } else {
        let first = decoders[0].contents();
        assert(reads[0] =~= first.take(counts[0] as int));
        assert(first =~= first.take(counts[0] as int) + first.skip(counts[0] as int));
        let rest = Seq::new(
            (counts.len() - 1) as nat,
            |i: int| bufs_after.drop_first()[i].take(counts.drop_first()[i] as int),
        );
        assert forall|i: int| 0 <= i < counts.drop_first().len() implies hands_out(
            #[trigger] decoders.drop_first()[i].contents(),
            decoders.drop_first()[i + 1].contents(),
            bufs.drop_first()[i],
            bufs_after.drop_first()[i],
            counts.drop_first()[i],
        ) by {
            assert(decoders.drop_first()[i] == decoders[i + 1]);
        }
        reads_hand_out_the_contents(
            decoders.drop_first(),
            bufs.drop_first(),
            bufs_after.drop_first(),
            counts.drop_first(),
        );
        assert(reads.drop_first() =~= rest);
        assert(decoders[0].contents() =~= reads.flatten() + decoders.last().contents());
    }
}

/// A read that comes to what was determined gives the determined result, leaves the determined
/// decoder, and puts the determined bytes at the front of the buffer and nothing behind them.
pub proof fn determined_reads_are_handed_on<D>(
    determined: (Result<usize, std::io::Error>, D, Seq<u8>),
    result: Result<usize, std::io::Error>,
    decoder_after: D,
    buf: Seq<u8>,
    buf_after: Seq<u8>,
)
    ensures
        comes_to(determined, result, decoder_after, buf, buf_after) <==> {
            let (expected, decoder, written) = determined;
            &&& result == expected
            &&& decoder_after == decoder
            &&& written.len() <= buf.len()
            &&& buf_after.len() == buf.len()
            &&& forall|i: int| 0 <= i < written.len() ==> #[trigger] buf_after[i] == written[i]
            &&& forall|i: int|
                written.len() <= i < buf.len() ==> #[trigger] buf_after[i] == buf[i]
        },
{
    let (expected, decoder, written) = determined;
    if written.len() <= buf.len() && buf_after.len() == buf.len() && (forall|i: int|
        0 <= i < written.len() ==> #[trigger] buf_after[i] == written[i]) && (forall|i: int|
        written.len() <= i < buf.len() ==> #[trigger] buf_after[i] == buf[i]) {
        assert(buf_after =~= written + buf.skip(written.len() as int));
    }
}

/// What a read hands out, followed by what is yet to be read, is what was to be read before. The
/// buffer keeps its length and whatever stands behind the bytes that were read.
pub proof fn handed_out_bytes_come_off_the_front(
    contents: Seq<u8>,
    contents_after: Seq<u8>,
    buf: Seq<u8>,
    buf_after: Seq<u8>,
    n: usize,
)
    requires
        hands_out(contents, contents_after, buf, buf_after, n),
    ensures
        n <= buf.len(),
        buf_after.len() == buf.len(),
        buf_after.take(n as int) + contents_after == contents,
        buf_after.skip(n as int) == buf.skip(n as int),
        n == 0 <==> buf.len() == 0 || contents.len() == 0,
{
    assert(buf_after.take(n as int) + contents_after =~= contents);
    assert(buf_after.skip(n as int) =~= buf.skip(n as int));
}

/// Reads of stored data and of LZMA data always return, and reads of zlib data as their decoder does.
/// The contents of stored data are the data.
pub proof fn kinds_decide_what_is_read(decoder: Decoder<&[u8]>)
    ensures
        match decoder {
            Decoder::Stored(reader) => decoder.always_returns() && decoder.contents() == reader@,
            Decoder::Zlib(zlib) => decoder.always_returns() == zlib_returns(zlib)
                && decoder.contents() == zlib_contents(zlib),
            Decoder::LZMA1(lzma) => decoder.always_returns() && decoder.contents()
                == lzma_contents(lzma),
        },
{
}

/// Streams are of the same kind if and only if both are stored, both zlib or both LZMA 1.
pub proof fn same_kinds_are_compressed_alike<R>(a: Decoder<R>, b: Decoder<R>)
    ensures
        a.same_kind(b) <==> (a is Stored && b is Stored) || (a is Zlib && b is Zlib) || (a is LZMA1
            && b is LZMA1),
{
}

} // verus!
