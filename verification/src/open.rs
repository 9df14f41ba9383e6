use crate::entry::Format;
use crate::error::InnoError;
use crate::inno::{Contents, Inno};
use crate::loader::SetupLoader;
use crate::plan::{answered_from, completes, reading_gives_back_the_contents};
use crate::stream::{Outcome, Progress, Reply, Request, StreamReading, StreamState};
use crate::version::InnoVersion;
use vstd::prelude::*;

verus! {

/// What has to be done next to open an installer.
#[derive(Clone, Copy, PartialEq, Eq, Structural, Debug)]
pub enum OpenRequest {
    /// Find the loader table.
    SetupLoader,
    /// Go to a position from the start of the installer.
    Seek(u64),
    /// Read the version.
    Version,
    /// Tell the position after the version.
    Position,
    /// Do what the reading of the streams asks for. See [`Opening::reading`].
    Stream(Request),
}

/// What came of a request.
pub enum OpenReply<F: Format, E> {
    SetupLoader(SetupLoader),
    Sought,
    /// The version that the installer names. Inno Setup sometimes kept the version number when it
    /// changed the format; such a version comes with the others that the installer may be of.
    Version(InnoVersion, Option<Vec<InnoVersion>>),
    Position(u64),
    Stream(Reply<F, E>),
    /// The reader underneath failed.
    Failed(E),
}

impl<F: Format, E> OpenReply<F, E> {
    /// Whether this is a reply to the request.
    pub open spec fn spec_answers(&self, request: OpenRequest) -> bool {
        match self {
            OpenReply::SetupLoader(_) => request is SetupLoader,
            OpenReply::Sought => request is Seek,
            OpenReply::Version(_, _) => request is Version,
            OpenReply::Position(_) => request is Position,
            OpenReply::Stream(reply) => request matches OpenRequest::Stream(asked)
                && reply.answers(asked),
            OpenReply::Failed(_) => !(request is Stream),
        }
    }

    /// Returns `true` if this is a reply to the request.
    #[verifier::when_used_as_spec(spec_answers)]
    pub fn answers(&self, request: OpenRequest) -> (yes: bool)
        ensures
            yes == self.spec_answers(request),
    {
        match (self, request) {
            (OpenReply::SetupLoader(_), OpenRequest::SetupLoader) => true,
            (OpenReply::Sought, OpenRequest::Seek(_)) => true,
            (OpenReply::Version(_, _), OpenRequest::Version) => true,
            (OpenReply::Position(_), OpenRequest::Position) => true,
            (OpenReply::Stream(reply), OpenRequest::Stream(asked)) => reply.answers(asked),
            (OpenReply::Failed(_), OpenRequest::Stream(_)) => false,
            (OpenReply::Failed(_), _) => true,
            _ => false,
        }
    }
}

/// How far the opening of an installer has come.
#[verifier::ext_equal]
pub ghost enum OpenState<F: Format> {
    /// The loader table is to be found.
    SetupLoader,
    /// The header is to be gone to.
    HeaderSeek(SetupLoader),
    /// The version is to be read.
    Version(SetupLoader),
    /// The position after the version is to be kept, for a version with others to try.
    Position(SetupLoader, InnoVersion, Seq<InnoVersion>),
    /// The streams are being read, with a position to come back to and versions to try after that.
    Streams(StreamState<F>, Option<(u64, Seq<InnoVersion>)>),
    /// The kept position is to be gone back to, for the next version and those after it.
    Rewind(SetupLoader, InnoVersion, u64, Seq<InnoVersion>),
}

/// What a reply leads to.
#[verifier::ext_equal]
pub ghost enum OpenOutcome<F: Format, E> {
    /// There is more to do.
    Opening(OpenState<F>),
    /// The installer is open.
    Done(Contents<F>),
    /// The installer cannot be opened.
    Failed(InnoError<E>),
    /// The reply was to another request: nothing has changed.
    Unexpected(OpenState<F>, OpenReply<F, E>),
}

impl<F: Format> OpenState<F> {
    /// What has to be done next.
    pub open spec fn request(self) -> OpenRequest {
        match self {
            OpenState::SetupLoader => OpenRequest::SetupLoader,
            OpenState::HeaderSeek(setup_loader) => OpenRequest::Seek(
                setup_loader.header_position() as u64,
            ),
            OpenState::Version(_) => OpenRequest::Version,
            OpenState::Position(_, _, _) => OpenRequest::Position,
            OpenState::Streams(state, _) => OpenRequest::Stream(state.request()),
            OpenState::Rewind(_, _, position, _) => OpenRequest::Seek(position),
        }
    }

    /// What a reply leads to.
    pub open spec fn next<E>(self, reply: OpenReply<F, E>) -> OpenOutcome<F, E> {
        match (self, reply) {
            // A file without a loader table is no installer, whatever the reason.
            (OpenState::SetupLoader, OpenReply::SetupLoader(setup_loader)) => OpenOutcome::Opening(
                OpenState::HeaderSeek(setup_loader),
            ),
            (OpenState::SetupLoader, OpenReply::Failed(_)) => OpenOutcome::Failed(
                InnoError::NotInnoFile,
            ),
            (OpenState::HeaderSeek(setup_loader), OpenReply::Sought) => OpenOutcome::Opening(
                OpenState::Version(setup_loader),
            ),
            (OpenState::Version(setup_loader), OpenReply::Version(version, candidates)) => {
                if !version.is_supported() {
                    OpenOutcome::Failed(InnoError::UnsupportedVersion(version))
                } else {
                    OpenOutcome::Opening(
                        match candidates {
                            Some(candidates) => OpenState::Position(
                                setup_loader,
                                version,
                                candidates@,
                            ),
                            None => OpenState::Streams(
                                StreamState::start(setup_loader, version),
                                None,
                            ),
                        },
                    )
                }
            },
            (
                OpenState::Position(setup_loader, version, candidates),
                OpenReply::Position(position),
            ) => OpenOutcome::Opening(
                OpenState::Streams(
                    StreamState::start(setup_loader, version),
                    Some((position, candidates)),
                ),
            ),
            (OpenState::Streams(state, retry), OpenReply::Stream(reply)) => {
                match state.next(reply) {
                    Outcome::Reading(next) => OpenOutcome::Opening(OpenState::Streams(next, retry)),
                    Outcome::Done(contents) => OpenOutcome::Done(contents),
                    Outcome::Failed(error) => match retry {
                        Some((position, candidates)) if candidates.len() > 0 => {
                            OpenOutcome::Opening(
                                OpenState::Rewind(
                                    state.setup_loader,
                                    candidates[0],
                                    position,
                                    candidates.drop_first(),
                                ),
                            )
                        },
                        _ => OpenOutcome::Failed(error),
                    },
                    Outcome::Unexpected(same, reply) => OpenOutcome::Unexpected(
                        OpenState::Streams(same, retry),
                        OpenReply::Stream(reply),
                    ),
                }
            },
            (OpenState::Rewind(setup_loader, version, position, candidates), OpenReply::Sought) => {
                OpenOutcome::Opening(
                    OpenState::Streams(
                        StreamState::start(setup_loader, version),
                        Some((position, candidates)),
                    ),
                )
            },
            (state, reply) => match reply {
                OpenReply::Failed(error) if reply.answers(state.request()) => OpenOutcome::Failed(
                    InnoError::Read(error),
                ),
                _ => OpenOutcome::Unexpected(state, reply),
            },
        }
    }
}

/// The opening of an installer, one request at a time.
///
/// The code that owns the reader asks for the next [`OpenRequest`], does it, and hands over the
/// [`OpenReply`], until the installer is open or has turned out to be unreadable.
pub enum Opening<F: Format> {
    SetupLoader,
    HeaderSeek(SetupLoader),
    Version(SetupLoader),
    Position(SetupLoader, InnoVersion, Vec<InnoVersion>),
    Streams(StreamReading<F>, Option<(u64, Vec<InnoVersion>)>),
    Rewind(SetupLoader, InnoVersion, u64, Vec<InnoVersion>),
}

impl<F: Format> View for Opening<F> {
    type V = OpenState<F>;

    open spec fn view(&self) -> OpenState<F> {
        match self {
            Opening::SetupLoader => OpenState::SetupLoader,
            Opening::HeaderSeek(setup_loader) => OpenState::HeaderSeek(*setup_loader),
            Opening::Version(setup_loader) => OpenState::Version(*setup_loader),
            Opening::Position(setup_loader, version, candidates) => OpenState::Position(
                *setup_loader,
                *version,
                candidates@,
            ),
            Opening::Streams(reading, retry) => OpenState::Streams(
                reading@,
                match retry {
                    Some((position, candidates)) => Some((*position, candidates@)),
                    None => None,
                },
            ),
            Opening::Rewind(setup_loader, version, position, candidates) => OpenState::Rewind(
                *setup_loader,
                *version,
                *position,
                candidates@,
            ),
        }
    }
}

/// What a reply leads to.
pub enum OpenProgress<F: Format, E> {
    /// There is more to do.
    Opening(Opening<F>),
    /// The installer is open.
    Done(Inno<F>),
    /// The installer cannot be opened.
    Failed(InnoError<E>),
    /// The reply was to another request: nothing has changed.
    Unexpected(Opening<F>, OpenReply<F, E>),
}

impl<F: Format, E> View for OpenProgress<F, E> {
    type V = OpenOutcome<F, E>;

    open spec fn view(&self) -> OpenOutcome<F, E> {
        match self {
            OpenProgress::Opening(opening) => OpenOutcome::Opening(opening@),
            OpenProgress::Done(inno) => OpenOutcome::Done(inno@),
            OpenProgress::Failed(error) => OpenOutcome::Failed(*error),
            OpenProgress::Unexpected(opening, reply) => OpenOutcome::Unexpected(opening@, *reply),
        }
    }
}

impl<F: Format> Opening<F> {
    /// Returns what has to be done next.
    pub fn request(&self) -> (request: OpenRequest)
        ensures
            request == self@.request(),
    {
        match self {
            Opening::SetupLoader => OpenRequest::SetupLoader,
            Opening::HeaderSeek(setup_loader) => OpenRequest::Seek(setup_loader.seek_position()),
            Opening::Version(_) => OpenRequest::Version,
            Opening::Position(_, _, _) => OpenRequest::Position,
            Opening::Streams(reading, _) => OpenRequest::Stream(reading.request()),
            Opening::Rewind(_, _, position, _) => OpenRequest::Seek(*position),
        }
    }

    /// Returns the reading of the streams, while it goes on.
    pub fn reading(&self) -> (reading: Option<&StreamReading<F>>)
        ensures
            match reading {
                Some(reading) => self@ matches OpenState::Streams(state, _) && reading@ == state,
                None => !(self@ is Streams),
            },
    {
        match self {
            Opening::Streams(reading, _) => Some(reading),
            _ => None,
        }
    }

    /// Takes the reply to the present request.
    pub fn reply<E>(self, reply: OpenReply<F, E>) -> (progress: OpenProgress<F, E>)
        ensures
            progress@ == self@.next(reply),
            progress matches OpenProgress::Done(inno) ==> inno@.well_formed(),
    {
        match (self, reply) {
            (Opening::SetupLoader, OpenReply::SetupLoader(setup_loader)) => OpenProgress::Opening(
                Opening::HeaderSeek(setup_loader),
            ),
            (Opening::SetupLoader, OpenReply::Failed(_)) => OpenProgress::Failed(
                InnoError::NotInnoFile,
            ),
            (Opening::HeaderSeek(setup_loader), OpenReply::Sought) => OpenProgress::Opening(
                Opening::Version(setup_loader),
            ),
            (Opening::Version(setup_loader), OpenReply::Version(version, candidates)) => {
                if version.is_newer_than(&InnoVersion::max_supported()) {
                    OpenProgress::Failed(InnoError::UnsupportedVersion(version))
                } else {
                    match candidates {
                        Some(candidates) => OpenProgress::Opening(
                            Opening::Position(setup_loader, version, candidates),
                        ),
                        None => OpenProgress::Opening(
                            Opening::Streams(Inno::read_stream(setup_loader, version), None),
                        ),
                    }
                }
            },
            (
                Opening::Position(setup_loader, version, candidates),
                OpenReply::Position(position),
            ) => OpenProgress::Opening(
                Opening::Streams(
                    Inno::read_stream(setup_loader, version),
                    Some((position, candidates)),
                ),
            ),
            (Opening::Streams(reading, retry), OpenReply::Stream(reply)) => {
                let setup_loader = reading.setup_loader();
                match reading.reply(reply) {
                    Progress::Reading(next) => OpenProgress::Opening(Opening::Streams(next, retry)),
                    Progress::Done(inno) => OpenProgress::Done(inno),
                    Progress::Failed(error) => match retry {
                        Some((position, candidates)) => {
                            let mut rest = candidates;
                            if rest.len() > 0 {
                                let next = rest.remove(0);
                                assert(rest@ =~= candidates@.drop_first());
                                OpenProgress::Opening(
                                    Opening::Rewind(setup_loader, next, position, rest),
                                )
                            } else {
                                OpenProgress::Failed(error)
                            }
                        },
                        None => OpenProgress::Failed(error),
                    },
                    Progress::Unexpected(same, reply) => OpenProgress::Unexpected(
                        Opening::Streams(same, retry),
                        OpenReply::Stream(reply),
                    ),
                }
            },
            (Opening::Rewind(setup_loader, version, position, candidates), OpenReply::Sought) => {
                OpenProgress::Opening(
                    Opening::Streams(
                        Inno::read_stream(setup_loader, version),
                        Some((position, candidates)),
                    ),
                )
            },
            (opening, reply) => {
                let answered: bool = reply.answers(opening.request());
                match reply {
                    OpenReply::Failed(error) if answered => OpenProgress::Failed(
                        InnoError::Read(error),
                    ),
                    reply => OpenProgress::Unexpected(opening, reply),
                }
            },
        }
    }
}

impl<F: Format> Inno<F> {
    /// Begins to open an installer.
    pub fn new() -> (opening: Opening<F>)
        ensures
            opening@ == OpenState::<F>::SetupLoader,
    {
        Opening::SetupLoader
    }

    /// Begins to read the streams of an installer as those of a version.
    pub fn read_stream(setup_loader: SetupLoader, inno_version: InnoVersion) -> (reading:
        StreamReading<F>)
        ensures
            reading@ == StreamState::<F>::start(setup_loader, inno_version),
            reading@.well_formed(),
    {
        StreamReading::new(setup_loader, inno_version)
    }
}

/// What a sequence of replies leads to. What comes after the end is not looked at.
pub open spec fn outcome<F: Format, E>(
    state: OpenState<F>,
    replies: Seq<OpenReply<F, E>>,
) -> OpenOutcome<F, E>
    decreases replies.len(),
{
    if replies.len() == 0 {
        OpenOutcome::Opening(state)
    } else {
        match state.next(replies[0]) {
            OpenOutcome::Opening(next) => outcome(next, replies.drop_first()),
            end => end,
        }
    }
}

/// Whether the replies, one by one, end the reading of the streams with the error.
pub open spec fn fails<F: Format, E>(
    state: StreamState<F>,
    replies: Seq<Reply<F, E>>,
    error: InnoError<E>,
) -> bool
    decreases replies.len(),
{
    replies.len() > 0 && match state.next(replies[0]) {
        Outcome::Reading(next) => fails(next, replies.drop_first(), error),
        Outcome::Failed(failed) => replies.len() == 1 && failed == error,
        _ => false,
    }
}

/// Replies to the reading of the streams as replies to the opening.
pub open spec fn stream_replies<F: Format, E>(replies: Seq<Reply<F, E>>) -> Seq<OpenReply<F, E>> {
    replies.map_values(|reply: Reply<F, E>| OpenReply::Stream(reply))
}

/// Attempts to read the streams, each followed by going back.
pub open spec fn attempts_and_returns<F: Format, E>(
    attempts: Seq<Seq<Reply<F, E>>>,
) -> Seq<OpenReply<F, E>>
    decreases attempts.len(),
{
    if attempts.len() == 0 {
        seq![]
    } else {
        stream_replies(attempts[0]) + (seq![OpenReply::Sought] + attempts_and_returns(
            attempts.drop_first(),
        ))
    }
}

/// Whether every attempt fails, with its error, to read the streams as those of its version.
pub open spec fn all_fail<F: Format, E>(
    setup_loader: SetupLoader,
    versions: Seq<InnoVersion>,
    attempts: Seq<Seq<Reply<F, E>>>,
    errors: Seq<InnoError<E>>,
) -> bool {
    &&& attempts.len() == errors.len()
    &&& attempts.len() <= versions.len()
    &&& forall|i: int|
        0 <= i < attempts.len() ==> fails(
            StreamState::start(setup_loader, versions[i]),
            #[trigger] attempts[i],
            errors[i],
        )
}

/// A failed attempt leads to the next candidate, or to its error where there is none.
proof fn lemma_failed_attempt<F: Format, E>(
    state: StreamState<F>,
    retry: Option<(u64, Seq<InnoVersion>)>,
    replies: Seq<Reply<F, E>>,
    error: InnoError<E>,
    rest: Seq<OpenReply<F, E>>,
)
    requires
        fails(state, replies, error),
    ensures
        outcome(OpenState::Streams(state, retry), stream_replies(replies) + rest) == (match retry {
            Some((position, candidates)) if candidates.len() > 0 => outcome(
                OpenState::Rewind(
                    state.setup_loader,
                    candidates[0],
                    position,
                    candidates.drop_first(),
                ),
                rest,
            ),
            _ => OpenOutcome::Failed(error),
        }),
    decreases replies.len(),
{
    let all = stream_replies(replies) + rest;
    assert(all[0] == OpenReply::<F, E>::Stream(replies[0]));
    assert(all.drop_first() =~= stream_replies(replies.drop_first()) + rest);
    match state.next(replies[0]) {
        Outcome::Reading(next) => {
            lemma_failed_attempt(next, retry, replies.drop_first(), error, rest);
        },
        _ => {
            assert(all.drop_first() =~= rest);
        },
    }
}

/// A complete reading leads to the installer.
proof fn lemma_complete_reading<F: Format, E>(
    state: StreamState<F>,
    retry: Option<(u64, Seq<InnoVersion>)>,
    replies: Seq<Reply<F, E>>,
    contents: Contents<F>,
)
    requires
        completes(state, replies, contents),
    ensures
        outcome(OpenState::Streams(state, retry), stream_replies(replies)) == OpenOutcome::<
            F,
            E,
        >::Done(contents),
    decreases replies.len(),
{
    let all = stream_replies(replies);
    assert(all[0] == OpenReply::<F, E>::Stream(replies[0]));
    assert(all.drop_first() =~= stream_replies(replies.drop_first()));
    match state.next(replies[0]) {
        Outcome::Reading(next) => {
            lemma_complete_reading(next, retry, replies.drop_first(), contents);
        },
        _ => {},
    }
}

/// The streams of an installer whose version is ambiguous are read as those of that version first,
/// and the position after the version is kept, together with the candidates.
pub proof fn ambiguous_version_keeps_the_position<F: Format, E>(
    setup_loader: SetupLoader,
    version: InnoVersion,
    candidates: Seq<InnoVersion>,
    position: u64,
    rest: Seq<OpenReply<F, E>>,
)
    ensures
        outcome(
            OpenState::<F>::Position(setup_loader, version, candidates),
            seq![OpenReply::<F, E>::Position(position)] + rest,
        ) == outcome(
            OpenState::Streams(
                StreamState::start(setup_loader, version),
                Some((position, candidates)),
            ),
            rest,
        ),
{
    let replies = seq![OpenReply::<F, E>::Position(position)] + rest;
    assert(replies.drop_first() =~= rest);
}

/// A failed attempt, as long as there is a candidate left, is followed by going back to the kept
/// position: every attempt begins where the first one began.
pub proof fn attempts_begin_at_the_kept_position<F: Format, E>(
    state: StreamState<F>,
    position: u64,
    candidates: Seq<InnoVersion>,
    reply: Reply<F, E>,
)
    requires
        state.next(reply) is Failed,
        candidates.len() > 0,
    ensures
        OpenState::Streams(state, Some((position, candidates))).next(
            OpenReply::Stream(reply),
        ) matches OpenOutcome::Opening(next) && next.request() == OpenRequest::Seek(position),
{
}

/// After some failed attempts, not more than there are candidates, the streams are read as those of
/// the next candidate, from the position after the version, and the candidates after it are left.
/// The versions tried are thus the named one and then the candidates in their order.
pub proof fn candidates_are_tried_in_order<F: Format, E>(
    setup_loader: SetupLoader,
    version: InnoVersion,
    position: u64,
    candidates: Seq<InnoVersion>,
    attempts: Seq<Seq<Reply<F, E>>>,
    errors: Seq<InnoError<E>>,
    rest: Seq<OpenReply<F, E>>,
)
    requires
        attempts.len() <= candidates.len(),
        all_fail(setup_loader, seq![version] + candidates, attempts, errors),
    ensures
        outcome(
            OpenState::Streams(
                StreamState::start(setup_loader, version),
                Some((position, candidates)),
            ),
            attempts_and_returns(attempts) + rest,
        ) == outcome(
            OpenState::Streams(
                StreamState::start(
                    setup_loader,
                    (seq![version] + candidates)[attempts.len() as int],
                ),
                Some((position, candidates.skip(attempts.len() as int))),
            ),
            rest,
        ),
    decreases attempts.len(),
{
    let state = StreamState::<F>::start(setup_loader, version);
    let versions = seq![version] + candidates;
    if attempts.len() == 0 {
        assert(attempts_and_returns(attempts) + rest =~= rest);
        assert(candidates.skip(0) =~= candidates);
    } else {
        let later = attempts_and_returns(attempts.drop_first()) + rest;
        let back = seq![OpenReply::<F, E>::Sought] + later;
        let rewind = OpenState::<F>::Rewind(
            setup_loader,
            candidates[0],
            position,
            candidates.drop_first(),
        );
        assert(attempts_and_returns(attempts) + rest =~= stream_replies(attempts[0]) + back);
        assert(versions[0] == version);
        lemma_failed_attempt(state, Some((position, candidates)), attempts[0], errors[0], back);
        assert(back[0] == OpenReply::<F, E>::Sought);
        assert(back.drop_first() =~= later);
        assert(seq![candidates[0]] + candidates.drop_first() =~= candidates);
        assert forall|i: int| 0 <= i < attempts.drop_first().len() implies fails(
            StreamState::start(setup_loader, candidates[i]),
            #[trigger] attempts.drop_first()[i],
            errors.drop_first()[i],
        ) by {
            assert(versions[i + 1] == candidates[i]);
            assert(attempts.drop_first()[i] == attempts[i + 1]);
        }
        candidates_are_tried_in_order(
            setup_loader,
            candidates[0],
            position,
            candidates.drop_first(),
            attempts.drop_first(),
            errors.drop_first(),
            rest,
        );
        assert(candidates.drop_first().skip(attempts.len() - 1) =~= candidates.skip(
            attempts.len() as int,
        ));
    }
}

/// The first attempt that succeeds gives the installer.
pub proof fn first_success_is_given<F: Format, E>(
    setup_loader: SetupLoader,
    version: InnoVersion,
    position: u64,
    candidates: Seq<InnoVersion>,
    attempts: Seq<Seq<Reply<F, E>>>,
    errors: Seq<InnoError<E>>,
    success: Seq<Reply<F, E>>,
    contents: Contents<F>,
)
    requires
        attempts.len() <= candidates.len(),
        all_fail(setup_loader, seq![version] + candidates, attempts, errors),
        completes(
            StreamState::start(
                setup_loader,
                (seq![version] + candidates)[attempts.len() as int],
            ),
            success,
            contents,
        ),
    ensures
        outcome(
            OpenState::Streams(
                StreamState::start(setup_loader, version),
                Some((position, candidates)),
            ),
            attempts_and_returns(attempts) + stream_replies(success),
        ) == OpenOutcome::<F, E>::Done(contents),
{
    candidates_are_tried_in_order(
        setup_loader,
        version,
        position,
        candidates,
        attempts,
        errors,
        stream_replies(success),
    );
    lemma_complete_reading(
        StreamState::start(setup_loader, (seq![version] + candidates)[attempts.len() as int]),
        Some((position, candidates.skip(attempts.len() as int))),
        success,
        contents,
    );
}

/// If every version has been tried without success, the error is that of the last attempt.
pub proof fn last_error_is_reported<F: Format, E>(
    setup_loader: SetupLoader,
    version: InnoVersion,
    position: u64,
    candidates: Seq<InnoVersion>,
    attempts: Seq<Seq<Reply<F, E>>>,
    errors: Seq<InnoError<E>>,
    last: Seq<Reply<F, E>>,
    last_error: InnoError<E>,
)
    requires
        attempts.len() == candidates.len(),
        all_fail(setup_loader, seq![version] + candidates, attempts, errors),
        fails(
            StreamState::start(
                setup_loader,
                (seq![version] + candidates)[attempts.len() as int],
            ),
            last,
            last_error,
        ),
    ensures
        outcome(
            OpenState::Streams(
                StreamState::start(setup_loader, version),
                Some((position, candidates)),
            ),
            attempts_and_returns(attempts) + stream_replies(last),
        ) == OpenOutcome::<F, E>::Failed(last_error),
{
    candidates_are_tried_in_order(
        setup_loader,
        version,
        position,
        candidates,
        attempts,
        errors,
        stream_replies(last),
    );
    lemma_failed_attempt(
        StreamState::start(setup_loader, (seq![version] + candidates)[attempts.len() as int]),
        Some((position, candidates.skip(attempts.len() as int))),
        last,
        last_error,
        seq![],
    );
    assert(stream_replies(last) + seq![] =~= stream_replies(last));
}

/// The streams of an installer whose version is not ambiguous are read once, and what came of that
/// is the result.
pub proof fn unambiguous_version_is_tried_once<F: Format, E>(
    setup_loader: SetupLoader,
    version: InnoVersion,
    attempt: Seq<Reply<F, E>>,
)
    ensures
        forall|contents: Contents<F>| #[trigger]
            completes(StreamState::start(setup_loader, version), attempt, contents) ==> outcome(
                OpenState::Streams(StreamState::start(setup_loader, version), None),
                stream_replies(attempt),
            ) == OpenOutcome::<F, E>::Done(contents),
        forall|error: InnoError<E>| #[trigger]
            fails(StreamState::<F>::start(setup_loader, version), attempt, error) ==> outcome(
                OpenState::Streams(StreamState::start(setup_loader, version), None),
                stream_replies(attempt),
            ) == OpenOutcome::<F, E>::Failed(error),
{
    let state = StreamState::<F>::start(setup_loader, version);
    assert forall|contents: Contents<F>| #[trigger]
        completes(state, attempt, contents) implies outcome(
        OpenState::Streams(state, None),
        stream_replies(attempt),
    ) == OpenOutcome::<F, E>::Done(contents) by {
        lemma_complete_reading(state, None, attempt, contents);
    }
    assert forall|error: InnoError<E>| #[trigger] fails(state, attempt, error) implies outcome(
        OpenState::Streams(state, None),
        stream_replies(attempt),
    ) == OpenOutcome::<F, E>::Failed(error) by {
        lemma_failed_attempt(state, None, attempt, error, seq![]);
        assert(stream_replies(attempt) + seq![] =~= stream_replies(attempt));
    }
}

/// A file whose loader table cannot be read is answered as no installer, whatever the failure was.
pub proof fn file_without_loader_is_no_installer<F: Format, E>(error: E)
    ensures
        outcome(OpenState::<F>::SetupLoader, seq![OpenReply::<F, E>::Failed(error)])
            == OpenOutcome::<F, E>::Failed(InnoError::NotInnoFile),
{
}

/// The replies up to the version of an installer.
pub open spec fn version_replies<F: Format, E>(
    setup_loader: SetupLoader,
    version: InnoVersion,
    candidates: Option<Vec<InnoVersion>>,
) -> Seq<OpenReply<F, E>> {
    seq![
        OpenReply::SetupLoader(setup_loader),
        OpenReply::Sought,
        OpenReply::Version(version, candidates),
    ]
}

/// An installer of a release up to 6.7 gets to the reading of its streams, and any other is answered
/// with its version.
pub proof fn newer_versions_are_refused<F: Format, E>(
    setup_loader: SetupLoader,
    version: InnoVersion,
    candidates: Option<Vec<InnoVersion>>,
    rest: Seq<OpenReply<F, E>>,
)
    ensures
        outcome(
            OpenState::<F>::SetupLoader,
            version_replies::<F, E>(setup_loader, version, candidates) + rest,
        ) == (if version.major > 6 || version.major == 6 && version.minor > 7 {
            OpenOutcome::<F, E>::Failed(InnoError::UnsupportedVersion(version))
        } else {
            outcome(
                match candidates {
                    Some(candidates) => OpenState::Position(setup_loader, version, candidates@),
                    None => OpenState::Streams(StreamState::start(setup_loader, version), None),
                },
                rest,
            )
        }),
{
    let replies = version_replies::<F, E>(setup_loader, version, candidates) + rest;
    reveal_with_fuel(outcome, 4);
    assert(replies.drop_first()[0] == OpenReply::<F, E>::Sought);
    assert(replies.drop_first().drop_first()[0] == OpenReply::<F, E>::Version(
        version,
        candidates,
    ));
    assert(replies.drop_first().drop_first().drop_first() =~= rest);
}

/// Opening gives back what an installer holds: if every request is answered from well-formed
/// contents of a release up to 6.7, whatever they are, the opening comes to its end and the
/// installer shows those contents.
pub proof fn opening_gives_back_the_contents<F: Format, E>(
    contents: Contents<F>,
    raw: F::HeaderData,
) -> (replies: Seq<Reply<F, E>>)
    requires
        contents.well_formed(),
        contents.version.is_supported(),
    ensures
        answered_from(
            StreamState::start(contents.setup_loader, contents.version),
            replies,
            contents,
            raw,
        ),
        outcome(
            OpenState::<F>::SetupLoader,
            version_replies::<F, E>(contents.setup_loader, contents.version, None)
                + stream_replies(replies),
        ) == OpenOutcome::<F, E>::Done(contents),
{
    let replies = reading_gives_back_the_contents::<F, E>(contents, raw);
    let start = StreamState::<F>::start(contents.setup_loader, contents.version);
    newer_versions_are_refused::<F, E>(
        contents.setup_loader,
        contents.version,
        None,
        stream_replies(replies),
    );
    lemma_complete_reading(start, None, replies, contents);
    replies
}

/// What is known of an opening once the version is read: the version tried, and those to try after
/// it, are among the named version and its candidates.
spec fn within<F: Format>(
    state: OpenState<F>,
    setup_loader: SetupLoader,
    versions: Set<InnoVersion>,
) -> bool {
    match state {
        OpenState::Position(loader, version, candidates) => {
            &&& loader == setup_loader
            &&& versions.contains(version)
            &&& forall|i: int|
                0 <= i < candidates.len() ==> versions.contains(#[trigger] candidates[i])
        },
        OpenState::Streams(state, retry) => {
            &&& state.setup_loader == setup_loader
            &&& versions.contains(state.version)
            &&& retry matches Some((_, candidates)) ==> forall|i: int|
                0 <= i < candidates.len() ==> versions.contains(#[trigger] candidates[i])
        },
        OpenState::Rewind(loader, version, _, candidates) => {
            &&& loader == setup_loader
            &&& versions.contains(version)
            &&& forall|i: int|
                0 <= i < candidates.len() ==> versions.contains(#[trigger] candidates[i])
        },
        _ => false,
    }
}

proof fn lemma_stays_within<F: Format, E>(
    state: OpenState<F>,
    replies: Seq<OpenReply<F, E>>,
    setup_loader: SetupLoader,
    versions: Set<InnoVersion>,
)
    requires
        within(state, setup_loader, versions),
    ensures
        outcome(state, replies) matches OpenOutcome::Done(contents) ==> contents.setup_loader
            == setup_loader && versions.contains(contents.version),
    decreases replies.len(),
{
    if replies.len() > 0 {
        match state.next(replies[0]) {
            OpenOutcome::Opening(next) => {
                assert(within(next, setup_loader, versions));
                lemma_stays_within(next, replies.drop_first(), setup_loader, versions);
            },
            _ => {},
        }
    }
}

/// An installer that is opened shows the loader that was found, and the version that it names or one
/// of that version's candidates, whatever the replies were.
pub proof fn opened_version_was_named<F: Format, E>(
    setup_loader: SetupLoader,
    version: InnoVersion,
    candidates: Option<Vec<InnoVersion>>,
    rest: Seq<OpenReply<F, E>>,
)
    ensures
        outcome(
            OpenState::<F>::SetupLoader,
            version_replies::<F, E>(setup_loader, version, candidates) + rest,
        ) matches OpenOutcome::Done(contents) ==> {
            &&& contents.setup_loader == setup_loader
            &&& version.is_supported()
            &&& contents.version == version || (candidates matches Some(others)
                && others@.contains(contents.version))
        },
{
    let versions = Set::new(
        |v: InnoVersion|
            v == version || (candidates matches Some(others) && others@.contains(v)),
    );
    newer_versions_are_refused::<F, E>(setup_loader, version, candidates, rest);
    if version.is_supported() {
        let state = match candidates {
            Some(candidates) => OpenState::<F>::Position(setup_loader, version, candidates@),
            None => OpenState::<F>::Streams(StreamState::start(setup_loader, version), None),
        };
        assert(within(state, setup_loader, versions));
        lemma_stays_within(state, rest, setup_loader, versions);
    }
}

/// After the loader table is found, the header is gone to: the position asked for is the offset in
/// the table where that is not negative, and its negation where it is. The version is read there.
pub proof fn header_is_gone_to_at_its_offset<F: Format, E>(setup_loader: SetupLoader)
    ensures
        OpenState::<F>::SetupLoader.request() == OpenRequest::SetupLoader,
        OpenState::<F>::SetupLoader.next(
            OpenReply::<F, E>::SetupLoader(setup_loader),
        ) matches OpenOutcome::Opening(found) && {
            &&& found.request() matches OpenRequest::Seek(position) && position == (
            if setup_loader.header_offset >= 0 {
                setup_loader.header_offset as int
            } else {
                -setup_loader.header_offset
            })
            &&& found.next(OpenReply::<F, E>::Sought) matches OpenOutcome::Opening(sought)
                && sought.request() == OpenRequest::Version
        },
{
}

/// After the version is read, the streams are begun at once if it is not ambiguous, and else after
/// the position is told. They are begun with the encryption header from release 6.5 on.
pub proof fn streams_are_begun_after_the_version<F: Format, E>(
    setup_loader: SetupLoader,
    version: InnoVersion,
    candidates: Option<Vec<InnoVersion>>,
    position: u64,
)
    requires
        version.major < 6 || version.major == 6 && version.minor <= 7,
    ensures
        ({
            let begun = OpenRequest::Stream(
                if version.major == 6 && version.minor >= 5 {
                    Request::EncryptionHeader
                } else {
                    Request::PrimaryStream
                },
            );
            OpenState::<F>::Version(setup_loader).next(
                OpenReply::<F, E>::Version(version, candidates),
            ) matches OpenOutcome::Opening(read) && match candidates {
                None => read.request() == begun,
                Some(_) => read.request() == OpenRequest::Position && (read.next(
                    OpenReply::<F, E>::Position(position),
                ) matches OpenOutcome::Opening(told) && told.request() == begun),
            }
        }),
{
}

/// After going back for a candidate, the streams are begun as those of the candidate.
pub proof fn streams_are_begun_again_after_going_back<F: Format, E>(
    setup_loader: SetupLoader,
    candidate: InnoVersion,
    position: u64,
    candidates: Seq<InnoVersion>,
)
    ensures
        OpenState::<F>::Rewind(setup_loader, candidate, position, candidates).next(
            OpenReply::<F, E>::Sought,
        ) matches OpenOutcome::Opening(back) && {
            &&& back.request() == OpenRequest::Stream(
                if candidate.major > 6 || candidate.major == 6 && candidate.minor >= 5 {
                    Request::EncryptionHeader
                } else {
                    Request::PrimaryStream
                },
            )
            &&& back == OpenState::<F>::Streams(
                StreamState::start(setup_loader, candidate),
                Some((position, candidates)),
            )
        },
{
}

/// While the streams are read, what their reading asks for is asked for, and what a reply leads to
/// there it leads to here. Only a failure may lead to another attempt.
pub proof fn streams_are_read_by_their_reading<F: Format, E>(
    state: StreamState<F>,
    retry: Option<(u64, Seq<InnoVersion>)>,
    reply: Reply<F, E>,
)
    ensures
        OpenState::Streams(state, retry).request() == OpenRequest::Stream(state.request()),
        state.next(reply) matches Outcome::Reading(next) ==> OpenState::Streams(state, retry).next(
            OpenReply::Stream(reply),
        ) == OpenOutcome::<F, E>::Opening(OpenState::Streams(next, retry)),
        state.next(reply) matches Outcome::Done(contents) ==> OpenState::Streams(
            state,
            retry,
        ).next(OpenReply::Stream(reply)) == OpenOutcome::<F, E>::Done(contents),
        state.next(reply) matches Outcome::Failed(error) ==> (retry matches Some((_, candidates))
            ==> candidates.len() == 0) ==> OpenState::Streams(state, retry).next(
            OpenReply::Stream(reply),
        ) == OpenOutcome::<F, E>::Failed(error),
        state.next(reply) is Unexpected ==> OpenState::Streams(state, retry).next(
            OpenReply::Stream(reply),
        ) == OpenOutcome::<F, E>::Unexpected(
            OpenState::Streams(state, retry),
            OpenReply::Stream(reply),
        ),
{
}

/// A failure to find the loader table means that the file is no installer. Any other failure before
/// or between the streams is reported as it is.
pub proof fn failures_outside_the_streams_are_reported<F: Format, E>(state: OpenState<F>, error: E)
    requires
        !(state is Streams),
    ensures
        state.next(OpenReply::<F, E>::Failed(error)) == (if state is SetupLoader {
            OpenOutcome::<F, E>::Failed(InnoError::NotInnoFile)
        } else {
            OpenOutcome::<F, E>::Failed(InnoError::Read(error))
        }),
{
}

/// A request is answered by what it asks for or by a failure. What is asked for the streams is
/// answered by what answers their reading.
pub proof fn open_requests_are_answered_in_kind<F: Format, E>(
    request: OpenRequest,
    reply: OpenReply<F, E>,
)
    ensures
        reply.answers(request) <==> match request {
            OpenRequest::SetupLoader => reply is SetupLoader || reply is Failed,
            OpenRequest::Seek(_) => reply is Sought || reply is Failed,
            OpenRequest::Version => reply is Version || reply is Failed,
            OpenRequest::Position => reply is Position || reply is Failed,
            OpenRequest::Stream(asked) => reply matches OpenReply::Stream(given) && given.answers(
                asked,
            ),
        },
{
}

/// A reply to another request than the present one is handed back and changes nothing, and no other
/// reply is handed back.
pub proof fn unasked_open_replies_change_nothing<F: Format, E>(
    state: OpenState<F>,
    reply: OpenReply<F, E>,
)
    ensures
        !reply.answers(state.request()) <==> state.next(reply) is Unexpected,
        state.next(reply) matches OpenOutcome::Unexpected(same, handed_back) ==> same == state
            && handed_back == reply,
{
}

} // verus!
