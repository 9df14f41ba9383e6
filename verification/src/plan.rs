use crate::entry::{lists_are_their_sections, push_extends_one_section};
use crate::entry::{Entry, EntryLists, Format, Section, BODY_SECTIONS};
use crate::header::{EntryCounts, Header};
use crate::inno::Contents;
use crate::loader::SetupLoader;
use crate::stream::{first_unfinished, Outcome, Phase, Reply, Request, StreamState};
use crate::stream::{
    lemma_first_unfinished, lemma_push_counts, lemma_sections, lemma_start_well_formed,
    replies_keep_states_well_formed,
};
use crate::version::{release_number, InnoVersion};
use vstd::prelude::*;
use vstd::seq_lib::lemma_concat_associative;

verus! {

/// A request made `n` times.
pub open spec fn repeated(request: Request, n: nat) -> Seq<Request> {
    Seq::new(n, |i: int| request)
}

/// The entries of the body's sections, from the one at `from` on.
pub open spec fn body_plan(counts: EntryCounts, from: usize) -> Seq<Request>
    decreases BODY_SECTIONS - from,
{
    if from >= BODY_SECTIONS {
        seq![]
    } else {
        repeated(Request::Entry(Section::body(from)), counts.of(Section::body(from)) as nat)
            + body_plan(counts, (from + 1) as usize)
    }
}

/// All that is asked for to read an installer of a version whose header announces the given counts.
///
/// The encryption header comes first, from release 6.5 on. The primary stream holds the header, the
/// languages, whose codepages settle how the header's text is decoded, and then the other sections;
/// the wizard stands before those in releases older than 4 and after them since. The secondary
/// stream holds the file locations. Both streams have to be at their ends after that.
pub open spec fn plan(version: InnoVersion, counts: EntryCounts) -> Seq<Request> {
    let encrypted = version.number() >= release_number(6, 5, 0, 0);
    let wizard_first = version.number() < release_number(4, 0, 0, 0);
    let secondary = repeated(
        Request::Entry(Section::FileLocation),
        counts.file_location_entry as nat,
    ) + seq![Request::SecondaryEnd];
    let ends = repeated(Request::Wizard, if wizard_first { 0 } else { 1 }) + seq![
        Request::PrimaryEnd,
        Request::SecondaryStream,
    ] + secondary;
    let body = repeated(Request::Wizard, if wizard_first { 1 } else { 0 }) + (body_plan(counts, 0)
        + ends);
    let languages = repeated(Request::Entry(Section::Language), counts.language as nat) + (seq![
        Request::DecodeHeader,
    ] + body);
    repeated(Request::EncryptionHeader, if encrypted { 1 } else { 0 }) + (seq![
        Request::PrimaryStream,
    ] + (seq![Request::Header] + languages))
}

/// Whether the replies, one by one, read the installer to its end and give the contents.
pub open spec fn completes<F: Format, E>(
    state: StreamState<F>,
    replies: Seq<Reply<F, E>>,
    contents: Contents<F>,
) -> bool
    decreases replies.len(),
{
    replies.len() > 0 && match state.next(replies[0]) {
        Outcome::Reading(next) => completes(next, replies.drop_first(), contents),
        Outcome::Done(done) => replies.len() == 1 && done == contents,
        _ => false,
    }
}

/// The requests that a sequence of replies was given to.
pub open spec fn requests<F: Format, E>(
    state: StreamState<F>,
    replies: Seq<Reply<F, E>>,
) -> Seq<Request>
    decreases replies.len(),
{
    if replies.len() == 0 {
        seq![]
    } else {
        seq![state.request()] + match state.next(replies[0]) {
            Outcome::Reading(next) => requests(next, replies.drop_first()),
            _ => seq![],
        }
    }
}

/// The number of announced entries that a section misses.
spec fn missing<F: Format>(
    entries: EntryLists<F>,
    counts: EntryCounts,
    section: Section,
) -> nat {
    if entries.count(section) < counts.of(section) {
        (counts.of(section) - entries.count(section)) as nat
    } else {
        0
    }
}

spec fn body_rest<F: Format>(
    entries: EntryLists<F>,
    counts: EntryCounts,
    from: usize,
) -> Seq<Request>
    decreases BODY_SECTIONS - from,
{
    if from >= BODY_SECTIONS {
        seq![]
    } else {
        repeated(Request::Entry(Section::body(from)), missing(entries, counts, Section::body(from)))
            + body_rest(entries, counts, (from + 1) as usize)
    }
}

spec fn locations_rest<F: Format>(state: StreamState<F>, counts: EntryCounts) -> Seq<Request> {
    repeated(
        Request::Entry(Section::FileLocation),
        missing(state.entries, counts, Section::FileLocation),
    ) + seq![Request::SecondaryEnd]
}

spec fn body_tail<F: Format>(state: StreamState<F>, counts: EntryCounts) -> Seq<Request> {
    repeated(Request::Wizard, if !state.wizard_first() && state.wizard is None { 1 } else { 0 })
        + seq![Request::PrimaryEnd, Request::SecondaryStream] + locations_rest(state, counts)
}

spec fn body_and_rest<F: Format>(state: StreamState<F>, counts: EntryCounts) -> Seq<Request> {
    repeated(Request::Wizard, if state.wizard_first() && state.wizard is None { 1 } else { 0 }) + (
    body_rest(state.entries, counts, 0) + body_tail(state, counts))
}

spec fn languages_and_rest<F: Format>(state: StreamState<F>, counts: EntryCounts) -> Seq<Request> {
    repeated(
        Request::Entry(Section::Language),
        missing(state.entries, counts, Section::Language),
    ) + (seq![Request::DecodeHeader] + body_and_rest(state, counts))
}

/// The requests that are still to come, if the header announces the given counts.
spec fn remaining<F: Format>(state: StreamState<F>, counts: EntryCounts) -> Seq<Request> {
    match state.phase {
        Phase::EncryptionHeader => seq![Request::EncryptionHeader] + (seq![Request::PrimaryStream]
            + (seq![Request::Header] + languages_and_rest(state, counts))),
        Phase::PrimaryStream => seq![Request::PrimaryStream] + (seq![Request::Header]
            + languages_and_rest(state, counts)),
        Phase::Header => seq![Request::Header] + languages_and_rest(state, counts),
        Phase::Languages => languages_and_rest(state, counts),
        Phase::Body => body_and_rest(state, counts),
        Phase::SecondaryStream => seq![Request::SecondaryStream] + locations_rest(state, counts),
        Phase::Locations => locations_rest(state, counts),
    }
}

/// Taking the first of `n` repetitions leaves one less.
proof fn lemma_repeated_drop(request: Request, n: nat, rest: Seq<Request>)
    requires
        n > 0,
    ensures
        (repeated(request, n) + rest)[0] == request,
        (repeated(request, n) + rest).drop_first() == repeated(request, (n - 1) as nat) + rest,
{
    assert((repeated(request, n) + rest).drop_first() =~= repeated(request, (n - 1) as nat) + rest);
}

proof fn lemma_repeated_none(request: Request, rest: Seq<Request>)
    ensures
        repeated(request, 0) + rest == rest,
{
    assert(repeated(request, 0) + rest =~= rest);
}

proof fn lemma_singleton_drop(request: Request, rest: Seq<Request>)
    ensures
        (seq![request] + rest)[0] == request,
        (seq![request] + rest).drop_first() == rest,
{
    assert((seq![request] + rest).drop_first() =~= rest);
}

/// The rest of the body begins with the first section that misses an entry, and is empty where
/// none does.
proof fn lemma_body_rest_head<F: Format>(
    entries: EntryLists<F>,
    counts: EntryCounts,
    from: usize,
)
    ensures
        match first_unfinished(entries, counts, from) {
            Some(section) => body_rest(entries, counts, from).len() > 0 && body_rest(
                entries,
                counts,
                from,
            )[0] == Request::Entry(section),
            None => body_rest(entries, counts, from) == Seq::<Request>::empty(),
        },
    decreases BODY_SECTIONS - from,
{
    if from < BODY_SECTIONS {
        let section = Section::body(from);
        let rest = body_rest(entries, counts, (from + 1) as usize);
        lemma_body_rest_head(entries, counts, (from + 1) as usize);
        if missing(entries, counts, section) > 0 {
            lemma_repeated_drop(
                Request::Entry(section),
                missing(entries, counts, section),
                rest,
            );
        } else {
            lemma_repeated_none(Request::Entry(section), rest);
        }
    }
}

/// An entry of the first section that misses one takes the first request off the rest of the body.
proof fn lemma_body_rest_push<F: Format>(
    entries: EntryLists<F>,
    counts: EntryCounts,
    from: usize,
    entry: Entry<F>,
)
    requires
        first_unfinished(entries, counts, from) == Some(entry.section()),
    ensures
        body_rest(entries.push(entry), counts, from) == body_rest(
            entries,
            counts,
            from,
        ).drop_first(),
    decreases BODY_SECTIONS - from,
{
    lemma_push_counts(entries, entry);
    if from < BODY_SECTIONS {
        let section = Section::body(from);
        let rest = body_rest(entries, counts, (from + 1) as usize);
        if missing(entries, counts, section) > 0 {
            lemma_repeated_drop(
                Request::Entry(section),
                missing(entries, counts, section),
                rest,
            );
            lemma_body_rest_unchanged(entries, counts, (from + 1) as usize, entry);
        } else {
            lemma_body_rest_push(entries, counts, (from + 1) as usize, entry);
            lemma_repeated_none(Request::Entry(section), rest);
            lemma_first_unfinished(entries, counts, (from + 1) as usize);
            lemma_repeated_none(
                Request::Entry(section),
                body_rest(entries.push(entry), counts, (from + 1) as usize),
            );
        }
    }
}

/// An entry of a section that stands before `from`, or outside the body, leaves the rest alone.
proof fn lemma_body_rest_unchanged<F: Format>(
    entries: EntryLists<F>,
    counts: EntryCounts,
    from: usize,
    entry: Entry<F>,
)
    requires
        forall|i: usize|
            from <= i < BODY_SECTIONS ==> #[trigger] Section::body(i) != entry.section(),
    ensures
        body_rest(entries.push(entry), counts, from) == body_rest(entries, counts, from),
    decreases BODY_SECTIONS - from,
{
    lemma_push_counts(entries, entry);
    if from < BODY_SECTIONS {
        assert(Section::body(from) != entry.section());
        lemma_body_rest_unchanged(entries, counts, (from + 1) as usize, entry);
    }
}

/// The next request is the first of those that remain.
proof fn lemma_request_is_first<F: Format>(state: StreamState<F>, counts: EntryCounts)
    requires
        state.well_formed(),
        state.header is Some ==> state.counts() == counts,
    ensures
        remaining(state, counts).len() > 0,
        state.request() == remaining(state, counts)[0],
{
    match state.phase {
        Phase::Languages => {
            let n = missing(state.entries, counts, Section::Language);
            let rest = seq![Request::DecodeHeader] + body_and_rest(state, counts);
            if n > 0 {
                lemma_repeated_drop(Request::Entry(Section::Language), n, rest);
            } else {
                lemma_repeated_none(Request::Entry(Section::Language), rest);
            }
        },
        Phase::Body => {
            let rest = body_rest(state.entries, counts, 0) + body_tail(state, counts);
            if state.wizard_first() && state.wizard is None {
                lemma_repeated_drop(Request::Wizard, 1, rest);
            } else {
                lemma_repeated_none(Request::Wizard, rest);
                lemma_body_rest_head(state.entries, counts, 0);
                if first_unfinished(state.entries, counts, 0) is None {
                    assert(rest =~= body_tail(state, counts));
                }
            }
        },
        Phase::Locations => {
            let n = missing(state.entries, counts, Section::FileLocation);
            if n > 0 {
                lemma_repeated_drop(
                    Request::Entry(Section::FileLocation),
                    n,
                    seq![Request::SecondaryEnd],
                );
            } else {
                lemma_repeated_none(
                    Request::Entry(Section::FileLocation),
                    seq![Request::SecondaryEnd],
                );
            }
        },
        _ => {},
    }
}

/// A reply that leads on takes the first request off those that remain.
#[verifier::rlimit(30)]
proof fn lemma_reply_takes_first<F: Format, E>(
    state: StreamState<F>,
    reply: Reply<F, E>,
    counts: EntryCounts,
)
    requires
        state.well_formed(),
        state.next(reply) is Reading,
        ({
            let next = state.next(reply)->Reading_0;
            next.header is Some ==> next.counts() == counts
        }),
    ensures
        remaining(state.next(reply)->Reading_0, counts) == remaining(state, counts).drop_first(),
{
    let next = state.next(reply)->Reading_0;
    match reply {
        Reply::EncryptionHeader(_) => {
            lemma_singleton_drop(
                Request::EncryptionHeader,
                seq![Request::PrimaryStream] + (seq![Request::Header] + languages_and_rest(
                    state,
                    counts,
                )),
            );
        },
        Reply::StreamOpened => {
            if state.phase == Phase::PrimaryStream {
                lemma_singleton_drop(
                    Request::PrimaryStream,
                    seq![Request::Header] + languages_and_rest(state, counts),
                );
            } else {
                lemma_singleton_drop(Request::SecondaryStream, locations_rest(state, counts));
            }
        },
        Reply::Header(_) => {
            lemma_singleton_drop(Request::Header, languages_and_rest(state, counts));
        },
        Reply::Entry(entry) => {
            lemma_push_counts(state.entries, entry);
            if state.phase == Phase::Languages {
                lemma_body_rest_unchanged(state.entries, counts, 0, entry);
                lemma_repeated_drop(
                    Request::Entry(Section::Language),
                    missing(state.entries, counts, Section::Language),
                    seq![Request::DecodeHeader] + body_and_rest(state, counts),
                );
            } else if state.phase == Phase::Body {
                lemma_first_unfinished(state.entries, counts, 0);
                lemma_body_rest_head(state.entries, counts, 0);
                lemma_body_rest_push(state.entries, counts, 0, entry);
                let rest = body_rest(state.entries, counts, 0);
                let tail = body_tail(state, counts);
                assert(body_tail(next, counts) == tail);
                lemma_repeated_none(Request::Wizard, rest + tail);
                lemma_repeated_none(Request::Wizard, rest.drop_first() + tail);
                assert((rest + tail).drop_first() =~= rest.drop_first() + tail);
            } else {
                lemma_repeated_drop(
                    Request::Entry(Section::FileLocation),
                    missing(state.entries, counts, Section::FileLocation),
                    seq![Request::SecondaryEnd],
                );
            }
        },
        Reply::HeaderDecoded(_) => {
            lemma_repeated_none(
                Request::Entry(Section::Language),
                seq![Request::DecodeHeader] + body_and_rest(state, counts),
            );
            lemma_singleton_drop(Request::DecodeHeader, body_and_rest(state, counts));
        },
        Reply::Wizard(_) => {
            let rest = body_rest(state.entries, counts, 0);
            let end = seq![Request::PrimaryEnd, Request::SecondaryStream] + locations_rest(
                state,
                counts,
            );
            lemma_repeated_none(Request::Wizard, rest + body_tail(next, counts));
            if state.wizard_first() {
                lemma_repeated_drop(Request::Wizard, 1, rest + body_tail(state, counts));
            } else {
                lemma_repeated_none(Request::Wizard, rest + body_tail(state, counts));
                lemma_body_rest_head(state.entries, counts, 0);
                assert(rest + body_tail(state, counts) =~= body_tail(state, counts));
                assert(rest + body_tail(next, counts) =~= body_tail(next, counts));
                assert(body_tail(state, counts) =~= repeated(Request::Wizard, 1) + end);
                assert(body_tail(next, counts) =~= repeated(Request::Wizard, 0) + end);
                lemma_repeated_drop(Request::Wizard, 1, end);
            }
        },
        Reply::AtEnd(_) => {
            let rest = body_rest(state.entries, counts, 0);
            lemma_repeated_none(Request::Wizard, rest + body_tail(state, counts));
            lemma_body_rest_head(state.entries, counts, 0);
            assert(rest + body_tail(state, counts) =~= seq![Request::PrimaryEnd] + (seq![
                Request::SecondaryStream,
            ] + locations_rest(state, counts)));
            lemma_singleton_drop(
                Request::PrimaryEnd,
                seq![Request::SecondaryStream] + locations_rest(state, counts),
            );
        },
        Reply::Failed(_) => {},
    }
}

/// What remains at the start is the plan.
proof fn lemma_plan_remains_at_start<F: Format>(
    setup_loader: SetupLoader,
    version: InnoVersion,
    counts: EntryCounts,
)
    ensures
        remaining(StreamState::<F>::start(setup_loader, version), counts) == plan(version, counts),
{
    let state = StreamState::<F>::start(setup_loader, version);
    let primary = seq![Request::PrimaryStream] + (seq![Request::Header] + languages_and_rest(
        state,
        counts,
    ));
    lemma_body_rest_is_plan::<F>(counts, 0);
    lemma_repeated_none(Request::EncryptionHeader, primary);
    assert(repeated(Request::EncryptionHeader, 1) =~= seq![Request::EncryptionHeader]);
}

proof fn lemma_body_rest_is_plan<F: Format>(counts: EntryCounts, from: usize)
    ensures
        body_rest(EntryLists::<F>::empty(), counts, from) == body_plan(counts, from),
    decreases BODY_SECTIONS - from,
{
    if from < BODY_SECTIONS {
        lemma_body_rest_is_plan::<F>(counts, (from + 1) as usize);
        assert(EntryLists::<F>::empty().count(Section::body(from)) == 0);
    }
}

/// The end of the second stream is the last thing asked for.
proof fn lemma_done_is_last<F: Format, E>(state: StreamState<F>, reply: Reply<F, E>)
    requires
        state.well_formed(),
        state.next(reply) is Done,
    ensures
        remaining(state, state.counts()) == seq![Request::SecondaryEnd],
        state.header is Some,
        state.next(reply)->Done_0.header == state.header->0,
{
    lemma_repeated_none(Request::Entry(Section::FileLocation), seq![Request::SecondaryEnd]);
}

proof fn lemma_requests_remain<F: Format, E>(
    state: StreamState<F>,
    replies: Seq<Reply<F, E>>,
    contents: Contents<F>,
)
    requires
        state.well_formed(),
        completes(state, replies, contents),
    ensures
        state.header is Some ==> state.counts() == contents.header.counts,
        requests(state, replies) == remaining(state, contents.header.counts),
    decreases replies.len(),
{
    let counts = contents.header.counts;
    replies_keep_states_well_formed(state, replies[0]);
    match state.next(replies[0]) {
        Outcome::Reading(next) => {
            lemma_requests_remain(next, replies.drop_first(), contents);
            lemma_request_is_first(state, counts);
            lemma_reply_takes_first(state, replies[0], counts);
            assert(requests(state, replies) =~= remaining(state, counts));
        },
        Outcome::Done(_) => {
            lemma_done_is_last(state, replies[0]);
            lemma_request_is_first(state, counts);
            assert(requests(state, replies) =~= seq![state.request()]);
        },
        _ => {},
    }
}

/// A reading that gives an installer has asked for exactly what the plan says, in its order: as many
/// entries of each section as the header announces, the wizard once, and the ends of both streams.
pub proof fn reading_follows_the_plan<F: Format, E>(
    setup_loader: SetupLoader,
    version: InnoVersion,
    replies: Seq<Reply<F, E>>,
    contents: Contents<F>,
)
    requires
        completes(StreamState::start(setup_loader, version), replies, contents),
    ensures
        requests(StreamState::start(setup_loader, version), replies) == plan(
            version,
            contents.header.counts,
        ),
{
    let start = StreamState::<F>::start(setup_loader, version);
    lemma_start_well_formed::<F>(setup_loader, version);
    lemma_requests_remain(start, replies, contents);
    lemma_plan_remains_at_start::<F>(setup_loader, version, contents.header.counts);
}

/// The entries of a section among the replies, in the order in which they were given.
pub open spec fn replied_entries<F: Format, E>(
    replies: Seq<Reply<F, E>>,
    section: Section,
) -> Seq<Entry<F>>
    decreases replies.len(),
{
    if replies.len() == 0 {
        seq![]
    } else {
        let rest = replied_entries(replies.drop_first(), section);
        match replies[0] {
            Reply::Entry(entry) if entry.section() == section => seq![entry] + rest,
            _ => rest,
        }
    }
}

proof fn lemma_entries_are_gathered<F: Format, E>(
    state: StreamState<F>,
    replies: Seq<Reply<F, E>>,
    contents: Contents<F>,
    section: Section,
)
    requires
        completes(state, replies, contents),
    ensures
        contents.entries.section(section) == state.entries.section(section) + replied_entries(
            replies,
            section,
        ),
        contents.setup_loader == state.setup_loader,
        contents.version == state.version,
    decreases replies.len(),
{
    match state.next(replies[0]) {
        Outcome::Reading(next) => {
            let rest = replied_entries(replies.drop_first(), section);
            lemma_entries_are_gathered(next, replies.drop_first(), contents, section);
            match replies[0] {
                Reply::Entry(entry) => {
                    push_extends_one_section(state.entries, entry, section);
                    if entry.section() == section {
                        assert(state.entries.section(section).push(entry) + rest
                            =~= state.entries.section(section) + (seq![entry] + rest));
                    }
                },
                _ => {},
            }
        },
        Outcome::Done(_) => {
            assert(replied_entries(replies.drop_first(), section) =~= seq![]);
            assert(replied_entries(replies, section) =~= seq![]);
            assert(contents.entries.section(section) =~= state.entries.section(section)
                + replied_entries(replies, section));
        },
        _ => {},
    }
}

/// An installer shows the entries that were read, all of them and no others, each section in the
/// order of the stream; and it shows the loader and the version that the reading began with.
pub proof fn installer_shows_what_was_read<F: Format, E>(
    setup_loader: SetupLoader,
    version: InnoVersion,
    replies: Seq<Reply<F, E>>,
    contents: Contents<F>,
)
    requires
        completes(StreamState::start(setup_loader, version), replies, contents),
    ensures
        forall|section: Section| #[trigger]
            contents.entries.section(section) == replied_entries(replies, section),
        contents.setup_loader == setup_loader,
        contents.version == version,
{
    let start = StreamState::<F>::start(setup_loader, version);
    lemma_entries_are_gathered(start, replies, contents, Section::Language);
    assert forall|section: Section| #[trigger]
        contents.entries.section(section) == replied_entries(replies, section) by {
        lemma_entries_are_gathered(start, replies, contents, section);
        assert(start.entries.section(section) + replied_entries(replies, section)
            =~= replied_entries(replies, section));
    }
}

/// The reply that an installer with the given contents gives to the present request. `raw` is the
/// header's data before its text is decoded.
pub open spec fn answer<F: Format, E>(
    state: StreamState<F>,
    contents: Contents<F>,
    raw: F::HeaderData,
) -> Reply<F, E> {
    match state.request() {
        Request::EncryptionHeader => Reply::EncryptionHeader(contents.encryption_header->0),
        Request::PrimaryStream => Reply::StreamOpened,
        Request::Header => Reply::Header(Header { data: raw, ..contents.header }),
        Request::Entry(section) => Reply::Entry(
            contents.entries.entry(section, state.entries.count(section) as int),
        ),
        Request::DecodeHeader => Reply::HeaderDecoded(contents.header.data),
        Request::Wizard => Reply::Wizard(contents.wizard),
        Request::PrimaryEnd => Reply::AtEnd(true),
        Request::SecondaryStream => Reply::StreamOpened,
        Request::SecondaryEnd => Reply::AtEnd(true),
    }
}

/// Whether the replies are those that an installer with the given contents gives.
pub open spec fn answered_from<F: Format, E>(
    state: StreamState<F>,
    replies: Seq<Reply<F, E>>,
    contents: Contents<F>,
    raw: F::HeaderData,
) -> bool
    decreases replies.len(),
{
    replies.len() > 0 ==> {
        &&& replies[0] == answer::<F, E>(state, contents, raw)
        &&& state.next(replies[0]) matches Outcome::Reading(next) ==> answered_from(
            next,
            replies.drop_first(),
            contents,
            raw,
        )
    }
}

/// All that has been read is from the given contents.
spec fn agrees<F: Format>(state: StreamState<F>, contents: Contents<F>) -> bool {
    &&& state.setup_loader == contents.setup_loader
    &&& state.version == contents.version
    &&& state.encryption_header is Some ==> state.encryption_header == contents.encryption_header
    &&& state.header is Some ==> {
        &&& state.header->0.counts == contents.header.counts
        &&& state.header->0.encryption_header == contents.header.encryption_header
        &&& state.phase.rank() >= 4 ==> state.header->0.data == contents.header.data
    }
    &&& state.wizard is Some ==> state.wizard == Some(contents.wizard)
    &&& forall|section: Section| #[trigger]
        state.entries.count(section) <= contents.entries.count(section)
    &&& forall|section: Section, i: int|
        0 <= i < state.entries.count(section) ==> #[trigger] state.entries.entry(section, i)
            == contents.entries.entry(section, i)
}

proof fn lemma_answer_agrees<F: Format, E>(
    state: StreamState<F>,
    contents: Contents<F>,
    raw: F::HeaderData,
)
    requires
        state.well_formed(),
        contents.well_formed(),
        agrees(state, contents),
    ensures
        answer::<F, E>(state, contents, raw).answers(state.request()),
        match state.next(answer::<F, E>(state, contents, raw)) {
            Outcome::Reading(next) => agrees(next, contents),
            Outcome::Done(done) => done == contents,
            _ => false,
        },
{
    let reply = answer::<F, E>(state, contents, raw);
    if state.header is Some {
        lemma_first_unfinished(state.entries, state.counts(), 0);
    }
    match state.request() {
        Request::Entry(section) => {
            let entry = contents.entries.entry(section, state.entries.count(section) as int);
            assert(contents.entries.count(section) == contents.header.counts.of(section));
            assert(entry.section() == section);
            lemma_push_counts(state.entries, entry);
            let next = state.entries.push(entry);
            assert forall|s: Section, i: int| 0 <= i < next.count(s) implies #[trigger] next.entry(
                s,
                i,
            ) == contents.entries.entry(s, i) by {
                push_extends_one_section(state.entries, entry, s);
                assert(next.section(s)[i] == next.entry(s, i));
                if i < state.entries.count(s) {
                    assert(state.entries.section(s)[i] == state.entries.entry(s, i));
                }
            }
        },
        Request::SecondaryEnd => {
            assert forall|section: Section|
                state.entries.section(section) == contents.entries.section(section) by {
                let index = lemma_sections(section);
                assert(contents.entries.count(section) == contents.header.counts.of(section));
                assert forall|i: int| 0 <= i < state.entries.count(section) implies (
                state.entries.section(section)[i]) == contents.entries.section(section)[i] by {
                    assert(state.entries.entry(section, i) == contents.entries.entry(section, i));
                }
                assert(state.entries.section(section) =~= contents.entries.section(section));
            }
            lists_are_their_sections(state.entries, contents.entries);
        },
        _ => {},
    }
}

proof fn lemma_reading_ends<F: Format, E>(
    state: StreamState<F>,
    contents: Contents<F>,
    raw: F::HeaderData,
) -> (replies: Seq<Reply<F, E>>)
    requires
        state.well_formed(),
        contents.well_formed(),
        agrees(state, contents),
    ensures
        answered_from(state, replies, contents, raw),
        completes(state, replies, contents),
    decreases remaining(state, contents.header.counts).len(),
{
    let reply = answer::<F, E>(state, contents, raw);
    lemma_answer_agrees::<F, E>(state, contents, raw);
    replies_keep_states_well_formed(state, reply);
    lemma_request_is_first(state, contents.header.counts);
    match state.next(reply) {
        Outcome::Reading(next) => {
            lemma_reply_takes_first(state, reply, contents.header.counts);
            let rest = lemma_reading_ends::<F, E>(next, contents, raw);
            let replies = seq![reply] + rest;
            assert(replies.drop_first() =~= rest);
            replies
        },
        _ => seq![reply],
    }
}

/// Reading gives back what an installer holds: if every request is answered from well-formed
/// contents, whatever they are, the reading comes to its end and the installer shows those contents.
pub proof fn reading_gives_back_the_contents<F: Format, E>(
    contents: Contents<F>,
    raw: F::HeaderData,
) -> (replies: Seq<Reply<F, E>>)
    requires
        contents.well_formed(),
    ensures
        answered_from(
            StreamState::start(contents.setup_loader, contents.version),
            replies,
            contents,
            raw,
        ),
        completes(
            StreamState::start(contents.setup_loader, contents.version),
            replies,
            contents,
        ),
{
    let start = StreamState::<F>::start(contents.setup_loader, contents.version);
    lemma_start_well_formed::<F>(contents.setup_loader, contents.version);
    assert forall|section: Section| start.entries.count(section) == 0 by {}
    lemma_reading_ends::<F, E>(start, contents, raw)
}

/// From the moment the header's text is decoded, the codepage stays what it was.
pub proof fn codepage_is_settled<F: Format, E>(state: StreamState<F>, reply: Reply<F, E>)
    requires
        state.well_formed(),
        state.phase.rank() >= 4 || state.request() == Request::DecodeHeader,
    ensures
        state.next(reply) matches Outcome::Reading(next) ==> {
            &&& next.entries.codepages() == state.entries.codepages()
            &&& next.version == state.version
        },
{
    if state.header is Some {
        lemma_first_unfinished(state.entries, state.counts(), 0);
    }
}

/// The plan, request by request: the encryption header from release 6.5 on, the header, the
/// languages, the decoding of the header, the wizard before release 4, the messages, permissions,
/// types, components, tasks, directories, signature keys, files, icons, ini entries, registry
/// entries, install and uninstall deletions, install and uninstall runs, the wizard since release 4,
/// the end of the primary stream, and the secondary stream with the file locations and its end.
pub proof fn plan_in_full(version: InnoVersion, counts: EntryCounts)
    ensures
        ({
            let secondary = repeated(
                Request::Entry(Section::FileLocation),
                counts.file_location_entry as nat,
            ) + seq![Request::SecondaryEnd];
            let ends = repeated(Request::Wizard, if version.major < 4 { 0 } else { 1 }) + seq![
                Request::PrimaryEnd,
                Request::SecondaryStream,
            ] + secondary;
            let from_uninstall_run_entries = repeated(
                Request::Entry(Section::UninstallRun),
                counts.uninstall_run_entry as nat,
            ) + ends;
            let from_run_entries = repeated(
                Request::Entry(Section::Run),
                counts.run_entry as nat,
            ) + from_uninstall_run_entries;
            let from_uninstall_delete_entries = repeated(
                Request::Entry(Section::UninstallDelete),
                counts.uninstall_delete_entry as nat,
            ) + from_run_entries;
            let from_delete_entries = repeated(
                Request::Entry(Section::InstallDelete),
                counts.install_delete_entry as nat,
            ) + from_uninstall_delete_entries;
            let from_registry_entries = repeated(
                Request::Entry(Section::Registry),
                counts.registry_entry as nat,
            ) + from_delete_entries;
            let from_ini_entries = repeated(
                Request::Entry(Section::Ini),
                counts.ini_entry as nat,
            ) + from_registry_entries;
            let from_icons = repeated(
                Request::Entry(Section::Icon),
                counts.icon as nat,
            ) + from_ini_entries;
            let from_files = repeated(
                Request::Entry(Section::File),
                counts.file as nat,
            ) + from_icons;
            let from_is_sig_keys = repeated(
                Request::Entry(Section::SigKey),
                counts.is_sig_key as nat,
            ) + from_files;
            let from_directories = repeated(
                Request::Entry(Section::Directory),
                counts.directory as nat,
            ) + from_is_sig_keys;
            let from_tasks = repeated(
                Request::Entry(Section::Task),
                counts.task as nat,
            ) + from_directories;
            let from_components = repeated(
                Request::Entry(Section::Component),
                counts.component as nat,
            ) + from_tasks;
            let from_type_entries = repeated(
                Request::Entry(Section::Type),
                counts.type_entry as nat,
            ) + from_components;
            let from_permissions = repeated(
                Request::Entry(Section::Permission),
                counts.permission as nat,
            ) + from_type_entries;
            let from_messages = repeated(
                Request::Entry(Section::Message),
                counts.custom_message as nat,
            ) + from_permissions;
            let body = repeated(Request::Wizard, if version.major < 4 { 1 } else { 0 })
                + from_messages;
            let languages = repeated(Request::Entry(Section::Language), counts.language as nat) + (
            seq![Request::DecodeHeader] + body);
            plan(version, counts) == repeated(
                Request::EncryptionHeader,
                if version.major > 6 || version.major == 6 && version.minor >= 5 {
                    1
                } else {
                    0
                },
            ) + (seq![Request::PrimaryStream] + (seq![Request::Header] + languages))
        }),
{
    let secondary = repeated(
        Request::Entry(Section::FileLocation),
        counts.file_location_entry as nat,
    ) + seq![Request::SecondaryEnd];
    let ends = repeated(Request::Wizard, if version.major < 4 { 0 } else { 1 }) + seq![
        Request::PrimaryEnd,
        Request::SecondaryStream,
    ] + secondary;
    reveal_with_fuel(body_plan, 16);
    lemma_concat_associative(
        repeated(Request::Entry(Section::body(0)), counts.of(Section::body(0)) as nat),
        body_plan(counts, 1),
        ends,
    );
    lemma_concat_associative(
        repeated(Request::Entry(Section::body(1)), counts.of(Section::body(1)) as nat),
        body_plan(counts, 2),
        ends,
    );
    lemma_concat_associative(
        repeated(Request::Entry(Section::body(2)), counts.of(Section::body(2)) as nat),
        body_plan(counts, 3),
        ends,
    );
    lemma_concat_associative(
        repeated(Request::Entry(Section::body(3)), counts.of(Section::body(3)) as nat),
        body_plan(counts, 4),
        ends,
    );
    lemma_concat_associative(
        repeated(Request::Entry(Section::body(4)), counts.of(Section::body(4)) as nat),
        body_plan(counts, 5),
        ends,
    );
    lemma_concat_associative(
        repeated(Request::Entry(Section::body(5)), counts.of(Section::body(5)) as nat),
        body_plan(counts, 6),
        ends,
    );
    lemma_concat_associative(
        repeated(Request::Entry(Section::body(6)), counts.of(Section::body(6)) as nat),
        body_plan(counts, 7),
        ends,
    );
    lemma_concat_associative(
        repeated(Request::Entry(Section::body(7)), counts.of(Section::body(7)) as nat),
        body_plan(counts, 8),
        ends,
    );
    lemma_concat_associative(
        repeated(Request::Entry(Section::body(8)), counts.of(Section::body(8)) as nat),
        body_plan(counts, 9),
        ends,
    );
    lemma_concat_associative(
        repeated(Request::Entry(Section::body(9)), counts.of(Section::body(9)) as nat),
        body_plan(counts, 10),
        ends,
    );
    lemma_concat_associative(
        repeated(Request::Entry(Section::body(10)), counts.of(Section::body(10)) as nat),
        body_plan(counts, 11),
        ends,
    );
    lemma_concat_associative(
        repeated(Request::Entry(Section::body(11)), counts.of(Section::body(11)) as nat),
        body_plan(counts, 12),
        ends,
    );
    lemma_concat_associative(
        repeated(Request::Entry(Section::body(12)), counts.of(Section::body(12)) as nat),
        body_plan(counts, 13),
        ends,
    );
    lemma_concat_associative(
        repeated(Request::Entry(Section::body(13)), counts.of(Section::body(13)) as nat),
        body_plan(counts, 14),
        ends,
    );
    lemma_concat_associative(
        repeated(Request::Entry(Section::body(14)), counts.of(Section::body(14)) as nat),
        body_plan(counts, 15),
        ends,
    );
    assert(body_plan(counts, 15) + ends =~= ends);
}

/// Of an installer that is read, each list has as many entries as its own count in the header says,
/// and an encryption header stands before the primary stream exactly from release 6.5 on.
pub proof fn lists_are_as_long_as_announced<F: Format, E>(
    setup_loader: SetupLoader,
    version: InnoVersion,
    replies: Seq<Reply<F, E>>,
    contents: Contents<F>,
)
    requires
        completes(StreamState::start(setup_loader, version), replies, contents),
    ensures
        contents.entries.languages.len() == contents.header.counts.language,
        contents.entries.messages.len() == contents.header.counts.custom_message,
        contents.entries.permissions.len() == contents.header.counts.permission,
        contents.entries.type_entries.len() == contents.header.counts.type_entry,
        contents.entries.components.len() == contents.header.counts.component,
        contents.entries.tasks.len() == contents.header.counts.task,
        contents.entries.directories.len() == contents.header.counts.directory,
        contents.entries.is_sig_keys.len() == contents.header.counts.is_sig_key,
        contents.entries.files.len() == contents.header.counts.file,
        contents.entries.icons.len() == contents.header.counts.icon,
        contents.entries.ini_entries.len() == contents.header.counts.ini_entry,
        contents.entries.registry_entries.len() == contents.header.counts.registry_entry,
        contents.entries.delete_entries.len() == contents.header.counts.install_delete_entry,
        contents.entries.uninstall_delete_entries.len() == contents.header.counts.uninstall_delete_entry,
        contents.entries.run_entries.len() == contents.header.counts.run_entry,
        contents.entries.uninstall_run_entries.len() == contents.header.counts.uninstall_run_entry,
        contents.entries.file_locations.len() == contents.header.counts.file_location_entry,
        contents.encryption_header is Some <==> version.major > 6 || version.major == 6
            && version.minor >= 5,
{
    lemma_start_well_formed::<F>(setup_loader, version);
    lemma_completes_well_formed(StreamState::start(setup_loader, version), replies, contents);
    lemma_entries_are_gathered(
        StreamState::start(setup_loader, version),
        replies,
        contents,
        Section::Language,
    );
    assert(contents.header.counts.of(Section::Language) == contents.entries.count(
        Section::Language,
    ));
    assert(contents.header.counts.of(Section::Message) == contents.entries.count(
        Section::Message,
    ));
    assert(contents.header.counts.of(Section::Permission) == contents.entries.count(
        Section::Permission,
    ));
    assert(contents.header.counts.of(Section::Type) == contents.entries.count(
        Section::Type,
    ));
    assert(contents.header.counts.of(Section::Component) == contents.entries.count(
        Section::Component,
    ));
    assert(contents.header.counts.of(Section::Task) == contents.entries.count(
        Section::Task,
    ));
    assert(contents.header.counts.of(Section::Directory) == contents.entries.count(
        Section::Directory,
    ));
    assert(contents.header.counts.of(Section::SigKey) == contents.entries.count(
        Section::SigKey,
    ));
    assert(contents.header.counts.of(Section::File) == contents.entries.count(
        Section::File,
    ));
    assert(contents.header.counts.of(Section::Icon) == contents.entries.count(
        Section::Icon,
    ));
    assert(contents.header.counts.of(Section::Ini) == contents.entries.count(
        Section::Ini,
    ));
    assert(contents.header.counts.of(Section::Registry) == contents.entries.count(
        Section::Registry,
    ));
    assert(contents.header.counts.of(Section::InstallDelete) == contents.entries.count(
        Section::InstallDelete,
    ));
    assert(contents.header.counts.of(Section::UninstallDelete) == contents.entries.count(
        Section::UninstallDelete,
    ));
    assert(contents.header.counts.of(Section::Run) == contents.entries.count(
        Section::Run,
    ));
    assert(contents.header.counts.of(Section::UninstallRun) == contents.entries.count(
        Section::UninstallRun,
    ));
    assert(contents.header.counts.of(Section::FileLocation) == contents.entries.count(
        Section::FileLocation,
    ));
}

proof fn lemma_completes_well_formed<F: Format, E>(
    state: StreamState<F>,
    replies: Seq<Reply<F, E>>,
    contents: Contents<F>,
)
    requires
        state.well_formed(),
        completes(state, replies, contents),
    ensures
        contents.well_formed(),
    decreases replies.len(),
{
    replies_keep_states_well_formed(state, replies[0]);
    match state.next(replies[0]) {
        Outcome::Reading(next) => {
            lemma_completes_well_formed(next, replies.drop_first(), contents);
        },
        _ => {},
    }
}

/// Taking the first element off a sequence takes what is made of it off what is made of the sequence.
proof fn lemma_filter_map_first<A, B>(s: Seq<A>, f: spec_fn(A) -> Option<B>)
    requires
        s.len() > 0,
    ensures
        s.filter_map(f) == (match f(s[0]) {
            Some(b) => seq![b],
            None => seq![],
        }) + s.drop_first().filter_map(f),
    decreases s.len(),
{
    reveal_with_fuel(Seq::filter_map, 2);
    let first: Seq<B> = match f(s[0]) {
        Some(b) => seq![b],
        None => seq![],
    };
    if s.len() == 1 {
        assert(s.drop_last() =~= seq![]);
        assert(s.drop_first() =~= seq![]);
        assert(s.filter_map(f) =~= first + s.drop_first().filter_map(f));
    } else {
        lemma_filter_map_first(s.drop_last(), f);
        assert(s.drop_last().drop_first() =~= s.drop_first().drop_last());
        assert(s.drop_last()[0] == s[0]);
        assert(s.drop_first().last() == s.last());
        assert(s.filter_map(f) =~= first + s.drop_first().filter_map(f));
    }
}

/// A list to which the replies add what is picked from them is, in the end, what was picked from all
/// of them.
proof fn lemma_list_is_gathered<F: Format, E, T>(
    state: StreamState<F>,
    replies: Seq<Reply<F, E>>,
    contents: Contents<F>,
    list: spec_fn(EntryLists<F>) -> Seq<T>,
    pick: spec_fn(Reply<F, E>) -> Option<T>,
)
    requires
        completes(state, replies, contents),
        forall|lists: EntryLists<F>, entry: Entry<F>| #[trigger]
            list(lists.push(entry)) =~= list(lists) + (match pick(Reply::Entry(entry)) {
                Some(e) => seq![e],
                None => seq![],
            }),
        forall|reply: Reply<F, E>| !(reply is Entry) ==> #[trigger] pick(reply) is None,
    ensures
        list(contents.entries) == list(state.entries) + replies.filter_map(pick),
    decreases replies.len(),
{
    lemma_filter_map_first(replies, pick);
    match state.next(replies[0]) {
        Outcome::Reading(next) => {
            lemma_list_is_gathered(next, replies.drop_first(), contents, list, pick);
            match replies[0] {
                Reply::Entry(entry) => {
                    assert(list(state.entries.push(entry)) =~= list(next.entries));
                    assert(list(contents.entries) =~= list(state.entries) + replies.filter_map(
                        pick,
                    ));
                },
                _ => {
                    assert(pick(replies[0]) is None);
                    assert(list(contents.entries) =~= list(state.entries) + replies.filter_map(
                        pick,
                    ));
                },
            }
        },
        _ => {
            assert(pick(replies[0]) is None);
            assert(replies.drop_first() =~= seq![]);
            assert(list(contents.entries) =~= list(state.entries) + replies.filter_map(pick));
        },
    }
}

/// Each list of an installer that is read holds the replied entries of its own kind, in the order in
/// which they were replied.
pub proof fn lists_hold_their_replies<F: Format, E>(
    setup_loader: SetupLoader,
    version: InnoVersion,
    replies: Seq<Reply<F, E>>,
    contents: Contents<F>,
)
    requires
        completes(StreamState::start(setup_loader, version), replies, contents),
    ensures
        contents.entries.languages == replies.filter_map(
            |reply: Reply<F, E>|
                match reply {
                    Reply::Entry(Entry::Language(e)) => Some(e),
                    _ => None,
                },
        ),
        contents.entries.messages == replies.filter_map(
            |reply: Reply<F, E>|
                match reply {
                    Reply::Entry(Entry::Message(e)) => Some(e),
                    _ => None,
                },
        ),
        contents.entries.permissions == replies.filter_map(
            |reply: Reply<F, E>|
                match reply {
                    Reply::Entry(Entry::Permission(e)) => Some(e),
                    _ => None,
                },
        ),
        contents.entries.type_entries == replies.filter_map(
            |reply: Reply<F, E>|
                match reply {
                    Reply::Entry(Entry::Type(e)) => Some(e),
                    _ => None,
                },
        ),
        contents.entries.components == replies.filter_map(
            |reply: Reply<F, E>|
                match reply {
                    Reply::Entry(Entry::Component(e)) => Some(e),
                    _ => None,
                },
        ),
        contents.entries.tasks == replies.filter_map(
            |reply: Reply<F, E>|
                match reply {
                    Reply::Entry(Entry::Task(e)) => Some(e),
                    _ => None,
                },
        ),
        contents.entries.directories == replies.filter_map(
            |reply: Reply<F, E>|
                match reply {
                    Reply::Entry(Entry::Directory(e)) => Some(e),
                    _ => None,
                },
        ),
        contents.entries.is_sig_keys == replies.filter_map(
            |reply: Reply<F, E>|
                match reply {
                    Reply::Entry(Entry::SigKey(e)) => Some(e),
                    _ => None,
                },
        ),
        contents.entries.files == replies.filter_map(
            |reply: Reply<F, E>|
                match reply {
                    Reply::Entry(Entry::File(e)) => Some(e),
                    _ => None,
                },
        ),
        contents.entries.icons == replies.filter_map(
            |reply: Reply<F, E>|
                match reply {
                    Reply::Entry(Entry::Icon(e)) => Some(e),
                    _ => None,
                },
        ),
        contents.entries.ini_entries == replies.filter_map(
            |reply: Reply<F, E>|
                match reply {
                    Reply::Entry(Entry::Ini(e)) => Some(e),
                    _ => None,
                },
        ),
        contents.entries.registry_entries == replies.filter_map(
            |reply: Reply<F, E>|
                match reply {
                    Reply::Entry(Entry::Registry(e)) => Some(e),
                    _ => None,
                },
        ),
        contents.entries.delete_entries == replies.filter_map(
            |reply: Reply<F, E>|
                match reply {
                    Reply::Entry(Entry::InstallDelete(e)) => Some(e),
                    _ => None,
                },
        ),
        contents.entries.uninstall_delete_entries == replies.filter_map(
            |reply: Reply<F, E>|
                match reply {
                    Reply::Entry(Entry::UninstallDelete(e)) => Some(e),
                    _ => None,
                },
        ),
        contents.entries.run_entries == replies.filter_map(
            |reply: Reply<F, E>|
                match reply {
                    Reply::Entry(Entry::Run(e)) => Some(e),
                    _ => None,
                },
        ),
        contents.entries.uninstall_run_entries == replies.filter_map(
            |reply: Reply<F, E>|
                match reply {
                    Reply::Entry(Entry::UninstallRun(e)) => Some(e),
                    _ => None,
                },
        ),
        contents.entries.file_locations == replies.filter_map(
            |reply: Reply<F, E>|
                match reply {
                    Reply::Entry(Entry::FileLocation(e)) => Some(e),
                    _ => None,
                },
        ),
{
    let start = StreamState::<F>::start(setup_loader, version);
    lemma_list_is_gathered(
        start,
        replies,
        contents,
        |lists: EntryLists<F>| lists.languages,
        |reply: Reply<F, E>|
            match reply {
                Reply::Entry(Entry::Language(e)) => Some(e),
                _ => None,
            },
    );
    lemma_list_is_gathered(
        start,
        replies,
        contents,
        |lists: EntryLists<F>| lists.messages,
        |reply: Reply<F, E>|
            match reply {
                Reply::Entry(Entry::Message(e)) => Some(e),
                _ => None,
            },
    );
    lemma_list_is_gathered(
        start,
        replies,
        contents,
        |lists: EntryLists<F>| lists.permissions,
        |reply: Reply<F, E>|
            match reply {
                Reply::Entry(Entry::Permission(e)) => Some(e),
                _ => None,
            },
    );
    lemma_list_is_gathered(
        start,
        replies,
        contents,
        |lists: EntryLists<F>| lists.type_entries,
        |reply: Reply<F, E>|
            match reply {
                Reply::Entry(Entry::Type(e)) => Some(e),
                _ => None,
            },
    );
    lemma_list_is_gathered(
        start,
        replies,
        contents,
        |lists: EntryLists<F>| lists.components,
        |reply: Reply<F, E>|
            match reply {
                Reply::Entry(Entry::Component(e)) => Some(e),
                _ => None,
            },
    );
    lemma_list_is_gathered(
        start,
        replies,
        contents,
        |lists: EntryLists<F>| lists.tasks,
        |reply: Reply<F, E>|
            match reply {
                Reply::Entry(Entry::Task(e)) => Some(e),
                _ => None,
            },
    );
    lemma_list_is_gathered(
        start,
        replies,
        contents,
        |lists: EntryLists<F>| lists.directories,
        |reply: Reply<F, E>|
            match reply {
                Reply::Entry(Entry::Directory(e)) => Some(e),
                _ => None,
            },
    );
    lemma_list_is_gathered(
        start,
        replies,
        contents,
        |lists: EntryLists<F>| lists.is_sig_keys,
        |reply: Reply<F, E>|
            match reply {
                Reply::Entry(Entry::SigKey(e)) => Some(e),
                _ => None,
            },
    );
    lemma_list_is_gathered(
        start,
        replies,
        contents,
        |lists: EntryLists<F>| lists.files,
        |reply: Reply<F, E>|
            match reply {
                Reply::Entry(Entry::File(e)) => Some(e),
                _ => None,
            },
    );
    lemma_list_is_gathered(
        start,
        replies,
        contents,
        |lists: EntryLists<F>| lists.icons,
        |reply: Reply<F, E>|
            match reply {
                Reply::Entry(Entry::Icon(e)) => Some(e),
                _ => None,
            },
    );
    lemma_list_is_gathered(
        start,
        replies,
        contents,
        |lists: EntryLists<F>| lists.ini_entries,
        |reply: Reply<F, E>|
            match reply {
                Reply::Entry(Entry::Ini(e)) => Some(e),
                _ => None,
            },
    );
    lemma_list_is_gathered(
        start,
        replies,
        contents,
        |lists: EntryLists<F>| lists.registry_entries,
        |reply: Reply<F, E>|
            match reply {
                Reply::Entry(Entry::Registry(e)) => Some(e),
                _ => None,
            },
    );
    lemma_list_is_gathered(
        start,
        replies,
        contents,
        |lists: EntryLists<F>| lists.delete_entries,
        |reply: Reply<F, E>|
            match reply {
                Reply::Entry(Entry::InstallDelete(e)) => Some(e),
                _ => None,
            },
    );
    lemma_list_is_gathered(
        start,
        replies,
        contents,
        |lists: EntryLists<F>| lists.uninstall_delete_entries,
        |reply: Reply<F, E>|
            match reply {
                Reply::Entry(Entry::UninstallDelete(e)) => Some(e),
                _ => None,
            },
    );
    lemma_list_is_gathered(
        start,
        replies,
        contents,
        |lists: EntryLists<F>| lists.run_entries,
        |reply: Reply<F, E>|
            match reply {
                Reply::Entry(Entry::Run(e)) => Some(e),
                _ => None,
            },
    );
    lemma_list_is_gathered(
        start,
        replies,
        contents,
        |lists: EntryLists<F>| lists.uninstall_run_entries,
        |reply: Reply<F, E>|
            match reply {
                Reply::Entry(Entry::UninstallRun(e)) => Some(e),
                _ => None,
            },
    );
    lemma_list_is_gathered(
        start,
        replies,
        contents,
        |lists: EntryLists<F>| lists.file_locations,
        |reply: Reply<F, E>|
            match reply {
                Reply::Entry(Entry::FileLocation(e)) => Some(e),
                _ => None,
            },
    );
}

/// How far a reading has come after some replies, unless it has ended or was given a reply to another
/// request.
pub open spec fn reached<F: Format, E>(
    state: StreamState<F>,
    replies: Seq<Reply<F, E>>,
) -> Option<StreamState<F>>
    decreases replies.len(),
{
    if replies.len() == 0 {
        Some(state)
    } else {
        match state.next(replies[0]) {
            Outcome::Reading(next) => reached(next, replies.drop_first()),
            _ => None,
        }
    }
}

proof fn lemma_requests_so_far<F: Format, E>(
    state: StreamState<F>,
    replies: Seq<Reply<F, E>>,
    last: StreamState<F>,
    counts: EntryCounts,
)
    requires
        state.well_formed(),
        reached(state, replies) == Some(last),
        last.header is Some ==> last.counts() == counts,
    ensures
        last.well_formed(),
        last.version == state.version,
        state.header is Some ==> last.header is Some && state.counts() == counts,
        requests(state, replies).len() == replies.len(),
        requests(state, replies) + remaining(last, counts) == remaining(state, counts),
    decreases replies.len(),
{
    if replies.len() == 0 {
        assert(requests(state, replies) + remaining(last, counts) =~= remaining(state, counts));
    } else {
        replies_keep_states_well_formed(state, replies[0]);
        let next = state.next(replies[0])->Reading_0;
        lemma_requests_so_far(next, replies.drop_first(), last, counts);
        lemma_request_is_first(state, counts);
        lemma_reply_takes_first(state, replies[0], counts);
        assert(requests(state, replies) + remaining(last, counts) =~= seq![state.request()]
            + remaining(next, counts));
        assert(requests(state, replies) + remaining(last, counts) =~= remaining(state, counts));
    }
}

/// However far a reading has come, it has asked for the beginning of the plan, and it asks for the
/// next part of it. Before the header is read, that holds whatever the header will announce.
pub proof fn requests_so_far_follow_the_plan<F: Format, E>(
    setup_loader: SetupLoader,
    version: InnoVersion,
    replies: Seq<Reply<F, E>>,
    last: StreamState<F>,
    counts: EntryCounts,
)
    requires
        reached(StreamState::start(setup_loader, version), replies) == Some(last),
        last.header is Some ==> last.counts() == counts,
    ensures
        replies.len() < plan(version, counts).len(),
        requests(StreamState::<F>::start(setup_loader, version), replies) == plan(
            version,
            counts,
        ).take(replies.len() as int),
        last.request() == plan(version, counts)[replies.len() as int],
{
    let start = StreamState::<F>::start(setup_loader, version);
    lemma_start_well_formed::<F>(setup_loader, version);
    lemma_requests_so_far(start, replies, last, counts);
    lemma_plan_remains_at_start::<F>(setup_loader, version, counts);
    lemma_request_is_first(last, counts);
    assert(requests(start, replies) =~= plan(version, counts).take(replies.len() as int));
}

/// What is read once stays.
proof fn lemma_read_once<F: Format, E>(
    state: StreamState<F>,
    replies: Seq<Reply<F, E>>,
    contents: Contents<F>,
)
    requires
        state.well_formed(),
        completes(state, replies, contents),
    ensures
        state.encryption_header is Some ==> contents.encryption_header == state.encryption_header,
        state.header is Some ==> {
            &&& contents.header.counts == state.header->0.counts
            &&& contents.header.encryption_header == state.header->0.encryption_header
            &&& state.phase.rank() >= 4 ==> contents.header.data == state.header->0.data
        },
        state.wizard is Some ==> contents.wizard == state.wizard->0,
    decreases replies.len(),
{
    replies_keep_states_well_formed(state, replies[0]);
    if state.header is Some {
        lemma_first_unfinished(state.entries, state.counts(), 0);
    }
    match state.next(replies[0]) {
        Outcome::Reading(next) => {
            lemma_read_once(next, replies.drop_first(), contents);
        },
        _ => {},
    }
}

proof fn lemma_reply_is_shown<F: Format, E>(
    state: StreamState<F>,
    replies: Seq<Reply<F, E>>,
    contents: Contents<F>,
    i: int,
)
    requires
        state.well_formed(),
        completes(state, replies, contents),
        0 <= i < replies.len(),
    ensures
        match replies[i] {
            Reply::EncryptionHeader(read) => contents.encryption_header == Some(read),
            Reply::Header(read) => contents.header.counts == read.counts
                && contents.header.encryption_header == read.encryption_header,
            Reply::HeaderDecoded(decoded) => contents.header.data == decoded,
            Reply::Wizard(read) => contents.wizard == read,
            Reply::AtEnd(at_end) => at_end,
            Reply::Failed(_) => false,
            _ => true,
        },
    decreases replies.len(),
{
    replies_keep_states_well_formed(state, replies[0]);
    match state.next(replies[0]) {
        Outcome::Reading(next) => {
            lemma_read_once(next, replies.drop_first(), contents);
            if i > 0 {
                lemma_reply_is_shown(next, replies.drop_first(), contents, i - 1);
                assert(replies.drop_first()[i - 1] == replies[i]);
            }
        },
        _ => {},
    }
}

/// An installer that is read shows the encryption header, the counts and the encryption header of the
/// header, the decoded text of the header and the wizard as they were replied; and both streams
/// were at their ends and nothing failed.
pub proof fn single_replies_are_shown<F: Format, E>(
    setup_loader: SetupLoader,
    version: InnoVersion,
    replies: Seq<Reply<F, E>>,
    contents: Contents<F>,
)
    requires
        completes(StreamState::start(setup_loader, version), replies, contents),
    ensures
        forall|i: int|
            0 <= i < replies.len() ==> match #[trigger] replies[i] {
                Reply::EncryptionHeader(read) => contents.encryption_header == Some(read),
                Reply::Header(read) => contents.header.counts == read.counts
                    && contents.header.encryption_header == read.encryption_header,
                Reply::HeaderDecoded(decoded) => contents.header.data == decoded,
                Reply::Wizard(read) => contents.wizard == read,
                Reply::AtEnd(at_end) => at_end,
                Reply::Failed(_) => false,
                _ => true,
            },
{
    let start = StreamState::<F>::start(setup_loader, version);
    lemma_start_well_formed::<F>(setup_loader, version);
    assert forall|i: int| 0 <= i < replies.len() implies match #[trigger] replies[i] {
        Reply::EncryptionHeader(read) => contents.encryption_header == Some(read),
        Reply::Header(read) => contents.header.counts == read.counts
            && contents.header.encryption_header == read.encryption_header,
        Reply::HeaderDecoded(decoded) => contents.header.data == decoded,
        Reply::Wizard(read) => contents.wizard == read,
        Reply::AtEnd(at_end) => at_end,
        Reply::Failed(_) => false,
        _ => true,
    } by {
        lemma_reply_is_shown(start, replies, contents, i);
    }
}

} // verus!
