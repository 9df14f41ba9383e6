use crate::codepage::{preferred_codepage, Codepage};
use crate::entry::{Entries, Entry, EntryLists, Format, Language, Section, BODY_SECTIONS};
use crate::error::{HeaderStream, InnoError};
use crate::header::{EntryCounts, Header};
use crate::inno::{Contents, Inno};
use crate::loader::SetupLoader;
use crate::version::{release_number, InnoVersion};
use vstd::prelude::*;

verus! {

/// What has to be done next to read the streams of an installer.
#[derive(Clone, Copy, PartialEq, Eq, Structural, Debug)]
pub enum Request {
    /// Read the encryption header that stands before the primary stream.
    EncryptionHeader,
    /// Open the primary stream.
    PrimaryStream,
    /// Read the header.
    Header,
    /// Read one entry of a section.
    Entry(Section),
    /// Decode the text of the header with the installer's codepage.
    DecodeHeader,
    /// Read the wizard.
    Wizard,
    /// Tell whether the primary stream is at its end.
    PrimaryEnd,
    /// Leave the primary stream and open the secondary one.
    SecondaryStream,
    /// Tell whether the secondary stream is at its end.
    SecondaryEnd,
}

/// What came of a request.
pub enum Reply<F: Format, E> {
    EncryptionHeader(F::EncryptionHeader),
    StreamOpened,
    Header(Header<F>),
    Entry(Entry<F>),
    HeaderDecoded(F::HeaderData),
    Wizard(F::Wizard),
    /// Whether the stream is at its end.
    AtEnd(bool),
    /// The reader underneath failed.
    Failed(E),
}

impl<F: Format, E> Reply<F, E> {
    /// Whether this is a reply to the request. Decoding text that is already in memory cannot fail,
    /// nor can telling whether a stream is at its end.
    pub open spec fn spec_answers(&self, request: Request) -> bool {
        match self {
            Reply::EncryptionHeader(_) => request == Request::EncryptionHeader,
            Reply::StreamOpened => request == Request::PrimaryStream || request
                == Request::SecondaryStream,
            Reply::Header(_) => request == Request::Header,
            Reply::Entry(entry) => request == Request::Entry(entry.section()),
            Reply::HeaderDecoded(_) => request == Request::DecodeHeader,
            Reply::Wizard(_) => request == Request::Wizard,
            Reply::AtEnd(_) => request == Request::PrimaryEnd || request == Request::SecondaryEnd,
            Reply::Failed(_) => request != Request::DecodeHeader && request != Request::PrimaryEnd
                && request != Request::SecondaryEnd,
        }
    }

    /// Returns `true` if this is a reply to the request.
    #[verifier::when_used_as_spec(spec_answers)]
    pub fn answers(&self, request: Request) -> (yes: bool)
        ensures
            yes == self.spec_answers(request),
    {
        match self {
            Reply::EncryptionHeader(_) => request == Request::EncryptionHeader,
            Reply::StreamOpened => request == Request::PrimaryStream || request
                == Request::SecondaryStream,
            Reply::Header(_) => request == Request::Header,
            Reply::Entry(entry) => request == Request::Entry(entry.section()),
            Reply::HeaderDecoded(_) => request == Request::DecodeHeader,
            Reply::Wizard(_) => request == Request::Wizard,
            Reply::AtEnd(_) => request == Request::PrimaryEnd || request == Request::SecondaryEnd,
            Reply::Failed(_) => request != Request::DecodeHeader && request != Request::PrimaryEnd
                && request != Request::SecondaryEnd,
        }
    }
}

/// The parts of the streams, in their order.
#[derive(Clone, Copy, PartialEq, Eq, Structural, Debug)]
pub enum Phase {
    EncryptionHeader,
    PrimaryStream,
    Header,
    Languages,
    /// Everything of the primary stream after the languages.
    Body,
    SecondaryStream,
    Locations,
}

impl Phase {
    /// The position of the part in the order of the streams.
    pub open spec fn rank(self) -> int {
        match self {
            Phase::EncryptionHeader => 0,
            Phase::PrimaryStream => 1,
            Phase::Header => 2,
            Phase::Languages => 3,
            Phase::Body => 4,
            Phase::SecondaryStream => 5,
            Phase::Locations => 6,
        }
    }
}

/// The first of the body's sections, from the one at `from` on, that misses an announced entry.
pub open spec fn first_unfinished<F: Format>(
    entries: EntryLists<F>,
    counts: EntryCounts,
    from: usize,
) -> Option<Section>
    decreases BODY_SECTIONS - from,
{
    if from >= BODY_SECTIONS {
        None
    } else if entries.count(Section::body(from)) < counts.of(Section::body(from)) {
        Some(Section::body(from))
    } else {
        first_unfinished(entries, counts, (from + 1) as usize)
    }
}

/// How far the reading of an installer's streams has come.
#[verifier::ext_equal]
pub ghost struct StreamState<F: Format> {
    pub setup_loader: SetupLoader,
    pub version: InnoVersion,
    pub phase: Phase,
    pub encryption_header: Option<F::EncryptionHeader>,
    pub header: Option<Header<F>>,
    pub entries: EntryLists<F>,
    pub wizard: Option<F::Wizard>,
}

/// What a reply leads to.
#[verifier::ext_equal]
pub ghost enum Outcome<F: Format, E> {
    /// There is more to read.
    Reading(StreamState<F>),
    /// The installer is read.
    Done(Contents<F>),
    /// The installer cannot be read.
    Failed(InnoError<E>),
    /// The reply was to another request: nothing has changed.
    Unexpected(StreamState<F>, Reply<F, E>),
}

impl<F: Format> StreamState<F> {
    /// Nothing is read yet. An encryption header stands before the primary stream from release 6.5
    /// on.
    pub open spec fn start(setup_loader: SetupLoader, version: InnoVersion) -> Self {
        StreamState {
            setup_loader,
            version,
            phase: if version.number() >= release_number(6, 5, 0, 0) {
                Phase::EncryptionHeader
            } else {
                Phase::PrimaryStream
            },
            encryption_header: None,
            header: None,
            entries: EntryLists::empty(),
            wizard: None,
        }
    }

    /// The counts that the header announced.
    pub open spec fn counts(self) -> EntryCounts
        recommends
            self.header is Some,
    {
        self.header->0.counts
    }

    /// Whether the wizard stands before the body's sections, as it did before release 4, and not
    /// after them.
    pub open spec fn wizard_first(self) -> bool {
        self.version.number() < release_number(4, 0, 0, 0)
    }

    /// No section of the body has an entry yet.
    pub open spec fn body_untouched(self) -> bool {
        forall|i: usize|
            i < BODY_SECTIONS ==> self.entries.count(#[trigger] Section::body(i)) == 0
    }

    /// Every section of the body has all its entries.
    pub open spec fn body_complete(self) -> bool {
        forall|i: usize|
            i < BODY_SECTIONS ==> self.entries.count(#[trigger] Section::body(i))
                == self.counts().of(Section::body(i))
    }

    /// What has been read is what stands before the present part of the streams.
    pub open spec fn well_formed(self) -> bool {
        let rank = self.phase.rank();
        &&& self.phase == Phase::EncryptionHeader ==> self.version.number() >= release_number(
            6,
            5,
            0,
            0,
        )
        &&& self.encryption_header is Some <==> rank >= 1 && self.version.number()
            >= release_number(6, 5, 0, 0)
        &&& self.header is Some <==> rank >= 3
        &&& rank < 3 ==> self.entries.languages.len() == 0
        &&& rank >= 3 ==> self.entries.languages.len() <= self.counts().language
        &&& rank >= 4 ==> self.entries.languages.len() == self.counts().language
        &&& rank < 4 ==> self.wizard is None && self.body_untouched()
        &&& rank == 4 ==> {
            &&& forall|i: usize|
                i < BODY_SECTIONS ==> self.entries.count(#[trigger] Section::body(i))
                    <= self.counts().of(Section::body(i))
            &&& self.wizard_first() && self.wizard is None ==> self.body_untouched()
            &&& !self.wizard_first() && self.wizard is Some ==> self.body_complete()
        }
        &&& rank >= 5 ==> self.wizard is Some && self.body_complete()
        &&& rank < 6 ==> self.entries.file_locations.len() == 0
        &&& rank == 6 ==> self.entries.file_locations.len() <= self.counts().file_location_entry
    }

    /// What has to be done next.
    pub open spec fn request(self) -> Request {
        match self.phase {
            Phase::EncryptionHeader => Request::EncryptionHeader,
            Phase::PrimaryStream => Request::PrimaryStream,
            Phase::Header => Request::Header,
            Phase::Languages => if self.entries.languages.len() < self.counts().language {
                Request::Entry(Section::Language)
            } else {
                Request::DecodeHeader
            },
            Phase::Body => if self.wizard_first() && self.wizard is None {
                Request::Wizard
            } else {
                match first_unfinished(self.entries, self.counts(), 0) {
                    Some(section) => Request::Entry(section),
                    None => if self.wizard is None {
                        Request::Wizard
                    } else {
                        Request::PrimaryEnd
                    },
                }
            },
            Phase::SecondaryStream => Request::SecondaryStream,
            Phase::Locations => if self.entries.file_locations.len()
                < self.counts().file_location_entry {
                Request::Entry(Section::FileLocation)
            } else {
                Request::SecondaryEnd
            },
        }
    }

    /// What the present state holds of the installer.
    pub open spec fn contents(self) -> Contents<F>
        recommends
            self.header is Some,
            self.wizard is Some,
    {
        Contents {
            setup_loader: self.setup_loader,
            version: self.version,
            encryption_header: self.encryption_header,
            header: self.header->0,
            entries: self.entries,
            wizard: self.wizard->0,
        }
    }

    /// What a reply leads to.
    pub open spec fn next<E>(self, reply: Reply<F, E>) -> Outcome<F, E> {
        if !reply.answers(self.request()) {
            Outcome::Unexpected(self, reply)
        } else {
            match reply {
                Reply::EncryptionHeader(encryption_header) => Outcome::Reading(
                    StreamState {
                        encryption_header: Some(encryption_header),
                        phase: Phase::PrimaryStream,
                        ..self
                    },
                ),
                Reply::StreamOpened => Outcome::Reading(
                    StreamState {
                        phase: if self.phase == Phase::PrimaryStream {
                            Phase::Header
                        } else {
                            Phase::Locations
                        },
                        ..self
                    },
                ),
                Reply::Header(header) => Outcome::Reading(
                    StreamState { header: Some(header), phase: Phase::Languages, ..self },
                ),
                Reply::Entry(entry) => Outcome::Reading(
                    StreamState { entries: self.entries.push(entry), ..self },
                ),
                Reply::HeaderDecoded(data) => Outcome::Reading(
                    StreamState {
                        header: Some(Header { data, ..self.header->0 }),
                        phase: Phase::Body,
                        ..self
                    },
                ),
                Reply::Wizard(wizard) => Outcome::Reading(
                    StreamState { wizard: Some(wizard), ..self },
                ),
                Reply::AtEnd(at_end) => if self.phase == Phase::Body {
                    if at_end {
                        Outcome::Reading(StreamState { phase: Phase::SecondaryStream, ..self })
                    } else {
                        Outcome::Failed(InnoError::UnexpectedExtraData(HeaderStream::Primary))
                    }
                } else {
                    if at_end {
                        Outcome::Done(self.contents())
                    } else {
                        Outcome::Failed(InnoError::UnexpectedExtraData(HeaderStream::Secondary))
                    }
                },
                Reply::Failed(error) => Outcome::Failed(InnoError::Read(error)),
            }
        }
    }
}

/// Adding an entry makes one section longer by one.
pub(crate) proof fn lemma_push_counts<F: Format>(entries: EntryLists<F>, entry: Entry<F>)
    ensures
        forall|section: Section| #[trigger]
            entries.push(entry).count(section) == entries.count(section) + (if section
                == entry.section() {
                1nat
            } else {
                0nat
            }),
{
}

/// `first_unfinished` finds a section that misses an entry while those before it miss none, unless
/// there is no such section.
pub(crate) proof fn lemma_first_unfinished<F: Format>(
    entries: EntryLists<F>,
    counts: EntryCounts,
    from: usize,
) -> (found: usize)
    requires
        from <= BODY_SECTIONS,
    ensures
        from <= found <= BODY_SECTIONS,
        forall|i: usize|
            from <= i < found ==> entries.count(#[trigger] Section::body(i)) >= counts.of(
                Section::body(i),
            ),
        found == BODY_SECTIONS <==> first_unfinished(entries, counts, from) is None,
        found < BODY_SECTIONS ==> {
            &&& first_unfinished(entries, counts, from) == Some(Section::body(found))
            &&& entries.count(Section::body(found)) < counts.of(Section::body(found))
        },
    decreases BODY_SECTIONS - from,
{
    if from >= BODY_SECTIONS {
        from
    } else if entries.count(Section::body(from)) < counts.of(Section::body(from)) {
        from
    } else {
        lemma_first_unfinished(entries, counts, (from + 1) as usize)
    }
}

/// Every section is that of the languages, one of the body, or that of the file locations.
pub(crate) proof fn lemma_sections(section: Section) -> (index: usize)
    ensures
        section != Section::Language && section != Section::FileLocation ==> index < BODY_SECTIONS
            && section == Section::body(index),
{
    match section {
        Section::Message => 0,
        Section::Permission => 1,
        Section::Type => 2,
        Section::Component => 3,
        Section::Task => 4,
        Section::Directory => 5,
        Section::SigKey => 6,
        Section::File => 7,
        Section::Icon => 8,
        Section::Ini => 9,
        Section::Registry => 10,
        Section::InstallDelete => 11,
        Section::UninstallDelete => 12,
        Section::Run => 13,
        _ => 14,
    }
}

/// The start is well formed.
pub(crate) proof fn lemma_start_well_formed<F: Format>(
    setup_loader: SetupLoader,
    version: InnoVersion,
)
    ensures
        StreamState::<F>::start(setup_loader, version).well_formed(),
{
}

/// Whatever the reply, what it leads to is well formed again.
pub proof fn replies_keep_states_well_formed<F: Format, E>(
    state: StreamState<F>,
    reply: Reply<F, E>,
)
    requires
        state.well_formed(),
    ensures
        match state.next(reply) {
            Outcome::Reading(next) => next.well_formed(),
            Outcome::Done(contents) => contents.well_formed(),
            Outcome::Failed(_) => true,
            Outcome::Unexpected(same, _) => same.well_formed(),
        },
{
    if reply.answers(state.request()) {
        if state.header is Some {
            let found = lemma_first_unfinished(state.entries, state.counts(), 0);
        }
        match reply {
            Reply::Entry(entry) => {
                lemma_push_counts(state.entries, entry);
            },
            Reply::AtEnd(at_end) => {
                if state.phase == Phase::Locations && at_end {
                    let contents = state.contents();
                    assert forall|section: Section|
                        contents.entries.count(section) == #[trigger] contents.header.counts.of(
                            section,
                        ) by {
                        let index = lemma_sections(section);
                    }
                }
            },
            _ => {},
        }
    }
}

/// The reading of an installer's streams, one request at a time.
///
/// The code that owns the reader asks for the next [`Request`], does it, and hands over the
/// [`Reply`], until the installer is read or has turned out to be unreadable.
pub struct StreamReading<F: Format> {
    setup_loader: SetupLoader,
    version: InnoVersion,
    phase: Phase,
    encryption_header: Option<F::EncryptionHeader>,
    header: Option<Header<F>>,
    entries: Entries<F>,
    wizard: Option<F::Wizard>,
}

impl<F: Format> View for StreamReading<F> {
    type V = StreamState<F>;

    closed spec fn view(&self) -> StreamState<F> {
        StreamState {
            setup_loader: self.setup_loader,
            version: self.version,
            phase: self.phase,
            encryption_header: self.encryption_header,
            header: self.header,
            entries: self.entries@,
            wizard: self.wizard,
        }
    }
}

/// What a reply leads to.
pub enum Progress<F: Format, E> {
    /// There is more to read.
    Reading(StreamReading<F>),
    /// The installer is read.
    Done(Inno<F>),
    /// The installer cannot be read.
    Failed(InnoError<E>),
    /// The reply was to another request: nothing has changed.
    Unexpected(StreamReading<F>, Reply<F, E>),
}

impl<F: Format, E> View for Progress<F, E> {
    type V = Outcome<F, E>;

    open spec fn view(&self) -> Outcome<F, E> {
        match self {
            Progress::Reading(reading) => Outcome::Reading(reading@),
            Progress::Done(inno) => Outcome::Done(inno@),
            Progress::Failed(error) => Outcome::Failed(*error),
            Progress::Unexpected(reading, reply) => Outcome::Unexpected(reading@, *reply),
        }
    }
}

impl<F: Format> StreamReading<F> {
    #[verifier::type_invariant]
    spec fn type_inv(self) -> bool {
        self@.well_formed()
    }

    /// Returns a reading that has not begun.
    pub fn new(setup_loader: SetupLoader, version: InnoVersion) -> (reading: Self)
        ensures
            reading@ == StreamState::<F>::start(setup_loader, version),
            reading@.well_formed(),
    {
        proof {
            lemma_start_well_formed::<F>(setup_loader, version);
        }
        StreamReading {
            setup_loader,
            version,
            phase: if version.is_at_least(6, 5) {
                Phase::EncryptionHeader
            } else {
                Phase::PrimaryStream
            },
            encryption_header: None,
            header: None,
            entries: Entries::new(),
            wizard: None,
        }
    }

    /// Returns the loader table that the reading began with.
    pub fn setup_loader(&self) -> (setup_loader: SetupLoader)
        ensures
            setup_loader == self@.setup_loader,
    {
        self.setup_loader
    }

    /// Returns the version of the installer, which decides how its entries are laid out.
    pub fn version(&self) -> (version: InnoVersion)
        ensures
            version == self@.version,
    {
        self.version
    }

    /// Returns the header, as soon as it is read.
    pub fn header(&self) -> (header: Option<&Header<F>>)
        ensures
            header == (match self@.header {
                Some(header) => Some(&header),
                None => None,
            }),
    {
        self.header.as_ref()
    }

    /// Returns the languages that are read so far.
    pub fn languages(&self) -> (languages: &[Language<F>])
        ensures
            languages@ == self@.entries.languages,
    {
        self.entries.languages.as_slice()
    }

    /// Returns the codepage of the installer's text, by the languages that are read so far.
    pub fn codepage(&self) -> (codepage: Codepage)
        ensures
            codepage@ == preferred_codepage(self@.version.unicode, self@.entries.codepages()),
            self@.version.unicode ==> codepage@ == "UTF-16LE"@,
            !self@.version.unicode && (exists|i: int|
                0 <= i < self@.entries.languages.len() && (#[trigger] self@.entries.languages[i]).codepage@
                    == "windows-1252"@) ==> codepage@ == "windows-1252"@,
            !self@.version.unicode && self@.entries.languages.len() > 0 && (forall|i: int|
                0 <= i < self@.entries.languages.len() ==> (
                #[trigger] self@.entries.languages[i]).codepage@ != "windows-1252"@) ==> codepage@
                == self@.entries.languages[0].codepage@,
            !self@.version.unicode && self@.entries.languages.len() == 0 ==> codepage@ == "windows-1252"@,
    {
        self.entries.preferred_codepage(self.version.is_unicode())
    }

    /// Returns `true` if a section misses an announced entry.
    fn misses(&self, section: Section) -> (missing: bool)
        requires
            self@.header is Some,
        ensures
            missing == (self@.entries.count(section) < self@.counts().of(section)),
    {
        match &self.header {
            Some(header) => (self.entries.count(section) as u64) < header.counts.of(section) as u64,
            None => false,
        }
    }

    /// Returns the first section of the body that misses an announced entry.
    fn first_missing(&self) -> (section: Option<Section>)
        requires
            self@.header is Some,
        ensures
            section == first_unfinished(self@.entries, self@.counts(), 0),
    {
        let mut i: usize = 0;
        while i < BODY_SECTIONS
            invariant
                i <= BODY_SECTIONS,
                self@.header is Some,
                first_unfinished(self@.entries, self@.counts(), 0) == first_unfinished(
                    self@.entries,
                    self@.counts(),
                    i,
                ),
            decreases BODY_SECTIONS - i,
        {
            if self.misses(Section::body(i)) {
                return Some(Section::body(i));
            }
            i += 1;
        }
        None
    }

    /// Returns what has to be done next.
    pub fn request(&self) -> (request: Request)
        ensures
            request == self@.request(),
    {
        proof {
            use_type_invariant(self);
        }
        match self.phase {
            Phase::EncryptionHeader => Request::EncryptionHeader,
            Phase::PrimaryStream => Request::PrimaryStream,
            Phase::Header => Request::Header,
            Phase::Languages => if self.misses(Section::Language) {
                Request::Entry(Section::Language)
            } else {
                Request::DecodeHeader
            },
            Phase::Body => if self.wizard.is_none() && !self.version.is_at_least(4, 0) {
                Request::Wizard
            } else {
                match self.first_missing() {
                    Some(section) => Request::Entry(section),
                    None => if self.wizard.is_none() {
                        Request::Wizard
                    } else {
                        Request::PrimaryEnd
                    },
                }
            },
            Phase::SecondaryStream => Request::SecondaryStream,
            Phase::Locations => if self.misses(Section::FileLocation) {
                Request::Entry(Section::FileLocation)
            } else {
                Request::SecondaryEnd
            },
        }
    }

    /// Takes the reply to the present request.
    pub fn reply<E>(self, reply: Reply<F, E>) -> (progress: Progress<F, E>)
        ensures
            progress@ == self@.next(reply),
            match progress {
                Progress::Reading(reading) => reading@.well_formed(),
                Progress::Done(inno) => inno@.well_formed(),
                Progress::Failed(_) => true,
                Progress::Unexpected(_, _) => true,
            },
    {
        proof {
            use_type_invariant(&self);
            replies_keep_states_well_formed(self@, reply);
        }
        if !reply.answers(self.request()) {
            return Progress::Unexpected(self, reply);
        }
        let StreamReading {
            setup_loader,
            version,
            phase,
            encryption_header,
            header,
            mut entries,
            wizard,
        } = self;
        match reply {
            Reply::EncryptionHeader(read) => Progress::Reading(
                StreamReading {
                    setup_loader,
                    version,
                    phase: Phase::PrimaryStream,
                    encryption_header: Some(read),
                    header,
                    entries,
                    wizard,
                },
            ),
            Reply::StreamOpened => Progress::Reading(
                StreamReading {
                    setup_loader,
                    version,
                    phase: if phase == Phase::PrimaryStream {
                        Phase::Header
                    } else {
                        Phase::Locations
                    },
                    encryption_header,
                    header,
                    entries,
                    wizard,
                },
            ),
            Reply::Header(read) => Progress::Reading(
                StreamReading {
                    setup_loader,
                    version,
                    phase: Phase::Languages,
                    encryption_header,
                    header: Some(read),
                    entries,
                    wizard,
                },
            ),
            Reply::Entry(entry) => {
                entries.push(entry);
                Progress::Reading(
                    StreamReading {
                        setup_loader,
                        version,
                        phase,
                        encryption_header,
                        header,
                        entries,
                        wizard,
                    },
                )
            },
            Reply::HeaderDecoded(data) => {
                let decoded = match header {
                    Some(header) => Some(
                        Header {
                            counts: header.counts,
                            encryption_header: header.encryption_header,
                            data,
                        },
                    ),
                    None => None,
                };
                Progress::Reading(
                    StreamReading {
                        setup_loader,
                        version,
                        phase: Phase::Body,
                        encryption_header,
                        header: decoded,
                        entries,
                        wizard,
                    },
                )
            },
            Reply::Wizard(read) => Progress::Reading(
                StreamReading {
                    setup_loader,
                    version,
                    phase,
                    encryption_header,
                    header,
                    entries,
                    wizard: Some(read),
                },
            ),
            Reply::AtEnd(at_end) => if phase == Phase::Body {
                if at_end {
                    Progress::Reading(
                        StreamReading {
                            setup_loader,
                            version,
                            phase: Phase::SecondaryStream,
                            encryption_header,
                            header,
                            entries,
                            wizard,
                        },
                    )
                } else {
                    Progress::Failed(InnoError::UnexpectedExtraData(HeaderStream::Primary))
                }
            } else if at_end {
                Progress::Done(
                    Inno {
                        setup_loader,
                        version,
                        encryption_header,
                        header: header.unwrap(),
                        entries,
                        wizard: wizard.unwrap(),
                    },
                )
            } else {
                Progress::Failed(InnoError::UnexpectedExtraData(HeaderStream::Secondary))
            },
            Reply::Failed(error) => Progress::Failed(InnoError::Read(error)),
        }
    }
}

/// A stream that goes on where it should be at its end is answered with the name of that stream, and
/// a failure of the reader with that failure. There are no other errors.
pub proof fn errors_tell_what_went_wrong<F: Format, E>(state: StreamState<F>, reply: Reply<F, E>)
    requires
        state.well_formed(),
    ensures
        state.request() == Request::PrimaryEnd && reply == Reply::<F, E>::AtEnd(false)
            <==> state.next(reply) == Outcome::<F, E>::Failed(
            InnoError::UnexpectedExtraData(HeaderStream::Primary),
        ),
        state.request() == Request::SecondaryEnd && reply == Reply::<F, E>::AtEnd(false)
            <==> state.next(reply) == Outcome::<F, E>::Failed(
            InnoError::UnexpectedExtraData(HeaderStream::Secondary),
        ),
        reply matches Reply::Failed(error) ==> reply.answers(state.request()) ==> state.next(reply)
            == Outcome::<F, E>::Failed(InnoError::Read(error)),
        state.next(reply) matches Outcome::Failed(InnoError::Read(error)) ==> reply == Reply::<
            F,
            E,
        >::Failed(error) && reply.answers(state.request()),
        state.next(reply) matches Outcome::Failed(error) ==> error is UnexpectedExtraData
            || error is Read,
{
}

/// A request is answered by what it asks for or by a failure; only the decoding of the header and the
/// ends of the streams cannot fail.
pub proof fn requests_are_answered_in_kind<F: Format, E>(request: Request, reply: Reply<F, E>)
    ensures
        reply.answers(request) <==> match request {
            Request::EncryptionHeader => reply is EncryptionHeader || reply is Failed,
            Request::PrimaryStream => reply is StreamOpened || reply is Failed,
            Request::Header => reply is Header || reply is Failed,
            Request::Entry(section) => reply is Failed || match reply {
                Reply::Entry(Entry::Language(_)) => section == Section::Language,
                Reply::Entry(Entry::Message(_)) => section == Section::Message,
                Reply::Entry(Entry::Permission(_)) => section == Section::Permission,
                Reply::Entry(Entry::Type(_)) => section == Section::Type,
                Reply::Entry(Entry::Component(_)) => section == Section::Component,
                Reply::Entry(Entry::Task(_)) => section == Section::Task,
                Reply::Entry(Entry::Directory(_)) => section == Section::Directory,
                Reply::Entry(Entry::SigKey(_)) => section == Section::SigKey,
                Reply::Entry(Entry::File(_)) => section == Section::File,
                Reply::Entry(Entry::Icon(_)) => section == Section::Icon,
                Reply::Entry(Entry::Ini(_)) => section == Section::Ini,
                Reply::Entry(Entry::Registry(_)) => section == Section::Registry,
                Reply::Entry(Entry::InstallDelete(_)) => section == Section::InstallDelete,
                Reply::Entry(Entry::UninstallDelete(_)) => section == Section::UninstallDelete,
                Reply::Entry(Entry::Run(_)) => section == Section::Run,
                Reply::Entry(Entry::UninstallRun(_)) => section == Section::UninstallRun,
                Reply::Entry(Entry::FileLocation(_)) => section == Section::FileLocation,
                _ => false,
            },
            Request::DecodeHeader => reply is HeaderDecoded,
            Request::Wizard => reply is Wizard || reply is Failed,
            Request::PrimaryEnd => reply is AtEnd,
            Request::SecondaryStream => reply is StreamOpened || reply is Failed,
            Request::SecondaryEnd => reply is AtEnd,
        },
{
}

/// A reply to another request than the present one is handed back and changes nothing, and no other
/// reply is handed back.
pub proof fn unasked_replies_change_nothing<F: Format, E>(
    state: StreamState<F>,
    reply: Reply<F, E>,
)
    ensures
        !reply.answers(state.request()) <==> state.next(reply) is Unexpected,
        state.next(reply) matches Outcome::Unexpected(same, handed_back) ==> same == state
            && handed_back == reply,
{
}

/// A reading begins with nothing read, and with the encryption header from release 6.5 on.
pub proof fn readings_begin_with_nothing<F: Format>(
    setup_loader: SetupLoader,
    version: InnoVersion,
)
    ensures
        StreamState::<F>::start(setup_loader, version).setup_loader == setup_loader,
        StreamState::<F>::start(setup_loader, version).version == version,
        StreamState::<F>::start(setup_loader, version).encryption_header is None,
        StreamState::<F>::start(setup_loader, version).header is None,
        StreamState::<F>::start(setup_loader, version).wizard is None,
        forall|section: Section| #[trigger]
            StreamState::<F>::start(setup_loader, version).entries.count(section) == 0,
        StreamState::<F>::start(setup_loader, version).request() == (if version.major > 6
            || version.major == 6 && version.minor >= 5 {
            Request::EncryptionHeader
        } else {
            Request::PrimaryStream
        }),
{
}

/// A reply that leads on is kept where it belongs, and everything else that was read stays.
pub proof fn replies_are_kept<F: Format, E>(state: StreamState<F>, reply: Reply<F, E>)
    requires
        state.well_formed(),
        state.next(reply) is Reading,
    ensures
        ({
            let next = state.next(reply)->Reading_0;
            &&& next.setup_loader == state.setup_loader
            &&& next.version == state.version
            &&& next.encryption_header == (match reply {
                Reply::EncryptionHeader(encryption_header) => Some(encryption_header),
                _ => state.encryption_header,
            })
            &&& next.header == (match reply {
                Reply::Header(header) => Some(header),
                Reply::HeaderDecoded(data) => Some(
                    Header {
                        counts: state.header->0.counts,
                        encryption_header: state.header->0.encryption_header,
                        data,
                    },
                ),
                _ => state.header,
            })
            &&& next.wizard == (match reply {
                Reply::Wizard(wizard) => Some(wizard),
                _ => state.wizard,
            })
            &&& next.entries.languages == (match reply {
                Reply::Entry(Entry::Language(e)) => state.entries.languages.push(e),
                _ => state.entries.languages,
            })
            &&& next.entries.messages == (match reply {
                Reply::Entry(Entry::Message(e)) => state.entries.messages.push(e),
                _ => state.entries.messages,
            })
            &&& next.entries.permissions == (match reply {
                Reply::Entry(Entry::Permission(e)) => state.entries.permissions.push(e),
                _ => state.entries.permissions,
            })
            &&& next.entries.type_entries == (match reply {
                Reply::Entry(Entry::Type(e)) => state.entries.type_entries.push(e),
                _ => state.entries.type_entries,
            })
            &&& next.entries.components == (match reply {
                Reply::Entry(Entry::Component(e)) => state.entries.components.push(e),
                _ => state.entries.components,
            })
            &&& next.entries.tasks == (match reply {
                Reply::Entry(Entry::Task(e)) => state.entries.tasks.push(e),
                _ => state.entries.tasks,
            })
            &&& next.entries.directories == (match reply {
                Reply::Entry(Entry::Directory(e)) => state.entries.directories.push(e),
                _ => state.entries.directories,
            })
            &&& next.entries.is_sig_keys == (match reply {
                Reply::Entry(Entry::SigKey(e)) => state.entries.is_sig_keys.push(e),
                _ => state.entries.is_sig_keys,
            })
            &&& next.entries.files == (match reply {
                Reply::Entry(Entry::File(e)) => state.entries.files.push(e),
                _ => state.entries.files,
            })
            &&& next.entries.icons == (match reply {
                Reply::Entry(Entry::Icon(e)) => state.entries.icons.push(e),
                _ => state.entries.icons,
            })
            &&& next.entries.ini_entries == (match reply {
                Reply::Entry(Entry::Ini(e)) => state.entries.ini_entries.push(e),
                _ => state.entries.ini_entries,
            })
            &&& next.entries.registry_entries == (match reply {
                Reply::Entry(Entry::Registry(e)) => state.entries.registry_entries.push(e),
                _ => state.entries.registry_entries,
            })
            &&& next.entries.delete_entries == (match reply {
                Reply::Entry(Entry::InstallDelete(e)) => state.entries.delete_entries.push(e),
                _ => state.entries.delete_entries,
            })
            &&& next.entries.uninstall_delete_entries == (match reply {
                Reply::Entry(Entry::UninstallDelete(e)) => state.entries.uninstall_delete_entries.push(e),
                _ => state.entries.uninstall_delete_entries,
            })
            &&& next.entries.run_entries == (match reply {
                Reply::Entry(Entry::Run(e)) => state.entries.run_entries.push(e),
                _ => state.entries.run_entries,
            })
            &&& next.entries.uninstall_run_entries == (match reply {
                Reply::Entry(Entry::UninstallRun(e)) => state.entries.uninstall_run_entries.push(e),
                _ => state.entries.uninstall_run_entries,
            })
            &&& next.entries.file_locations == (match reply {
                Reply::Entry(Entry::FileLocation(e)) => state.entries.file_locations.push(e),
                _ => state.entries.file_locations,
            })
        }),
{
}

} // verus!
