use inno::codepage::Codepage;
use inno::entry::{Entry, Format, Language, Section, BODY_SECTIONS};
use inno::error::{HeaderStream, InnoError};
use inno::header::EntryCounts;
use inno::loader::SetupLoader;
use inno::open::{OpenProgress, OpenReply, OpenRequest, Opening};
use inno::stream::{Progress, Reply, Request, StreamReading};
use inno::version::InnoVersion;
use inno::{Header, Inno};

/// Records that are numbers: section times 1000, plus the position in the section.
struct Numbers;

impl Format for Numbers {
    type EncryptionHeader = u32;
    type HeaderData = String;
    type LanguageData = u32;
    type MessageEntry = u32;
    type Permission = u32;
    type Type = u32;
    type Component = u32;
    type Task = u32;
    type Directory = u32;
    type ISSigKey = u32;
    type File = u32;
    type Icon = u32;
    type Ini = u32;
    type RegistryEntry = u32;
    type DeleteEntry = u32;
    type RunEntry = u32;
    type Wizard = u32;
    type FileLocation = u32;
}

const LOADER: SetupLoader = SetupLoader { header_offset: -640 };

fn version(major: u8, minor: u8, unicode: bool) -> InnoVersion {
    InnoVersion { major, minor, patch: 0, revision: 0, unicode }
}

fn no_entries() -> EntryCounts {
    EntryCounts {
        language: 0,
        custom_message: 0,
        permission: 0,
        type_entry: 0,
        component: 0,
        task: 0,
        directory: 0,
        is_sig_key: 0,
        file: 0,
        icon: 0,
        ini_entry: 0,
        registry_entry: 0,
        install_delete_entry: 0,
        uninstall_delete_entry: 0,
        run_entry: 0,
        uninstall_run_entry: 0,
        file_location_entry: 0,
    }
}

fn some_entries() -> EntryCounts {
    EntryCounts {
        language: 2,
        custom_message: 3,
        permission: 1,
        type_entry: 2,
        component: 1,
        task: 4,
        directory: 1,
        is_sig_key: 2,
        file: 5,
        icon: 1,
        ini_entry: 2,
        registry_entry: 3,
        install_delete_entry: 1,
        uninstall_delete_entry: 2,
        run_entry: 3,
        uninstall_run_entry: 1,
        file_location_entry: 6,
    }
}

fn entry(section: Section, n: u32) -> Entry<Numbers> {
    match section {
        Section::Language => Entry::Language(Language {
            codepage: Codepage::from_name(if n == 0 { "windows-1251" } else { "Shift_JIS" }),
            data: n,
        }),
        Section::Message => Entry::Message(1000 + n),
        Section::Permission => Entry::Permission(2000 + n),
        Section::Type => Entry::Type(3000 + n),
        Section::Component => Entry::Component(4000 + n),
        Section::Task => Entry::Task(5000 + n),
        Section::Directory => Entry::Directory(6000 + n),
        Section::SigKey => Entry::SigKey(7000 + n),
        Section::File => Entry::File(8000 + n),
        Section::Icon => Entry::Icon(9000 + n),
        Section::Ini => Entry::Ini(10_000 + n),
        Section::Registry => Entry::Registry(11_000 + n),
        Section::InstallDelete => Entry::InstallDelete(12_000 + n),
        Section::UninstallDelete => Entry::UninstallDelete(13_000 + n),
        Section::Run => Entry::Run(14_000 + n),
        Section::UninstallRun => Entry::UninstallRun(15_000 + n),
        Section::FileLocation => Entry::FileLocation(16_000 + n),
    }
}

/// An installer that answers requests, and fails where it is told to.
struct Installer {
    counts: EntryCounts,
    header_encryption: Option<u32>,
    fail_at: Option<Request>,
    extra_data: Option<Request>,
    requests: Vec<Request>,
}

impl Installer {
    fn new(counts: EntryCounts) -> Self {
        Installer {
            counts,
            header_encryption: None,
            fail_at: None,
            extra_data: None,
            requests: Vec::new(),
        }
    }

    fn answer(&mut self, request: Request, codepage: Codepage) -> Reply<Numbers, &'static str> {
        if self.fail_at == Some(request) {
            return Reply::Failed("broken");
        }
        let n = self.requests.iter().filter(|&&done| done == request).count() as u32;
        self.requests.push(request);
        match request {
            Request::EncryptionHeader => Reply::EncryptionHeader(650),
            Request::PrimaryStream | Request::SecondaryStream => Reply::StreamOpened,
            Request::Header => Reply::Header(Header {
                counts: self.counts,
                encryption_header: self.header_encryption,
                data: String::from("raw"),
            }),
            Request::Entry(section) => Reply::Entry(entry(section, n)),
            Request::DecodeHeader => Reply::HeaderDecoded(format!("text in {}", codepage.name())),
            Request::Wizard => Reply::Wizard(77),
            Request::PrimaryEnd | Request::SecondaryEnd => {
                Reply::AtEnd(self.extra_data != Some(request))
            }
        }
    }

    fn read(&mut self, version: InnoVersion) -> Result<Inno<Numbers>, InnoError<&'static str>> {
        let mut reading = Inno::read_stream(LOADER, version);
        loop {
            let reply = self.answer(reading.request(), reading.codepage());
            match reading.reply(reply) {
                Progress::Reading(next) => reading = next,
                Progress::Done(inno) => return Ok(inno),
                Progress::Failed(error) => return Err(error),
                Progress::Unexpected(_, _) => panic!("the reply was to another request"),
            }
        }
    }
}

fn numbers(section: u32, count: u32) -> Vec<u32> {
    (0..count).map(|n| section * 1000 + n).collect()
}

#[test]
fn every_section_is_shown_in_the_order_of_the_stream() {
    let inno = Installer::new(some_entries()).read(version(5, 5, false)).unwrap();
    assert_eq!(inno.setup_loader, LOADER);
    assert_eq!(inno.version(), version(5, 5, false));
    assert_eq!(inno.header.counts, some_entries());
    assert_eq!(inno.languages().iter().map(|l| l.data).collect::<Vec<_>>(), [0, 1]);
    assert_eq!(inno.message_entries(), numbers(1, 3));
    assert_eq!(inno.permissions(), numbers(2, 1));
    assert_eq!(inno.type_entries(), numbers(3, 2));
    assert_eq!(inno.components(), numbers(4, 1));
    assert_eq!(inno.tasks(), numbers(5, 4));
    assert_eq!(inno.directories(), numbers(6, 1));
    assert_eq!(inno.is_sig_keys(), numbers(7, 2));
    assert_eq!(inno.files(), numbers(8, 5));
    assert_eq!(inno.icons(), numbers(9, 1));
    assert_eq!(inno.ini_entries(), numbers(10, 2));
    assert_eq!(inno.registry_entries(), numbers(11, 3));
    assert_eq!(inno.delete_entries(), numbers(12, 1));
    assert_eq!(inno.uninstall_delete_entries(), numbers(13, 2));
    assert_eq!(inno.run_entries(), numbers(14, 3));
    assert_eq!(inno.uninstall_run_entries(), numbers(15, 1));
    assert_eq!(inno.file_locations(), numbers(16, 6));
    assert_eq!(*inno.wizard(), 77);
}

#[test]
fn empty_installer_has_no_entries() {
    let inno = Installer::new(no_entries()).read(version(5, 5, false)).unwrap();
    assert!(inno.languages().is_empty());
    assert!(inno.primary_language().is_none());
    assert!(inno.messages().is_empty());
    assert!(inno.files().is_empty());
    assert!(inno.file_locations().is_empty());
    assert_eq!(*inno.wizard(), 77);
}

#[test]
fn primary_language_is_the_first() {
    let inno = Installer::new(some_entries()).read(version(5, 5, false)).unwrap();
    let language = inno.primary_language().unwrap();
    assert_eq!(language.data, 0);
    assert_eq!(language.codepage().name(), "windows-1251");
}

#[test]
fn messages_come_with_the_language_table() {
    let inno = Installer::new(some_entries()).read(version(5, 5, false)).unwrap();
    let messages = inno.messages();
    assert_eq!(messages.len(), 3);
    for (i, message) in messages.iter().enumerate() {
        assert_eq!(*message.entry(), 1000 + i as u32);
        assert_eq!(message.languages().len(), 2);
        assert_eq!(message.languages()[1].data, 1);
    }
}

#[test]
fn requests_follow_the_plan_with_the_wizard_last() {
    let mut installer = Installer::new(some_entries());
    installer.read(version(6, 5, true)).unwrap();
    let mut plan = vec![
        Request::EncryptionHeader,
        Request::PrimaryStream,
        Request::Header,
        Request::Entry(Section::Language),
        Request::Entry(Section::Language),
        Request::DecodeHeader,
    ];
    for i in 0..BODY_SECTIONS {
        let section = Section::body(i);
        for _ in 0..some_entries().of(section) {
            plan.push(Request::Entry(section));
        }
    }
    plan.extend([Request::Wizard, Request::PrimaryEnd, Request::SecondaryStream]);
    plan.extend([Request::Entry(Section::FileLocation); 6]);
    plan.push(Request::SecondaryEnd);
    assert_eq!(installer.requests, plan);
}

#[test]
fn wizard_comes_before_the_messages_up_to_release_3() {
    let counts = EntryCounts { custom_message: 1, ..no_entries() };
    let body = |version| {
        let mut installer = Installer::new(counts);
        installer.read(version).unwrap();
        installer.requests[3..5].to_vec()
    };
    let last_of_3 = InnoVersion { patch: 255, revision: 255, ..version(3, 255, false) };
    assert_eq!(body(last_of_3), [Request::Wizard, Request::Entry(Section::Message)]);
    assert_eq!(body(version(4, 0, false)), [Request::Entry(Section::Message), Request::Wizard]);
}

#[test]
fn encryption_header_comes_first_from_6_5_on() {
    let mut installer = Installer::new(no_entries());
    let inno = installer.read(version(6, 5, true)).unwrap();
    assert_eq!(installer.requests[0], Request::EncryptionHeader);
    assert_eq!(inno.encryption_header(), Some(&650));

    let mut installer = Installer::new(no_entries());
    let inno = installer.read(version(6, 4, true)).unwrap();
    assert_eq!(installer.requests[0], Request::PrimaryStream);
    assert_eq!(inno.encryption_header(), None);
}

#[test]
fn encryption_header_within_the_header_is_the_second_choice() {
    let mut installer = Installer::new(no_entries());
    installer.header_encryption = Some(640);
    let inno = installer.read(version(6, 4, true)).unwrap();
    assert_eq!(inno.encryption_header(), Some(&640));

    let mut installer = Installer::new(no_entries());
    installer.header_encryption = Some(640);
    let inno = installer.read(version(6, 5, true)).unwrap();
    assert_eq!(inno.encryption_header(), Some(&650));
}

#[test]
fn header_is_decoded_with_the_codepage_of_the_languages() {
    let inno = Installer::new(some_entries()).read(version(5, 5, false)).unwrap();
    assert_eq!(inno.header.data, "text in windows-1251");
    let inno = Installer::new(some_entries()).read(version(5, 5, true)).unwrap();
    assert_eq!(inno.header.data, "text in UTF-16LE");
    let inno = Installer::new(no_entries()).read(version(5, 5, false)).unwrap();
    assert_eq!(inno.header.data, "text in windows-1252");
}

#[test]
fn extra_data_in_the_primary_stream_are_refused() {
    let mut installer = Installer::new(some_entries());
    installer.extra_data = Some(Request::PrimaryEnd);
    let error = installer.read(version(5, 5, false)).err().unwrap();
    assert!(matches!(error, InnoError::UnexpectedExtraData(HeaderStream::Primary)));
}

#[test]
fn extra_data_in_the_secondary_stream_are_refused() {
    let mut installer = Installer::new(some_entries());
    installer.extra_data = Some(Request::SecondaryEnd);
    let error = installer.read(version(5, 5, false)).err().unwrap();
    assert!(matches!(error, InnoError::UnexpectedExtraData(HeaderStream::Secondary)));
}

#[test]
fn failure_of_the_reader_is_reported_wherever_it_happens() {
    let places = [
        Request::EncryptionHeader,
        Request::PrimaryStream,
        Request::Header,
        Request::Entry(Section::Language),
        Request::Entry(Section::File),
        Request::Wizard,
        Request::SecondaryStream,
        Request::Entry(Section::FileLocation),
    ];
    for place in places {
        let mut installer = Installer::new(some_entries());
        installer.fail_at = Some(place);
        let error = installer.read(version(6, 5, false)).err().unwrap();
        assert!(matches!(error, InnoError::Read("broken")));
    }
}

#[test]
fn reply_to_another_request_changes_nothing() {
    let reading: StreamReading<Numbers> = Inno::read_stream(LOADER, version(5, 5, false));
    assert_eq!(reading.request(), Request::PrimaryStream);
    assert_eq!(reading.version(), version(5, 5, false));
    assert_eq!(reading.setup_loader(), LOADER);
    assert!(reading.header().is_none());
    let reading = match reading.reply::<&str>(Reply::Wizard(1)) {
        Progress::Unexpected(same, Reply::Wizard(1)) => same,
        _ => panic!("the reply was taken"),
    };
    assert_eq!(reading.request(), Request::PrimaryStream);
    let reading = match reading.reply::<&str>(Reply::AtEnd(true)) {
        Progress::Unexpected(same, Reply::AtEnd(true)) => same,
        _ => panic!("the reply was taken"),
    };
    assert!(reading.languages().is_empty());
    assert_eq!(reading.request(), Request::PrimaryStream);
}

#[test]
fn entry_of_another_section_is_not_taken() {
    let mut installer = Installer::new(some_entries());
    let mut reading: StreamReading<Numbers> = Inno::read_stream(LOADER, version(5, 5, false));
    while reading.request() != Request::Entry(Section::Language) {
        let reply = installer.answer(reading.request(), reading.codepage());
        reading = match reading.reply(reply) {
            Progress::Reading(next) => next,
            _ => panic!("the reading ended"),
        };
    }
    assert_eq!(reading.header().unwrap().data, "raw");
    match reading.reply::<&str>(Reply::Entry(entry(Section::File, 0))) {
        Progress::Unexpected(same, Reply::Entry(Entry::File(8000))) => {
            assert_eq!(same.request(), Request::Entry(Section::Language));
            assert!(same.languages().is_empty());
        }
        _ => panic!("the reply was taken"),
    }
}

/// A file that is opened, and what it was asked for.
struct File {
    loader: Option<SetupLoader>,
    version: InnoVersion,
    candidates: Option<Vec<InnoVersion>>,
    /// The versions as which the streams can be read.
    readable: Vec<InnoVersion>,
    fail_at: Option<OpenRequest>,
    requests: Vec<OpenRequest>,
    tried: Vec<InnoVersion>,
    streams: Installer,
}

impl File {
    fn new(version: InnoVersion) -> Self {
        File {
            loader: Some(LOADER),
            version,
            candidates: None,
            readable: vec![version],
            fail_at: None,
            requests: Vec::new(),
            tried: Vec::new(),
            streams: Installer::new(some_entries()),
        }
    }

    fn answer(&mut self, opening: &Opening<Numbers>) -> OpenReply<Numbers, &'static str> {
        let request = opening.request();
        if let OpenRequest::Stream(asked) = request {
            let reading = opening.reading().unwrap();
            assert_eq!(reading.request(), asked);
            if asked == Request::PrimaryStream {
                self.tried.push(reading.version());
                self.streams = Installer::new(some_entries());
                if !self.readable.contains(&reading.version()) {
                    self.streams.fail_at = Some(Request::Header);
                }
            }
            return OpenReply::Stream(self.streams.answer(asked, reading.codepage()));
        }
        assert!(opening.reading().is_none());
        self.requests.push(request);
        if self.fail_at == Some(request) {
            return OpenReply::Failed("unreadable");
        }
        match request {
            OpenRequest::SetupLoader => match self.loader {
                Some(loader) => OpenReply::SetupLoader(loader),
                None => OpenReply::Failed("no table"),
            },
            OpenRequest::Seek(_) => OpenReply::Sought,
            OpenRequest::Version => OpenReply::Version(self.version, self.candidates.clone()),
            OpenRequest::Position => OpenReply::Position(704),
            OpenRequest::Stream(_) => unreachable!(),
        }
    }

    fn open(&mut self) -> Result<Inno<Numbers>, InnoError<&'static str>> {
        let mut opening = Inno::new();
        loop {
            let reply = self.answer(&opening);
            match opening.reply(reply) {
                OpenProgress::Opening(next) => opening = next,
                OpenProgress::Done(inno) => return Ok(inno),
                OpenProgress::Failed(error) => return Err(error),
                OpenProgress::Unexpected(_, _) => panic!("the reply was to another request"),
            }
        }
    }
}

#[test]
fn installer_is_opened() {
    let mut file = File::new(version(6, 7, true));
    let inno = file.open().unwrap();
    assert_eq!(inno.version(), version(6, 7, true));
    assert_eq!(inno.files(), numbers(8, 5));
    assert_eq!(inno.encryption_header(), Some(&650));
    assert_eq!(
        file.requests,
        [OpenRequest::SetupLoader, OpenRequest::Seek(640), OpenRequest::Version]
    );
    assert_eq!(file.tried, [version(6, 7, true)]);
}

#[test]
fn file_without_loader_table_is_no_installer() {
    let mut file = File::new(version(5, 5, false));
    file.loader = None;
    assert!(matches!(file.open(), Err(InnoError::NotInnoFile)));
    assert_eq!(file.requests, [OpenRequest::SetupLoader]);
}

#[test]
fn too_new_installer_is_refused_with_its_version() {
    for newer in [version(6, 8, true), version(7, 0, false)] {
        let mut file = File::new(newer);
        match file.open() {
            Err(InnoError::UnsupportedVersion(version)) => assert_eq!(version, newer),
            _ => panic!("the version was not refused"),
        }
        assert!(file.tried.is_empty());
    }
}

#[test]
fn failure_before_the_streams_is_reported() {
    let ambiguous = version(5, 5, false);
    let places = [
        OpenRequest::Seek(640),
        OpenRequest::Version,
        OpenRequest::Position,
        OpenRequest::Seek(704),
    ];
    for place in places {
        let mut file = File::new(ambiguous);
        file.candidates = Some(vec![version(5, 4, false)]);
        file.readable = Vec::new();
        file.fail_at = Some(place);
        assert!(matches!(file.open(), Err(InnoError::Read("unreadable"))));
    }
}

#[test]
fn unambiguous_version_is_tried_only_once() {
    let mut file = File::new(version(5, 5, false));
    file.readable = Vec::new();
    assert!(matches!(file.open(), Err(InnoError::Read("broken"))));
    assert_eq!(file.tried, [version(5, 5, false)]);
    assert!(!file.requests.contains(&OpenRequest::Position));
}

#[test]
fn candidates_are_tried_in_order_until_one_succeeds() {
    let (a, b, c, d) =
        (version(5, 5, true), version(5, 4, true), version(5, 3, true), version(5, 2, true));
    let mut file = File::new(a);
    file.candidates = Some(vec![b, c, d]);
    file.readable = vec![c, d];
    let inno = file.open().unwrap();
    assert_eq!(inno.version(), c);
    assert_eq!(inno.tasks(), numbers(5, 4));
    assert_eq!(file.tried, [a, b, c]);
    assert_eq!(
        file.requests,
        [
            OpenRequest::SetupLoader,
            OpenRequest::Seek(640),
            OpenRequest::Version,
            OpenRequest::Position,
            OpenRequest::Seek(704),
            OpenRequest::Seek(704),
        ]
    );
}

#[test]
fn named_version_is_tried_before_its_candidates() {
    let mut file = File::new(version(5, 5, true));
    file.candidates = Some(vec![version(5, 4, true)]);
    file.readable = vec![version(5, 5, true), version(5, 4, true)];
    assert_eq!(file.open().unwrap().version(), version(5, 5, true));
    assert_eq!(file.tried, [version(5, 5, true)]);
}

#[test]
fn error_of_the_last_candidate_is_reported() {
    let (a, b) = (version(5, 5, true), version(6, 5, true));
    let mut opening = Inno::<Numbers>::new();
    let mut extra = Installer::new(no_entries());
    extra.extra_data = Some(Request::PrimaryEnd);
    let mut broken = Installer::new(no_entries());
    broken.fail_at = Some(Request::EncryptionHeader);
    let error = loop {
        let reply = match opening.request() {
            OpenRequest::SetupLoader => OpenReply::SetupLoader(LOADER),
            OpenRequest::Seek(_) => OpenReply::Sought,
            OpenRequest::Version => OpenReply::Version(a, Some(vec![b])),
            OpenRequest::Position => OpenReply::Position(0),
            OpenRequest::Stream(asked) => {
                let reading = opening.reading().unwrap();
                let streams = if reading.version() == a { &mut extra } else { &mut broken };
                OpenReply::Stream(streams.answer(asked, reading.codepage()))
            }
        };
        opening = match opening.reply(reply) {
            OpenProgress::Opening(next) => next,
            OpenProgress::Failed(error) => break error,
            _ => panic!("the opening did not fail"),
        };
    };
    assert!(matches!(error, InnoError::Read("broken")));
}

#[test]
fn ambiguous_version_without_candidates_left_fails_with_its_error() {
    let mut file = File::new(version(5, 5, true));
    file.candidates = Some(Vec::new());
    file.readable = Vec::new();
    assert!(matches!(file.open(), Err(InnoError::Read("broken"))));
    assert_eq!(file.tried, [version(5, 5, true)]);
}

#[test]
fn reply_to_another_open_request_changes_nothing() {
    let opening = Inno::<Numbers>::new();
    let opening = match opening.reply::<&str>(OpenReply::Position(3)) {
        OpenProgress::Unexpected(same, OpenReply::Position(3)) => same,
        _ => panic!("the reply was taken"),
    };
    assert_eq!(opening.request(), OpenRequest::SetupLoader);
    let opening = match opening.reply::<&str>(OpenReply::Stream(Reply::StreamOpened)) {
        OpenProgress::Unexpected(same, OpenReply::Stream(Reply::StreamOpened)) => same,
        _ => panic!("the reply was taken"),
    };
    assert_eq!(opening.request(), OpenRequest::SetupLoader);
}
