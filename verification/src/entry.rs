use crate::codepage::Codepage;
use vstd::prelude::*;

verus! {

/// The record types of one family of installers.
///
/// Reading an installer moves records around without looking into them, so their types are left to
/// the code that reads them off a stream.
pub trait Format {
    type EncryptionHeader;

    type HeaderData;

    type LanguageData;

    type MessageEntry;

    type Permission;

    type Type;

    type Component;

    type Task;

    type Directory;

    type ISSigKey;

    type File;

    type Icon;

    type Ini;

    type RegistryEntry;

    type DeleteEntry;

    type RunEntry;

    type Wizard;

    type FileLocation;
}

/// The sections of an installer that hold a counted list of entries.
#[derive(Clone, Copy, PartialEq, Eq, Structural, Debug)]
pub enum Section {
    Language,
    Message,
    Permission,
    Type,
    Component,
    Task,
    Directory,
    SigKey,
    File,
    Icon,
    Ini,
    Registry,
    InstallDelete,
    UninstallDelete,
    Run,
    UninstallRun,
    FileLocation,
}

/// The number of sections between the languages and the end of the primary stream.
pub const BODY_SECTIONS: usize = 15;

impl Section {
    /// The sections of the primary stream after the languages, in the order of the stream.
    pub open spec fn spec_body(index: usize) -> Section {
        if index == 0 {
            Section::Message
        } else if index == 1 {
            Section::Permission
        } else if index == 2 {
            Section::Type
        } else if index == 3 {
            Section::Component
        } else if index == 4 {
            Section::Task
        } else if index == 5 {
            Section::Directory
        } else if index == 6 {
            Section::SigKey
        } else if index == 7 {
            Section::File
        } else if index == 8 {
            Section::Icon
        } else if index == 9 {
            Section::Ini
        } else if index == 10 {
            Section::Registry
        } else if index == 11 {
            Section::InstallDelete
        } else if index == 12 {
            Section::UninstallDelete
        } else if index == 13 {
            Section::Run
        } else {
            Section::UninstallRun
        }
    }

    /// Returns the section at a position among those of the primary stream after the languages.
    #[verifier::when_used_as_spec(spec_body)]
    pub fn body(index: usize) -> (section: Section)
        ensures
            section == Section::spec_body(index),
    {
        match index {
            0 => Section::Message,
            1 => Section::Permission,
            2 => Section::Type,
            3 => Section::Component,
            4 => Section::Task,
            5 => Section::Directory,
            6 => Section::SigKey,
            7 => Section::File,
            8 => Section::Icon,
            9 => Section::Ini,
            10 => Section::Registry,
            11 => Section::InstallDelete,
            12 => Section::UninstallDelete,
            13 => Section::Run,
            _ => Section::UninstallRun,
        }
    }
}

/// A language of the installer.
pub struct Language<F: Format> {
    /// The encoding of the text that belongs to the language.
    pub codepage: Codepage,
    /// What else the language entry holds.
    pub data: F::LanguageData,
}

impl<F: Format> Language<F> {
    /// Returns the encoding of the text that belongs to the language.
    pub fn codepage(&self) -> (codepage: Codepage)
        ensures
            codepage == self.codepage,
    {
        self.codepage
    }
}

/// A message entry, seen together with the language table that it refers to.
pub struct Message<'message, 'languages, F: Format> {
    entry: &'message F::MessageEntry,
    languages: &'languages [Language<F>],
}

impl<'message, 'languages, F: Format> Message<'message, 'languages, F> {
    /// The message entry.
    pub closed spec fn spec_entry(&self) -> F::MessageEntry {
        *self.entry
    }

    /// The language table.
    pub closed spec fn spec_languages(&self) -> Seq<Language<F>> {
        self.languages@
    }

    /// Joins a message entry with the language table.
    pub fn new(entry: &'message F::MessageEntry, languages: &'languages [Language<F>]) -> (message:
        Self)
        ensures
            message.spec_entry() == *entry,
            message.spec_languages() == languages@,
    {
        Message { entry, languages }
    }

    /// Returns the message entry.
    pub fn entry(&self) -> (entry: &'message F::MessageEntry)
        ensures
            *entry == self.spec_entry(),
    {
        self.entry
    }

    /// Returns the language table.
    pub fn languages(&self) -> (languages: &'languages [Language<F>])
        ensures
            languages@ == self.spec_languages(),
    {
        self.languages
    }
}

/// One entry of a counted section.
pub enum Entry<F: Format> {
    Language(Language<F>),
    Message(F::MessageEntry),
    Permission(F::Permission),
    Type(F::Type),
    Component(F::Component),
    Task(F::Task),
    Directory(F::Directory),
    SigKey(F::ISSigKey),
    File(F::File),
    Icon(F::Icon),
    Ini(F::Ini),
    Registry(F::RegistryEntry),
    InstallDelete(F::DeleteEntry),
    UninstallDelete(F::DeleteEntry),
    Run(F::RunEntry),
    UninstallRun(F::RunEntry),
    FileLocation(F::FileLocation),
}

impl<F: Format> Entry<F> {
    /// The section that the entry belongs to.
    pub open spec fn spec_section(&self) -> Section {
        match self {
            Entry::Language(_) => Section::Language,
            Entry::Message(_) => Section::Message,
            Entry::Permission(_) => Section::Permission,
            Entry::Type(_) => Section::Type,
            Entry::Component(_) => Section::Component,
            Entry::Task(_) => Section::Task,
            Entry::Directory(_) => Section::Directory,
            Entry::SigKey(_) => Section::SigKey,
            Entry::File(_) => Section::File,
            Entry::Icon(_) => Section::Icon,
            Entry::Ini(_) => Section::Ini,
            Entry::Registry(_) => Section::Registry,
            Entry::InstallDelete(_) => Section::InstallDelete,
            Entry::UninstallDelete(_) => Section::UninstallDelete,
            Entry::Run(_) => Section::Run,
            Entry::UninstallRun(_) => Section::UninstallRun,
            Entry::FileLocation(_) => Section::FileLocation,
        }
    }

    /// Returns the section that the entry belongs to.
    #[verifier::when_used_as_spec(spec_section)]
    pub fn section(&self) -> (section: Section)
        ensures
            section == self.spec_section(),
    {
        match self {
            Entry::Language(_) => Section::Language,
            Entry::Message(_) => Section::Message,
            Entry::Permission(_) => Section::Permission,
            Entry::Type(_) => Section::Type,
            Entry::Component(_) => Section::Component,
            Entry::Task(_) => Section::Task,
            Entry::Directory(_) => Section::Directory,
            Entry::SigKey(_) => Section::SigKey,
            Entry::File(_) => Section::File,
            Entry::Icon(_) => Section::Icon,
            Entry::Ini(_) => Section::Ini,
            Entry::Registry(_) => Section::Registry,
            Entry::InstallDelete(_) => Section::InstallDelete,
            Entry::UninstallDelete(_) => Section::UninstallDelete,
            Entry::Run(_) => Section::Run,
            Entry::UninstallRun(_) => Section::UninstallRun,
            Entry::FileLocation(_) => Section::FileLocation,
        }
    }
}

/// The entries of an installer, list by list.
#[verifier::ext_equal]
pub ghost struct EntryLists<F: Format> {
    pub languages: Seq<Language<F>>,
    pub messages: Seq<F::MessageEntry>,
    pub permissions: Seq<F::Permission>,
    pub type_entries: Seq<F::Type>,
    pub components: Seq<F::Component>,
    pub tasks: Seq<F::Task>,
    pub directories: Seq<F::Directory>,
    pub is_sig_keys: Seq<F::ISSigKey>,
    pub files: Seq<F::File>,
    pub icons: Seq<F::Icon>,
    pub ini_entries: Seq<F::Ini>,
    pub registry_entries: Seq<F::RegistryEntry>,
    pub delete_entries: Seq<F::DeleteEntry>,
    pub uninstall_delete_entries: Seq<F::DeleteEntry>,
    pub run_entries: Seq<F::RunEntry>,
    pub uninstall_run_entries: Seq<F::RunEntry>,
    pub file_locations: Seq<F::FileLocation>,
}

impl<F: Format> EntryLists<F> {
    /// No entries at all.
    pub open spec fn empty() -> Self {
        EntryLists {
            languages: seq![],
            messages: seq![],
            permissions: seq![],
            type_entries: seq![],
            components: seq![],
            tasks: seq![],
            directories: seq![],
            is_sig_keys: seq![],
            files: seq![],
            icons: seq![],
            ini_entries: seq![],
            registry_entries: seq![],
            delete_entries: seq![],
            uninstall_delete_entries: seq![],
            run_entries: seq![],
            uninstall_run_entries: seq![],
            file_locations: seq![],
        }
    }

    /// The number of entries in a section.
    pub open spec fn count(self, section: Section) -> nat {
        match section {
            Section::Language => self.languages.len(),
            Section::Message => self.messages.len(),
            Section::Permission => self.permissions.len(),
            Section::Type => self.type_entries.len(),
            Section::Component => self.components.len(),
            Section::Task => self.tasks.len(),
            Section::Directory => self.directories.len(),
            Section::SigKey => self.is_sig_keys.len(),
            Section::File => self.files.len(),
            Section::Icon => self.icons.len(),
            Section::Ini => self.ini_entries.len(),
            Section::Registry => self.registry_entries.len(),
            Section::InstallDelete => self.delete_entries.len(),
            Section::UninstallDelete => self.uninstall_delete_entries.len(),
            Section::Run => self.run_entries.len(),
            Section::UninstallRun => self.uninstall_run_entries.len(),
            Section::FileLocation => self.file_locations.len(),
        }
    }

    /// The entry at a position of a section.
    pub open spec fn entry(self, section: Section, index: int) -> Entry<F> {
        match section {
            Section::Language => Entry::Language(self.languages[index]),
            Section::Message => Entry::Message(self.messages[index]),
            Section::Permission => Entry::Permission(self.permissions[index]),
            Section::Type => Entry::Type(self.type_entries[index]),
            Section::Component => Entry::Component(self.components[index]),
            Section::Task => Entry::Task(self.tasks[index]),
            Section::Directory => Entry::Directory(self.directories[index]),
            Section::SigKey => Entry::SigKey(self.is_sig_keys[index]),
            Section::File => Entry::File(self.files[index]),
            Section::Icon => Entry::Icon(self.icons[index]),
            Section::Ini => Entry::Ini(self.ini_entries[index]),
            Section::Registry => Entry::Registry(self.registry_entries[index]),
            Section::InstallDelete => Entry::InstallDelete(self.delete_entries[index]),
            Section::UninstallDelete => Entry::UninstallDelete(
                self.uninstall_delete_entries[index],
            ),
            Section::Run => Entry::Run(self.run_entries[index]),
            Section::UninstallRun => Entry::UninstallRun(self.uninstall_run_entries[index]),
            Section::FileLocation => Entry::FileLocation(self.file_locations[index]),
        }
    }

    /// The entries of a section, one after the other.
    pub open spec fn section(self, section: Section) -> Seq<Entry<F>> {
        Seq::new(self.count(section), |i: int| self.entry(section, i))
    }

    /// The same lists with one more entry at the end of its section.
    pub open spec fn push(self, entry: Entry<F>) -> Self {
        match entry {
            Entry::Language(e) => EntryLists { languages: self.languages.push(e), ..self },
            Entry::Message(e) => EntryLists { messages: self.messages.push(e), ..self },
            Entry::Permission(e) => EntryLists { permissions: self.permissions.push(e), ..self },
            Entry::Type(e) => EntryLists { type_entries: self.type_entries.push(e), ..self },
            Entry::Component(e) => EntryLists { components: self.components.push(e), ..self },
            Entry::Task(e) => EntryLists { tasks: self.tasks.push(e), ..self },
            Entry::Directory(e) => EntryLists { directories: self.directories.push(e), ..self },
            Entry::SigKey(e) => EntryLists { is_sig_keys: self.is_sig_keys.push(e), ..self },
            Entry::File(e) => EntryLists { files: self.files.push(e), ..self },
            Entry::Icon(e) => EntryLists { icons: self.icons.push(e), ..self },
            Entry::Ini(e) => EntryLists { ini_entries: self.ini_entries.push(e), ..self },
            Entry::Registry(e) => EntryLists {
                registry_entries: self.registry_entries.push(e),
                ..self
            },
            Entry::InstallDelete(e) => EntryLists {
                delete_entries: self.delete_entries.push(e),
                ..self
            },
            Entry::UninstallDelete(e) => EntryLists {
                uninstall_delete_entries: self.uninstall_delete_entries.push(e),
                ..self
            },
            Entry::Run(e) => EntryLists { run_entries: self.run_entries.push(e), ..self },
            Entry::UninstallRun(e) => EntryLists {
                uninstall_run_entries: self.uninstall_run_entries.push(e),
                ..self
            },
            Entry::FileLocation(e) => EntryLists {
                file_locations: self.file_locations.push(e),
                ..self
            },
        }
    }

    /// The names of the languages' codepages, in the order of the language table.
    pub open spec fn codepages(self) -> Seq<Seq<char>> {
        self.languages.map_values(|language: Language<F>| language.codepage@)
    }
}

/// The lists that an installer's entries are gathered in.
pub struct Entries<F: Format> {
    pub(crate) languages: Vec<Language<F>>,
    pub(crate) messages: Vec<F::MessageEntry>,
    pub(crate) permissions: Vec<F::Permission>,
    pub(crate) type_entries: Vec<F::Type>,
    pub(crate) components: Vec<F::Component>,
    pub(crate) tasks: Vec<F::Task>,
    pub(crate) directories: Vec<F::Directory>,
    pub(crate) is_sig_keys: Vec<F::ISSigKey>,
    pub(crate) files: Vec<F::File>,
    pub(crate) icons: Vec<F::Icon>,
    pub(crate) ini_entries: Vec<F::Ini>,
    pub(crate) registry_entries: Vec<F::RegistryEntry>,
    pub(crate) delete_entries: Vec<F::DeleteEntry>,
    pub(crate) uninstall_delete_entries: Vec<F::DeleteEntry>,
    pub(crate) run_entries: Vec<F::RunEntry>,
    pub(crate) uninstall_run_entries: Vec<F::RunEntry>,
    pub(crate) file_locations: Vec<F::FileLocation>,
}

impl<F: Format> View for Entries<F> {
    type V = EntryLists<F>;

    open(crate) spec fn view(&self) -> EntryLists<F> {
        EntryLists {
            languages: self.languages@,
            messages: self.messages@,
            permissions: self.permissions@,
            type_entries: self.type_entries@,
            components: self.components@,
            tasks: self.tasks@,
            directories: self.directories@,
            is_sig_keys: self.is_sig_keys@,
            files: self.files@,
            icons: self.icons@,
            ini_entries: self.ini_entries@,
            registry_entries: self.registry_entries@,
            delete_entries: self.delete_entries@,
            uninstall_delete_entries: self.uninstall_delete_entries@,
            run_entries: self.run_entries@,
            uninstall_run_entries: self.uninstall_run_entries@,
            file_locations: self.file_locations@,
        }
    }
}

impl<F: Format> Entries<F> {
    /// Returns lists without entries.
    pub fn new() -> (entries: Self)
        ensures
            entries@ == EntryLists::<F>::empty(),
    {
        Entries {
            languages: Vec::new(),
            messages: Vec::new(),
            permissions: Vec::new(),
            type_entries: Vec::new(),
            components: Vec::new(),
            tasks: Vec::new(),
            directories: Vec::new(),
            is_sig_keys: Vec::new(),
            files: Vec::new(),
            icons: Vec::new(),
            ini_entries: Vec::new(),
            registry_entries: Vec::new(),
            delete_entries: Vec::new(),
            uninstall_delete_entries: Vec::new(),
            run_entries: Vec::new(),
            uninstall_run_entries: Vec::new(),
            file_locations: Vec::new(),
        }
    }

    /// Returns the number of entries in a section.
    pub fn count(&self, section: Section) -> (count: usize)
        ensures
            count == self@.count(section),
    {
        match section {
            Section::Language => self.languages.len(),
            Section::Message => self.messages.len(),
            Section::Permission => self.permissions.len(),
            Section::Type => self.type_entries.len(),
            Section::Component => self.components.len(),
            Section::Task => self.tasks.len(),
            Section::Directory => self.directories.len(),
            Section::SigKey => self.is_sig_keys.len(),
            Section::File => self.files.len(),
            Section::Icon => self.icons.len(),
            Section::Ini => self.ini_entries.len(),
            Section::Registry => self.registry_entries.len(),
            Section::InstallDelete => self.delete_entries.len(),
            Section::UninstallDelete => self.uninstall_delete_entries.len(),
            Section::Run => self.run_entries.len(),
            Section::UninstallRun => self.uninstall_run_entries.len(),
            Section::FileLocation => self.file_locations.len(),
        }
    }

    /// Adds an entry at the end of its section.
    pub fn push(&mut self, entry: Entry<F>)
        ensures
            final(self)@ == old(self)@.push(entry),
    {
        match entry {
            Entry::Language(e) => self.languages.push(e),
            Entry::Message(e) => self.messages.push(e),
            Entry::Permission(e) => self.permissions.push(e),
            Entry::Type(e) => self.type_entries.push(e),
            Entry::Component(e) => self.components.push(e),
            Entry::Task(e) => self.tasks.push(e),
            Entry::Directory(e) => self.directories.push(e),
            Entry::SigKey(e) => self.is_sig_keys.push(e),
            Entry::File(e) => self.files.push(e),
            Entry::Icon(e) => self.icons.push(e),
            Entry::Ini(e) => self.ini_entries.push(e),
            Entry::Registry(e) => self.registry_entries.push(e),
            Entry::InstallDelete(e) => self.delete_entries.push(e),
            Entry::UninstallDelete(e) => self.uninstall_delete_entries.push(e),
            Entry::Run(e) => self.run_entries.push(e),
            Entry::UninstallRun(e) => self.uninstall_run_entries.push(e),
            Entry::FileLocation(e) => self.file_locations.push(e),
        }
    }

    /// Picks the codepage of the installer's text from the language table.
    pub fn preferred_codepage(&self, unicode: bool) -> (codepage: Codepage)
        ensures
            codepage@ == crate::codepage::preferred_codepage(unicode, self@.codepages()),
            unicode ==> codepage@ == "UTF-16LE"@,
            !unicode && (exists|i: int|
                0 <= i < self@.languages.len() && (#[trigger] self@.languages[i]).codepage@
                    == "windows-1252"@) ==> codepage@ == "windows-1252"@,
            !unicode && self@.languages.len() > 0 && (forall|i: int|
                0 <= i < self@.languages.len() ==> (
                #[trigger] self@.languages[i]).codepage@ != "windows-1252"@) ==> codepage@
                == self@.languages[0].codepage@,
            !unicode && self@.languages.len() == 0 ==> codepage@ == "windows-1252"@,
    {
        let mut codepages: Vec<Codepage> = Vec::new();
        let count: usize = self.languages.len();
        let mut i: usize = 0;
        while i < count
            invariant
                i <= count,
                count == self.languages@.len(),
                codepages@.len() == i,
                forall|j: int|
                    0 <= j < i ==> (#[trigger] codepages@[j]) == self.languages@[j].codepage,
            decreases count - i,
        {
            codepages.push(self.languages[i].codepage());
            i += 1;
        }
        assert(codepages@.map_values(|language: Codepage| language@) =~= self@.codepages());
        assert forall|j: int| 0 <= j < count implies (#[trigger] self@.languages[j]).codepage
            == codepages@[j] by {}
        Codepage::preferred(unicode, &codepages)
    }
}

/// Adding an entry makes its section longer by that entry and leaves every other section alone.
pub proof fn push_extends_one_section<F: Format>(
    lists: EntryLists<F>,
    entry: Entry<F>,
    section: Section,
)
    ensures
        lists.push(entry).section(section) == (if section == entry.section() {
            lists.section(section).push(entry)
        } else {
            lists.section(section)
        }),
{
    assert(lists.push(entry).section(section) =~= (if section == entry.section() {
        lists.section(section).push(entry)
    } else {
        lists.section(section)
    }));
}

/// Two lists that make up the same section are the same list.
proof fn lemma_list_is_its_section<F: Format, T>(
    section: Seq<Entry<F>>,
    a: Seq<T>,
    b: Seq<T>,
    entry: spec_fn(T) -> Entry<F>,
)
    requires
        section =~= a.map_values(entry),
        section =~= b.map_values(entry),
        forall|x: T, y: T| #[trigger] entry(x) == #[trigger] entry(y) ==> x == y,
    ensures
        a == b,
{
    assert(a.len() == section.len() && b.len() == section.len());
    assert forall|i: int| 0 <= i < a.len() implies a[i] == b[i] by {
        assert(entry(a[i]) == section[i] && entry(b[i]) == section[i]);
    }
    assert(a =~= b);
}

/// Lists that agree section by section are the same lists.
pub proof fn lists_are_their_sections<F: Format>(a: EntryLists<F>, b: EntryLists<F>)
    requires
        forall|section: Section| a.section(section) == b.section(section),
    ensures
        a == b,
{
    lemma_list_is_its_section(
        a.section(Section::Language),
        a.languages,
        b.languages,
        |e| Entry::<F>::Language(e),
    );
    lemma_list_is_its_section(
        a.section(Section::Message),
        a.messages,
        b.messages,
        |e| Entry::<F>::Message(e),
    );
    lemma_list_is_its_section(
        a.section(Section::Permission),
        a.permissions,
        b.permissions,
        |e| Entry::<F>::Permission(e),
    );
    lemma_list_is_its_section(
        a.section(Section::Type),
        a.type_entries,
        b.type_entries,
        |e| Entry::<F>::Type(e),
    );
    lemma_list_is_its_section(
        a.section(Section::Component),
        a.components,
        b.components,
        |e| Entry::<F>::Component(e),
    );
    lemma_list_is_its_section(
        a.section(Section::Task),
        a.tasks,
        b.tasks,
        |e| Entry::<F>::Task(e),
    );
    lemma_list_is_its_section(
        a.section(Section::Directory),
        a.directories,
        b.directories,
        |e| Entry::<F>::Directory(e),
    );
    lemma_list_is_its_section(
        a.section(Section::SigKey),
        a.is_sig_keys,
        b.is_sig_keys,
        |e| Entry::<F>::SigKey(e),
    );
    lemma_list_is_its_section(
        a.section(Section::File),
        a.files,
        b.files,
        |e| Entry::<F>::File(e),
    );
    lemma_list_is_its_section(
        a.section(Section::Icon),
        a.icons,
        b.icons,
        |e| Entry::<F>::Icon(e),
    );
    lemma_list_is_its_section(
        a.section(Section::Ini),
        a.ini_entries,
        b.ini_entries,
        |e| Entry::<F>::Ini(e),
    );
    lemma_list_is_its_section(
        a.section(Section::Registry),
        a.registry_entries,
        b.registry_entries,
        |e| Entry::<F>::Registry(e),
    );
    lemma_list_is_its_section(
        a.section(Section::InstallDelete),
        a.delete_entries,
        b.delete_entries,
        |e| Entry::<F>::InstallDelete(e),
    );
    lemma_list_is_its_section(
        a.section(Section::UninstallDelete),
        a.uninstall_delete_entries,
        b.uninstall_delete_entries,
        |e| Entry::<F>::UninstallDelete(e),
    );
    lemma_list_is_its_section(
        a.section(Section::Run),
        a.run_entries,
        b.run_entries,
        |e| Entry::<F>::Run(e),
    );
    lemma_list_is_its_section(
        a.section(Section::UninstallRun),
        a.uninstall_run_entries,
        b.uninstall_run_entries,
        |e| Entry::<F>::UninstallRun(e),
    );
    lemma_list_is_its_section(
        a.section(Section::FileLocation),
        a.file_locations,
        b.file_locations,
        |e| Entry::<F>::FileLocation(e),
    );
}

/// The sections of the primary stream after the languages stand in this order.
pub proof fn sections_stand_in_this_order()
    ensures
        Seq::new(BODY_SECTIONS as nat, |i: int| Section::body(i as usize)) == seq![
            Section::Message,
            Section::Permission,
            Section::Type,
            Section::Component,
            Section::Task,
            Section::Directory,
            Section::SigKey,
            Section::File,
            Section::Icon,
            Section::Ini,
            Section::Registry,
            Section::InstallDelete,
            Section::UninstallDelete,
            Section::Run,
            Section::UninstallRun,
        ],
{
    assert(Seq::new(BODY_SECTIONS as nat, |i: int| Section::body(i as usize)) =~= seq![
        Section::Message,
        Section::Permission,
        Section::Type,
        Section::Component,
        Section::Task,
        Section::Directory,
        Section::SigKey,
        Section::File,
        Section::Icon,
        Section::Ini,
        Section::Registry,
        Section::InstallDelete,
        Section::UninstallDelete,
        Section::Run,
        Section::UninstallRun,
    ]);
}

/// An entry belongs to the section of its own kind and to no other.
pub proof fn entries_belong_to_their_sections<F: Format>(entry: Entry<F>)
    ensures
        entry.section() == Section::Language <==> entry is Language,
        entry.section() == Section::Message <==> entry is Message,
        entry.section() == Section::Permission <==> entry is Permission,
        entry.section() == Section::Type <==> entry is Type,
        entry.section() == Section::Component <==> entry is Component,
        entry.section() == Section::Task <==> entry is Task,
        entry.section() == Section::Directory <==> entry is Directory,
        entry.section() == Section::SigKey <==> entry is SigKey,
        entry.section() == Section::File <==> entry is File,
        entry.section() == Section::Icon <==> entry is Icon,
        entry.section() == Section::Ini <==> entry is Ini,
        entry.section() == Section::Registry <==> entry is Registry,
        entry.section() == Section::InstallDelete <==> entry is InstallDelete,
        entry.section() == Section::UninstallDelete <==> entry is UninstallDelete,
        entry.section() == Section::Run <==> entry is Run,
        entry.section() == Section::UninstallRun <==> entry is UninstallRun,
        entry.section() == Section::FileLocation <==> entry is FileLocation,
{
}

/// Adding an entry puts it at the end of the list of its own kind, and leaves the other lists as they
/// are.
pub proof fn pushed_entry_ends_its_list<F: Format>(lists: EntryLists<F>, entry: Entry<F>)
    ensures
        lists.push(entry).languages == (match entry {
            Entry::Language(e) => lists.languages.push(e),
            _ => lists.languages,
        }),
        lists.push(entry).messages == (match entry {
            Entry::Message(e) => lists.messages.push(e),
            _ => lists.messages,
        }),
        lists.push(entry).permissions == (match entry {
            Entry::Permission(e) => lists.permissions.push(e),
            _ => lists.permissions,
        }),
        lists.push(entry).type_entries == (match entry {
            Entry::Type(e) => lists.type_entries.push(e),
            _ => lists.type_entries,
        }),
        lists.push(entry).components == (match entry {
            Entry::Component(e) => lists.components.push(e),
            _ => lists.components,
        }),
        lists.push(entry).tasks == (match entry {
            Entry::Task(e) => lists.tasks.push(e),
            _ => lists.tasks,
        }),
        lists.push(entry).directories == (match entry {
            Entry::Directory(e) => lists.directories.push(e),
            _ => lists.directories,
        }),
        lists.push(entry).is_sig_keys == (match entry {
            Entry::SigKey(e) => lists.is_sig_keys.push(e),
            _ => lists.is_sig_keys,
        }),
        lists.push(entry).files == (match entry {
            Entry::File(e) => lists.files.push(e),
            _ => lists.files,
        }),
        lists.push(entry).icons == (match entry {
            Entry::Icon(e) => lists.icons.push(e),
            _ => lists.icons,
        }),
        lists.push(entry).ini_entries == (match entry {
            Entry::Ini(e) => lists.ini_entries.push(e),
            _ => lists.ini_entries,
        }),
        lists.push(entry).registry_entries == (match entry {
            Entry::Registry(e) => lists.registry_entries.push(e),
            _ => lists.registry_entries,
        }),
        lists.push(entry).delete_entries == (match entry {
            Entry::InstallDelete(e) => lists.delete_entries.push(e),
            _ => lists.delete_entries,
        }),
        lists.push(entry).uninstall_delete_entries == (match entry {
            Entry::UninstallDelete(e) => lists.uninstall_delete_entries.push(e),
            _ => lists.uninstall_delete_entries,
        }),
        lists.push(entry).run_entries == (match entry {
            Entry::Run(e) => lists.run_entries.push(e),
            _ => lists.run_entries,
        }),
        lists.push(entry).uninstall_run_entries == (match entry {
            Entry::UninstallRun(e) => lists.uninstall_run_entries.push(e),
            _ => lists.uninstall_run_entries,
        }),
        lists.push(entry).file_locations == (match entry {
            Entry::FileLocation(e) => lists.file_locations.push(e),
            _ => lists.file_locations,
        }),
{
}

/// The number of entries in a section is the length of its list, and its entries are those of the
/// list.
pub proof fn sections_are_their_lists<F: Format>(lists: EntryLists<F>)
    ensures
        lists.section(Section::Language) == lists.languages.map_values(
            |e| Entry::<F>::Language(e),
        ),
        lists.count(Section::Language) == lists.languages.len(),
        lists.section(Section::Message) == lists.messages.map_values(
            |e| Entry::<F>::Message(e),
        ),
        lists.count(Section::Message) == lists.messages.len(),
        lists.section(Section::Permission) == lists.permissions.map_values(
            |e| Entry::<F>::Permission(e),
        ),
        lists.count(Section::Permission) == lists.permissions.len(),
        lists.section(Section::Type) == lists.type_entries.map_values(
            |e| Entry::<F>::Type(e),
        ),
        lists.count(Section::Type) == lists.type_entries.len(),
        lists.section(Section::Component) == lists.components.map_values(
            |e| Entry::<F>::Component(e),
        ),
        lists.count(Section::Component) == lists.components.len(),
        lists.section(Section::Task) == lists.tasks.map_values(
            |e| Entry::<F>::Task(e),
        ),
        lists.count(Section::Task) == lists.tasks.len(),
        lists.section(Section::Directory) == lists.directories.map_values(
            |e| Entry::<F>::Directory(e),
        ),
        lists.count(Section::Directory) == lists.directories.len(),
        lists.section(Section::SigKey) == lists.is_sig_keys.map_values(
            |e| Entry::<F>::SigKey(e),
        ),
        lists.count(Section::SigKey) == lists.is_sig_keys.len(),
        lists.section(Section::File) == lists.files.map_values(
            |e| Entry::<F>::File(e),
        ),
        lists.count(Section::File) == lists.files.len(),
        lists.section(Section::Icon) == lists.icons.map_values(
            |e| Entry::<F>::Icon(e),
        ),
        lists.count(Section::Icon) == lists.icons.len(),
        lists.section(Section::Ini) == lists.ini_entries.map_values(
            |e| Entry::<F>::Ini(e),
        ),
        lists.count(Section::Ini) == lists.ini_entries.len(),
        lists.section(Section::Registry) == lists.registry_entries.map_values(
            |e| Entry::<F>::Registry(e),
        ),
        lists.count(Section::Registry) == lists.registry_entries.len(),
        lists.section(Section::InstallDelete) == lists.delete_entries.map_values(
            |e| Entry::<F>::InstallDelete(e),
        ),
        lists.count(Section::InstallDelete) == lists.delete_entries.len(),
        lists.section(Section::UninstallDelete) == lists.uninstall_delete_entries.map_values(
            |e| Entry::<F>::UninstallDelete(e),
        ),
        lists.count(Section::UninstallDelete) == lists.uninstall_delete_entries.len(),
        lists.section(Section::Run) == lists.run_entries.map_values(
            |e| Entry::<F>::Run(e),
        ),
        lists.count(Section::Run) == lists.run_entries.len(),
        lists.section(Section::UninstallRun) == lists.uninstall_run_entries.map_values(
            |e| Entry::<F>::UninstallRun(e),
        ),
        lists.count(Section::UninstallRun) == lists.uninstall_run_entries.len(),
        lists.section(Section::FileLocation) == lists.file_locations.map_values(
            |e| Entry::<F>::FileLocation(e),
        ),
        lists.count(Section::FileLocation) == lists.file_locations.len(),
{
    assert(lists.section(Section::Language) =~= lists.languages.map_values(
        |e| Entry::<F>::Language(e),
    ));
    assert(lists.section(Section::Message) =~= lists.messages.map_values(
        |e| Entry::<F>::Message(e),
    ));
    assert(lists.section(Section::Permission) =~= lists.permissions.map_values(
        |e| Entry::<F>::Permission(e),
    ));
    assert(lists.section(Section::Type) =~= lists.type_entries.map_values(
        |e| Entry::<F>::Type(e),
    ));
    assert(lists.section(Section::Component) =~= lists.components.map_values(
        |e| Entry::<F>::Component(e),
    ));
    assert(lists.section(Section::Task) =~= lists.tasks.map_values(
        |e| Entry::<F>::Task(e),
    ));
    assert(lists.section(Section::Directory) =~= lists.directories.map_values(
        |e| Entry::<F>::Directory(e),
    ));
    assert(lists.section(Section::SigKey) =~= lists.is_sig_keys.map_values(
        |e| Entry::<F>::SigKey(e),
    ));
    assert(lists.section(Section::File) =~= lists.files.map_values(
        |e| Entry::<F>::File(e),
    ));
    assert(lists.section(Section::Icon) =~= lists.icons.map_values(
        |e| Entry::<F>::Icon(e),
    ));
    assert(lists.section(Section::Ini) =~= lists.ini_entries.map_values(
        |e| Entry::<F>::Ini(e),
    ));
    assert(lists.section(Section::Registry) =~= lists.registry_entries.map_values(
        |e| Entry::<F>::Registry(e),
    ));
    assert(lists.section(Section::InstallDelete) =~= lists.delete_entries.map_values(
        |e| Entry::<F>::InstallDelete(e),
    ));
    assert(lists.section(Section::UninstallDelete) =~= lists.uninstall_delete_entries.map_values(
        |e| Entry::<F>::UninstallDelete(e),
    ));
    assert(lists.section(Section::Run) =~= lists.run_entries.map_values(
        |e| Entry::<F>::Run(e),
    ));
    assert(lists.section(Section::UninstallRun) =~= lists.uninstall_run_entries.map_values(
        |e| Entry::<F>::UninstallRun(e),
    ));
    assert(lists.section(Section::FileLocation) =~= lists.file_locations.map_values(
        |e| Entry::<F>::FileLocation(e),
    ));
}

/// Empty lists have no entries.
pub proof fn empty_lists_have_no_entries<F: Format>()
    ensures
        EntryLists::<F>::empty().languages.len() == 0,
        EntryLists::<F>::empty().messages.len() == 0,
        EntryLists::<F>::empty().permissions.len() == 0,
        EntryLists::<F>::empty().type_entries.len() == 0,
        EntryLists::<F>::empty().components.len() == 0,
        EntryLists::<F>::empty().tasks.len() == 0,
        EntryLists::<F>::empty().directories.len() == 0,
        EntryLists::<F>::empty().is_sig_keys.len() == 0,
        EntryLists::<F>::empty().files.len() == 0,
        EntryLists::<F>::empty().icons.len() == 0,
        EntryLists::<F>::empty().ini_entries.len() == 0,
        EntryLists::<F>::empty().registry_entries.len() == 0,
        EntryLists::<F>::empty().delete_entries.len() == 0,
        EntryLists::<F>::empty().uninstall_delete_entries.len() == 0,
        EntryLists::<F>::empty().run_entries.len() == 0,
        EntryLists::<F>::empty().uninstall_run_entries.len() == 0,
        EntryLists::<F>::empty().file_locations.len() == 0,
{
}

} // verus!
