use crate::entry::{Entries, EntryLists, Format, Language, Message, Section};
use crate::header::Header;
use crate::loader::SetupLoader;
use crate::version::{release_number, InnoVersion};
use vstd::prelude::*;

verus! {

/// What an installer holds.
#[verifier::ext_equal]
pub ghost struct Contents<F: Format> {
    pub setup_loader: SetupLoader,
    pub version: InnoVersion,
    /// The encryption header that stands before the primary stream.
    pub encryption_header: Option<F::EncryptionHeader>,
    pub header: Header<F>,
    pub entries: EntryLists<F>,
    pub wizard: F::Wizard,
}

impl<F: Format> Contents<F> {
    /// Every section has as many entries as the header announces, and an encryption header stands
    /// before the primary stream exactly from release 6.5 on.
    pub open spec fn well_formed(self) -> bool {
        &&& forall|section: Section|
            self.entries.count(section) == #[trigger] self.header.counts.of(section)
        &&& self.encryption_header is Some <==> self.version.number() >= release_number(6, 5, 0, 0)
    }
}

/// A parsed installer.
pub struct Inno<F: Format> {
    pub setup_loader: SetupLoader,
    pub(crate) version: InnoVersion,
    pub(crate) encryption_header: Option<F::EncryptionHeader>,
    pub header: Header<F>,
    pub(crate) entries: Entries<F>,
    pub(crate) wizard: F::Wizard,
}

impl<F: Format> View for Inno<F> {
    type V = Contents<F>;

    open(crate) spec fn view(&self) -> Contents<F> {
        Contents {
            setup_loader: self.setup_loader,
            version: self.version,
            encryption_header: self.encryption_header,
            header: self.header,
            entries: self.entries@,
            wizard: self.wizard,
        }
    }
}

impl<F: Format> Inno<F> {
    /// Returns the Inno Setup version.
    #[must_use]
    pub fn version(&self) -> (version: InnoVersion)
        ensures
            version == self@.version,
    {
        self.version
    }

    /// Returns the encryption header, if any: the one before the primary stream, or else the one
    /// that the header holds.
    #[must_use]
    pub fn encryption_header(&self) -> (encryption_header: Option<&F::EncryptionHeader>)
        ensures
            encryption_header == (match (
                self@.encryption_header,
                self@.header.encryption_header,
            ) {
                (Some(before), _) => Some(&before),
                (None, Some(within)) => Some(&within),
                (None, None) => None,
            }),
    {
        match &self.encryption_header {
            Some(encryption_header) => Some(encryption_header),
            None => self.header.encryption_header(),
        }
    }

    /// Returns the primary language of the installer, if available: the first one.
    #[must_use]
    pub fn primary_language(&self) -> (language: Option<&Language<F>>)
        ensures
            language == (if self@.entries.languages.len() > 0 {
                Some(&self@.entries.languages[0])
            } else {
                None
            }),
    {
        self.languages().first()
    }

    /// Returns the languages as a slice.
    #[must_use]
    pub fn languages(&self) -> (languages: &[Language<F>])
        ensures
            languages@ == self@.entries.languages,
    {
        self.entries.languages.as_slice()
    }

    /// Returns the message entries as a slice.
    #[must_use]
    pub fn message_entries(&self) -> (messages: &[F::MessageEntry])
        ensures
            messages@ == self@.entries.messages,
    {
        self.entries.messages.as_slice()
    }

    /// Returns each message entry joined with the language table.
    pub fn messages(&self) -> (messages: Vec<Message<'_, '_, F>>)
        ensures
            messages@.len() == self@.entries.messages.len(),
            forall|i: int|
                0 <= i < messages@.len() ==> {
                    &&& (#[trigger] messages@[i]).spec_entry() == self@.entries.messages[i]
                    &&& messages@[i].spec_languages() == self@.entries.languages
                },
    {
        let mut messages: Vec<Message<'_, '_, F>> = Vec::new();
        let count: usize = self.entries.messages.len();
        let mut i: usize = 0;
        while i < count
            invariant
                i <= count,
                count == self.entries.messages@.len(),
                messages@.len() == i,
                forall|j: int|
                    0 <= j < i ==> {
                        &&& (#[trigger] messages@[j]).spec_entry() == self@.entries.messages[j]
                        &&& messages@[j].spec_languages() == self@.entries.languages
                    },
            decreases count - i,
        {
            messages.push(Message::new(&self.entries.messages[i], self.languages()));
            i += 1;
        }
        messages
    }

    /// Returns the permission entries as a slice.
    #[must_use]
    pub fn permissions(&self) -> (permissions: &[F::Permission])
        ensures
            permissions@ == self@.entries.permissions,
    {
        self.entries.permissions.as_slice()
    }

    /// Returns the type entries as a slice.
    #[must_use]
    pub fn type_entries(&self) -> (type_entries: &[F::Type])
        ensures
            type_entries@ == self@.entries.type_entries,
    {
        self.entries.type_entries.as_slice()
    }

    /// Returns the component entries as a slice.
    #[must_use]
    pub fn components(&self) -> (components: &[F::Component])
        ensures
            components@ == self@.entries.components,
    {
        self.entries.components.as_slice()
    }

    /// Returns the task entries as a slice.
    #[must_use]
    pub fn tasks(&self) -> (tasks: &[F::Task])
        ensures
            tasks@ == self@.entries.tasks,
    {
        self.entries.tasks.as_slice()
    }

    /// Returns the directory entries as a slice.
    #[must_use]
    pub fn directories(&self) -> (directories: &[F::Directory])
        ensures
            directories@ == self@.entries.directories,
    {
        self.entries.directories.as_slice()
    }

    /// Returns the IS Sig Key entries as a slice.
    #[must_use]
    pub fn is_sig_keys(&self) -> (is_sig_keys: &[F::ISSigKey])
        ensures
            is_sig_keys@ == self@.entries.is_sig_keys,
    {
        self.entries.is_sig_keys.as_slice()
    }

    /// Returns the file entries as a slice.
    #[must_use]
    pub fn files(&self) -> (files: &[F::File])
        ensures
            files@ == self@.entries.files,
    {
        self.entries.files.as_slice()
    }

    /// Returns the icon entries as a slice.
    #[must_use]
    pub fn icons(&self) -> (icons: &[F::Icon])
        ensures
            icons@ == self@.entries.icons,
    {
        self.entries.icons.as_slice()
    }

    /// Returns the ini entries as a slice.
    #[must_use]
    pub fn ini_entries(&self) -> (ini_entries: &[F::Ini])
        ensures
            ini_entries@ == self@.entries.ini_entries,
    {
        self.entries.ini_entries.as_slice()
    }

    /// Returns the registry entries as a slice.
    #[must_use]
    pub fn registry_entries(&self) -> (registry_entries: &[F::RegistryEntry])
        ensures
            registry_entries@ == self@.entries.registry_entries,
    {
        self.entries.registry_entries.as_slice()
    }

    /// Returns the delete entries as a slice.
    #[must_use]
    pub fn delete_entries(&self) -> (delete_entries: &[F::DeleteEntry])
        ensures
            delete_entries@ == self@.entries.delete_entries,
    {
        self.entries.delete_entries.as_slice()
    }

    /// Returns the uninstall delete entries as a slice.
    #[must_use]
    pub fn uninstall_delete_entries(&self) -> (uninstall_delete_entries: &[F::DeleteEntry])
        ensures
            uninstall_delete_entries@ == self@.entries.uninstall_delete_entries,
    {
        self.entries.uninstall_delete_entries.as_slice()
    }

    /// Returns the run entries as a slice.
    #[must_use]
    pub fn run_entries(&self) -> (run_entries: &[F::RunEntry])
        ensures
            run_entries@ == self@.entries.run_entries,
    {
        self.entries.run_entries.as_slice()
    }

    /// Returns the uninstall run entries as a slice.
    #[must_use]
    pub fn uninstall_run_entries(&self) -> (uninstall_run_entries: &[F::RunEntry])
        ensures
            uninstall_run_entries@ == self@.entries.uninstall_run_entries,
    {
        self.entries.uninstall_run_entries.as_slice()
    }

    /// Returns a reference to the wizard.
    #[must_use]
    pub fn wizard(&self) -> (wizard: &F::Wizard)
        ensures
            *wizard == self@.wizard,
    {
        &self.wizard
    }

    /// Returns the file location entries as a slice.
    #[must_use]
    pub fn file_locations(&self) -> (file_locations: &[F::FileLocation])
        ensures
            file_locations@ == self@.entries.file_locations,
    {
        self.entries.file_locations.as_slice()
    }
}

/// What an installer holds includes what can be taken from its public fields.
pub(crate) proof fn installers_show_their_fields<F: Format>(inno: Inno<F>)
    ensures
        inno@.setup_loader == inno.setup_loader,
        inno@.header == inno.header,
{
}

} // verus!
