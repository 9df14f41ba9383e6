use crate::entry::{Format, Section};
use vstd::prelude::*;

verus! {

/// How many entries of each kind the header announces.
#[derive(Clone, Copy, PartialEq, Eq, Structural, Debug)]
pub struct EntryCounts {
    pub language: u32,
    pub custom_message: u32,
    pub permission: u32,
    pub type_entry: u32,
    pub component: u32,
    pub task: u32,
    pub directory: u32,
    pub is_sig_key: u32,
    pub file: u32,
    pub icon: u32,
    pub ini_entry: u32,
    pub registry_entry: u32,
    pub install_delete_entry: u32,
    pub uninstall_delete_entry: u32,
    pub run_entry: u32,
    pub uninstall_run_entry: u32,
    pub file_location_entry: u32,
}

impl EntryCounts {
    /// The announced number of entries in a section.
    pub open spec fn spec_of(&self, section: Section) -> u32 {
        match section {
            Section::Language => self.language,
            Section::Message => self.custom_message,
            Section::Permission => self.permission,
            Section::Type => self.type_entry,
            Section::Component => self.component,
            Section::Task => self.task,
            Section::Directory => self.directory,
            Section::SigKey => self.is_sig_key,
            Section::File => self.file,
            Section::Icon => self.icon,
            Section::Ini => self.ini_entry,
            Section::Registry => self.registry_entry,
            Section::InstallDelete => self.install_delete_entry,
            Section::UninstallDelete => self.uninstall_delete_entry,
            Section::Run => self.run_entry,
            Section::UninstallRun => self.uninstall_run_entry,
            Section::FileLocation => self.file_location_entry,
        }
    }

    /// Returns the announced number of entries in a section.
    #[verifier::when_used_as_spec(spec_of)]
    pub fn of(&self, section: Section) -> (count: u32)
        ensures
            count == self.spec_of(section),
    {
        match section {
            Section::Language => self.language,
            Section::Message => self.custom_message,
            Section::Permission => self.permission,
            Section::Type => self.type_entry,
            Section::Component => self.component,
            Section::Task => self.task,
            Section::Directory => self.directory,
            Section::SigKey => self.is_sig_key,
            Section::File => self.file,
            Section::Icon => self.icon,
            Section::Ini => self.ini_entry,
            Section::Registry => self.registry_entry,
            Section::InstallDelete => self.install_delete_entry,
            Section::UninstallDelete => self.uninstall_delete_entry,
            Section::Run => self.run_entry,
            Section::UninstallRun => self.uninstall_run_entry,
            Section::FileLocation => self.file_location_entry,
        }
    }
}

/// The header of an installer: what its readers need of it as plain values, and the rest as the
/// format's own data.
pub struct Header<F: Format> {
    /// The number of entries that follow, section by section.
    pub counts: EntryCounts,
    /// The encryption header, where the header itself holds one.
    pub encryption_header: Option<F::EncryptionHeader>,
    /// Metadata and configuration, such as the application's name.
    pub data: F::HeaderData,
}

impl<F: Format> Header<F> {
    /// Returns the encryption header that the header itself holds, if any.
    pub fn encryption_header(&self) -> (encryption_header: Option<&F::EncryptionHeader>)
        ensures
            encryption_header == (match self.encryption_header {
                Some(encryption_header) => Some(&encryption_header),
                None => None,
            }),
    {
        self.encryption_header.as_ref()
    }
}

/// Each section has a count of its own in the header.
pub proof fn counts_belong_to_their_sections(counts: EntryCounts)
    ensures
        counts.of(Section::Language) == counts.language,
        counts.of(Section::Message) == counts.custom_message,
        counts.of(Section::Permission) == counts.permission,
        counts.of(Section::Type) == counts.type_entry,
        counts.of(Section::Component) == counts.component,
        counts.of(Section::Task) == counts.task,
        counts.of(Section::Directory) == counts.directory,
        counts.of(Section::SigKey) == counts.is_sig_key,
        counts.of(Section::File) == counts.file,
        counts.of(Section::Icon) == counts.icon,
        counts.of(Section::Ini) == counts.ini_entry,
        counts.of(Section::Registry) == counts.registry_entry,
        counts.of(Section::InstallDelete) == counts.install_delete_entry,
        counts.of(Section::UninstallDelete) == counts.uninstall_delete_entry,
        counts.of(Section::Run) == counts.run_entry,
        counts.of(Section::UninstallRun) == counts.uninstall_run_entry,
        counts.of(Section::FileLocation) == counts.file_location_entry,
{
}

} // verus!
