use itertools::Itertools;
use vstd::prelude::*;

verus! {

/// The encoding of an installer's text, known by its name in the Encoding Standard.
#[derive(Clone, Copy, Debug)]
pub struct Codepage {
    name: &'static str,
}

impl View for Codepage {
    type V = Seq<char>;

    closed spec fn view(&self) -> Seq<char> {
        self.name@
    }
}

/// The codepage of an installer's text, given the text mode and the codepages of its languages in
/// the order of the language table.
///
/// Unicode text is UTF-16LE. Otherwise windows-1252 is taken where a language uses it or where there
/// is no language, and else the codepage of the first language.
pub open spec fn preferred_codepage(unicode: bool, languages: Seq<Seq<char>>) -> Seq<char> {
    if unicode {
        "UTF-16LE"@
    } else if languages.len() == 0 || languages.contains("windows-1252"@) {
        "windows-1252"@
    } else {
        languages[0]
    }
}

/// The name of `encoding_rs::UTF_16LE`, by `Encoding::name`: `UTF-16LE`.
#[verifier::external_body]
fn utf_16le_name() -> (name: &'static str)
    ensures
        name@ == "UTF-16LE"@,
{
    encoding_rs::UTF_16LE.name()
}

/// The name of `encoding_rs::WINDOWS_1252`, by `Encoding::name`: `windows-1252`.
#[verifier::external_body]
fn windows_1252_name() -> (name: &'static str)
    ensures
        name@ == "windows-1252"@,
{
    encoding_rs::WINDOWS_1252.name()
}

/// `str`'s `==`: two strings are equal if they hold the same characters.
#[verifier::external_body]
fn same_str(a: &str, b: &str) -> (same: bool)
    ensures
        same == (a@ == b@),
{
    a == b
}

/// `Itertools::find_or_first` with `Codepage::is_windows_1252` as the predicate: the first codepage
/// that satisfies it, the first codepage of all where none does, and `None` where there is none.
#[verifier::external_body]
fn find_windows_1252_or_first(codepages: &Vec<Codepage>) -> (found: Option<Codepage>)
    ensures
        match found {
            None => codepages@.len() == 0,
            Some(codepage) => {
                ||| exists|i: int|
                    0 <= i < codepages@.len() && codepage == #[trigger] codepages@[i]
                        && codepages@[i]@ == "windows-1252"@ && forall|j: int|
                        0 <= j < i ==> (#[trigger] codepages@[j])@ != "windows-1252"@
                ||| codepages@.len() > 0 && codepage == codepages@[0] && forall|j: int|
                    0 <= j < codepages@.len() ==> (#[trigger] codepages@[j])@ != "windows-1252"@
            },
        },
{
    codepages.iter().copied().find_or_first(|codepage| codepage.is_windows_1252())
}

impl Codepage {
    /// Returns the codepage with the given name.
    pub fn from_name(name: &'static str) -> (codepage: Codepage)
        ensures
            codepage@ == name@,
    {
        Codepage { name }
    }

    /// Returns the name of the codepage.
    pub fn name(&self) -> (name: &'static str)
        ensures
            name@ == self@,
    {
        self.name
    }

    /// Returns UTF-16LE, the encoding of all text in Unicode installers.
    pub fn utf_16le() -> (codepage: Codepage)
        ensures
            codepage@ == "UTF-16LE"@,
    {
        Codepage { name: utf_16le_name() }
    }

    /// Returns windows-1252, the preferred codepage of ANSI installers.
    pub fn windows_1252() -> (codepage: Codepage)
        ensures
            codepage@ == "windows-1252"@,
    {
        Codepage { name: windows_1252_name() }
    }

    /// Returns `true` if this is windows-1252.
    pub fn is_windows_1252(&self) -> (yes: bool)
        ensures
            yes == (self@ == "windows-1252"@),
    {
        same_str(self.name, windows_1252_name())
    }

    /// Picks the codepage of an installer's text from those of its languages.
    pub fn preferred(unicode: bool, languages: &Vec<Codepage>) -> (codepage: Codepage)
        ensures
            codepage@ == preferred_codepage(
                unicode,
                languages@.map_values(|language: Codepage| language@),
            ),
            unicode ==> codepage@ == "UTF-16LE"@,
            !unicode && (exists|i: int|
                0 <= i < languages@.len() && (#[trigger] languages@[i])@ == "windows-1252"@)
                ==> codepage@ == "windows-1252"@,
            !unicode && languages@.len() > 0 && (forall|i: int|
                0 <= i < languages@.len() ==> (#[trigger] languages@[i])@ != "windows-1252"@)
                ==> codepage@ == languages@[0]@,
            !unicode && languages@.len() == 0 ==> codepage@ == "windows-1252"@,
    {
        if unicode {
            return Codepage::utf_16le();
        }
        let ghost names = languages@.map_values(|language: Codepage| language@);
        match find_windows_1252_or_first(languages) {
            Some(codepage) => {
                proof {
                    if names.contains("windows-1252"@) {
                        let k = choose|k: int|
                            0 <= k < names.len() && names[k] == "windows-1252"@;
                        assert(languages@[k]@ == "windows-1252"@);
                    } else {
                        assert forall|j: int| 0 <= j < languages@.len() implies (
                        #[trigger] languages@[j])@ != "windows-1252"@ by {
                            assert(names[j] == languages@[j]@);
                        }
                    }
                }
                codepage
            },
            None => Codepage::windows_1252(),
        }
    }
}

/// In Unicode installers text is always UTF-16LE, whatever the languages say.
pub proof fn unicode_text_is_utf_16le(languages: Seq<Seq<char>>)
    ensures
        preferred_codepage(true, languages) == "UTF-16LE"@,
{
}

/// In ANSI installers the codepage is that of a language: windows-1252 if any language uses it, and
/// that of the first language otherwise. It is windows-1252, too, if there is no language.
pub proof fn ansi_text_follows_the_languages(languages: Seq<Seq<char>>)
    ensures
        languages.len() > 0 ==> languages.contains(preferred_codepage(false, languages)),
        languages.contains("windows-1252"@) ==> preferred_codepage(false, languages)
            == "windows-1252"@,
        languages.len() > 0 && !languages.contains("windows-1252"@) ==> preferred_codepage(
            false,
            languages,
        ) == languages[0],
        languages.len() == 0 ==> preferred_codepage(false, languages) == "windows-1252"@,
{
}

/// Languages after the first change the codepage of an ANSI installer only if one of them uses
/// windows-1252.
pub proof fn later_languages_matter_only_for_windows_1252(
    languages: Seq<Seq<char>>,
    more: Seq<Seq<char>>,
)
    requires
        languages.len() > 0,
    ensures
        !more.contains("windows-1252"@) ==> preferred_codepage(false, languages + more)
            == preferred_codepage(false, languages),
        more.contains("windows-1252"@) ==> preferred_codepage(false, languages + more)
            == "windows-1252"@,
{
    let all = languages + more;
    if all.contains("windows-1252"@) {
        let k = choose|k: int| 0 <= k < all.len() && all[k] == "windows-1252"@;
        if k < languages.len() {
            assert(languages[k] == "windows-1252"@);
        } else {
            assert(more[k - languages.len()] == "windows-1252"@);
        }
    }
    if languages.contains("windows-1252"@) {
        let k = choose|k: int| 0 <= k < languages.len() && languages[k] == "windows-1252"@;
        assert(all[k] == "windows-1252"@);
    }
    if more.contains("windows-1252"@) {
        let k = choose|k: int| 0 <= k < more.len() && more[k] == "windows-1252"@;
        assert(all[languages.len() + k] == "windows-1252"@);
    }
}

} // verus!
