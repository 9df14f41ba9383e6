use inno::codepage::Codepage;

fn codepages(names: &[&'static str]) -> Vec<Codepage> {
    names.iter().map(|name| Codepage::from_name(name)).collect()
}

#[test]
fn names_are_those_of_the_encodings() {
    assert_eq!(Codepage::utf_16le().name(), "UTF-16LE");
    assert_eq!(Codepage::windows_1252().name(), "windows-1252");
    assert_eq!(Codepage::utf_16le().name(), encoding_rs::UTF_16LE.name());
    assert_eq!(Codepage::from_name("Shift_JIS").name(), "Shift_JIS");
}

#[test]
fn only_windows_1252_is_windows_1252() {
    assert!(Codepage::windows_1252().is_windows_1252());
    assert!(Codepage::from_name(encoding_rs::WINDOWS_1252.name()).is_windows_1252());
    assert!(!Codepage::utf_16le().is_windows_1252());
    assert!(!Codepage::from_name("windows-1251").is_windows_1252());
    assert!(!Codepage::from_name("").is_windows_1252());
}

#[test]
fn unicode_text_is_always_utf_16le() {
    assert_eq!(Codepage::preferred(true, &codepages(&[])).name(), "UTF-16LE");
    assert_eq!(Codepage::preferred(true, &codepages(&["windows-1252"])).name(), "UTF-16LE");
    assert_eq!(Codepage::preferred(true, &codepages(&["Big5", "GBK"])).name(), "UTF-16LE");
}

#[test]
fn windows_1252_is_preferred_wherever_it_stands() {
    let languages = codepages(&["windows-1251", "Shift_JIS", "windows-1252", "GBK"]);
    assert_eq!(Codepage::preferred(false, &languages).name(), "windows-1252");
}

#[test]
fn first_language_decides_where_none_uses_windows_1252() {
    let languages = codepages(&["windows-1251", "Shift_JIS", "GBK"]);
    assert_eq!(Codepage::preferred(false, &languages).name(), "windows-1251");
}

#[test]
fn windows_1252_is_the_codepage_without_languages() {
    assert_eq!(Codepage::preferred(false, &codepages(&[])).name(), "windows-1252");
}
