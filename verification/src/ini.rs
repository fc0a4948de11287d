//! The INI container of the `configparser` crate, as far as the settings file
//! needs it. Nothing in this file is proved: each function states what the
//! crate's source shows of the call it makes.

use configparser::ini::Ini;
use vstd::prelude::*;

verus! {

#[verifier::external_type_specification]
#[verifier::external_body]
pub struct ExIni(Ini);

/// Entries that hold a value: the value for each pair of section name and key.
pub type Entries = Map<(Seq<char>, Seq<char>), Seq<char>>;

/// The entries without any entry.
pub open spec fn no_entries() -> Entries {
    Map::empty()
}

/// The entries of an `Ini` that hold a value: for each pair of section name and
/// key, the value stored under it. A key stored without a value has no entry.
pub uninterp spec fn ini_values(ini: Ini) -> Map<(Seq<char>, Seq<char>), Seq<char>>;

/// Whether an `Ini` has the settings that `Ini::new` gives: names are folded to
/// lower case, `=` and `:` delimit, `;` and `#` start a comment, values span one
/// line, the default section is `default`, and a missing key is not looked up in
/// the default section.
pub uninterp spec fn ini_plain(ini: Ini) -> bool;

/// What `Ini::read` makes of a text under the settings of `Ini::new`: the
/// entries that hold a value, or `None` where it rejects the text.
pub uninterp spec fn ini_parse(text: Seq<char>) -> Option<Map<(Seq<char>, Seq<char>), Seq<char>>>;

/// Whether a name is left as it is by the folding to lower case: ASCII without
/// capital letters.
pub open spec fn is_folded(name: Seq<char>) -> bool {
    forall|i: int|
        0 <= i < name.len() ==> (#[trigger] name[i]) <= '\u{7f}' && !('A' <= name[i] <= 'Z')
}

/// `Ini::new`: a container with the default settings and no entries.
#[verifier::external_body]
pub(crate) fn ini_new() -> (ini: Ini)
    ensures
        ini_plain(ini),
        ini_values(ini) == no_entries(),
{
    Ini::new()
}

/// The longest text, in characters, that is handed to the parser. The parser
/// numbers the lines of a text in an `i32` and counts one ahead; a text of this
/// length has too few lines for that counter to run over.
pub const MAX_TEXT_LEN: usize = 2_147_483_644;

/// `Ini::read`: parses `text` and replaces the entries by what it holds. Where
/// the text is rejected, the entries stay as they were. The settings are not
/// touched. A text has no more lines than characters, so within `MAX_TEXT_LEN`
/// the parser's line counter stays in range; under the default settings the
/// parser has no other path that panics.
#[verifier::external_body]
pub(crate) fn ini_read(ini: &mut Ini, text: String) -> (outcome: Result<(), String>)
    requires
        ini_plain(*old(ini)),
        text@.len() <= MAX_TEXT_LEN,
    ensures
        ini_plain(*final(ini)),
        match ini_parse(text@) {
            Some(values) => outcome is Ok && ini_values(*final(ini)) == values,
            None => outcome is Err && ini_values(*final(ini)) == ini_values(*old(ini)),
        },
{
    match ini.read(text) {
        Ok(_) => Ok(()),
        Err(reason) => Err(reason),
    }
}

/// `Ini::get`: a copy of the value stored under `section` and `key`, `None`
/// where no value is stored there. Names that folding leaves alone are looked up
/// as they are.
#[verifier::external_body]
pub(crate) fn ini_get(ini: &Ini, section: &str, key: &str) -> (value: Option<String>)
    requires
        ini_plain(*ini),
        is_folded(section@),
        is_folded(key@),
    ensures
        value.deep_view() == if ini_values(*ini).contains_key((section@, key@)) {
            Some(ini_values(*ini)[(section@, key@)])
        } else {
            None
        },
{
    ini.get(section, key)
}

/// `Ini::set` with a value: stores `value` under `section` and `key`, creating
/// the section where it is missing and replacing what was stored there. Other
/// entries and the settings are not touched.
#[verifier::external_body]
pub(crate) fn ini_set(ini: &mut Ini, section: &str, key: &str, value: String)
    requires
        ini_plain(*old(ini)),
        is_folded(section@),
        is_folded(key@),
    ensures
        ini_plain(*final(ini)),
        ini_values(*final(ini)) == ini_values(*old(ini)).insert((section@, key@), value@),
{
    ini.set(section, key, Some(value));
}

/// `Ini::writes`: the entries as INI text. The order of the lines follows the
/// walk of a hash map and the line ends follow the platform, so nothing is
/// stated of the text.
#[verifier::external_body]
pub(crate) fn ini_writes(ini: &Ini) -> (text: String) {
    ini.writes()
}

} // verus!
