//! The procedures that have nothing to do with synchronisation: new identifiers, and how the
//! application is installed and started.

use crate::text::{contains, occurs_at, occurs_in, starts_with};
use crate::text_laws::text_contains_what_it_is_made_of;
use uuid::Uuid;
use vstd::prelude::*;

verus! {

/// Where the application is installed, as far as its updates are concerned.
#[derive(Debug, Clone, Copy, PartialEq, Eq, Structural)]
pub enum InstallLocation {
    Applications,
    NotInApplications,
    /// The system runs the application from a read-only randomised path, which prevents updates in
    /// place.
    Translocated,
    NotConcerned,
}

/// Where an executable at `exe` is installed, for a user whose home is `home`. An application whose
/// path is unknown is not warned about.
pub open spec fn location_of(
    exe: Option<Seq<char>>,
    home: Option<Seq<char>>,
) -> InstallLocation {
    match exe {
        None => InstallLocation::NotConcerned,
        Some(path) => {
            if occurs_in(path, "/AppTranslocation/"@) {
                InstallLocation::Translocated
            } else if occurs_at(path, "/Applications/"@, 0) || (home matches Some(home)
                && occurs_at(path, home + "/Applications/"@, 0)) {
                InstallLocation::Applications
            } else {
                InstallLocation::NotInApplications
            }
        },
    }
}

pub open spec fn str_view(text: Option<&str>) -> Option<Seq<char>> {
    match text {
        Some(text) => Some(text@),
        None => None,
    }
}

/// Tells where the application is installed. Only a build that is `concerned` can be moved away by
/// the system; every other one has nothing to check.
pub fn install_location(
    concerned: bool,
    exe: Option<&str>,
    home: Option<&str>,
) -> (location: InstallLocation)
    ensures
        location == (if concerned {
            location_of(str_view(exe), str_view(home))
        } else {
            InstallLocation::NotConcerned
        }),
{
    if !concerned {
        return InstallLocation::NotConcerned;
    }
    let path = match exe {
        Some(path) => path,
        None => {
            return InstallLocation::NotConcerned;
        },
    };
    if contains(path, "/AppTranslocation/") {
        return InstallLocation::Translocated;
    }
    let in_system_applications = starts_with(path, "/Applications/");
    let in_user_applications = match home {
        Some(home) => {
            let mut applications = home.to_owned();
            applications.append("/Applications/");
            starts_with(path, applications.as_str())
        },
        None => false,
    };
    if in_system_applications || in_user_applications {
        InstallLocation::Applications
    } else {
        InstallLocation::NotInApplications
    }
}

pub open spec fn hex_digit(n: int) -> char {
    seq![
        '0', '1', '2', '3', '4', '5', '6', '7', '8', '9', 'a', 'b', 'c', 'd', 'e', 'f',
    ][n]
}

/// The bytes in lower-case hexadecimal, two digits each.
pub open spec fn hex(bytes: Seq<u8>) -> Seq<char> {
    Seq::new(
        2 * bytes.len(),
        |i: int|
            if i % 2 == 0 {
                hex_digit(bytes[i / 2] as int / 16)
            } else {
                hex_digit(bytes[i / 2] as int % 16)
            },
    )
}

/// Sixteen bytes as the text of an identifier: hexadecimal in groups of 8, 4, 4, 4 and 12 digits.
pub open spec fn hyphenated(bytes: Seq<u8>) -> Seq<char> {
    hex(bytes.subrange(0, 4)) + seq!['-'] + hex(bytes.subrange(4, 6)) + seq!['-'] + hex(
        bytes.subrange(6, 8),
    ) + seq!['-'] + hex(bytes.subrange(8, 10)) + seq!['-'] + hex(bytes.subrange(10, 16))
}

/// Sixteen bytes that make up a random identifier: the version is 4, and the variant bits are 10.
pub open spec fn is_random_id(bytes: Seq<u8>) -> bool {
    bytes.len() == 16 && bytes[6] / 16 == 4 && bytes[8] / 64 == 2
}

/// Calls `uuid::Uuid::new_v4`. Every outcome has the version and the variant of a random
/// identifier; the other bits are left to chance. The call panics where the system has no source
/// of random numbers.
#[verifier::external_body]
fn random_id() -> (bytes: [u8; 16])
    ensures
        is_random_id(bytes@),
{
    Uuid::new_v4().into_bytes()
}

/// Calls `Display` of `uuid::Uuid`, which writes the hyphenated form in lower case.
#[verifier::external_body]
fn write_id(bytes: [u8; 16]) -> (text: String)
    ensures
        text@ == hyphenated(bytes@),
{
    Uuid::from_bytes(bytes).to_string()
}

/// The text of the identifier that sixteen bytes make up.
pub fn id_text(bytes: [u8; 16]) -> (text: String)
    ensures
        text@ == hyphenated(bytes@),
{
    write_id(bytes)
}

/// The general procedures.
#[derive(Debug, Clone, Copy)]
pub struct BaseApiImpl;

impl BaseApiImpl {
    /// A new random identifier.
    pub fn new_id(&self) -> (id: String)
        ensures
            exists|bytes: Seq<u8>| #[trigger] is_random_id(bytes) && id@ == hyphenated(bytes),
    {
        let bytes = random_id();
        id_text(bytes)
    }

    /// Whether this is a production build, as opposed to a development one.
    pub fn is_production(&self, dev: bool) -> (production: bool)
        ensures
            production == !dev,
    {
        !dev
    }

    /// Where the application is installed.
    pub fn get_install_location(
        &self,
        concerned: bool,
        exe: Option<&str>,
        home: Option<&str>,
    ) -> (location: InstallLocation)
        ensures
            location == (if concerned {
                location_of(str_view(exe), str_view(home))
            } else {
                InstallLocation::NotConcerned
            }),
    {
        install_location(concerned, exe, home)
    }

    /// The deep link that the application was started with, if there is one: the first of those
    /// that the system reports.
    pub fn startup(&self, current: &Result<Option<Vec<String>>, String>) -> (url: Option<String>)
        ensures
            match url {
                Some(url) => current matches Ok(Some(urls)) && urls.len() > 0 && url@ == urls[0]@,
                None => !(current matches Ok(Some(urls)) && urls.len() > 0),
            },
    {
        match current {
            Ok(Some(urls)) => {
                if urls.len() > 0 {
                    Some(urls[0].clone())
                } else {
                    None
                }
            },
            _ => None,
        }
    }
}

/// A path under translocation is reported as such wherever else it lies, an application in the
/// applications folder of the system or of the user is in place, and everything else is not.
pub proof fn translocation_comes_first(path: Seq<char>, home: Option<Seq<char>>)
    ensures
        location_of(Some(path), home) is Translocated <==> occurs_in(path, "/AppTranslocation/"@),
        location_of(Some(path), home) !is NotConcerned,
        location_of(None, home) is NotConcerned,
{
}

/// The model of an optional text shows the text, where there is one.
pub proof fn model_shows_optional_text(text: &str)
    ensures
        str_view(Some(text)) == Some(text@),
        str_view(None) == None::<Seq<char>>,
{
}

/// A path that is put together from anything, the mark of translocation, and anything else is
/// translocated.
pub proof fn marked_path_is_translocated(
    before: Seq<char>,
    after: Seq<char>,
    home: Option<Seq<char>>,
)
    ensures
        location_of(Some(before + "/AppTranslocation/"@ + after), home)
            == InstallLocation::Translocated,
{
    text_contains_what_it_is_made_of(Seq::empty(), "/AppTranslocation/"@, before, after);
}

/// A path without the mark of translocation is in place exactly where it begins with the
/// applications folder of the system, or with that of the user whose home is known.
pub proof fn applications_folder_decides(path: Seq<char>, home: Option<Seq<char>>)
    requires
        forall|before: Seq<char>, after: Seq<char>|
            path != #[trigger] (before + "/AppTranslocation/"@ + after),
    ensures
        location_of(Some(path), home) == InstallLocation::Applications <==> (exists|rest: Seq<char>|
            path == #[trigger] ("/Applications/"@ + rest)) || (home is Some && exists|
            rest: Seq<char>,
        | path == #[trigger] (home->0 + "/Applications/"@ + rest)),
        location_of(Some(path), home) == InstallLocation::Applications || location_of(
            Some(path),
            home,
        ) == InstallLocation::NotInApplications,
{
    let empty = Seq::<char>::empty();
    text_contains_what_it_is_made_of(path, "/AppTranslocation/"@, empty, empty);
    text_contains_what_it_is_made_of(path, "/Applications/"@, empty, empty);
    if exists|rest: Seq<char>| path == #[trigger] ("/Applications/"@ + rest) {
        let rest = choose|rest: Seq<char>| path == #[trigger] ("/Applications/"@ + rest);
        text_contains_what_it_is_made_of(path, "/Applications/"@, empty, rest);
    }
    if home is Some {
        let folder = home->0 + "/Applications/"@;
        text_contains_what_it_is_made_of(path, folder, empty, empty);
        if exists|rest: Seq<char>| path == #[trigger] (home->0 + "/Applications/"@ + rest) {
            let rest = choose|rest: Seq<char>|
                path == #[trigger] (home->0 + "/Applications/"@ + rest);
            text_contains_what_it_is_made_of(path, folder, empty, rest);
        }
        if occurs_at(path, folder, 0) {
            let rest = choose|rest: Seq<char>| path == #[trigger] (folder + rest);
            assert(path == home->0 + "/Applications/"@ + rest);
        }
    }
}

/// The hexadecimal digits are the decimal ones, then the letters from `a` on.
pub proof fn hexadecimal_digits(n: int)
    requires
        0 <= n < 16,
    ensures
        hex_digit(n) as int == (if n < 10 {
            48 + n
        } else {
            87 + n
        }),
{
}

/// The byte at `i` is written as two hexadecimal digits, the high one first, behind those before it
/// and the hyphens among them.
pub proof fn identifier_shows_every_byte(bytes: Seq<u8>, i: int)
    requires
        bytes.len() == 16,
        0 <= i < 16,
    ensures
        ({
            let hyphens: int = if i < 4 {
                0
            } else if i < 6 {
                1
            } else if i < 8 {
                2
            } else if i < 10 {
                3
            } else {
                4
            };
            &&& hyphenated(bytes)[2 * i + hyphens] == hex_digit(bytes[i] as int / 16)
            &&& hyphenated(bytes)[2 * i + hyphens + 1] == hex_digit(bytes[i] as int % 16)
        }),
{
    lemma_digits_of_byte(bytes, i);
}

/// The text of an identifier has 36 characters, with hyphens behind the 8th, 12th, 16th and 20th
/// digit.
pub proof fn identifier_is_hyphenated(bytes: Seq<u8>)
    requires
        bytes.len() == 16,
    ensures
        hyphenated(bytes).len() == 36,
        hyphenated(bytes)[8] == '-',
        hyphenated(bytes)[13] == '-',
        hyphenated(bytes)[18] == '-',
        hyphenated(bytes)[23] == '-',
{
}

/// A new identifier shows its version and its variant.
pub proof fn random_identifier_shows_its_version(bytes: Seq<u8>)
    requires
        is_random_id(bytes),
    ensures
        hyphenated(bytes)[14] == '4',
        hyphenated(bytes)[19] == '8' || hyphenated(bytes)[19] == '9' || hyphenated(bytes)[19] == 'a'
            || hyphenated(bytes)[19] == 'b',
{
    assert(hyphenated(bytes)[14] == hex(bytes.subrange(6, 8))[0]);
    assert(hyphenated(bytes)[19] == hex(bytes.subrange(8, 10))[0]);
    assert(8 <= bytes[8] as int / 16 <= 11);
}

/// Where the two digits of the byte at `i` stand in the text of an identifier.
spec fn digits_at(i: int) -> int {
    2 * i + if i < 4 {
        0int
    } else if i < 6 {
        1
    } else if i < 8 {
        2
    } else if i < 10 {
        3
    } else {
        4
    }
}

proof fn lemma_digits_of_byte(bytes: Seq<u8>, i: int)
    requires
        bytes.len() == 16,
        0 <= i < 16,
    ensures
        hyphenated(bytes)[digits_at(i)] == hex_digit(bytes[i] as int / 16),
        hyphenated(bytes)[digits_at(i) + 1] == hex_digit(bytes[i] as int % 16),
{
    let (from, to): (int, int) = if i < 4 {
        (0, 4)
    } else if i < 6 {
        (4, 6)
    } else if i < 8 {
        (6, 8)
    } else if i < 10 {
        (8, 10)
    } else {
        (10, 16)
    };
    let group = bytes.subrange(from, to);
    assert(group[i - from] == bytes[i]);
    assert(hex(group)[2 * (i - from)] == hex_digit(bytes[i] as int / 16));
    assert(hex(group)[2 * (i - from) + 1] == hex_digit(bytes[i] as int % 16));
    assert(hyphenated(bytes)[digits_at(i)] == hex(group)[2 * (i - from)]);
    assert(hyphenated(bytes)[digits_at(i) + 1] == hex(group)[2 * (i - from) + 1]);
}

/// Different bytes make up different identifiers.
pub proof fn identifiers_tell_bytes_apart(left: Seq<u8>, right: Seq<u8>)
    requires
        left.len() == 16,
        right.len() == 16,
        hyphenated(left) == hyphenated(right),
    ensures
        left == right,
{
    assert forall|i: int| 0 <= i < 16 implies left[i] == right[i] by {
        lemma_digits_of_byte(left, i);
        lemma_digits_of_byte(right, i);
        assert(forall|m: int, n: int|
            0 <= m < 16 && 0 <= n < 16 && #[trigger] hex_digit(m) == #[trigger] hex_digit(n) ==> m
                == n);
    }
    assert(left =~= right);
}

} // verus!
