//! Versions: what a peer says of itself, and what this library says of
//! itself.

use crate::error::AnkiError;
use crate::text::chars_of;
use vstd::prelude::*;
use vstd::string::StringExecFns;

verus! {

/// The variant that marks a peer as able to exchange review-log entries in
/// full.
pub const ANKIMATH_VARIANT: &'static str = "mxyzptlk";

/// What a peer says of its version.
#[derive(Debug, Default, PartialEq, Eq)]
pub struct VersionInfo {
    pub name: String,
    pub major: u32,
    pub minor: u32,
    pub patch: u32,
    pub prerelease: String,
    pub buildmetadata: String,
    pub buildhash: String,
    pub variant: String,
    pub platform: String,
}

/// What a version holds, with its texts as character sequences.
#[verifier::ext_equal]
pub struct VersionRow {
    pub name: Seq<char>,
    pub major: u32,
    pub minor: u32,
    pub patch: u32,
    pub prerelease: Seq<char>,
    pub buildmetadata: Seq<char>,
    pub buildhash: Seq<char>,
    pub variant: Seq<char>,
    pub platform: Seq<char>,
}

impl View for VersionInfo {
    type V = VersionRow;

    open spec fn view(&self) -> VersionRow {
        VersionRow {
            name: self.name@,
            major: self.major,
            minor: self.minor,
            patch: self.patch,
            prerelease: self.prerelease@,
            buildmetadata: self.buildmetadata@,
            buildhash: self.buildhash@,
            variant: self.variant@,
            platform: self.platform@,
        }
    }
}

/// The pattern of the version that a client sends: a name and a comma, if
/// any; the version as three numbers, with a prerelease and build metadata
/// if any; white space; the build hash and the variant in round brackets; a
/// comma and the platform.
pub const CLIENT_VERSION_PATTERN: &'static str =
    r"(?x)
            ^
            (?:(?P<name>\S+),)?
            (?P<major>0|[1-9]\d*)
            \.
            (?P<minor>0|[1-9]\d*)
            \.
            (?P<patch>0|[1-9]\d*)
            (?:-(?P<prerelease>
                (?:0|[1-9]\d*|\d*[a-zA-Z-][0-9a-zA-Z-]*)
                (?:\.(?:0|[1-9]\d*|\d*[a-zA-Z-][0-9a-zA-Z-]*))*
              )
            )?(?:\+(?P<buildmetadata>
                [0-9a-zA-Z-]+(?:\.[0-9a-zA-Z-]+)*
              )
            )?
            \s+
            \(
            (?P<buildhash>[0-9a-zA-Z-]+)
            \.?
            (?P<variant>[0-9a-zA-Z-]+(?:\.[0-9a-zA-Z-]+)*)?
            \)
            ,
            (?P<platform>\S+)
            $
            ";

/// The pattern of the short version that a client sends: the version as
/// three numbers, with a prerelease and build metadata if any; a comma, the
/// build hash and the variant; a comma and the platform.
pub const SHORT_CLIENT_VERSION_PATTERN: &'static str =
    r"(?x)
            ^
            (?P<majorver>0|[1-9]\d*)
            \.
            (?P<minorver>0|[1-9]\d*)
            \.
            (?P<patchver>0|[1-9]\d*)
            (?:-(?P<prerelease>
                (?:0|[1-9]\d*|\d*[a-zA-Z-][0-9a-zA-Z-]*)
                (?:\.(?:0|[1-9]\d*|\d*[a-zA-Z-][0-9a-zA-Z-]*))*
              )
            )?(?:\+(?P<buildmetadata>
                [0-9a-zA-Z-]+(?:\.[0-9a-zA-Z-]+)*
              )
            )?
            ,
            (?P<buildhash>[0-9a-zA-Z-]+)
            \.?
            (?P<variant>[0-9a-zA-Z-]+(?:\.[0-9a-zA-Z-]+)*)?
            ,
            (?P<platform>\S+)
            $
            ";

/// The pattern of the version that a client sends.
pub fn client_version_re() -> (pattern: &'static str)
    ensures
        pattern@ == CLIENT_VERSION_PATTERN@,
{
    CLIENT_VERSION_PATTERN
}

/// The pattern of the short version that a client sends.
pub fn short_client_version_re() -> (pattern: &'static str)
    ensures
        pattern@ == SHORT_CLIENT_VERSION_PATTERN@,
{
    SHORT_CLIENT_VERSION_PATTERN
}

/// What a match of `pattern` against `text` captures under each of
/// `names`, in the order of `names`; nothing where `pattern` is no regular
/// expression or does not match.
pub uninterp spec fn regex_captures(
    pattern: Seq<char>,
    text: Seq<char>,
    names: Seq<Seq<char>>,
) -> Option<Seq<Option<Seq<char>>>>;

/// The captures as character sequences.
pub open spec fn captures_view(caps: Option<Vec<Option<String>>>) -> Option<Seq<Option<Seq<char>>>> {
    match caps {
        Some(list) => Some(group_texts(list@)),
        None => None,
    }
}

/// The texts of captured groups as character sequences.
pub open spec fn group_texts(groups: Seq<Option<String>>) -> Seq<Option<Seq<char>>> {
    groups.map_values(
        |group: Option<String>|
            match group {
                Some(text) => Some(text@),
                None => None,
            },
    )
}

/// Compiles `pattern` with `Regex::new`, matches it against `text` with
/// `Regex::captures`, and looks each of `names` up with `Captures::name`. The
/// result is nothing where the pattern does not compile or does not match;
/// else it holds, for each name in turn, the text that the group of that name
/// matched, or nothing where the pattern has no such group or the group did
/// not take part in the match.
#[verifier::external_body]
pub(crate) fn captures_by_name(pattern: &str, text: &str, names: &Vec<String>) -> (caps: Option<
    Vec<Option<String>>,
>)
    ensures
        captures_view(caps) == regex_captures(pattern@, text@, names.deep_view()),
        caps matches Some(list) ==> list@.len() == names@.len(),
{
    let re = regex::Regex::new(pattern).ok()?;
    let caps = re.captures(text)?;
    Some(names.iter().map(|name| caps.name(name).map(|m| m.as_str().to_string())).collect())
}

/// Whether `c` is one of the digits 0 to 9.
pub open spec fn is_digit(c: char) -> bool {
    '0' <= c && c <= '9'
}

/// The number that a text of digits stands for in the decimal system.
pub open spec fn decimal_value(digits: Seq<char>) -> nat
    decreases digits.len(),
{
    if digits.len() == 0 {
        0
    } else {
        10 * decimal_value(digits.drop_last()) + (digits.last() as u32 - '0' as u32) as nat
    }
}

/// Whether `text` is a number: not empty, and made of digits only.
pub open spec fn is_number(text: Seq<char>) -> bool {
    &&& text.len() > 0
    &&& forall|i: int| 0 <= i < text.len() ==> is_digit(#[trigger] text[i])
}

/// The number that `text` stands for, where it is a number that fits.
pub open spec fn parsed_u32(text: Seq<char>) -> Option<u32> {
    if is_number(text) && decimal_value(text) <= u32::MAX {
        Some(decimal_value(text) as u32)
    } else {
        None
    }
}

/// A beginning of a text of digits stands for no more than the text.
pub proof fn lemma_decimal_value_grows(digits: Seq<char>, n: int)
    requires
        0 <= n <= digits.len(),
        forall|i: int| 0 <= i < digits.len() ==> is_digit(#[trigger] digits[i]),
    ensures
        decimal_value(digits.take(n)) <= decimal_value(digits),
    decreases digits.len() - n,
{
    if n < digits.len() {
        lemma_decimal_value_grows(digits, n + 1);
        assert(digits.take(n + 1).drop_last() =~= digits.take(n));
        assert(is_digit(digits[n]));
        assert(digits.take(n + 1).last() == digits[n]);
    } else {
        assert(digits.take(n) =~= digits);
    }
}

/// The number that `text` stands for, if it stands for one that fits.
pub fn parse_u32(text: &str) -> (number: Option<u32>)
    ensures
        number == parsed_u32(text@),
{
    let chars = chars_of(text);
    if chars.len() == 0 {
        return None;
    }
    let mut value: u64 = 0;
    let mut i: usize = 0;
    while i < chars.len()
        invariant
            i <= chars.len(),
            chars@ == text@,
            forall|j: int| 0 <= j < i ==> is_digit(#[trigger] chars@[j]),
            value == decimal_value(chars@.take(i as int)),
            value <= u32::MAX,
        decreases chars.len() - i,
    {
        let c = chars[i];
        if !('0' <= c && c <= '9') {
            return None;
        }
        proof {
            assert(chars@.take(i + 1).drop_last() =~= chars@.take(i as int));
            assert(chars@.take(i + 1).last() == c);
        }
        let digit: u64 = (c as u32 - '0' as u32) as u64;
        value = 10 * value + digit;
        if value > 4294967295 {
            proof {
                if is_number(text@) {
                    lemma_decimal_value_grows(chars@, i + 1);
                }
            }
            return None;
        }
        i += 1;
    }
    assert(chars@.take(i as int) =~= chars@);
    Some(value as u32)
}

/// The text that a group captured; empty where it captured nothing.
pub open spec fn group_text(group: Option<Seq<char>>) -> Seq<char> {
    match group {
        Some(text) => text,
        None => Seq::empty(),
    }
}

/// The number that a group captured; 0 where it captured nothing; none
/// where it captured what is no number that fits.
pub open spec fn group_number(group: Option<Seq<char>>) -> Option<u32> {
    match group {
        Some(text) => parsed_u32(text),
        None => Some(0u32),
    }
}

/// The version that the nine captured groups stand for: name, major, minor,
/// patch, prerelease, build metadata, build hash, variant and platform, in
/// this order. There is none where there are not nine groups, or where
/// one of the three numbers is captured and is no number that fits.
pub open spec fn version_of_groups(groups: Seq<Option<Seq<char>>>) -> Option<VersionRow> {
    if groups.len() != 9 || group_number(groups[1]) is None || group_number(groups[2]) is None
        || group_number(groups[3]) is None {
        None
    } else {
        Some(
            VersionRow {
                name: group_text(groups[0]),
                major: group_number(groups[1])->0,
                minor: group_number(groups[2])->0,
                patch: group_number(groups[3])->0,
                prerelease: group_text(groups[4]),
                buildmetadata: group_text(groups[5]),
                buildhash: group_text(groups[6]),
                variant: group_text(groups[7]),
                platform: group_text(groups[8]),
            },
        )
    }
}

/// The text that `group` captured.
fn text_of(group: &Option<String>) -> (text: String)
    ensures
        text@ == group_text(
            match *group {
                Some(s) => Some(s@),
                None => None,
            },
        ),
{
    match group {
        Some(text) => text.clone(),
        None => String::new(),
    }
}

/// The number that `group` captured.
fn number_of(group: &Option<String>) -> (number: Option<u32>)
    ensures
        number == group_number(
            match *group {
                Some(s) => Some(s@),
                None => None,
            },
        ),
{
    match group {
        Some(text) => parse_u32(text.as_str()),
        None => Some(0),
    }
}

/// The version that the captured groups `groups` stand for.
pub fn version_from_groups(groups: &Vec<Option<String>>) -> (result: Result<VersionInfo, AnkiError>)
    ensures
        result is Ok <==> version_of_groups(group_texts(groups@)) is Some,
        match result {
            Ok(info) => Some(info@) == version_of_groups(group_texts(groups@)),
            Err(err) => err is InvalidInput,
        },
{
    if groups.len() != 9 {
        return Err(AnkiError::InvalidInput { info: String::from_str("version not understood") });
    }
    let major = number_of(&groups[1]);
    let minor = number_of(&groups[2]);
    let patch = number_of(&groups[3]);
    match (major, minor, patch) {
        (Some(major), Some(minor), Some(patch)) => Ok(
            VersionInfo {
                name: text_of(&groups[0]),
                major,
                minor,
                patch,
                prerelease: text_of(&groups[4]),
                buildmetadata: text_of(&groups[5]),
                buildhash: text_of(&groups[6]),
                variant: text_of(&groups[7]),
                platform: text_of(&groups[8]),
            },
        ),
        _ => Err(AnkiError::InvalidInput { info: String::from_str("version not understood") }),
    }
}

/// The names of the groups that a version is read from.
pub open spec fn version_group_names() -> Seq<Seq<char>> {
    seq![
        "name"@,
        "major"@,
        "minor"@,
        "patch"@,
        "prerelease"@,
        "buildmetadata"@,
        "buildhash"@,
        "variant"@,
        "platform"@,
    ]
}

/// The names of the groups that a version is read from.
fn group_names() -> (names: Vec<String>)
    ensures
        names.deep_view() == version_group_names(),
{
    let mut names: Vec<String> = Vec::new();
    names.push(String::from_str("name"));
    names.push(String::from_str("major"));
    names.push(String::from_str("minor"));
    names.push(String::from_str("patch"));
    names.push(String::from_str("prerelease"));
    names.push(String::from_str("buildmetadata"));
    names.push(String::from_str("buildhash"));
    names.push(String::from_str("variant"));
    names.push(String::from_str("platform"));
    assert(names.deep_view() =~= version_group_names());
    names
}

/// What `version` says, read by `pattern`: nothing where the pattern does
/// not match, else the version that the captured groups stand for.
pub open spec fn parsed_version(pattern: Seq<char>, version: Seq<char>) -> Result<
    Option<VersionRow>,
    (),
> {
    match regex_captures(pattern, version, version_group_names()) {
        None => Ok(None),
        Some(groups) => match version_of_groups(groups) {
            Some(row) => Ok(Some(row)),
            None => Err(()),
        },
    }
}

/// Whether `result` is what `parsed` says.
pub open spec fn is_parsed(
    result: Result<Option<VersionInfo>, AnkiError>,
    parsed: Result<Option<VersionRow>, ()>,
) -> bool {
    match parsed {
        Ok(None) => result matches Ok(None),
        Ok(Some(row)) => result matches Ok(Some(info)) && info@ == row,
        Err(_) => result matches Err(err) && err is InvalidInput,
    }
}

/// What `version` says, read by `pattern`.
fn parse_with(pattern: &str, version: &str) -> (result: Result<Option<VersionInfo>, AnkiError>)
    ensures
        is_parsed(result, parsed_version(pattern@, version@)),
{
    let names = group_names();
    match captures_by_name(pattern, version, &names) {
        Some(groups) => match version_from_groups(&groups) {
            Ok(info) => Ok(Some(info)),
            Err(err) => Err(err),
        },
        None => Ok(None),
    }
}

/// What the version `version` of a client says: nothing where it has not
/// the form of a client's version. A number that does not fit is refused.
pub fn parse_version_info(version: &str) -> (result: Result<Option<VersionInfo>, AnkiError>)
    ensures
        is_parsed(result, parsed_version(CLIENT_VERSION_PATTERN@, version@)),
{
    parse_with(client_version_re(), version)
}

/// What the short version `version` of a client says: nothing where it has
/// not the form of a client's short version. The pattern has no group for
/// the name, nor groups called major, minor and patch: these come out empty
/// and 0.
pub fn parse_short_version_info(version: &str) -> (result: Result<Option<VersionInfo>, AnkiError>)
    ensures
        is_parsed(result, parsed_version(SHORT_CLIENT_VERSION_PATTERN@, version@)),
{
    parse_with(short_client_version_re(), version)
}

/// The version of this library.
pub const VERSION: &'static str = "2.1.57";

/// The hash of a build that was given none.
pub const BUILDHASH: &'static str = "dev";

/// The version of this library.
pub fn version() -> (v: &'static str)
    ensures
        v@ == VERSION@,
{
    VERSION
}

/// The hash of the build; `dev` where the build was given none.
pub fn buildhash() -> (hash: &'static str)
    ensures
        hash@ == BUILDHASH@,
{
    BUILDHASH
}

/// What a client says of itself on `platform`.
pub fn sync_client_version(platform: &str) -> (text: String)
    ensures
        text@ == "anki,"@ + VERSION@ + " ("@ + BUILDHASH@ + "."@ + ANKIMATH_VARIANT@ + "),"@
            + platform@,
{
    let mut text = String::from_str("anki,");
    text.append(version());
    text.append(" (");
    text.append(buildhash());
    text.append(".");
    text.append(ANKIMATH_VARIANT);
    text.append("),");
    text.append(platform);
    text
}

/// What a client says of itself on `platform`, in short.
pub fn sync_client_version_short(platform: &str) -> (text: String)
    ensures
        text@ == VERSION@ + ","@ + BUILDHASH@ + "."@ + ANKIMATH_VARIANT@ + ","@ + platform@,
{
    let mut text = String::from_str(version());
    text.append(",");
    text.append(buildhash());
    text.append(".");
    text.append(ANKIMATH_VARIANT);
    text.append(",");
    text.append(platform);
    text
}

/// What a server says of itself on `platform`.
pub fn sync_server_version(platform: &str) -> (text: String)
    ensures
        text@ == "Anki/"@ + VERSION@ + "+"@ + ANKIMATH_VARIANT@ + " ("@ + platform@ + ")"@,
{
    let mut text = String::from_str("Anki/");
    text.append(version());
    text.append("+");
    text.append(ANKIMATH_VARIANT);
    text.append(" (");
    text.append(platform);
    text.append(")");
    text
}

} // verus!
