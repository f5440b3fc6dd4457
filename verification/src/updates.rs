//! Release discovery: reading the latest published version out of GitHub's release
//! description and comparing it with the installed one. Fetching the description is left
//! to the caller.
use vstd::prelude::*;

use crate::json::{get, member, parse_bytes, parsed_bytes, str_of, str_value, JsonModel};
use crate::text::{decimal, join2, join3, push_char, u64_text};

verus! {

/// Why a decimal number could not be read (as `std::num::IntErrorKind` for `u64`).
#[derive(Clone, Copy, Debug, PartialEq, Eq, Structural)]
pub enum IntErrorKind {
    Empty,
    InvalidDigit,
    PosOverflow,
}

impl IntErrorKind {
    /// The text of the corresponding `ParseIntError`.
    pub fn message(&self) -> (r: String)
        ensures
            r@ == int_error_text(*self),
    {
        match self {
            IntErrorKind::Empty => "cannot parse integer from empty string".to_owned(),
            IntErrorKind::InvalidDigit => "invalid digit found in string".to_owned(),
            IntErrorKind::PosOverflow => "number too large to fit in target type".to_owned(),
        }
    }
}

pub open spec fn int_error_text(k: IntErrorKind) -> Seq<char> {
    match k {
        IntErrorKind::Empty => "cannot parse integer from empty string"@,
        IntErrorKind::InvalidDigit => "invalid digit found in string"@,
        IntErrorKind::PosOverflow => "number too large to fit in target type"@,
    }
}

pub open spec fn is_digit(c: char) -> bool {
    '0' <= c <= '9'
}

pub open spec fn digit_value(c: char) -> int {
    c as int - '0' as int
}

/// Reads the digits of `d` from position `i` on, with `acc` the value read so far: the first
/// character that is not a digit, or that makes the value exceed `u64::MAX`, decides the error.
pub open spec fn scan_digits(d: Seq<char>, i: int, acc: int) -> Result<u64, IntErrorKind>
    decreases d.len() - i,
{
    if i >= d.len() || i < 0 {
        Ok(acc as u64)
    } else if !is_digit(d[i]) {
        Err(IntErrorKind::InvalidDigit)
    } else if acc * 10 + digit_value(d[i]) > u64::MAX {
        Err(IntErrorKind::PosOverflow)
    } else {
        scan_digits(d, i + 1, acc * 10 + digit_value(d[i]))
    }
}

/// `s.parse::<u64>()`: an optional `+`, then decimal digits.
pub open spec fn parse_u64_spec(s: Seq<char>) -> Result<u64, IntErrorKind> {
    if s.len() == 0 {
        Err(IntErrorKind::Empty)
    } else {
        let d = if s[0] == '+' {
            s.drop_first()
        } else {
            s
        };
        if d.len() == 0 {
            Err(IntErrorKind::InvalidDigit)
        } else {
            scan_digits(d, 0, 0)
        }
    }
}

/// Reads an unsigned decimal number as `str::parse::<u64>` does.
pub fn parse_u64(s: &str) -> (r: Result<u64, IntErrorKind>)
    ensures
        r == parse_u64_spec(s@),
{
    let n = s.unicode_len();
    if n == 0 {
        return Err(IntErrorKind::Empty);
    }
    let start: usize = if s.get_char(0) == '+' {
        1
    } else {
        0
    };
    if start == n {
        return Err(IntErrorKind::InvalidDigit);
    }
    let ghost d = if s@[0] == '+' {
        s@.drop_first()
    } else {
        s@
    };
    assert(parse_u64_spec(s@) == scan_digits(d, 0, 0));
    let mut acc: u64 = 0;
    let mut i: usize = start;
    while i < n
        invariant
            n == s@.len(),
            start <= i <= n,
            start == 0 || start == 1,
            d.len() == n - start,
            forall|k: int| 0 <= k < d.len() ==> d[k] == s@[k + start],
            scan_digits(d, (i - start) as int, acc as int) == scan_digits(d, 0, 0),
            parse_u64_spec(s@) == scan_digits(d, 0, 0),
        decreases n - i,
    {
        let c = s.get_char(i);
        assert(d[i - start] == c);
        if !('0' <= c && c <= '9') {
            assert(!is_digit(c));
            assert(scan_digits(d, (i - start) as int, acc as int) == Err::<u64, IntErrorKind>(IntErrorKind::InvalidDigit));
            return Err(IntErrorKind::InvalidDigit);
        }
        let v = (c as u32 - '0' as u32) as u64;
        if acc > 1844674407370955161u64 || (acc == 1844674407370955161u64 && v > 5) {
            return Err(IntErrorKind::PosOverflow);
        }
        acc = acc * 10 + v;
        i = i + 1;
    }
    Ok(acc)
}

/// `s` without its leading `c` characters (`str::trim_start_matches(c)`).
pub open spec fn strip_leading(s: Seq<char>, c: char) -> Seq<char>
    decreases s.len(),
{
    if s.len() > 0 && s[0] == c {
        strip_leading(s.drop_first(), c)
    } else {
        s
    }
}

/// `s` cut at every `sep` (`str::split(sep)`); there is always at least one part.
pub open spec fn split_on(s: Seq<char>, sep: char) -> Seq<Seq<char>>
    decreases s.len(),
{
    if s.len() == 0 {
        seq![Seq::<char>::empty()]
    } else {
        let rest = split_on(s.drop_last(), sep);
        if s.last() == sep {
            rest.push(Seq::<char>::empty())
        } else {
            rest.update(rest.len() - 1, rest.last().push(s.last()))
        }
    }
}

proof fn lemma_split_nonempty(s: Seq<char>, sep: char)
    ensures
        split_on(s, sep).len() >= 1,
    decreases s.len(),
{
    if s.len() > 0 {
        lemma_split_nonempty(s.drop_last(), sep);
    }
}

/// Why a release could not be read.
#[derive(Clone, Debug)]
pub enum ReleaseError {
    MissingVersion,
    UnsupportedVersion(String),
    InvalidNumber(IntErrorKind),
}

pub open spec fn release_error_text(e: ReleaseError) -> Seq<char> {
    match e {
        ReleaseError::MissingVersion => "GitHub did not return a release version."@,
        ReleaseError::UnsupportedVersion(v) => "Unsupported release version: "@ + v@,
        ReleaseError::InvalidNumber(k) => int_error_text(k),
    }
}

impl ReleaseError {
    /// The text shown for this error.
    pub fn message(&self) -> (r: String)
        ensures
            r@ == release_error_text(*self),
    {
        match self {
            ReleaseError::MissingVersion => "GitHub did not return a release version.".to_owned(),
            ReleaseError::UnsupportedVersion(v) => join2("Unsupported release version: ", v.as_str()),
            ReleaseError::InvalidNumber(k) => k.message(),
        }
    }
}

/// A version `major.minor.patch`, compared component by component.
pub open spec fn version_spec(v: Seq<char>) -> Result<(u64, u64, u64), ReleaseError> {
    let parts = split_on(v, '.');
    if parts.len() != 3 {
        Err(ReleaseError::UnsupportedVersion(arbitrary()))
    } else {
        match parse_u64_spec(parts[0]) {
            Err(k) => Err(ReleaseError::InvalidNumber(k)),
            Ok(a) => match parse_u64_spec(parts[1]) {
                Err(k) => Err(ReleaseError::InvalidNumber(k)),
                Ok(b) => match parse_u64_spec(parts[2]) {
                    Err(k) => Err(ReleaseError::InvalidNumber(k)),
                    Ok(c) => Ok((a, b, c)),
                },
            },
        }
    }
}

/// `version_spec(v)` describes `r`, with the text of an unsupported version being `v`.
pub open spec fn version_result(v: Seq<char>, r: Result<(u64, u64, u64), ReleaseError>) -> bool {
    match version_spec(v) {
        Ok(t) => r == Ok::<(u64, u64, u64), ReleaseError>(t),
        Err(ReleaseError::UnsupportedVersion(_)) => r matches Err(ReleaseError::UnsupportedVersion(text)) && text@ == v,
        Err(e) => r == Err::<(u64, u64, u64), ReleaseError>(e),
    }
}

/// The parts of `s` between dots.
fn split_dots(s: &str) -> (parts: Vec<String>)
    ensures
        parts@.len() == split_on(s@, '.').len(),
        forall|k: int| 0 <= k < parts@.len() ==> (#[trigger] parts@[k])@ == split_on(s@, '.')[k],
{
    let n = s.unicode_len();
    let mut parts: Vec<String> = Vec::new();
    parts.push(String::new());
    let mut i: usize = 0;
    while i < n
        invariant
            n == s@.len(),
            i <= n,
            parts@.len() == split_on(s@.take(i as int), '.').len(),
            parts@.len() >= 1,
            forall|k: int| 0 <= k < parts@.len() ==> (#[trigger] parts@[k])@ == split_on(s@.take(i as int), '.')[k],
        decreases n - i,
    {
        let c = s.get_char(i);
        proof {
            assert(s@.take(i + 1).drop_last() =~= s@.take(i as int));
            assert(s@.take(i + 1).last() == c);
        }
        if c == '.' {
            parts.push(String::new());
        } else {
            let last = parts.len() - 1;
            let mut piece = parts.pop().unwrap();
            push_char(&mut piece, c);
            parts.push(piece);
        }
        i = i + 1;
        assert forall|k: int| 0 <= k < parts@.len() implies (#[trigger] parts@[k])@ == split_on(s@.take(i as int), '.')[k] by {}
    }
    assert(s@.take(n as int) =~= s@);
    parts
}

/// Reads a `major.minor.patch` version.
pub fn parse_version(v: &str) -> (r: Result<(u64, u64, u64), ReleaseError>)
    ensures
        version_result(v@, r),
{
    let parts = split_dots(v);
    if parts.len() != 3 {
        return Err(ReleaseError::UnsupportedVersion(v.to_owned()));
    }
    let a = match parse_u64(parts[0].as_str()) {
        Ok(a) => a,
        Err(k) => return Err(ReleaseError::InvalidNumber(k)),
    };
    let b = match parse_u64(parts[1].as_str()) {
        Ok(b) => b,
        Err(k) => return Err(ReleaseError::InvalidNumber(k)),
    };
    let c = match parse_u64(parts[2].as_str()) {
        Ok(c) => c,
        Err(k) => return Err(ReleaseError::InvalidNumber(k)),
    };
    Ok((a, b, c))
}

/// `a` is a later version than `b`.
pub open spec fn later(a: (u64, u64, u64), b: (u64, u64, u64)) -> bool {
    a.0 > b.0 || (a.0 == b.0 && (a.1 > b.1 || (a.1 == b.1 && a.2 > b.2)))
}

pub fn is_later(a: (u64, u64, u64), b: (u64, u64, u64)) -> (r: bool)
    ensures
        r == later(a, b),
{
    a.0 > b.0 || (a.0 == b.0 && (a.1 > b.1 || (a.1 == b.1 && a.2 > b.2)))
}

/// The latest published release and whether it is later than the installed version.
#[derive(Clone, Debug)]
pub struct LatestRelease {
    pub version: String,
    pub newer: bool,
}

/// Removes the leading `v` characters of a release tag.
pub fn strip_v(tag: &str) -> (r: String)
    ensures
        r@ == strip_leading(tag@, 'v'),
{
    let n = tag.unicode_len();
    let mut i: usize = 0;
    assert(tag@.subrange(0, n as int) =~= tag@);
    while i < n && tag.get_char(i) == 'v'
        invariant
            n == tag@.len(),
            i <= n,
            strip_leading(tag@.subrange(i as int, n as int), 'v') == strip_leading(tag@, 'v'),
        decreases n - i,
    {
        assert(tag@.subrange(i as int, n as int).drop_first() =~= tag@.subrange(i + 1, n as int));
        i = i + 1;
    }
    proof {
        assert(tag@.subrange(i as int, n as int).len() == 0 || tag@.subrange(i as int, n as int)[0] != 'v');
    }
    tag.substring_char(i, n).to_owned()
}

/// Interprets the `tag_name` of the latest published release against the installed version:
/// the tag without its leading `v`s must be a version, and so must the installed version.
pub fn interpret_release(tag_name: Option<String>, installed: &str) -> (r: Result<LatestRelease, ReleaseError>)
    ensures
        tag_name is None ==> r matches Err(ReleaseError::MissingVersion),
        tag_name matches Some(tag) ==> {
            let v = strip_leading(tag@, 'v');
            match version_spec(v) {
                Err(ReleaseError::UnsupportedVersion(_)) => r matches Err(ReleaseError::UnsupportedVersion(text)) && text@ == v,
                Err(e) => r == Err::<LatestRelease, ReleaseError>(e),
                Ok(latest) => match version_spec(installed@) {
                    Err(ReleaseError::UnsupportedVersion(_)) => r matches Err(ReleaseError::UnsupportedVersion(text)) && text@ == installed@,
                    Err(e) => r == Err::<LatestRelease, ReleaseError>(e),
                    Ok(current) => r matches Ok(release) && release.version@ == v && release.newer == later(latest, current),
                },
            }
        },
{
    let tag = match tag_name {
        Some(tag) => tag,
        None => return Err(ReleaseError::MissingVersion),
    };
    let version = strip_v(tag.as_str());
    let latest = parse_version(version.as_str())?;
    let current = parse_version(installed)?;
    let newer = is_later(latest, current);
    Ok(LatestRelease { version, newer })
}

/// The text of the release's `tag_name` member, where it holds text.
pub open spec fn tag_name_of(release: JsonModel) -> Option<Seq<char>> {
    str_value(member(release, "tag_name"@))
}

/// `r` is what the release tag `tag` gives against the installed version, errors as
/// their text.
pub open spec fn release_outcome(tag: Option<Seq<char>>, installed: Seq<char>, r: Result<LatestRelease, String>) -> bool {
    match tag {
        None => r matches Err(t) && t@ == release_error_text(ReleaseError::MissingVersion),
        Some(tag) => {
            let v = strip_leading(tag, 'v');
            match version_spec(v) {
                Err(ReleaseError::UnsupportedVersion(_)) => r matches Err(t) && t@ == "Unsupported release version: "@ + v,
                Err(e) => r matches Err(t) && t@ == release_error_text(e),
                Ok(latest) => match version_spec(installed) {
                    Err(ReleaseError::UnsupportedVersion(_)) => r matches Err(t) && t@ == "Unsupported release version: "@
                        + installed,
                    Err(e) => r matches Err(t) && t@ == release_error_text(e),
                    Ok(current) => r matches Ok(release) && release.version@ == v && release.newer == later(latest, current),
                },
            }
        },
    }
}

/// Reads GitHub's description of the latest release, the response body `body`, against
/// the installed version: a body that is not JSON gives serde_json's error; else its
/// `tag_name` is interpreted.
pub fn release_from_body(body: &[u8], installed: &str) -> (r: Result<LatestRelease, String>)
    ensures
        match parsed_bytes(body@) {
            Err(e) => r matches Err(t) && t@ == e,
            Ok(j) => release_outcome(tag_name_of(j), installed@, r),
        },
{
    let release = match parse_bytes(body) {
        Ok(j) => j,
        Err(e) => return Err(e),
    };
    let tag = str_of(get(&release, "tag_name"));
    match interpret_release(tag, installed) {
        Ok(latest) => Ok(latest),
        Err(e) => Err(e.message()),
    }
}

/// The sentence shown after checking for updates.
pub fn update_message(result: &Result<LatestRelease, String>, installed: &str) -> (r: String)
    ensures
        match result {
            Ok(release) => if release.newer {
                r@ == "Codex Air "@ + release.version@ + " is available."@
            } else {
                r@ == "Installed: "@ + installed@ + ". Latest published release: "@ + release.version@ + "."@
            },
            Err(error) => r@ == "Could not check for updates: "@ + error@,
        },
{
    match result {
        Ok(release) => if release.newer {
            join3("Codex Air ", release.version.as_str(), " is available.")
        } else {
            let head = join3("Installed: ", installed, ". Latest published release: ");
            join3(head.as_str(), release.version.as_str(), ".")
        },
        Err(error) => join2("Could not check for updates: ", error.as_str()),
    }
}

/// The most bytes a release response may hold.
pub const RESPONSE_LIMIT: usize = 1_048_576;

/// Why a response with HTTP status `status` is refused: only 200 is taken.
pub fn status_error(status: u32) -> (r: Option<String>)
    ensures
        status == 200 ==> r is None,
        status != 200 ==> (r matches Some(e) && e@ == "GitHub returned HTTP "@ + decimal(status as nat) + ". Try again later."@),
{
    if status == 200 {
        None
    } else {
        let digits = u64_text(status as u64);
        Some(join3("GitHub returned HTTP ", digits.as_str(), ". Try again later."))
    }
}

/// Why a response body of `len` bytes so far is refused: it may not exceed
/// `RESPONSE_LIMIT`.
pub fn size_error(len: usize) -> (r: Option<String>)
    ensures
        len <= RESPONSE_LIMIT ==> r is None,
        len > RESPONSE_LIMIT ==> (r matches Some(e) && e@ == "Release response exceeded the expected size."@),
{
    if len > RESPONSE_LIMIT {
        Some("Release response exceeded the expected size.".to_owned())
    } else {
        None
    }
}


/// `later` is the lexicographic order of (major, minor, patch): a larger major version is
/// later; with equal majors, a larger minor; with equal majors and minors, a larger
/// patch. No version is later than itself, of two versions at most one is later than the
/// other, and of two different versions one is.
pub proof fn lemma_later_is_lexicographic(a: (u64, u64, u64), b: (u64, u64, u64))
    ensures
        a.0 > b.0 ==> later(a, b),
        a.0 == b.0 && a.1 > b.1 ==> later(a, b),
        a.0 == b.0 && a.1 == b.1 && a.2 > b.2 ==> later(a, b),
        a.0 < b.0 ==> !later(a, b),
        a.0 == b.0 && a.1 < b.1 ==> !later(a, b),
        a.0 == b.0 && a.1 == b.1 && a.2 <= b.2 ==> !later(a, b),
        !later(a, a),
        later(a, b) ==> !later(b, a),
        a != b ==> later(a, b) || later(b, a),
{
}

/// When both the release tag (without its leading `v`s) and the installed version are
/// versions, the check succeeds with the tag's version, and the release is newer exactly
/// when its (major, minor, patch) is greater in lexicographic order.
pub proof fn lemma_newer_release(tag: Seq<char>, installed: Seq<char>, r: Result<LatestRelease, String>, x: (u64, u64, u64), y: (u64, u64, u64))
    requires
        release_outcome(Some(tag), installed, r),
        version_spec(strip_leading(tag, 'v')) == Ok::<(u64, u64, u64), ReleaseError>(x),
        version_spec(installed) == Ok::<(u64, u64, u64), ReleaseError>(y),
    ensures
        r is Ok,
        r->Ok_0.version@ == strip_leading(tag, 'v'),
        r->Ok_0.newer <==> (x.0 > y.0 || (x.0 == y.0 && x.1 > y.1) || (x.0 == y.0 && x.1 == y.1 && x.2 > y.2)),
{
    lemma_later_is_lexicographic(x, y);
}
} // verus!
