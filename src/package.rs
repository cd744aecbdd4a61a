//! Package specifications and the decisions of package resolution.

use vstd::prelude::*;
use vstd::string::StrSliceExecFns;

use crate::errors::PackageError;
use crate::text::{concat, decimal, u32_text};

verus! {

/// A package version `major.minor.patch`.
#[derive(Clone, Copy, Debug, PartialEq, Eq, Structural, Hash)]
pub struct PackageVersion {
    pub major: u32,
    pub minor: u32,
    pub patch: u32,
}

/// A reference to a package: namespace, name and version.
#[derive(Clone, Debug, PartialEq, Eq, Hash)]
pub struct PackageSpec {
    pub namespace: String,
    pub name: String,
    pub version: PackageVersion,
}

impl PackageSpec {
    /// The specification's fields as plain values: specifications are equal
    /// by value exactly when their keys are.
    pub open spec fn key(&self) -> (Seq<char>, Seq<char>, PackageVersion) {
        (self.namespace@, self.name@, self.version)
    }

    /// Compares two specifications by value.
    pub fn same_as(&self, other: &PackageSpec) -> (r: bool)
        ensures
            r == (self.key() == other.key()),
    {
        self.namespace == other.namespace && self.name == other.name && self.version == other.version
    }

    /// A copy equal to `self`.
    pub fn duplicate(&self) -> (r: Self)
        ensures
            r == *self,
    {
        PackageSpec {
            namespace: self.namespace.clone(),
            name: self.name.clone(),
            version: self.version,
        }
    }
}

/// The repository that serves packages of the fetchable namespace.
pub const HOST: &'static str = "https://packages.typst.org";

/// The only namespace whose packages are fetched on demand.
pub const FETCHABLE_NAMESPACE: &'static str = "preview";

/// `major.minor.patch` in decimal.
pub open spec fn version_text(v: PackageVersion) -> Seq<char> {
    decimal(v.major as nat) + seq!['.'] + decimal(v.minor as nat) + seq!['.'] + decimal(v.patch as nat)
}

/// Where a package lives below a data or cache directory:
/// `typst/packages/<namespace>/<name>/<version>`.
pub open spec fn subdir_text(spec: PackageSpec) -> Seq<char> {
    "typst/packages/"@ + spec.namespace@ + seq!['/'] + spec.name@ + seq!['/'] + version_text(spec.version)
}

/// The archive of a package: `<host>/preview/<name>-<version>.tar.gz`.
pub open spec fn url_text(spec: PackageSpec) -> Seq<char> {
    HOST@ + "/preview/"@ + spec.name@ + seq!['-'] + version_text(spec.version) + ".tar.gz"@
}

/// Writes a version as `major.minor.patch`.
pub fn version_string(v: PackageVersion) -> (r: String)
    ensures
        r@ == version_text(v),
{
    let r = concat(u32_text(v.major).as_str(), ".");
    let r = concat(r.as_str(), u32_text(v.minor).as_str());
    let r = concat(r.as_str(), ".");
    let r = concat(r.as_str(), u32_text(v.patch).as_str());
    proof {
        reveal_strlit(".");
    }
    r
}

/// The path of a package below a data or cache directory.
pub fn package_subdir(spec: &PackageSpec) -> (r: String)
    ensures
        r@ == subdir_text(*spec),
{
    let r = concat("typst/packages/", spec.namespace.as_str());
    let r = concat(r.as_str(), "/");
    let r = concat(r.as_str(), spec.name.as_str());
    let r = concat(r.as_str(), "/");
    let r = concat(r.as_str(), version_string(spec.version).as_str());
    proof {
        reveal_strlit("/");
    }
    r
}

/// The address of a package's archive in the repository.
pub fn package_url(spec: &PackageSpec) -> (r: String)
    ensures
        r@ == url_text(*spec),
{
    let r = concat(HOST, "/preview/");
    let r = concat(r.as_str(), spec.name.as_str());
    let r = concat(r.as_str(), "-");
    let r = concat(r.as_str(), version_string(spec.version).as_str());
    let r = concat(r.as_str(), ".tar.gz");
    proof {
        reveal_strlit("-");
    }
    r
}

/// What to do next to make a package available.
#[derive(Clone, Copy, Debug, PartialEq, Eq, Structural)]
pub enum PackageStep {
    /// Use the copy below the data directory.
    UseInstalled,
    /// Use the copy below the cache directory.
    UseCached,
    /// Download the archive and unpack it below the cache directory.
    Download,
    /// The package cannot be had.
    NotFound,
}

/// The package's namespace is the one fetched on demand.
pub open spec fn is_fetchable(spec: PackageSpec) -> bool {
    spec.namespace@ == FETCHABLE_NAMESPACE@
}

/// The step for what the directories hold. `installed`: the package's
/// directory exists below the data directory. `cached`: `None` when there is
/// no cache directory, else whether the package's directory exists below it.
pub open spec fn locate_spec(spec: PackageSpec, installed: bool, cached: Option<bool>) -> PackageStep {
    if installed {
        PackageStep::UseInstalled
    } else {
        match cached {
            Some(true) => PackageStep::UseCached,
            Some(false) => if is_fetchable(spec) {
                PackageStep::Download
            } else {
                PackageStep::NotFound
            },
            None => PackageStep::NotFound,
        }
    }
}

/// Decides where a package comes from: an installed copy wins, then a cached
/// copy; only the fetchable namespace is downloaded, and only into an
/// existing cache directory.
pub fn locate(spec: &PackageSpec, installed: bool, cached: Option<bool>) -> (r: PackageStep)
    ensures
        r == locate_spec(*spec, installed, cached),
{
    if installed {
        return PackageStep::UseInstalled;
    }
    match cached {
        Some(true) => PackageStep::UseCached,
        Some(false) => {
            let fetchable = String::from_str(FETCHABLE_NAMESPACE);
            if spec.namespace == fetchable {
                PackageStep::Download
            } else {
                PackageStep::NotFound
            }
        },
        None => PackageStep::NotFound,
    }
}

/// How a download failed.
#[derive(Clone, Copy, Debug, PartialEq, Eq, Structural)]
pub enum DownloadFailure {
    /// The repository answered with this non-success HTTP status.
    Status(u16),
    /// The request did not get an answer.
    Transport,
    /// The answer's body could not be read.
    Body,
    /// The archive could not be decompressed or unpacked.
    Unpack,
}

/// The error for a failed download of `spec`, with the failure's message: a
/// 404 means the package does not exist, an unpack failure a malformed
/// archive, anything else a network failure.
pub fn download_error(spec: &PackageSpec, failure: DownloadFailure, message: String) -> (r: PackageError)
    ensures
        failure == DownloadFailure::Status(404) ==> r == PackageError::NotFound(*spec),
        failure == DownloadFailure::Unpack ==> r == PackageError::MalformedArchive(Some(message)),
        failure != DownloadFailure::Status(404) && failure != DownloadFailure::Unpack ==> r
            == PackageError::NetworkFailed(Some(message)),
{
    match failure {
        DownloadFailure::Status(code) => {
            if code == 404 {
                PackageError::NotFound(spec.duplicate())
            } else {
                PackageError::NetworkFailed(Some(message))
            }
        },
        DownloadFailure::Unpack => PackageError::MalformedArchive(Some(message)),
        _ => PackageError::NetworkFailed(Some(message)),
    }
}

/// The partly unpacked directory must be removed after this failure.
pub fn needs_cleanup(failure: DownloadFailure) -> (r: bool)
    ensures
        r == (failure == DownloadFailure::Unpack),
{
    failure == DownloadFailure::Unpack
}

/// The outcome of a download that reported success: the package is in the
/// cache exactly when its directory now exists.
pub fn finish_download(spec: &PackageSpec, present: bool) -> (r: Result<PackageStep, PackageError>)
    ensures
        present ==> r == Ok::<PackageStep, PackageError>(PackageStep::UseCached),
        !present ==> r == Err::<PackageStep, PackageError>(PackageError::NotFound(*spec)),
{
    if present {
        Ok(PackageStep::UseCached)
    } else {
        Err(PackageError::NotFound(spec.duplicate()))
    }
}

/// A package whose directory is on disk, installed or cached (as after any
/// successful resolution), is never downloaded: resolving it again uses the
/// directory.
pub proof fn lemma_present_package_not_downloaded(spec: PackageSpec, installed: bool, cached: Option<bool>)
    requires
        installed || cached == Some(true),
    ensures
        locate_spec(spec, installed, cached) != PackageStep::Download,
        locate_spec(spec, installed, cached) != PackageStep::NotFound,
{
}

/// Where a resolution ends: the directory found, or the error. `present`
/// tells whether the package's directory exists after a download.
pub open spec fn resolution_spec(
    spec: PackageSpec,
    installed: bool,
    cached: Option<bool>,
    present: bool,
) -> Result<PackageStep, PackageError> {
    match locate_spec(spec, installed, cached) {
        PackageStep::UseInstalled => Ok(PackageStep::UseInstalled),
        PackageStep::UseCached => Ok(PackageStep::UseCached),
        PackageStep::Download => if present {
            Ok(PackageStep::UseCached)
        } else {
            Err(PackageError::NotFound(spec))
        },
        PackageStep::NotFound => Err(PackageError::NotFound(spec)),
    }
}

/// Resolving a package twice: when the first resolution succeeds and the
/// directory it settled on is still there, the second one uses it and does
/// not download.
pub proof fn lemma_second_resolution_uses_disk(
    spec: PackageSpec,
    installed1: bool,
    cached1: Option<bool>,
    present: bool,
    installed2: bool,
    cached2: Option<bool>,
)
    requires
        resolution_spec(spec, installed1, cached1, present) is Ok,
        resolution_spec(spec, installed1, cached1, present) == Ok::<PackageStep, PackageError>(
            PackageStep::UseInstalled,
        ) ==> installed2,
        resolution_spec(spec, installed1, cached1, present) == Ok::<PackageStep, PackageError>(
            PackageStep::UseCached,
        ) ==> installed2 || cached2 == Some(true),
    ensures
        locate_spec(spec, installed2, cached2) != PackageStep::Download,
        resolution_spec(spec, installed2, cached2, false) is Ok,
{
}

/// Outside the fetchable namespace a package that is not on disk is not
/// found, and nothing is downloaded.
pub proof fn lemma_other_namespace_never_downloads(spec: PackageSpec, installed: bool, cached: Option<bool>)
    requires
        !is_fetchable(spec),
    ensures
        locate_spec(spec, installed, cached) != PackageStep::Download,
        !installed && cached != Some(true) ==> locate_spec(spec, installed, cached)
            == PackageStep::NotFound,
{
}

/// `c` is a decimal digit.
pub open spec fn is_digit(c: char) -> bool {
    '0' <= c && c <= '9'
}

/// The value of a decimal digit.
pub open spec fn digit_value(c: char) -> nat {
    ((c as u32) - ('0' as u32)) as nat
}

/// The value of a run of decimal digits, most significant first.
pub open spec fn numeral_value(s: Seq<char>) -> nat
    decreases s.len(),
{
    if s.len() == 0 {
        0
    } else {
        numeral_value(s.drop_last()) * 10 + digit_value(s.last())
    }
}

/// The digits of an unsigned numeral: the text without one leading `+`.
pub open spec fn numeral_digits(s: Seq<char>) -> Seq<char> {
    if s.len() > 0 && s[0] == '+' {
        s.drop_first()
    } else {
        s
    }
}

/// `s` is an unsigned decimal numeral whose value fits in a `usize`.
pub open spec fn parses_as_usize(s: Seq<char>) -> bool {
    let d = numeral_digits(s);
    &&& d.len() > 0
    &&& forall|i: int| 0 <= i < d.len() ==> is_digit(#[trigger] d[i])
    &&& numeral_value(d) <= usize::MAX
}

/// A prefix of digits is worth no more than the whole run.
pub proof fn lemma_numeral_prefix(s: Seq<char>, k: int)
    requires
        0 <= k <= s.len(),
        forall|i: int| 0 <= i < s.len() ==> is_digit(#[trigger] s[i]),
    ensures
        numeral_value(s.subrange(0, k)) <= numeral_value(s),
    decreases s.len() - k,
{
    if k < s.len() {
        lemma_numeral_prefix(s, k + 1);
        let p = s.subrange(0, k + 1);
        assert(p.drop_last() =~= s.subrange(0, k));
    } else {
        assert(s.subrange(0, k) =~= s);
    }
}

/// Reads an unsigned decimal numeral (an optional `+`, then digits) that
/// fits in a `usize`.
pub fn parse_usize(text: &str) -> (r: Option<usize>)
    ensures
        r is Some <==> parses_as_usize(text@),
        r is Some ==> r->0 == numeral_value(numeral_digits(text@)),
{
    let n = text.unicode_len();
    let start: usize = if n > 0 && text.get_char(0) == '+' { 1 } else { 0 };
    let ghost d = numeral_digits(text@);
    assert(d =~= text@.subrange(start as int, n as int));
    if start >= n {
        return None;
    }
    let mut value: usize = 0;
    let mut k: usize = start;
    while k < n
        invariant
            start <= k <= n,
            n == text@.len(),
            d =~= text@.subrange(start as int, n as int),
            d == numeral_digits(text@),
            forall|i: int| 0 <= i < k - start ==> is_digit(#[trigger] d[i]),
            value == numeral_value(d.subrange(0, k - start)),
        decreases n - k,
    {
        let c = text.get_char(k);
        let ghost j = k - start;
        assert(c == d[j as int]);
        if c < '0' || c > '9' {
            assert(!is_digit(d[j as int]));
            return None;
        }
        let digit = (c as u32 - '0' as u32) as usize;
        assert(digit == digit_value(c));
        assert(d.subrange(0, j + 1).drop_last() =~= d.subrange(0, j as int));
        if value > (usize::MAX - digit) / 10 {
            proof {
                assert(value * 10 + digit > usize::MAX) by (nonlinear_arith)
                    requires
                        value > (usize::MAX - digit) / 10,
                        digit <= 9,
                ;
                let p = d.subrange(0, j + 1);
                assert(p.last() == d[j as int]);
                assert(numeral_value(p) == numeral_value(p.drop_last()) * 10 + digit_value(p.last()));
                if forall|i: int| 0 <= i < d.len() ==> is_digit(#[trigger] d[i]) {
                    lemma_numeral_prefix(d, j + 1);
                }
            }
            return None;
        }
        assert(value * 10 + digit <= usize::MAX) by (nonlinear_arith)
            requires
                value <= (usize::MAX - digit) / 10,
                digit <= 9,
        ;
        value = value * 10 + digit;
        k = k + 1;
    }
    assert(d.subrange(0, (n - start) as int) =~= d);
    Some(value)
}

/// The buffer capacity to reserve for a body announced by a
/// `Content-Length` header: its value when it is a numeral that fits, else 0.
pub fn content_length_hint(header: Option<&str>) -> (r: usize)
    ensures
        header is None ==> r == 0,
        header is Some && parses_as_usize(header->0@) ==> r == numeral_value(numeral_digits(header->0@)),
        header is Some && !parses_as_usize(header->0@) ==> r == 0,
{
    match header {
        Some(text) => match parse_usize(text) {
            Some(v) => v,
            None => 0,
        },
        None => 0,
    }
}

} // verus!
