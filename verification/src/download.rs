//! Downloadable fonts: where they come from, how a download is named and
//! checked, and the lock file that records what was fetched.
//!
//! Fetching, unpacking and writing files is left to the caller; the
//! decisions around those steps are made here.
use vstd::prelude::*;

use crate::config::{decimal, decimal_s};
use crate::fonts::FontError;
use crate::text::{
    append, chars_of, concat, contains, contains_s, ends_with, ends_with_s, lemma_split_nonempty,
    owned, split, split_s, str_eq, string_of,
};

verus! {

broadcast use {vstd::seq_lib::group_seq_properties, crate::lemma_chars_deep_view};

/// Where a font can be downloaded from.
#[derive(Debug)]
pub enum FontSource {
    GitHub { repo: String, tag: Option<String> },
    GoogleFonts,
    Url(String),
}

/// The mathematical content of a [`FontSource`].
pub enum SourceView {
    GitHub { repo: Seq<char>, tag: Option<Seq<char>> },
    GoogleFonts,
    Url(Seq<char>),
}

impl View for FontSource {
    type V = SourceView;

    open spec fn view(&self) -> SourceView {
        match self {
            FontSource::GitHub { repo, tag } => SourceView::GitHub {
                repo: repo@,
                tag: match tag {
                    Some(t) => Some(t@),
                    None => None,
                },
            },
            FontSource::GoogleFonts => SourceView::GoogleFonts,
            FontSource::Url(u) => SourceView::Url(u@),
        }
    }
}

/// A font known to be downloadable, with its source and license.
#[derive(Debug)]
pub struct FontSourceInfo {
    pub name: String,
    pub source: FontSource,
    pub license: String,
}

/// The mathematical content of a [`FontSourceInfo`].
pub struct SourceInfoView {
    pub name: Seq<char>,
    pub source: SourceView,
    pub license: Seq<char>,
}

impl View for FontSourceInfo {
    type V = SourceInfoView;

    open spec fn view(&self) -> SourceInfoView {
        SourceInfoView { name: self.name@, source: self.source@, license: self.license@ }
    }
}

impl DeepView for FontSourceInfo {
    type V = SourceInfoView;

    open spec fn deep_view(&self) -> SourceInfoView {
        self@
    }
}

/// A known font on GitHub (latest release) under the OFL.
pub open spec fn github_font(name: Seq<char>, repo: Seq<char>) -> SourceInfoView {
    SourceInfoView { name, source: SourceView::GitHub { repo, tag: None }, license: "OFL-1.1"@ }
}

/// A known font on Google Fonts.
pub open spec fn google_font(name: Seq<char>, license: Seq<char>) -> SourceInfoView {
    SourceInfoView { name, source: SourceView::GoogleFonts, license }
}

/// The fonts known to be downloadable, in order.
pub open spec fn known_fonts() -> Seq<SourceInfoView> {
    seq![
        github_font("JetBrains Mono"@, "JetBrains/JetBrainsMono"@),
        github_font("Fira Code"@, "tonsky/FiraCode"@),
        github_font("Maple Mono"@, "subframe7536/maple-font"@),
        github_font("IBM Plex Mono"@, "IBM/plex"@),
        github_font("Source Code Pro"@, "adobe-fonts/source-code-pro"@),
        github_font("Monaspace"@, "githubnext/monaspace"@),
        google_font("Source Serif Pro"@, "OFL-1.1"@),
        google_font("Source Serif 4"@, "OFL-1.1"@),
        google_font("Roboto Mono"@, "Apache-2.0"@),
    ]
}

fn github(name: &str, repo: &str) -> (r: FontSourceInfo)
    ensures
        r@ == github_font(name@, repo@),
{
    FontSourceInfo {
        name: owned(name),
        source: FontSource::GitHub { repo: owned(repo), tag: None },
        license: owned("OFL-1.1"),
    }
}

fn google(name: &str, license: &str) -> (r: FontSourceInfo)
    ensures
        r@ == google_font(name@, license@),
{
    FontSourceInfo { name: owned(name), source: FontSource::GoogleFonts, license: owned(license) }
}

/// `s` with each space replaced by `with`.
pub open spec fn replace_spaces(s: Seq<char>, with: Seq<char>) -> Seq<char>
    decreases s.len(),
{
    if s.len() == 0 {
        s
    } else {
        replace_spaces(s.drop_last(), with) + if s.last() == ' ' {
            with
        } else {
            seq![s.last()]
        }
    }
}

/// `s` with each space replaced by `with`.
pub fn replace_space(s: &[char], with: &[char]) -> (r: Vec<char>)
    ensures
        r@ == replace_spaces(s@, with@),
{
    let mut r: Vec<char> = Vec::new();
    let mut i: usize = 0;
    assert(s@.take(0) =~= Seq::<char>::empty());
    while i < s.len()
        invariant
            i <= s@.len(),
            r@ == replace_spaces(s@.take(i as int), with@),
        decreases s.len() - i,
    {
        assert(s@.take(i + 1).drop_last() =~= s@.take(i as int));
        if s[i] == ' ' {
            append(&mut r, with);
        } else {
            r.push(s[i]);
        }
        i = i + 1;
    }
    assert(s@.take(s@.len() as int) =~= s@);
    r
}

/// The address a font is downloaded from: the given URL; a GitHub
/// release asset named after the family without spaces (from the `latest`
/// release unless a tag is given); or the Google Fonts download of the
/// family, spaces written as `+`.
pub open spec fn download_url_s(family: Seq<char>, source: SourceView) -> Seq<char> {
    match source {
        SourceView::Url(u) => u,
        SourceView::GitHub { repo, tag } => "https://github.com/"@ + repo + "/releases/download/"@ + (
        match tag {
            Some(t) => t,
            None => "latest"@,
        }) + "/"@ + replace_spaces(family, Seq::empty()) + ".zip"@,
        SourceView::GoogleFonts => "https://fonts.google.com/download?family="@ + replace_spaces(
            family,
            "+"@,
        ),
    }
}

/// What the lock file records as a font's version: the GitHub tag (or
/// `latest`), or `unknown` for other sources.
pub open spec fn lock_version_s(source: SourceView) -> Seq<char> {
    match source {
        SourceView::GitHub { tag, .. } => match tag {
            Some(t) => t,
            None => "latest"@,
        },
        _ => "unknown"@,
    }
}

/// One record of the lock file.
#[derive(Debug)]
pub struct LockEntry {
    pub family: String,
    pub version: String,
    pub sha256: String,
    pub path: String,
    pub downloaded_at: String,
}

/// The mathematical content of a [`LockEntry`].
pub struct LockEntryView {
    pub family: Seq<char>,
    pub version: Seq<char>,
    pub sha256: Seq<char>,
    pub path: Seq<char>,
    pub downloaded_at: Seq<char>,
}

impl View for LockEntry {
    type V = LockEntryView;

    open spec fn view(&self) -> LockEntryView {
        LockEntryView {
            family: self.family@,
            version: self.version@,
            sha256: self.sha256@,
            path: self.path@,
            downloaded_at: self.downloaded_at@,
        }
    }
}

impl DeepView for LockEntry {
    type V = LockEntryView;

    open spec fn deep_view(&self) -> LockEntryView {
        self@
    }
}

impl LockEntry {
    /// A copy of this record.
    pub fn copy(&self) -> (r: LockEntry)
        ensures
            r@ == self@,
    {
        LockEntry {
            family: self.family.clone(),
            version: self.version.clone(),
            sha256: self.sha256.clone(),
            path: self.path.clone(),
            downloaded_at: self.downloaded_at.clone(),
        }
    }
}

/// One item of the lock file as read: each field when present as a string.
#[derive(Debug)]
pub struct LockItem {
    pub family: Option<String>,
    pub version: Option<String>,
    pub sha256: Option<String>,
    pub path: Option<String>,
    pub downloaded_at: Option<String>,
}

/// The mathematical content of a [`LockItem`].
pub struct LockItemView {
    pub family: Option<Seq<char>>,
    pub version: Option<Seq<char>>,
    pub sha256: Option<Seq<char>>,
    pub path: Option<Seq<char>>,
    pub downloaded_at: Option<Seq<char>>,
}

/// The view of an optional string.
pub open spec fn opt_str(o: Option<String>) -> Option<Seq<char>> {
    match o {
        Some(s) => Some(s@),
        None => None,
    }
}

impl View for LockItem {
    type V = LockItemView;

    open spec fn view(&self) -> LockItemView {
        LockItemView {
            family: opt_str(self.family),
            version: opt_str(self.version),
            sha256: opt_str(self.sha256),
            path: opt_str(self.path),
            downloaded_at: opt_str(self.downloaded_at),
        }
    }
}

impl DeepView for LockItem {
    type V = LockItemView;

    open spec fn deep_view(&self) -> LockItemView {
        self@
    }
}

/// The record an item gives, when it has every field.
pub open spec fn lock_item_entry(it: LockItemView) -> Option<LockEntryView> {
    match (it.family, it.version, it.sha256, it.path, it.downloaded_at) {
        (Some(f), Some(v), Some(s), Some(p), Some(d)) => Some(
            LockEntryView { family: f, version: v, sha256: s, path: p, downloaded_at: d },
        ),
        _ => None,
    }
}

/// The records of the lock file's items, skipping incomplete ones.
pub open spec fn lock_entries_s(items: Seq<LockItemView>) -> Seq<LockEntryView>
    decreases items.len(),
{
    if items.len() == 0 {
        Seq::empty()
    } else {
        let prev = lock_entries_s(items.drop_last());
        match lock_item_entry(items.last()) {
            Some(e) => prev.push(e),
            None => prev,
        }
    }
}

/// What the `toml` crate reads from the lock file text `text` (see
/// [`parse_lock_items`]): its items, or the message of the parse error.
pub uninterp spec fn lock_items_s(text: Seq<char>) -> Result<Seq<LockItemView>, Seq<char>>;

/// `toml::from_str` of `text` into a `toml::Table`, then, for each value of
/// the array under the key `entry` (none when that key is absent or not an
/// array), its string fields `family`, `version`, `sha256`, `path` and
/// `downloaded_at` (each absent when missing, not a string, or the item is
/// not a table), through `Table::get`, `Value::as_array`, `Value::as_table`
/// and `Value::as_str`.  The contract claims that the items, or the message
/// of the parse error as a lock file error, are [`lock_items_s`] of `text`
/// and depend on it alone; TOML itself is not stated.
#[verifier::external_body]
fn parse_lock_items(text: &str) -> (r: Result<Vec<LockItem>, FontError>)
    ensures
        match r {
            Ok(items) => lock_items_s(text@) == Ok::<Seq<LockItemView>, Seq<char>>(items.deep_view()),
            Err(FontError::Lockfile(m)) => lock_items_s(text@) == Err::<Seq<LockItemView>, Seq<char>>(m@),
            Err(_) => false,
        },
{
    let table: toml::Table = toml::from_str(text).map_err(|e| FontError::Lockfile(e.to_string()))?;
    let s = |t: Option<&toml::Table>, k: &str| Some(t?.get(k)?.as_str()?.to_string());
    let items = table.get("entry").and_then(|v| v.as_array()).map(|a| a.iter().map(|v| v.as_table()));
    Ok(items.map(|it| it.map(|t| LockItem {
        family: s(t, "family"), version: s(t, "version"), sha256: s(t, "sha256"),
        path: s(t, "path"), downloaded_at: s(t, "downloaded_at"),
    }).collect()).unwrap_or_default())
}

/// The first record with the checksum `sha`.
pub open spec fn find_checksum_s(entries: Seq<LockEntryView>, sha: Seq<char>) -> Option<LockEntryView>
    decreases entries.len(),
{
    if entries.len() == 0 {
        None
    } else if entries[0].sha256 == sha {
        Some(entries[0])
    } else {
        find_checksum_s(entries.drop_first(), sha)
    }
}

/// The lowercase hexadecimal digit `d`.
pub open spec fn hex_digit(d: int) -> char {
    seq!['0', '1', '2', '3', '4', '5', '6', '7', '8', '9', 'a', 'b', 'c', 'd', 'e', 'f'][d]
}

/// Bytes in lowercase hexadecimal, two digits each, high digit first.
pub open spec fn hex_lower_s(bytes: Seq<u8>) -> Seq<char>
    decreases bytes.len(),
{
    if bytes.len() == 0 {
        Seq::empty()
    } else {
        hex_lower_s(bytes.drop_last()) + seq![
            hex_digit(bytes.last() as int / 16),
            hex_digit(bytes.last() as int % 16),
        ]
    }
}

/// What `Sha256::digest` of the `sha2` crate returns for `data`.
pub uninterp spec fn sha256_digest(data: Seq<u8>) -> Seq<u8>;

/// `Sha256::digest` of the `sha2` crate (through its `Digest` trait): the
/// SHA-256 hash of `data`; the contract claims that it is 32 bytes and is
/// [`sha256_digest`] of `data`, depending on `data` alone (the hash function
/// itself is not stated).
#[verifier::external_body]
fn sha256(data: &[u8]) -> (r: Vec<u8>)
    ensures
        r@ == sha256_digest(data@),
        r@.len() == 32,
{
    <sha2::Sha256 as sha2::Digest>::digest(data).to_vec()
}

/// `bytes` in lowercase hexadecimal.
pub fn hex_lower(bytes: &[u8]) -> (r: String)
    ensures
        r@ == hex_lower_s(bytes@),
{
    let digits = vec!['0', '1', '2', '3', '4', '5', '6', '7', '8', '9', 'a', 'b', 'c', 'd', 'e', 'f'];
    assert(digits@ =~= seq!['0', '1', '2', '3', '4', '5', '6', '7', '8', '9', 'a', 'b', 'c', 'd', 'e', 'f']);
    let mut v: Vec<char> = Vec::new();
    let mut i: usize = 0;
    assert(bytes@.take(0) =~= Seq::<u8>::empty());
    while i < bytes.len()
        invariant
            digits@ == seq!['0', '1', '2', '3', '4', '5', '6', '7', '8', '9', 'a', 'b', 'c', 'd', 'e', 'f'],
            i <= bytes@.len(),
            v@ == hex_lower_s(bytes@.take(i as int)),
        decreases bytes.len() - i,
    {
        assert(bytes@.take(i + 1).drop_last() =~= bytes@.take(i as int));
        let b = bytes[i];
        let hi = digits[(b / 16) as usize];
        let lo = digits[(b % 16) as usize];
        let ghost prev = v@;
        v.push(hi);
        v.push(lo);
        assert(v@ =~= prev + seq![hi, lo]);
        i = i + 1;
    }
    assert(bytes@.take(bytes@.len() as int) =~= bytes@);
    string_of(v.as_slice())
}

/// The SHA-256 checksum of `data` as lowercase hexadecimal.
pub fn sha256_hex(data: &[u8]) -> (r: String)
    ensures
        r@ == hex_lower_s(sha256_digest(data@)),
{
    let d = sha256(data);
    hex_lower(d.as_slice())
}

/// One member of a zip archive as read: its path inside the archive, and
/// its contents or the message of the error that reading them gave.
#[derive(Debug)]
pub struct ZipMember {
    pub name: String,
    pub data: Result<Vec<u8>, String>,
}

/// The mathematical content of a [`ZipMember`].
pub struct ZipMemberView {
    pub name: Seq<char>,
    pub data: Result<Seq<u8>, Seq<char>>,
}

impl View for ZipMember {
    type V = ZipMemberView;

    open spec fn view(&self) -> ZipMemberView {
        ZipMemberView {
            name: self.name@,
            data: match self.data {
                Ok(b) => Ok(b@),
                Err(m) => Err(m@),
            },
        }
    }
}

impl DeepView for ZipMember {
    type V = ZipMemberView;

    open spec fn deep_view(&self) -> ZipMemberView {
        self@
    }
}

/// The members of a zip archive as read, in order, up to the first one that
/// could not be opened; `stopped` holds that one's error message.
#[derive(Debug)]
pub struct ZipListing {
    pub members: Vec<ZipMember>,
    pub stopped: Option<String>,
}

/// The mathematical content of a [`ZipListing`].
pub struct ZipListingView {
    pub members: Seq<ZipMemberView>,
    pub stopped: Option<Seq<char>>,
}

impl View for ZipListing {
    type V = ZipListingView;

    open spec fn view(&self) -> ZipListingView {
        ZipListingView {
            members: self.members.deep_view(),
            stopped: match self.stopped {
                Some(m) => Some(m@),
                None => None,
            },
        }
    }
}

/// What the `zip` crate reads from the archive `data` (see [`read_zip`]):
/// the listing, or the message of the error that opening the archive gave.
pub uninterp spec fn zip_listing_s(data: Seq<u8>) -> Result<ZipListingView, Seq<char>>;

/// `zip::ZipArchive::new` on `data`, then `by_index` for each member in
/// order and `read_to_end` of each member opened, from the `zip` crate.
/// The contract claims only that the result depends on `data` alone and is
/// [`zip_listing_s`] of it: the members' names (`ZipFile::name`) and
/// contents or read errors, up to the first member that `by_index` could
/// not open, whose error message ends the listing.  The zip format itself
/// is not stated.
#[verifier::external_body]
fn read_zip(data: &[u8]) -> (r: Result<ZipListing, String>)
    ensures
        match r {
            Ok(l) => zip_listing_s(data@) == Ok::<ZipListingView, Seq<char>>(l@),
            Err(m) => zip_listing_s(data@) == Err::<ZipListingView, Seq<char>>(m@),
        },
{
    let mut archive = zip::ZipArchive::new(std::io::Cursor::new(data)).map_err(|e| e.to_string())?;
    let mut members = Vec::new();
    for i in 0..archive.len() {
        let mut file = match archive.by_index(i) {
            Ok(f) => f,
            Err(e) => return Ok(ZipListing { members, stopped: Some(e.to_string()) }),
        };
        let mut buf = Vec::new();
        let data = std::io::Read::read_to_end(&mut file, &mut buf).map(|_| buf).map_err(|e| e.to_string());
        members.push(ZipMember { name: file.name().to_string(), data });
    }
    Ok(ZipListing { members, stopped: None })
}

/// Whether a file name is that of a font file worth keeping.
pub open spec fn is_font_name(name: Seq<char>) -> bool {
    ends_with_s(name, ".ttf"@) || ends_with_s(name, ".otf"@) || ends_with_s(name, ".ttc"@)
}

/// The last part of a `/`-separated path.
pub open spec fn base_name_s(path: Seq<char>) -> Seq<char> {
    split_s(path, '/').last()
}

/// The font files among `members`, in order, each named by the last part
/// of its path; the first font file whose contents could not be read ends
/// it with that read error's message.
pub open spec fn archive_fonts_s(members: Seq<ZipMemberView>) -> Result<Seq<(Seq<char>, Seq<u8>)>, Seq<char>>
    decreases members.len(),
{
    if members.len() == 0 {
        Ok(Seq::empty())
    } else {
        match archive_fonts_s(members.drop_last()) {
            Err(m) => Err(m),
            Ok(prev) => {
                let m = members.last();
                if is_font_name(m.name) {
                    match m.data {
                        Ok(b) => Ok(prev.push((base_name_s(m.name), b))),
                        Err(e) => Err(e),
                    }
                } else {
                    Ok(prev)
                }
            },
        }
    }
}

/// The views of named files.
pub open spec fn files_view(v: Seq<(String, Vec<u8>)>) -> Seq<(Seq<char>, Seq<u8>)> {
    v.map_values(|f: (String, Vec<u8>)| (f.0@, f.1@))
}

/// What unpacking an archive read as `listing` gives: an archive that could
/// not be opened, or a member that could not be, fails discovery with the
/// message; a font file that could not be read is an I/O error; otherwise
/// the font files of the archive, in order.
pub open spec fn archive_outcome(
    listing: Result<ZipListingView, Seq<char>>,
    r: Result<Vec<(String, Vec<u8>)>, FontError>,
) -> bool {
    match listing {
        Err(m) => r matches Err(FontError::DiscoveryFailed(e)) && e@ == "failed to read zip archive: "@ + m,
        Ok(l) => match archive_fonts_s(l.members) {
            Err(m) => r matches Err(FontError::Io(e)) && e@ == m,
            Ok(fs) => match l.stopped {
                Some(m) => r matches Err(FontError::DiscoveryFailed(e)) && e@
                    == "failed to read zip entry: "@ + m,
                None => r matches Ok(v) && files_view(v@) == fs,
            },
        },
    }
}

/// The last part of the `/`-separated path `path`.
pub fn base_name(path: &str) -> (r: String)
    ensures
        r@ == base_name_s(path@),
{
    let parts = split(chars_of(path).as_slice(), '/');
    proof {
        lemma_split_nonempty(path@, '/');
    }
    let n = parts.len();
    assert(parts[n - 1]@ == parts.deep_view()[n - 1]);
    string_of(parts[n - 1].as_slice())
}

/// The font files of an archive read as `listing`: see [`archive_outcome`].
pub fn fonts_from_listing(listing: Result<ZipListing, String>) -> (r: Result<Vec<(String, Vec<u8>)>, FontError>)
    ensures
        archive_outcome(
            match listing {
                Ok(l) => Ok::<ZipListingView, Seq<char>>(l@),
                Err(m) => Err::<ZipListingView, Seq<char>>(m@),
            },
            r,
        ),
{
    let l = match listing {
        Ok(l) => l,
        Err(m) => {
            return Err(FontError::DiscoveryFailed(concat("failed to read zip archive: ", m.as_str())));
        },
    };
    let ghost lv = l@;
    assert(listing matches Ok(x) && x@ == lv);
    let ghost mv = l.members.deep_view();
    let stopped = l.stopped;
    let mut out: Vec<(String, Vec<u8>)> = Vec::new();
    assert(mv.take(0) =~= Seq::<ZipMemberView>::empty());
    assert(files_view(out@) =~= Seq::<(Seq<char>, Seq<u8>)>::empty());
    for m in iter: l.members.into_iter()
        invariant
            iter.seq() == l.members@,
            mv == l.members.deep_view(),
            lv.members == mv,
            listing matches Ok(x) && x@ == lv,
            archive_fonts_s(mv.take(iter.index() as int)) == Ok::<Seq<(Seq<char>, Seq<u8>)>, Seq<char>>(
                files_view(out@),
            ),
    {
        let ghost k = iter.index() as int;
        assert(mv.take(k + 1).drop_last() =~= mv.take(k));
        assert(m@ == mv[k]);
        let ghost prev = files_view(out@);
        if FontDownloader::is_font_file(m.name.as_str()) {
            match m.data {
                Ok(b) => {
                    let name = base_name(m.name.as_str());
                    let ghost fv = (name@, b@);
                    out.push((name, b));
                    assert(files_view(out@) =~= prev.push(fv));
                },
                Err(e) => {
                    proof {
                        assert(archive_fonts_s(mv.take(k + 1)) == Err::<Seq<(Seq<char>, Seq<u8>)>, Seq<char>>(e@));
                        lemma_archive_fonts_err(mv, k + 1);
                        assert(archive_fonts_s(lv.members) == Err::<Seq<(Seq<char>, Seq<u8>)>, Seq<char>>(e@));
                    }
                    return Err(FontError::Io(e));
                },
            }
        }
    }
    assert(mv.take(mv.len() as int) =~= mv);
    match stopped {
        Some(m) => Err(FontError::DiscoveryFailed(concat("failed to read zip entry: ", m.as_str()))),
        None => Ok(out),
    }
}

/// Once a prefix of the members has failed, every longer prefix fails the
/// same way.
proof fn lemma_archive_fonts_err(members: Seq<ZipMemberView>, k: int)
    requires
        0 <= k <= members.len(),
        archive_fonts_s(members.take(k)) is Err,
    ensures
        archive_fonts_s(members) == archive_fonts_s(members.take(k)),
    decreases members.len() - k,
{
    if k < members.len() {
        assert(members.take(k + 1).drop_last() =~= members.take(k));
        lemma_archive_fonts_err(members, k + 1);
    } else {
        assert(members.take(k) =~= members);
    }
}

/// The font files of the zip archive `data`, each named by the last part of
/// its path in the archive, in archive order: see [`archive_outcome`].
pub fn font_files_in_archive(data: &[u8]) -> (r: Result<Vec<(String, Vec<u8>)>, FontError>)
    ensures
        archive_outcome(zip_listing_s(data@), r),
{
    fonts_from_listing(read_zip(data))
}

/// Downloads fonts into a cache directory and records them in a lock file.
pub struct FontDownloader {
    cache_dir: String,
    lock_path: String,
}

impl FontDownloader {
    /// A downloader using the cache directory `cache_dir` and the lock file
    /// at `lock_path`.
    pub fn with_paths(cache_dir: String, lock_path: String) -> (r: Self)
        ensures
            r.cache_dir_view() == cache_dir@,
            r.lock_path_view() == lock_path@,
    {
        FontDownloader { cache_dir, lock_path }
    }

    /// The cache directory.
    pub closed spec fn cache_dir_view(&self) -> Seq<char> {
        self.cache_dir@
    }

    /// The cache directory.
    pub fn cache_dir(&self) -> (r: &String)
        ensures
            r@ == self.cache_dir_view(),
    {
        &self.cache_dir
    }

    /// The lock file.
    pub closed spec fn lock_path_view(&self) -> Seq<char> {
        self.lock_path@
    }

    /// The lock file.
    pub fn lock_path(&self) -> (r: &String)
        ensures
            r@ == self.lock_path_view(),
    {
        &self.lock_path
    }

    /// The fonts known to be downloadable.
    pub fn list_available_sources() -> (r: Vec<FontSourceInfo>)
        ensures
            r.deep_view() == known_fonts(),
    {
        let r = vec![
            github("JetBrains Mono", "JetBrains/JetBrainsMono"),
            github("Fira Code", "tonsky/FiraCode"),
            github("Maple Mono", "subframe7536/maple-font"),
            github("IBM Plex Mono", "IBM/plex"),
            github("Source Code Pro", "adobe-fonts/source-code-pro"),
            github("Monaspace", "githubnext/monaspace"),
            google("Source Serif Pro", "OFL-1.1"),
            google("Source Serif 4", "OFL-1.1"),
            google("Roboto Mono", "Apache-2.0"),
        ];
        assert(r.deep_view() =~= known_fonts());
        r
    }

    /// Whether `data` has the SHA-256 checksum `expected` (lowercase
    /// hexadecimal).
    pub fn verify_checksum(data: &[u8], expected: &str) -> (r: Result<bool, FontError>)
        ensures
            r == Ok::<bool, FontError>(hex_lower_s(sha256_digest(data@)) == expected@),
    {
        let actual = sha256_hex(data);
        Ok(str_eq(actual.as_str(), expected))
    }

    /// The address to download `family` from `source`.
    pub fn download_url(family: &str, source: &FontSource) -> (r: String)
        ensures
            r@ == download_url_s(family@, source@),
    {
        let f = chars_of(family);
        match source {
            FontSource::Url(u) => u.clone(),
            FontSource::GitHub { repo, tag } => {
                let mut v = chars_of("https://github.com/");
                append(&mut v, chars_of(repo.as_str()).as_slice());
                append(&mut v, chars_of("/releases/download/").as_slice());
                match tag {
                    Some(t) => append(&mut v, chars_of(t.as_str()).as_slice()),
                    None => append(&mut v, chars_of("latest").as_slice()),
                }
                append(&mut v, chars_of("/").as_slice());
                let empty: Vec<char> = Vec::new();
                assert(empty@ =~= Seq::<char>::empty());
                append(&mut v, replace_space(f.as_slice(), empty.as_slice()).as_slice());
                append(&mut v, chars_of(".zip").as_slice());
                string_of(v.as_slice())
            },
            FontSource::GoogleFonts => {
                let mut v = chars_of("https://fonts.google.com/download?family=");
                let plus = chars_of("+");
                append(&mut v, replace_space(f.as_slice(), plus.as_slice()).as_slice());
                string_of(v.as_slice())
            },
        }
    }

    /// Whether a download is a zip archive: by its address, or by a content
    /// type that mentions zip.
    pub fn is_zip_download(url: &str, content_type: Option<&str>) -> (r: bool)
        ensures
            r == (ends_with_s(url@, ".zip"@) || (content_type matches Some(ct) && contains_s(
                ct@,
                "zip"@,
            ))),
    {
        let u = chars_of(url);
        if ends_with(u.as_slice(), chars_of(".zip").as_slice()) {
            return true;
        }
        match content_type {
            Some(ct) => contains(chars_of(ct).as_slice(), chars_of("zip").as_slice()),
            None => false,
        }
    }

    /// The file name a single downloaded font is saved under: the family
    /// with spaces as underscores, with `.otf` when the address ends so and
    /// `.ttf` otherwise.
    pub fn single_file_name(family: &str, url: &str) -> (r: String)
        ensures
            r@ == replace_spaces(family@, "_"@) + "."@ + (if ends_with_s(url@, ".otf"@) {
                "otf"@
            } else {
                "ttf"@
            }),
    {
        let mut v = replace_space(chars_of(family).as_slice(), chars_of("_").as_slice());
        append(&mut v, chars_of(".").as_slice());
        if ends_with(chars_of(url).as_slice(), chars_of(".otf").as_slice()) {
            append(&mut v, chars_of("otf").as_slice());
        } else {
            append(&mut v, chars_of("ttf").as_slice());
        }
        string_of(v.as_slice())
    }

    /// Whether an archive member is a font file worth keeping.
    pub fn is_font_file(name: &str) -> (r: bool)
        ensures
            r == is_font_name(name@),
    {
        let n = chars_of(name);
        ends_with(n.as_slice(), chars_of(".ttf").as_slice()) || ends_with(
            n.as_slice(),
            chars_of(".otf").as_slice(),
        ) || ends_with(n.as_slice(), chars_of(".ttc").as_slice())
    }

    /// What the lock file records as the version of a download from
    /// `source`.
    pub fn lock_version(source: &FontSource) -> (r: String)
        ensures
            r@ == lock_version_s(source@),
    {
        match source {
            FontSource::GitHub { tag, .. } => match tag {
                Some(t) => t.clone(),
                None => owned("latest"),
            },
            _ => owned("unknown"),
        }
    }

    /// The records of a read lock file, skipping incomplete items.
    pub fn lock_entries(items: Vec<LockItem>) -> (r: Vec<LockEntry>)
        ensures
            r.deep_view() == lock_entries_s(items.deep_view()),
    {
        let ghost iv = items.deep_view();
        let mut out: Vec<LockEntry> = Vec::new();
        assert(iv.take(0) =~= Seq::<LockItemView>::empty());
        assert(out.deep_view() =~= Seq::<LockEntryView>::empty());
        for it in iter: items.into_iter()
            invariant
                iter.seq() == items@,
                iv == items.deep_view(),
                out.deep_view() == lock_entries_s(iv.take(iter.index() as int)),
        {
            assert(iv.take(iter.index() + 1).drop_last() =~= iv.take(iter.index() as int));
            assert(it@ == iv[iter.index() as int]);
            let ghost prev = out.deep_view();
            match (it.family, it.version, it.sha256, it.path, it.downloaded_at) {
                (Some(f), Some(v), Some(s), Some(p), Some(d)) => {
                    let e = LockEntry { family: f, version: v, sha256: s, path: p, downloaded_at: d };
                    let ghost ev = e@;
                    out.push(e);
                    assert(out.deep_view() =~= prev.push(ev));
                },
                _ => {},
            }
        }
        assert(iv.take(iv.len() as int) =~= iv);
        out
    }

    /// The records of the lock file text `text`, skipping incomplete items;
    /// text that is not TOML is a lock file error with the parser's message.
    pub fn parse_lockfile(text: &str) -> (r: Result<Vec<LockEntry>, FontError>)
        ensures
            match lock_items_s(text@) {
                Err(m) => r matches Err(FontError::Lockfile(e)) && e@ == m,
                Ok(items) => r matches Ok(v) && v.deep_view() == lock_entries_s(items),
            },
    {
        let items = parse_lock_items(text)?;
        Ok(FontDownloader::lock_entries(items))
    }

    /// The first record with the checksum `sha256`.
    pub fn find_by_checksum(entries: &Vec<LockEntry>, sha256: &str) -> (r: Option<LockEntry>)
        ensures
            r matches Some(e) ==> find_checksum_s(entries.deep_view(), sha256@) == Some(e@),
            r is None ==> find_checksum_s(entries.deep_view(), sha256@) is None,
    {
        let ghost ev = entries.deep_view();
        let mut i: usize = 0;
        assert(ev.skip(0) =~= ev);
        while i < entries.len()
            invariant
                ev == entries.deep_view(),
                i <= ev.len(),
                find_checksum_s(ev, sha256@) == find_checksum_s(ev.skip(i as int), sha256@),
            decreases entries.len() - i,
        {
            assert(ev.skip(i as int)[0] == ev[i as int]);
            assert(ev.skip(i as int).drop_first() =~= ev.skip(i + 1));
            if str_eq(entries[i].sha256.as_str(), sha256) {
                return Some(entries[i].copy());
            }
            i = i + 1;
        }
        None
    }

    /// Where a finished download ends up, and the lock records to write.
    ///
    /// When the lock file already records the checksum, its recorded path
    /// is used and nothing is written; otherwise the download at `primary`
    /// is recorded with its version, checksum and time, and the extended
    /// records are returned for writing.  A lock file that could not be
    /// read is an error.
    pub fn record_download(
        lock: Result<Vec<LockEntry>, FontError>,
        family: &str,
        source: &FontSource,
        sha256: &str,
        primary: &str,
        timestamp: u64,
    ) -> (r: Result<(String, Option<Vec<LockEntry>>), FontError>)
        ensures
            lock matches Err(e) ==> r == Err::<(String, Option<Vec<LockEntry>>), FontError>(e),
            lock matches Ok(entries) ==> match find_checksum_s(entries.deep_view(), sha256@) {
                Some(e) => r matches Ok((p, None)) && p@ == e.path,
                None => r matches Ok((p, Some(v))) && p@ == primary@ && v.deep_view() == entries.deep_view().push(
                    LockEntryView {
                        family: family@,
                        version: lock_version_s(source@),
                        sha256: sha256@,
                        path: primary@,
                        downloaded_at: decimal_s(timestamp as nat),
                    },
                ),
            },
    {
        let mut entries = match lock {
            Ok(e) => e,
            Err(e) => {
                return Err(e);
            },
        };
        match FontDownloader::find_by_checksum(&entries, sha256) {
            Some(e) => Ok((e.path, None)),
            None => {
                let ghost prev = entries.deep_view();
                let e = LockEntry {
                    family: owned(family),
                    version: FontDownloader::lock_version(source),
                    sha256: owned(sha256),
                    path: owned(primary),
                    downloaded_at: string_of(decimal(timestamp).as_slice()),
                };
                let ghost ev = e@;
                entries.push(e);
                assert(entries.deep_view() =~= prev.push(ev));
                Ok((owned(primary), Some(entries)))
            },
        }
    }
}

} // verus!
