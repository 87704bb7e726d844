//! Discovering which font families are installed.
//!
//! Each platform lists its fonts with a different tool (`fc-list`,
//! `system_profiler`, a registry query through PowerShell).  The functions
//! here read those listings; running the tools is left to the caller, which
//! implements [`FontDiscovery`] on top of them.
use vstd::prelude::*;

use crate::names::{
    chars_of_all, dedup_names, dedup_s, dedup_sorted, sort_names, sorted_names, strictly_sorted_names,
    strings_of,
};
use crate::text::{
    append, chars_of, concat, contains, contains_s, eq_ignore_ascii_case, eq_ignore_ascii_case_s,
    ends_with, ends_with_s, find, find_s, lines, lines_s, lowercase_s, nonempty, owned,
    slice_range, split, split_s, starts_with, starts_with_s, str_eq, string_of, to_lowercase, trim,
    trim_s, words, words_s,
};

verus! {

broadcast use {vstd::seq_lib::group_seq_properties, crate::lemma_chars_deep_view};

/// Errors from font discovery.
#[derive(Debug)]
pub enum FontError {
    CommandFailed(String),
    ParseError,
    DiscoveryFailed(String),
    Io(String),
    Lockfile(String),
}

impl FontError {
    /// The message describing this error.
    pub fn to_string(&self) -> (r: String)
        ensures
            r@ == match self {
                FontError::CommandFailed(m) => "font command failed: "@ + m@,
                FontError::ParseError => "failed to parse font output"@,
                FontError::DiscoveryFailed(m) => "font discovery failed: "@ + m@,
                FontError::Io(m) => "io error: "@ + m@,
                FontError::Lockfile(m) => "lockfile error: "@ + m@,
            },
    {
        match self {
            FontError::CommandFailed(m) => concat("font command failed: ", m.as_str()),
            FontError::ParseError => owned("failed to parse font output"),
            FontError::DiscoveryFailed(m) => concat("font discovery failed: ", m.as_str()),
            FontError::Io(m) => concat("io error: ", m.as_str()),
            FontError::Lockfile(m) => concat("lockfile error: ", m.as_str()),
        }
    }
}

/// A source of installed font families.
pub trait FontDiscovery {
    /// Every installed family.
    fn list_families(&self) -> Result<Vec<String>, FontError>;

    /// Whether `answer` is an answer this discovery gives when asked
    /// whether the family `name` is installed.  A discovery that does not
    /// say may give any answer.
    open spec fn answers(&self, name: Seq<char>, answer: Result<bool, FontError>) -> bool {
        true
    }

    /// Whether the family `name` is installed.
    fn find_family(&self, name: &str) -> (r: Result<bool, FontError>)
        ensures
            self.answers(name@, r),
    ;

    /// The path of a font file of the family `name`, if one is known.
    fn font_path(&self, name: &str) -> Option<String>;
}

/// The three listing formats read here.
pub enum ListingFormat {
    /// `fc-list : family`: one font per line, its family names separated by
    /// commas, sometimes after a `file:` part.
    FcList,
    /// `system_profiler SPFontsDataType`: indented `Font:` and `Family:`
    /// entries.
    Profiler,
    /// The registry's font values, such as `Arial Bold (TrueType)`.
    PowerShell,
}

/// The family named by one comma-separated piece of an `fc-list` line: the
/// text after its first colon, or the whole piece, trimmed.
pub open spec fn fc_value(piece: Seq<char>) -> Seq<char> {
    let p = trim_s(piece);
    match find_s(p, seq![':']) {
        Some(k) => trim_s(trim_s(p.skip(k + 1))),
        None => trim_s(p),
    }
}

/// The names found in one line of a listing in format `kind`, in order.
pub open spec fn line_names(kind: ListingFormat, line: Seq<char>) -> Seq<Seq<char>> {
    let t = trim_s(line);
    match kind {
        ListingFormat::FcList => if t.len() == 0 {
            Seq::empty()
        } else {
            split_s(t, ',').map_values(|p: Seq<char>| fc_value(p)).filter(nonempty())
        },
        ListingFormat::Profiler => {
            let v = if starts_with_s(t, "Font:"@) {
                trim_s(t.skip(5))
            } else if starts_with_s(t, "Family:"@) {
                trim_s(t.skip(7))
            } else {
                Seq::empty()
            };
            if v.len() > 0 {
                seq![v]
            } else {
                Seq::empty()
            }
        },
        ListingFormat::PowerShell => if t.len() == 0 {
            Seq::empty()
        } else if words_s(t).len() > 0 {
            seq![words_s(t)[0]]
        } else {
            seq![t]
        },
    }
}

/// The names of each line of `ls`, one after another.
pub open spec fn names_of_lines(kind: ListingFormat, ls: Seq<Seq<char>>) -> Seq<Seq<char>>
    decreases ls.len(),
{
    if ls.len() == 0 {
        Seq::empty()
    } else {
        names_of_lines(kind, ls.drop_last()) + line_names(kind, ls.last())
    }
}

/// The names in a whole listing, line by line, repeats included.
pub open spec fn listing_names(kind: ListingFormat, output: Seq<char>) -> Seq<Seq<char>> {
    names_of_lines(kind, lines_s(output))
}

/// The family named by one piece of an `fc-list` line.
#[verifier::rlimit(60)]
fn fc_piece_value(piece: &Vec<char>) -> (r: Vec<char>)
    ensures
        r@ == fc_value(piece@),
{
    let p = trim(piece.as_slice());
    let ghost pv = p@;
    let colon = vec![':'];
    assert(colon@ =~= seq![':']);
    let found = find(p.as_slice(), colon.as_slice());
    match found {
        Some(k) => {
            assert(find_s(pv, seq![':']) == Some(k as int));
            assert(k + 1 <= pv.len());
            assert(pv.len() == p.len());
            let rest = slice_range(p.as_slice(), k + 1, p.len());
            assert(rest@ =~= pv.skip(k + 1));
            let once = trim(rest.as_slice());
            trim(once.as_slice())
        },
        None => {
            assert(find_s(pv, seq![':']) is None);
            trim(p.as_slice())
        },
    }
}

/// The names in one line of a listing.
fn names_in_line(kind: &ListingFormat, line: &Vec<char>) -> (r: Vec<Vec<char>>)
    ensures
        r.deep_view() == line_names(*kind, line@),
{
    let t = trim(line.as_slice());
    let mut out: Vec<Vec<char>> = Vec::new();
    match kind {
        ListingFormat::FcList => {
            if t.len() == 0 {
                assert(out.deep_view() =~= Seq::<Seq<char>>::empty());
                return out;
            }
            let pieces = split(t.as_slice(), ',');
            let ghost pv = pieces.deep_view();
            let ghost f = |p: Seq<char>| fc_value(p);
            let ghost keep = nonempty();
            let mut j: usize = 0;
            assert(pv.take(0).map_values(f).filter(keep) =~= Seq::<Seq<char>>::empty()) by {
                reveal(Seq::filter);
                assert(pv.take(0).map_values(f) =~= Seq::<Seq<char>>::empty());
            }
            while j < pieces.len()
                invariant
                    pv == pieces.deep_view(),
                    f == (|p: Seq<char>| fc_value(p)),
                    keep == nonempty(),
                    j <= pv.len(),
                    out.deep_view() == pv.take(j as int).map_values(f).filter(keep),
                decreases pieces.len() - j,
            {
                let ghost prev = out.deep_view();
                let ghost m = pv.take(j + 1).map_values(f);
                assert(m.drop_last() =~= pv.take(j as int).map_values(f));
                assert(m.last() == fc_value(pv[j as int]));
                assert(m.filter(keep) == if keep(m.last()) {
                    m.drop_last().filter(keep).push(m.last())
                } else {
                    m.drop_last().filter(keep)
                }) by {
                    reveal(Seq::filter);
                }
                let v = fc_piece_value(&pieces[j]);
                if v.len() > 0 {
                    out.push(v);
                    assert(out.deep_view() =~= prev.push(m.last()));
                }
                j = j + 1;
            }
            assert(pv.take(pv.len() as int) =~= pv);
            assert(pv.map_values(f) =~= split_s(t@, ',').map_values(|p: Seq<char>| fc_value(p)));
            out
        },
        ListingFormat::Profiler => {
            let font_tag = vec!['F', 'o', 'n', 't', ':'];
            let family_tag = vec!['F', 'a', 'm', 'i', 'l', 'y', ':'];
            proof {
                reveal_strlit("Font:");
                reveal_strlit("Family:");
                assert(font_tag@ =~= "Font:"@);
                assert(family_tag@ =~= "Family:"@);
            }
            let v = if starts_with(t.as_slice(), font_tag.as_slice()) {
                let rest = slice_range(t.as_slice(), 5, t.len());
                assert(rest@ =~= t@.skip(5));
                trim(rest.as_slice())
            } else if starts_with(t.as_slice(), family_tag.as_slice()) {
                let rest = slice_range(t.as_slice(), 7, t.len());
                assert(rest@ =~= t@.skip(7));
                trim(rest.as_slice())
            } else {
                Vec::new()
            };
            if v.len() > 0 {
                let ghost vv = v@;
                out.push(v);
                assert(out.deep_view() =~= seq![vv]);
            } else {
                assert(out.deep_view() =~= Seq::<Seq<char>>::empty());
            }
            out
        },
        ListingFormat::PowerShell => {
            if t.len() == 0 {
                assert(out.deep_view() =~= Seq::<Seq<char>>::empty());
                return out;
            }
            let ws = words(t.as_slice());
            let ghost tv = t@;
            if ws.len() > 0 {
                let ghost w0 = ws.deep_view()[0];
                out.push(crate::text::copy_chars(&ws[0]));
                assert(out.deep_view() =~= seq![w0]);
            } else {
                out.push(t);
                assert(out.deep_view() =~= seq![tv]);
            }
            out
        },
    }
}

/// The names in a listing, line by line, repeats included.
fn names_in_listing(kind: &ListingFormat, output: &str) -> (r: Vec<Vec<char>>)
    ensures
        r.deep_view() == listing_names(*kind, output@),
{
    let chars = chars_of(output);
    let ls = lines(chars.as_slice());
    let ghost lv = ls.deep_view();
    let mut out: Vec<Vec<char>> = Vec::new();
    let mut i: usize = 0;
    assert(lv.take(0) =~= Seq::<Seq<char>>::empty());
    assert(out.deep_view() =~= Seq::<Seq<char>>::empty());
    while i < ls.len()
        invariant
            lv == ls.deep_view(),
            i <= lv.len(),
            out.deep_view() == names_of_lines(*kind, lv.take(i as int)),
        decreases ls.len() - i,
    {
        assert(lv.take(i + 1).drop_last() =~= lv.take(i as int));
        let mut more = names_in_line(kind, &ls[i]);
        let ghost prev = out.deep_view();
        let ghost mv = more.deep_view();
        out.append(&mut more);
        assert(out.deep_view() =~= prev + mv);
        i = i + 1;
    }
    assert(lv.take(lv.len() as int) =~= lv);
    out
}

/// Font discovery through fontconfig's `fc-list` and `fc-match`.
pub struct FcListDiscovery;

impl FcListDiscovery {
    pub fn new() -> Self {
        FcListDiscovery
    }

    /// The family names in an `fc-list : family` listing, each once, in the
    /// order of their first appearance.
    pub fn parse_fc_list_families(output: &str) -> (r: Vec<String>)
        ensures
            r.deep_view() == dedup_s(listing_names(ListingFormat::FcList, output@)),
    {
        let all = names_in_listing(&ListingFormat::FcList, output);
        let unique = dedup_names(&all);
        strings_of(&unique)
    }

    /// The installed families given the `fc-list : family` listing: each
    /// family once, in code-point order.
    pub fn families_from_listing(output: &str) -> (r: Vec<String>)
        ensures
            sorted_names(r.deep_view()),
            r.deep_view().to_multiset() == dedup_s(
                listing_names(ListingFormat::FcList, output@),
            ).to_multiset(),
    {
        let all = names_in_listing(&ListingFormat::FcList, output);
        let unique = dedup_names(&all);
        let sorted = sort_names(&unique);
        strings_of(&sorted)
    }

    /// Whether the output of `fc-match name` names the family `name`.
    pub fn match_found(stdout: &str, name: &str) -> (r: bool)
        ensures
            r == (starts_with_s(trim_s(stdout@), name@) || contains_s(stdout@, name@)),
    {
        let s = chars_of(stdout);
        let n = chars_of(name);
        let t = trim(s.as_slice());
        starts_with(t.as_slice(), n.as_slice()) || contains(s.as_slice(), n.as_slice())
    }

    /// The font file named on the first line of an `fc-list family=...
    /// file` listing: the text before its first colon, trimmed, if any.
    pub fn path_from_listing(stdout: &str) -> (r: Option<String>)
        ensures
            r matches Some(p) ==> lines_s(stdout@).len() > 0 && p@ == trim_s(
                split_s(lines_s(stdout@)[0], ':')[0],
            ) && p@.len() > 0,
            r is None ==> lines_s(stdout@).len() == 0 || trim_s(
                split_s(lines_s(stdout@)[0], ':')[0],
            ).len() == 0,
    {
        let s = chars_of(stdout);
        let ls = lines(s.as_slice());
        if ls.len() == 0 {
            return None;
        }
        let pieces = split(ls[0].as_slice(), ':');
        proof {
            crate::text::lemma_split_nonempty(ls.deep_view()[0], ':');
        }
        let p = trim(pieces[0].as_slice());
        if p.len() == 0 {
            None
        } else {
            Some(string_of(p.as_slice()))
        }
    }
}

/// The family names in a `system_profiler SPFontsDataType` listing, in order.
pub fn parse_system_profiler_fonts(output: &str) -> (r: Vec<String>)
    ensures
        r.deep_view() == listing_names(ListingFormat::Profiler, output@),
{
    let all = names_in_listing(&ListingFormat::Profiler, output);
    strings_of(&all)
}

/// The font names in a registry listing: the first word of each non-blank
/// line.
pub fn parse_powershell_fonts(output: &str) -> (r: Vec<String>)
    ensures
        r.deep_view() == listing_names(ListingFormat::PowerShell, output@),
{
    let all = names_in_listing(&ListingFormat::PowerShell, output);
    strings_of(&all)
}

/// Font discovery through `system_profiler`, falling back to `fc-list`.
pub struct MacOsDiscovery;

impl MacOsDiscovery {
    pub fn new() -> Self {
        MacOsDiscovery
    }

    /// The installed families given a `system_profiler` listing, in
    /// code-point order.
    pub fn families_from_profile(output: &str) -> (r: Vec<String>)
        ensures
            sorted_names(r.deep_view()),
            r.deep_view().to_multiset() == listing_names(ListingFormat::Profiler, output@).to_multiset(),
    {
        let all = names_in_listing(&ListingFormat::Profiler, output);
        let sorted = sort_names(&all);
        strings_of(&sorted)
    }
}

/// Font discovery through the Windows registry and font directories.
pub struct WindowsDiscovery;

/// The stem of a font file name ending in `.ttf`, `.otf` or `.ttc`.
pub open spec fn font_stem_s(name: Seq<char>) -> Option<Seq<char>> {
    if ends_with_s(name, ".ttf"@) || ends_with_s(name, ".otf"@) || ends_with_s(name, ".ttc"@) {
        Some(name.take(name.len() - 4))
    } else {
        None
    }
}

/// Whether the family `candidate` answers a search for `name`: equal up to
/// ASCII case, or containing it once both are lower-cased.
pub open spec fn family_matches_s(candidate: Seq<char>, name: Seq<char>) -> bool {
    eq_ignore_ascii_case_s(candidate, name) || contains_s(lowercase_s(candidate), lowercase_s(name))
}

impl WindowsDiscovery {
    pub fn new() -> Self {
        WindowsDiscovery
    }

    /// The family of a font file, from its name, when it is a TrueType or
    /// OpenType file.
    pub fn font_file_stem(file_name: &str) -> (r: Option<String>)
        ensures
            r matches Some(s) ==> font_stem_s(file_name@) == Some(s@),
            r is None ==> font_stem_s(file_name@) is None,
    {
        let n = chars_of(file_name);
        let ttf = vec!['.', 't', 't', 'f'];
        let otf = vec!['.', 'o', 't', 'f'];
        let ttc = vec!['.', 't', 't', 'c'];
        proof {
            reveal_strlit(".ttf");
            reveal_strlit(".otf");
            reveal_strlit(".ttc");
            assert(ttf@ =~= ".ttf"@);
            assert(otf@ =~= ".otf"@);
            assert(ttc@ =~= ".ttc"@);
        }
        if ends_with(n.as_slice(), ttf.as_slice()) || ends_with(n.as_slice(), otf.as_slice())
            || ends_with(n.as_slice(), ttc.as_slice()) {
            let stem = slice_range(n.as_slice(), 0, n.len() - 4);
            assert(stem@ =~= n@.take(n@.len() - 4));
            Some(string_of(stem.as_slice()))
        } else {
            None
        }
    }

    /// Whether the font file `file_name` belongs to the family `name`.
    pub fn file_matches(file_name: &str, name: &str) -> (r: bool)
        ensures
            r == family_matches_s(
                match font_stem_s(file_name@) {
                    Some(s) => s,
                    None => file_name@,
                },
                name@,
            ),
    {
        match WindowsDiscovery::font_file_stem(file_name) {
            Some(stem) => family_matches(stem.as_str(), name),
            None => family_matches(file_name, name),
        }
    }

    /// A family list in code-point order with repeats removed.
    pub fn sorted_unique(families: &Vec<String>) -> (r: Vec<String>)
        ensures
            strictly_sorted_names(r.deep_view()),
            forall|x: Seq<char>| r.deep_view().contains(x) <==> families.deep_view().contains(x),
    {
        let all = chars_of_all(families);
        let sorted = sort_names(&all);
        proof {
            assert forall|x: Seq<char>| sorted.deep_view().contains(x) <==> all.deep_view().contains(x) by {
                sorted.deep_view().to_multiset_ensures();
                all.deep_view().to_multiset_ensures();
                assert(sorted.deep_view().to_multiset().count(x) == all.deep_view().to_multiset().count(x));
            }
        }
        let unique = dedup_sorted(&sorted);
        strings_of(&unique)
    }
}

/// Whether the family `candidate` answers a search for `name`.
pub fn family_matches(candidate: &str, name: &str) -> (r: bool)
    ensures
        r == family_matches_s(candidate@, name@),
{
    let c = chars_of(candidate);
    let n = chars_of(name);
    if eq_ignore_ascii_case(c.as_slice(), n.as_slice()) {
        return true;
    }
    let lc = to_lowercase(candidate);
    let ln = to_lowercase(name);
    let lcv = chars_of(lc.as_str());
    let lnv = chars_of(ln.as_str());
    contains(lcv.as_slice(), lnv.as_slice())
}

/// Whether any of `families` answers a search for `name`.
pub fn any_family_matches(families: &Vec<String>, name: &str) -> (r: bool)
    ensures
        r == exists|i: int|
            0 <= i < families@.len() && family_matches_s(#[trigger] families@[i]@, name@),
{
    let mut i: usize = 0;
    while i < families.len()
        invariant
            i <= families@.len(),
            forall|j: int| 0 <= j < i ==> !family_matches_s(#[trigger] families@[j]@, name@),
        decreases families.len() - i,
    {
        if family_matches(families[i].as_str(), name) {
            return true;
        }
        i = i + 1;
    }
    false
}

/// The way of finding installed fonts that an operating system calls for.
#[derive(Debug, Clone, Copy, PartialEq, Eq, Structural)]
pub enum DiscoveryKind {
    /// `fc-list` and `fc-match` (Linux).
    FcList,
    /// `system_profiler` (macOS).
    MacOs,
    /// The registry and the font folders (Windows).
    Windows,
    /// No known tool: nothing is installed.
    Fallback,
}

/// The discovery an operating system, named as Rust names it, calls for.
pub open spec fn discovery_kind(os: Seq<char>) -> DiscoveryKind {
    if os == "linux"@ {
        DiscoveryKind::FcList
    } else if os == "macos"@ {
        DiscoveryKind::MacOs
    } else if os == "windows"@ {
        DiscoveryKind::Windows
    } else {
        DiscoveryKind::Fallback
    }
}

/// The discovery to use on the operating system `os` (`"linux"`,
/// `"macos"`, `"windows"`, ...).
pub fn discovery_for_os(os: &str) -> (r: DiscoveryKind)
    ensures
        r == discovery_kind(os@),
{
    if str_eq(os, "linux") {
        DiscoveryKind::FcList
    } else if str_eq(os, "macos") {
        DiscoveryKind::MacOs
    } else if str_eq(os, "windows") {
        DiscoveryKind::Windows
    } else {
        DiscoveryKind::Fallback
    }
}

/// Discovery on a platform without a known font tool: nothing is installed.
pub struct FallbackDiscovery;

impl FallbackDiscovery {
    pub fn new() -> Self {
        FallbackDiscovery
    }
}

impl FontDiscovery for FallbackDiscovery {
    /// Every family is reported missing.
    open spec fn answers(&self, name: Seq<char>, answer: Result<bool, FontError>) -> bool {
        answer == Ok::<bool, FontError>(false)
    }

    fn list_families(&self) -> (r: Result<Vec<String>, FontError>)
        ensures
            r matches Ok(v) && v@.len() == 0,
    {
        Ok(Vec::new())
    }

    fn find_family(&self, name: &str) -> (r: Result<bool, FontError>)
        ensures
            r == Ok::<bool, FontError>(false),
    {
        Ok(false)
    }

    fn font_path(&self, name: &str) -> (r: Option<String>)
        ensures
            r is None,
    {
        None
    }
}

/// Which of a list of families are installed.
pub struct FontCheckResult {
    pub available: Vec<String>,
    pub missing: Vec<String>,
}

impl FontCheckResult {
    /// Whether no family is missing.
    pub fn all_available(&self) -> (r: bool)
        ensures
            r == (self.missing@.len() == 0),
    {
        self.missing.len() == 0
    }
}

/// The views of a list of string slices.
pub open spec fn str_views(v: Seq<&str>) -> Seq<Seq<char>> {
    v.map_values(|s: &str| s@)
}

/// The families of `fams` whose flag in `flags` is `want`, in order.
pub open spec fn pick(fams: Seq<Seq<char>>, flags: Seq<bool>, want: bool) -> Seq<Seq<char>>
    decreases fams.len(),
{
    if fams.len() == 0 || flags.len() == 0 {
        Seq::empty()
    } else {
        let prev = pick(fams.drop_last(), flags.drop_last(), want);
        if flags.last() == want {
            prev.push(fams.last())
        } else {
            prev
        }
    }
}

/// Checks families against a [`FontDiscovery`].
pub struct FontScanner {
    discovery: Box<dyn FontDiscovery>,
}

impl FontScanner {
    /// Whether `available` is what an answer of this scanner's discovery
    /// about the family `name` says: yes only for `Ok(true)`.
    pub open spec fn found(&self, name: Seq<char>, available: bool) -> bool {
        exists|answer: Result<bool, FontError>|
            self.answers(name, answer) && available == (answer matches Ok(b) && b)
    }

    /// Whether this scanner asks the discovery `d`.
    pub closed spec fn asks(&self, d: Box<dyn FontDiscovery>) -> bool {
        self.discovery == d
    }

    /// Whether `answer` is an answer this scanner's discovery gives when
    /// asked about the family `name`.
    pub closed spec fn answers(&self, name: Seq<char>, answer: Result<bool, FontError>) -> bool {
        self.discovery.answers(name, answer)
    }

    /// A scanner asking `discovery`.
    pub fn with_discovery(discovery: Box<dyn FontDiscovery>) -> (r: Self)
        ensures
            r.asks(discovery),
    {
        FontScanner { discovery }
    }

    /// Whether the family `family` is installed; a failed lookup counts as
    /// not installed.  The discovery is asked about `family` itself, and
    /// only `Ok(true)` counts as installed.
    pub fn is_available(&self, family: &str) -> (r: bool)
        ensures
            self.found(family@, r),
    {
        let answer = self.discovery.find_family(family);
        assert(self.answers(family@, answer));
        FontScanner::availability_of(&answer)
    }

    /// What a lookup's answer says of availability: yes only for `Ok(true)`.
    pub fn availability_of(answer: &Result<bool, FontError>) -> (r: bool)
        ensures
            r == (*answer matches Ok(b) && b),
    {
        match answer {
            Ok(b) => *b,
            Err(_) => false,
        }
    }

    /// Every installed family; a failed listing gives none.
    pub fn available_families(&self) -> Vec<String> {
        let answer = self.discovery.list_families();
        FontScanner::families_of(answer)
    }

    /// The families of a listing's answer, or none when it failed.
    pub fn families_of(answer: Result<Vec<String>, FontError>) -> (r: Vec<String>)
        ensures
            answer matches Ok(v) ==> r@ == v@,
            answer is Err ==> r@.len() == 0,
    {
        match answer {
            Ok(v) => v,
            Err(_) => Vec::new(),
        }
    }

    /// Split `families` by `flags`: those flagged go to `available`, the
    /// others to `missing`, each list in the order given.
    pub fn split_by_availability(families: &[&str], flags: &Vec<bool>) -> (r: FontCheckResult)
        requires
            flags@.len() == families@.len(),
        ensures
            r.available.deep_view() == pick(str_views(families@), flags@, true),
            r.missing.deep_view() == pick(str_views(families@), flags@, false),
    {
        let ghost fv = str_views(families@);
        let mut available: Vec<String> = Vec::new();
        let mut missing: Vec<String> = Vec::new();
        let mut i: usize = 0;
        assert(fv.take(0) =~= Seq::<Seq<char>>::empty());
        assert(available.deep_view() =~= Seq::<Seq<char>>::empty());
        assert(missing.deep_view() =~= Seq::<Seq<char>>::empty());
        while i < families.len()
            invariant
                fv == str_views(families@),
                flags@.len() == families@.len(),
                i <= families@.len(),
                available.deep_view() == pick(fv.take(i as int), flags@.take(i as int), true),
                missing.deep_view() == pick(fv.take(i as int), flags@.take(i as int), false),
            decreases families.len() - i,
        {
            assert(fv.take(i + 1).drop_last() =~= fv.take(i as int));
            assert(flags@.take(i + 1).drop_last() =~= flags@.take(i as int));
            assert(fv.take(i + 1).last() == families@[i as int]@);
            let ghost pa = available.deep_view();
            let ghost pm = missing.deep_view();
            let name = owned(families[i]);
            if flags[i] {
                available.push(name);
                assert(available.deep_view() =~= pa.push(families@[i as int]@));
            } else {
                missing.push(name);
                assert(missing.deep_view() =~= pm.push(families@[i as int]@));
            }
            i = i + 1;
        }
        assert(fv.take(families@.len() as int) =~= fv);
        assert(flags@.take(families@.len() as int) =~= flags@);
        FontCheckResult { available, missing }
    }

    /// Which of `families` are installed, each family in exactly one of the
    /// two lists, in the order given: each family is looked up itself, and
    /// is available exactly when the discovery answered `Ok(true)`.
    pub fn check_config(&self, families: &[&str]) -> (r: FontCheckResult)
        ensures
            exists|flags: Seq<bool>|
                flags.len() == families@.len() && (forall|i: int|
                    0 <= i < flags.len() ==> #[trigger] self.found(families@[i]@, flags[i]))
                    && r.available.deep_view() == #[trigger] pick(str_views(families@), flags, true)
                    && r.missing.deep_view() == pick(str_views(families@), flags, false),
    {
        let mut flags: Vec<bool> = Vec::new();
        let mut i: usize = 0;
        while i < families.len()
            invariant
                i <= families@.len(),
                flags@.len() == i,
                forall|j: int| 0 <= j < i ==> #[trigger] self.found(families@[j]@, flags@[j]),
            decreases families.len() - i,
        {
            let b = self.is_available(families[i]);
            flags.push(b);
            assert(self.found(families@[i as int]@, flags@[i as int]));
            i = i + 1;
        }
        let r = FontScanner::split_by_availability(families, &flags);
        assert(flags@.len() == families@.len());
        r
    }
}

} // verus!
