//! The `.polyfont.toml` configuration: its content, validation, conversion
//! to font rules, and layering of several files.
//!
//! Font sizes are carried as the bit patterns of `f32` values; nothing here
//! computes with them.
use vstd::prelude::*;

use crate::font::{
    copy_axes, AxisValue, FontRule, FontRuleView, FontSpec, FontSpecView, FontStyle, FontWeight,
};
use crate::text::{append, chars_of, concat, copy_strings, owned, string_of, trim_s, trim_str};

verus! {

broadcast use {vstd::seq_lib::group_seq_properties, crate::lemma_chars_deep_view};

/// The name of a configuration file.
pub const CONFIG_FILENAME: &'static str = ".polyfont.toml";

/// The configuration format version this library reads.
pub const CURRENT_CONFIG_VERSION: u32 = 1;

/// The default font, used where no rule matches.
#[derive(Debug)]
pub struct DefaultFontConfig {
    pub family: String,
    pub fallbacks: Vec<String>,
    pub weight: FontWeight,
    pub style: FontStyle,
    pub size: Option<u32>,
    pub axes: Vec<AxisValue>,
}

/// The font of one rule.
#[derive(Debug)]
pub struct FontConfig {
    pub family: String,
    pub fallbacks: Vec<String>,
    pub weight: FontWeight,
    pub style: FontStyle,
    pub size: Option<u32>,
    pub axes: Vec<AxisValue>,
}

/// One scope-to-font rule.
#[derive(Debug)]
pub struct RuleConfig {
    pub scope: String,
    pub font: FontConfig,
}

/// A whole configuration file.
#[derive(Debug)]
pub struct PolyfontConfig {
    pub version: u32,
    pub default: Option<DefaultFontConfig>,
    pub rules: Vec<RuleConfig>,
}

impl View for DefaultFontConfig {
    type V = FontSpecView;

    open spec fn view(&self) -> FontSpecView {
        FontSpecView {
            family: self.family@,
            fallbacks: self.fallbacks.deep_view(),
            weight: self.weight,
            style: self.style,
            size: self.size,
            axes: self.axes.deep_view(),
        }
    }
}

impl View for FontConfig {
    type V = FontSpecView;

    open spec fn view(&self) -> FontSpecView {
        FontSpecView {
            family: self.family@,
            fallbacks: self.fallbacks.deep_view(),
            weight: self.weight,
            style: self.style,
            size: self.size,
            axes: self.axes.deep_view(),
        }
    }
}

impl View for RuleConfig {
    type V = FontRuleView;

    open spec fn view(&self) -> FontRuleView {
        FontRuleView { scope: self.scope@, font: self.font@ }
    }
}

impl DeepView for RuleConfig {
    type V = FontRuleView;

    open spec fn deep_view(&self) -> FontRuleView {
        self@
    }
}

/// The mathematical content of a [`PolyfontConfig`].
pub struct ConfigView {
    pub version: u32,
    pub default: Option<FontSpecView>,
    pub rules: Seq<FontRuleView>,
}

impl View for PolyfontConfig {
    type V = ConfigView;

    open spec fn view(&self) -> ConfigView {
        ConfigView {
            version: self.version,
            default: match self.default {
                Some(d) => Some(d@),
                None => None,
            },
            rules: self.rules.deep_view(),
        }
    }
}

/// Errors from loading or validating a configuration.
#[derive(Debug)]
pub enum ConfigError {
    UnsupportedVersion { found: u32, expected: u32 },
    Validation(String),
    Io(String),
    Parse(String),
    NotFound(String),
}

/// The decimal digit `d`.
pub open spec fn digit_char(d: nat) -> char {
    seq!['0', '1', '2', '3', '4', '5', '6', '7', '8', '9'][d as int]
}

/// The decimal numeral of `n`.
pub open spec fn decimal_s(n: nat) -> Seq<char>
    decreases n,
{
    if n < 10 {
        seq![digit_char(n)]
    } else {
        decimal_s(n / 10).push(digit_char(n % 10))
    }
}

/// The decimal numeral of `n`.
pub fn decimal(n: u64) -> (r: Vec<char>)
    ensures
        r@ == decimal_s(n as nat),
    decreases n,
{
    let digits = vec!['0', '1', '2', '3', '4', '5', '6', '7', '8', '9'];
    assert(digits@ =~= seq!['0', '1', '2', '3', '4', '5', '6', '7', '8', '9']);
    if n < 10 {
        let d = digits[n as usize];
        let r = vec![d];
        assert(r@ =~= seq![digit_char(n as nat)]);
        r
    } else {
        let mut r = decimal(n / 10);
        r.push(digits[(n % 10) as usize]);
        r
    }
}

impl ConfigError {
    /// The message describing this error.
    pub fn to_string(&self) -> (r: String)
        ensures
            r@ == match self {
                ConfigError::UnsupportedVersion { found, expected } => "unsupported config version: found "@
                    + decimal_s(*found as nat) + ", expected "@ + decimal_s(*expected as nat),
                ConfigError::Validation(m) => "config validation failed: "@ + m@,
                ConfigError::Io(m) => "failed to read config file: "@ + m@,
                ConfigError::Parse(m) => "failed to parse config file: "@ + m@,
                ConfigError::NotFound(m) => "no config file found searching from "@ + m@,
            },
    {
        match self {
            ConfigError::UnsupportedVersion { found, expected } => {
                let mut v = chars_of("unsupported config version: found ");
                let f = decimal(*found as u64);
                append(&mut v, f.as_slice());
                let mid = chars_of(", expected ");
                append(&mut v, mid.as_slice());
                let e = decimal(*expected as u64);
                append(&mut v, e.as_slice());
                string_of(v.as_slice())
            },
            ConfigError::Validation(m) => concat("config validation failed: ", m.as_str()),
            ConfigError::Io(m) => concat("failed to read config file: ", m.as_str()),
            ConfigError::Parse(m) => concat("failed to parse config file: ", m.as_str()),
            ConfigError::NotFound(m) => concat("no config file found searching from ", m.as_str()),
        }
    }
}

/// Whether a name is empty once blanks are trimmed.
pub open spec fn blank(s: Seq<char>) -> bool {
    trim_s(s).len() == 0
}

/// What validation finds, in the order it looks.
pub enum ConfigProblem {
    /// The version is not the current one.
    Version,
    /// The default font's family is blank.
    BlankDefaultFamily,
    /// The rule at this index has a blank scope.
    BlankScope(int),
    /// The rule at this index has a blank family.
    BlankFamily(int),
}

/// The first rule at or after `i` with a blank scope or family.
pub open spec fn first_bad_rule(rules: Seq<FontRuleView>, i: int) -> Option<ConfigProblem>
    decreases rules.len() - i,
{
    if i < 0 || i >= rules.len() {
        None
    } else if blank(rules[i].scope) {
        Some(ConfigProblem::BlankScope(i))
    } else if blank(rules[i].font.family) {
        Some(ConfigProblem::BlankFamily(i))
    } else {
        first_bad_rule(rules, i + 1)
    }
}

/// The first problem in a configuration, if any: a wrong version, then a
/// blank default family, then the first rule with a blank scope or family.
pub open spec fn config_problem(c: ConfigView) -> Option<ConfigProblem> {
    if c.version != CURRENT_CONFIG_VERSION {
        Some(ConfigProblem::Version)
    } else if c.default matches Some(d) && blank(d.family) {
        Some(ConfigProblem::BlankDefaultFamily)
    } else {
        first_bad_rule(c.rules, 0)
    }
}

/// The message for a rule with a blank scope.
pub open spec fn blank_scope_message(i: int) -> Seq<char> {
    "rule at index "@ + decimal_s(i as nat) + " has an empty scope"@
}

/// The message for a rule with a blank family.
pub open spec fn blank_family_message(i: int, scope: Seq<char>) -> Seq<char> {
    "rule at index "@ + decimal_s(i as nat) + " (scope '"@ + scope + "') has an empty font family"@
}

/// The rules a configuration stands for: its own rules in order, then the
/// default font as a catch-all rule for `*`.
pub open spec fn config_rules(c: ConfigView) -> Seq<FontRuleView> {
    match c.default {
        Some(d) => c.rules.push(FontRuleView { scope: "*"@, font: d }),
        None => c.rules,
    }
}

/// A font specification with the content of a rule's font.
fn spec_of(f: &FontConfig) -> (r: FontSpec)
    ensures
        r@ == f@,
{
    FontSpec {
        family: f.family.clone(),
        fallbacks: copy_strings(&f.fallbacks),
        weight: f.weight,
        style: f.style,
        size: f.size,
        axes: copy_axes(&f.axes),
    }
}

/// Whether `s` is empty once trimmed.
fn is_blank(s: &String) -> (r: bool)
    ensures
        r == blank(s@),
{
    trim_str(s.as_str()).len() == 0
}

impl PolyfontConfig {
    /// Check the version, the default family and each rule's scope and
    /// family, reporting the first problem found.
    pub fn validate(&self) -> (r: Result<(), ConfigError>)
        ensures
            match config_problem(self@) {
                None => r is Ok,
                Some(ConfigProblem::Version) => r matches Err(ConfigError::UnsupportedVersion { found, expected })
                    && found == self.version && expected == CURRENT_CONFIG_VERSION,
                Some(ConfigProblem::BlankDefaultFamily) => r matches Err(ConfigError::Validation(m))
                    && m@ == "default font family must not be empty"@,
                Some(ConfigProblem::BlankScope(i)) => r matches Err(ConfigError::Validation(m)) && m@
                    == blank_scope_message(i),
                Some(ConfigProblem::BlankFamily(i)) => r matches Err(ConfigError::Validation(m)) && m@
                    == blank_family_message(i, self@.rules[i].scope),
            },
    {
        if self.version != CURRENT_CONFIG_VERSION {
            return Err(
                ConfigError::UnsupportedVersion { found: self.version, expected: CURRENT_CONFIG_VERSION },
            );
        }
        match &self.default {
            Some(d) => {
                if is_blank(&d.family) {
                    return Err(ConfigError::Validation(owned("default font family must not be empty")));
                }
            },
            None => {},
        }
        let ghost rules = self@.rules;
        let mut i: usize = 0;
        while i < self.rules.len()
            invariant
                rules == self@.rules,
                rules.len() == self.rules@.len(),
                self.version == CURRENT_CONFIG_VERSION,
                !(self@.default matches Some(d) && blank(d.family)),
                i <= rules.len(),
                first_bad_rule(rules, 0) == first_bad_rule(rules, i as int),
            decreases self.rules.len() - i,
        {
            let rule = &self.rules[i];
            assert(rule@ == rules[i as int]);
            if is_blank(&rule.scope) {
                let mut v = chars_of("rule at index ");
                let d = decimal(i as u64);
                append(&mut v, d.as_slice());
                let tail = chars_of(" has an empty scope");
                append(&mut v, tail.as_slice());
                return Err(ConfigError::Validation(string_of(v.as_slice())));
            }
            if is_blank(&rule.font.family) {
                let mut v = chars_of("rule at index ");
                let d = decimal(i as u64);
                append(&mut v, d.as_slice());
                let open = chars_of(" (scope '");
                append(&mut v, open.as_slice());
                let sc = chars_of(rule.scope.as_str());
                append(&mut v, sc.as_slice());
                let tail = chars_of("') has an empty font family");
                append(&mut v, tail.as_slice());
                return Err(ConfigError::Validation(string_of(v.as_slice())));
            }
            i = i + 1;
        }
        Ok(())
    }

    /// The rules this configuration stands for, the default font last as a
    /// catch-all.
    pub fn to_rules(&self) -> (r: Vec<FontRule>)
        ensures
            r.deep_view() == config_rules(self@),
    {
        let mut out: Vec<FontRule> = Vec::new();
        let mut i: usize = 0;
        while i < self.rules.len()
            invariant
                i <= self.rules@.len(),
                out.deep_view() == self@.rules.take(i as int),
            decreases self.rules.len() - i,
        {
            let ghost prev = out.deep_view();
            let r = &self.rules[i];
            let fr = FontRule { scope: r.scope.clone(), font: spec_of(&r.font) };
            let ghost fv = fr@;
            assert(fv == self@.rules[i as int]);
            out.push(fr);
            assert(out.deep_view() =~= prev.push(fv));
            assert(self@.rules.take(i + 1) =~= self@.rules.take(i as int).push(fv));
            i = i + 1;
        }
        assert(self@.rules.take(self@.rules.len() as int) =~= self@.rules);
        match &self.default {
            Some(d) => {
                let ghost prev = out.deep_view();
                let font = FontSpec {
                    family: d.family.clone(),
                    fallbacks: copy_strings(&d.fallbacks),
                    weight: d.weight,
                    style: d.style,
                    size: d.size,
                    axes: copy_axes(&d.axes),
                };
                let fr = FontRule { scope: owned("*"), font };
                assert(fr@ == FontRuleView { scope: "*"@, font: d@ });
                out.push(fr);
                assert(out.deep_view() =~= prev.push(FontRuleView { scope: "*"@, font: d@ }));
            },
            None => {},
        }
        out
    }

    /// `overlay` laid over `base`: the overlay's rules replace the base's,
    /// its default font replaces the base's when it has one, and the base's
    /// version stays.
    pub fn merge(base: Self, overlay: Self) -> (r: Self)
        ensures
            r@ == (ConfigView {
                version: base@.version,
                default: if overlay@.default is Some {
                    overlay@.default
                } else {
                    base@.default
                },
                rules: overlay@.rules,
            }),
    {
        let default = match overlay.default {
            Some(d) => Some(d),
            None => base.default,
        };
        PolyfontConfig { version: base.version, default, rules: overlay.rules }
    }
}

/// The configurations of `loaded` laid over `first` in turn, skipping the
/// ones that failed to load.
pub open spec fn merge_all(first: ConfigView, loaded: Seq<Option<ConfigView>>) -> ConfigView
    decreases loaded.len(),
{
    if loaded.len() == 0 {
        first
    } else {
        let acc = merge_all(first, loaded.drop_last());
        match loaded.last() {
            Some(o) => ConfigView {
                version: acc.version,
                default: if o.default is Some {
                    o.default
                } else {
                    acc.default
                },
                rules: o.rules,
            },
            None => acc,
        }
    }
}

/// The views of the configurations that loaded.
pub open spec fn loaded_views(v: Seq<Result<PolyfontConfig, ConfigError>>) -> Seq<Option<ConfigView>> {
    v.map_values(
        |r: Result<PolyfontConfig, ConfigError>|
            match r {
                Ok(c) => Some(c@),
                Err(_) => None,
            },
    )
}

/// Where a file at depth `d` goes among files ordered by depth: after every
/// leading file no deeper than it.
pub open spec fn depth_insert_pos(s: Seq<(Seq<char>, usize)>, d: usize) -> nat
    decreases s.len(),
{
    if s.len() == 0 {
        0
    } else if s[0].1 <= d {
        1 + depth_insert_pos(s.drop_first(), d)
    } else {
        0
    }
}

/// Files in order of depth, shallowest first, files of equal depth in the
/// order given.
pub open spec fn sort_by_depth(s: Seq<(Seq<char>, usize)>) -> Seq<(Seq<char>, usize)>
    decreases s.len(),
{
    if s.len() == 0 {
        s
    } else {
        let sorted = sort_by_depth(s.drop_last());
        sorted.insert(depth_insert_pos(sorted, s.last().1) as int, s.last())
    }
}

/// A list of files with their depths, by the content of their paths.
pub open spec fn file_views(s: Seq<(String, usize)>) -> Seq<(Seq<char>, usize)> {
    s.map_values(|f: (String, usize)| (f.0@, f.1))
}

/// The paths of a list of files, in order.
pub open spec fn paths_of(s: Seq<(Seq<char>, usize)>) -> Seq<Seq<char>> {
    s.map_values(|f: (Seq<char>, usize)| f.0)
}

/// After a prefix of files no deeper than `d`, the insertion point is that
/// far into the rest.
proof fn lemma_depth_insert_pos_skip(s: Seq<(Seq<char>, usize)>, d: usize, p: int)
    requires
        0 <= p <= s.len(),
        forall|k: int| 0 <= k < p ==> #[trigger] s[k].1 <= d,
    ensures
        depth_insert_pos(s, d) == p + depth_insert_pos(s.skip(p), d),
    decreases p,
{
    if p > 0 {
        assert(s.skip(1).skip(p - 1) =~= s.skip(p));
        assert forall|k: int| 0 <= k < p - 1 implies #[trigger] s.skip(1)[k].1 <= d by {
            assert(s.skip(1)[k] == s[k + 1]);
        }
        lemma_depth_insert_pos_skip(s.skip(1), d, p - 1);
        assert(s.drop_first() =~= s.skip(1));
    }
}

/// Files ordered by depth, shallowest first.
pub open spec fn depth_sorted(s: Seq<(Seq<char>, usize)>) -> bool {
    forall|i: int, j: int| 0 <= i < j < s.len() ==> #[trigger] s[i].1 <= #[trigger] s[j].1
}

/// The insertion point lies after the files no deeper than `d` and before
/// the first deeper one.
proof fn lemma_depth_insert_pos(s: Seq<(Seq<char>, usize)>, d: usize)
    ensures
        depth_insert_pos(s, d) <= s.len(),
        forall|k: int| 0 <= k < depth_insert_pos(s, d) ==> #[trigger] s[k].1 <= d,
        depth_insert_pos(s, d) < s.len() ==> s[depth_insert_pos(s, d) as int].1 > d,
    decreases s.len(),
{
    if s.len() > 0 && s[0].1 <= d {
        lemma_depth_insert_pos(s.drop_first(), d);
        assert forall|k: int| 0 <= k < depth_insert_pos(s, d) implies #[trigger] s[k].1 <= d by {
            if k > 0 {
                assert(s[k] == s.drop_first()[k - 1]);
            }
        }
    }
}

/// Ordering files by depth leaves them ordered by depth, shallowest first,
/// and keeps every file.
pub proof fn lemma_sort_by_depth(s: Seq<(Seq<char>, usize)>)
    ensures
        depth_sorted(sort_by_depth(s)),
        sort_by_depth(s).to_multiset() == s.to_multiset(),
    decreases s.len(),
{
    if s.len() > 0 {
        let p = s.drop_last();
        let sorted = sort_by_depth(p);
        let x = s.last();
        lemma_sort_by_depth(p);
        lemma_depth_insert_pos(sorted, x.1);
        let pos = depth_insert_pos(sorted, x.1) as int;
        let t = sorted.insert(pos, x);
        assert forall|i: int, j: int| 0 <= i < j < t.len() implies #[trigger] t[i].1 <= #[trigger] t[j].1 by {
            if i < pos && j == pos {
            } else if i == pos && j > pos {
                assert(t[j] == sorted[j - 1]);
                assert(sorted[pos].1 > x.1);
                if j - 1 > pos {
                    assert(sorted[pos].1 <= sorted[j - 1].1);
                }
            } else if i < pos && j > pos {
                assert(t[i] == sorted[i] && t[j] == sorted[j - 1]);
            } else if j < pos {
                assert(t[i] == sorted[i] && t[j] == sorted[j]);
            } else {
                assert(t[i] == sorted[i - 1] && t[j] == sorted[j - 1]);
            }
        }
        assert(t =~= sorted.take(pos) + seq![x] + sorted.skip(pos));
        vstd::seq_lib::lemma_multiset_commutative(sorted.take(pos) + seq![x], sorted.skip(pos));
        vstd::seq_lib::lemma_multiset_commutative(sorted.take(pos), seq![x]);
        vstd::seq_lib::lemma_multiset_commutative(sorted.take(pos), sorted.skip(pos));
        assert(sorted.take(pos) + sorted.skip(pos) =~= sorted);
        assert(s =~= p.push(x));
        vstd::seq_lib::lemma_multiset_commutative(p, seq![x]);
        assert(p + seq![x] =~= s);
    }
}

/// Finding and layering configuration files.
pub struct ConfigLoader;

impl ConfigLoader {
    /// A loaded configuration, accepted only if it validates.
    pub fn accept(config: PolyfontConfig) -> (r: Result<PolyfontConfig, ConfigError>)
        ensures
            config_problem(config@) is None ==> (r matches Ok(c) && c@ == config@),
            config_problem(config@) is Some ==> r is Err,
    {
        match config.validate() {
            Ok(()) => Ok(config),
            Err(e) => Err(e),
        }
    }

    /// The configuration files that apply to a directory, outermost first:
    /// those in its ancestors (given nearest first), then those found below
    /// it, shallowest first, files of equal depth in the order found.
    pub fn order_configs(found: Vec<(String, usize)>, ancestors_nearest_first: Vec<String>) -> (r: Vec<
        String,
    >)
        ensures
            r.deep_view() == ancestors_nearest_first.deep_view().reverse() + paths_of(
                sort_by_depth(file_views(found@)),
            ),
    {
        let ghost fv = file_views(found@);
        let mut sorted: Vec<(String, usize)> = Vec::new();
        let mut i: usize = 0;
        assert(fv.take(0) =~= Seq::<(Seq<char>, usize)>::empty());
        assert(file_views(sorted@) =~= Seq::<(Seq<char>, usize)>::empty());
        while i < found.len()
            invariant
                fv == file_views(found@),
                i <= found@.len(),
                file_views(sorted@) == sort_by_depth(fv.take(i as int)),
            decreases found.len() - i,
        {
            let d = found[i].1;
            let ghost sv = file_views(sorted@);
            let mut p: usize = 0;
            while p < sorted.len() && sorted[p].1 <= d
                invariant
                    sv == file_views(sorted@),
                    p <= sv.len(),
                    forall|k: int| 0 <= k < p ==> #[trigger] sv[k].1 <= d,
                decreases sorted.len() - p,
            {
                p = p + 1;
            }
            proof {
                lemma_depth_insert_pos_skip(sv, d, p as int);
                assert(fv.take(i + 1).drop_last() =~= fv.take(i as int));
                assert(fv.take(i + 1).last() == fv[i as int]);
            }
            let entry = (owned(found[i].0.as_str()), d);
            let ghost before = sorted@;
            sorted.insert(p, entry);
            assert(file_views(sorted@) =~= sv.insert(p as int, fv[i as int]));
            i = i + 1;
        }
        assert(fv.take(found@.len() as int) =~= fv);
        let ghost sorted_v = file_views(sorted@);
        let mut out: Vec<String> = Vec::new();
        let mut k: usize = ancestors_nearest_first.len();
        assert(ancestors_nearest_first.deep_view().skip(k as int).reverse() =~= Seq::<Seq<char>>::empty());
        while k > 0
            invariant
                k <= ancestors_nearest_first@.len(),
                out.deep_view() == ancestors_nearest_first.deep_view().skip(k as int).reverse(),
            decreases k,
        {
            k = k - 1;
            let ghost prev = out.deep_view();
            let name = owned(ancestors_nearest_first[k].as_str());
            assert(name@ == ancestors_nearest_first.deep_view()[k as int]);
            out.push(name);
            assert(out.deep_view() =~= prev.push(ancestors_nearest_first.deep_view()[k as int]));
            assert(out.deep_view() =~= ancestors_nearest_first.deep_view().skip(k as int).reverse());
        }
        let ghost head = out.deep_view();
        let mut j: usize = 0;
        while j < sorted.len()
            invariant
                sorted_v == file_views(sorted@),
                j <= sorted@.len(),
                out.deep_view() == head + paths_of(sorted_v).take(j as int),
            decreases sorted.len() - j,
        {
            let ghost prev = out.deep_view();
            let name = owned(sorted[j].0.as_str());
            assert(name@ == sorted_v[j as int].0);
            out.push(name);
            assert(out.deep_view() =~= prev.push(sorted_v[j as int].0));
            assert(paths_of(sorted_v).take(j + 1) =~= paths_of(sorted_v).take(j as int).push(sorted_v[j as int].0));
            assert(out.deep_view() =~= head + paths_of(sorted_v).take(j + 1));
            j = j + 1;
        }
        assert(paths_of(sorted_v).take(sorted@.len() as int) =~= paths_of(sorted_v));
        assert(ancestors_nearest_first.deep_view().skip(0) =~= ancestors_nearest_first.deep_view());
        out
    }

    /// The first configuration with the later ones laid over it in order;
    /// those that failed to load are skipped.
    pub fn merge_loaded(first: PolyfontConfig, rest: Vec<Result<PolyfontConfig, ConfigError>>) -> (r:
        PolyfontConfig)
        ensures
            r@ == merge_all(first@, loaded_views(rest@)),
    {
        let ghost lv = loaded_views(rest@);
        let ghost orig = rest@;
        let mut acc = first;
        assert(lv.take(0) =~= Seq::<Option<ConfigView>>::empty());
        for next in it: rest.into_iter()
            invariant
                lv == loaded_views(orig),
                it.seq() == orig,
                acc@ == merge_all(first@, lv.take(it.index() as int)),
        {
            assert(lv.take(it.index() + 1).drop_last() =~= lv.take(it.index() as int));
            assert(next == orig[it.index() as int]);
            match next {
                Ok(o) => {
                    acc = PolyfontConfig::merge(acc, o);
                },
                Err(_) => {},
            }
        }
        assert(lv.take(lv.len() as int) =~= lv);
        acc
    }
}

} // verus!
