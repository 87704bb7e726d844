//! Font descriptions: weights, styles, variable-font axes, font specs and
//! scope-to-font rules.
use vstd::prelude::*;

use crate::text::{chars_of, copy_strings, owned, split, split_s};

verus! {

broadcast use crate::lemma_chars_deep_view;

/// CSS font weight, from thin (100) to black (900).
#[derive(Debug, Clone, Copy, PartialEq, Eq, Structural, Default)]
pub enum FontWeight {
    Thin,
    ExtraLight,
    Light,
    #[default]
    Regular,
    Medium,
    SemiBold,
    Bold,
    ExtraBold,
    Black,
}

/// The kebab-case name of a weight, as written in configuration files.
pub open spec fn weight_name(w: FontWeight) -> Seq<char> {
    match w {
        FontWeight::Thin => "thin"@,
        FontWeight::ExtraLight => "extra-light"@,
        FontWeight::Light => "light"@,
        FontWeight::Regular => "regular"@,
        FontWeight::Medium => "medium"@,
        FontWeight::SemiBold => "semi-bold"@,
        FontWeight::Bold => "bold"@,
        FontWeight::ExtraBold => "extra-bold"@,
        FontWeight::Black => "black"@,
    }
}

/// The numeric CSS value of a weight.
pub open spec fn weight_value(w: FontWeight) -> u16 {
    match w {
        FontWeight::Thin => 100,
        FontWeight::ExtraLight => 200,
        FontWeight::Light => 300,
        FontWeight::Regular => 400,
        FontWeight::Medium => 500,
        FontWeight::SemiBold => 600,
        FontWeight::Bold => 700,
        FontWeight::ExtraBold => 800,
        FontWeight::Black => 900,
    }
}

impl FontWeight {
    /// The kebab-case name of this weight (e.g. `"semi-bold"`).
    pub fn name(&self) -> (r: &'static str)
        ensures
            r@ == weight_name(*self),
    {
        match self {
            FontWeight::Thin => "thin",
            FontWeight::ExtraLight => "extra-light",
            FontWeight::Light => "light",
            FontWeight::Regular => "regular",
            FontWeight::Medium => "medium",
            FontWeight::SemiBold => "semi-bold",
            FontWeight::Bold => "bold",
            FontWeight::ExtraBold => "extra-bold",
            FontWeight::Black => "black",
        }
    }

    /// The kebab-case name of this weight as an owned string.
    pub fn to_string(&self) -> (r: String)
        ensures
            r@ == weight_name(*self),
    {
        owned(self.name())
    }

    /// The numeric CSS weight (100 to 900).
    pub fn value(&self) -> (r: u16)
        ensures
            r == weight_value(*self),
    {
        match self {
            FontWeight::Thin => 100,
            FontWeight::ExtraLight => 200,
            FontWeight::Light => 300,
            FontWeight::Regular => 400,
            FontWeight::Medium => 500,
            FontWeight::SemiBold => 600,
            FontWeight::Bold => 700,
            FontWeight::ExtraBold => 800,
            FontWeight::Black => 900,
        }
    }
}

/// CSS font style.
#[derive(Debug, Clone, Copy, PartialEq, Eq, Structural, Default)]
pub enum FontStyle {
    #[default]
    Normal,
    Italic,
    Oblique,
}

/// The name of a style, as written in configuration files.
pub open spec fn style_name(s: FontStyle) -> Seq<char> {
    match s {
        FontStyle::Normal => "normal"@,
        FontStyle::Italic => "italic"@,
        FontStyle::Oblique => "oblique"@,
    }
}

impl FontStyle {
    /// The name of this style (e.g. `"italic"`).
    pub fn name(&self) -> (r: &'static str)
        ensures
            r@ == style_name(*self),
    {
        match self {
            FontStyle::Normal => "normal",
            FontStyle::Italic => "italic",
            FontStyle::Oblique => "oblique",
        }
    }

    /// The name of this style as an owned string.
    pub fn to_string(&self) -> (r: String)
        ensures
            r@ == style_name(*self),
    {
        owned(self.name())
    }
}

/// Named variable font axes for common controls.
#[derive(Debug, Clone, Copy, PartialEq, Eq, Structural)]
pub enum NamedAxis {
    Weight,
    Width,
    Slant,
    OpticalSize,
    Italic,
}

/// The four-character OpenType tag of a named axis.
pub open spec fn axis_tag(a: NamedAxis) -> Seq<char> {
    match a {
        NamedAxis::Weight => "wght"@,
        NamedAxis::Width => "wdth"@,
        NamedAxis::Slant => "slnt"@,
        NamedAxis::OpticalSize => "opsz"@,
        NamedAxis::Italic => "ital"@,
    }
}

/// The kebab-case name of a named axis.
pub open spec fn axis_name(a: NamedAxis) -> Seq<char> {
    match a {
        NamedAxis::Weight => "weight"@,
        NamedAxis::Width => "width"@,
        NamedAxis::Slant => "slant"@,
        NamedAxis::OpticalSize => "optical-size"@,
        NamedAxis::Italic => "italic"@,
    }
}

impl NamedAxis {
    /// Returns the 4-character OpenType axis tag.
    pub fn tag(&self) -> (r: &'static str)
        ensures
            r@ == axis_tag(*self),
    {
        match self {
            NamedAxis::Weight => "wght",
            NamedAxis::Width => "wdth",
            NamedAxis::Slant => "slnt",
            NamedAxis::OpticalSize => "opsz",
            NamedAxis::Italic => "ital",
        }
    }

    /// The kebab-case name of this axis (e.g. `"optical-size"`).
    pub fn to_string(&self) -> (r: String)
        ensures
            r@ == axis_name(*self),
    {
        match self {
            NamedAxis::Weight => owned("weight"),
            NamedAxis::Width => owned("width"),
            NamedAxis::Slant => owned("slant"),
            NamedAxis::OpticalSize => owned("optical-size"),
            NamedAxis::Italic => owned("italic"),
        }
    }
}

/// A variable font axis value, either named or custom.
///
/// `value` holds the IEEE-754 bit pattern of the axis value (an `f32`).
#[derive(Debug)]
pub enum AxisValue {
    Named { axis: NamedAxis, value: u32 },
    Custom { tag: String, value: u32 },
}

/// The mathematical content of an [`AxisValue`].
pub enum AxisView {
    Named { axis: NamedAxis, value: u32 },
    Custom { tag: Seq<char>, value: u32 },
}

impl View for AxisValue {
    type V = AxisView;

    open spec fn view(&self) -> AxisView {
        match self {
            AxisValue::Named { axis, value } => AxisView::Named { axis: *axis, value: *value },
            AxisValue::Custom { tag, value } => AxisView::Custom { tag: tag@, value: *value },
        }
    }
}

impl DeepView for AxisValue {
    type V = AxisView;

    open spec fn deep_view(&self) -> AxisView {
        self@
    }
}

/// The tag of an axis value: the OpenType tag of a named axis, or the custom tag.
pub open spec fn axis_value_tag(a: AxisView) -> Seq<char> {
    match a {
        AxisView::Named { axis, .. } => axis_tag(axis),
        AxisView::Custom { tag, .. } => tag,
    }
}

/// The bit pattern of an axis value.
pub open spec fn axis_value_bits(a: AxisView) -> u32 {
    match a {
        AxisView::Named { value, .. } => value,
        AxisView::Custom { value, .. } => value,
    }
}

impl AxisValue {
    /// Returns the axis tag (4 chars for OpenType, or custom string).
    pub fn tag(&self) -> (r: &str)
        ensures
            r@ == axis_value_tag(self@),
    {
        match self {
            AxisValue::Named { axis, .. } => axis.tag(),
            AxisValue::Custom { tag, .. } => tag.as_str(),
        }
    }

    /// Returns the bit pattern of the axis value.
    pub fn value(&self) -> (r: u32)
        ensures
            r == axis_value_bits(self@),
    {
        match self {
            AxisValue::Named { value, .. } => *value,
            AxisValue::Custom { value, .. } => *value,
        }
    }
}

impl Clone for AxisValue {
    fn clone(&self) -> (r: Self)
        ensures
            r@ == self@,
    {
        match self {
            AxisValue::Named { axis, value } => AxisValue::Named { axis: *axis, value: *value },
            AxisValue::Custom { tag, value } => AxisValue::Custom { tag: tag.clone(), value: *value },
        }
    }
}

/// A copy of a list of axis values.
pub fn copy_axes(v: &Vec<AxisValue>) -> (r: Vec<AxisValue>)
    ensures
        r.deep_view() == v.deep_view(),
{
    let mut r: Vec<AxisValue> = Vec::new();
    let mut i: usize = 0;
    while i < v.len()
        invariant
            i <= v@.len(),
            r@.len() == i,
            r.deep_view() == v.deep_view().take(i as int),
        decreases v.len() - i,
    {
        let ghost prev = r@;
        let ghost prev_d = r.deep_view();
        let c = v[i].clone();
        r.push(c);
        assert forall|j: int| 0 <= j < i + 1 implies r.deep_view()[j] == v.deep_view()[j] by {
            if j < i {
                assert(r@[j] == prev[j]);
                assert(prev_d[j] == prev[j]@);
            }
        }
        assert(r.deep_view() =~= v.deep_view().take(i + 1));
        i = i + 1;
    }
    assert(v.deep_view().take(v@.len() as int) =~= v.deep_view());
    r
}

/// A complete font description: family, fallbacks, weight, style, optional
/// size, and variable-axis overrides.
///
/// `size` holds the IEEE-754 bit pattern of the point size (an `f32`).
#[derive(Debug)]
pub struct FontSpec {
    pub family: String,
    pub fallbacks: Vec<String>,
    pub weight: FontWeight,
    pub style: FontStyle,
    pub size: Option<u32>,
    pub axes: Vec<AxisValue>,
}

/// The mathematical content of a [`FontSpec`].
pub struct FontSpecView {
    pub family: Seq<char>,
    pub fallbacks: Seq<Seq<char>>,
    pub weight: FontWeight,
    pub style: FontStyle,
    pub size: Option<u32>,
    pub axes: Seq<AxisView>,
}

impl View for FontSpec {
    type V = FontSpecView;

    open spec fn view(&self) -> FontSpecView {
        FontSpecView {
            family: self.family@,
            fallbacks: self.fallbacks.deep_view(),
            weight: self.weight,
            style: self.style,
            size: self.size,
            axes: self.axes.deep_view(),
        }
    }
}

impl DeepView for FontSpec {
    type V = FontSpecView;

    open spec fn deep_view(&self) -> FontSpecView {
        self@
    }
}

/// The font spec for `family` with every other setting at its default.
pub open spec fn default_font_view(family: Seq<char>) -> FontSpecView {
    FontSpecView {
        family,
        fallbacks: Seq::empty(),
        weight: FontWeight::Regular,
        style: FontStyle::Normal,
        size: None,
        axes: Seq::empty(),
    }
}

impl FontSpec {
    /// The font spec for `family` with no fallbacks, regular weight, normal
    /// style, no size and no axes.
    pub fn default_font(family: &str) -> (r: Self)
        ensures
            r@ == default_font_view(family@),
    {
        let r = FontSpec {
            family: owned(family),
            fallbacks: Vec::new(),
            weight: FontWeight::Regular,
            style: FontStyle::Normal,
            size: None,
            axes: Vec::new(),
        };
        assert(r@.fallbacks =~= Seq::<Seq<char>>::empty());
        assert(r@.axes =~= Seq::<AxisView>::empty());
        r
    }
}

impl Clone for FontSpec {
    fn clone(&self) -> (r: Self)
        ensures
            r@ == self@,
    {
        FontSpec {
            family: self.family.clone(),
            fallbacks: copy_strings(&self.fallbacks),
            weight: self.weight,
            style: self.style,
            size: self.size,
            axes: copy_axes(&self.axes),
        }
    }
}

/// A rule mapping a scope pattern to a font.
#[derive(Debug)]
pub struct FontRule {
    pub scope: String,
    pub font: FontSpec,
}

/// The mathematical content of a [`FontRule`].
pub struct FontRuleView {
    pub scope: Seq<char>,
    pub font: FontSpecView,
}

impl View for FontRule {
    type V = FontRuleView;

    open spec fn view(&self) -> FontRuleView {
        FontRuleView { scope: self.scope@, font: self.font@ }
    }
}

impl DeepView for FontRule {
    type V = FontRuleView;

    open spec fn deep_view(&self) -> FontRuleView {
        self@
    }
}

/// The specificity of a scope: the number of dot-separated segments.
pub open spec fn scope_specificity(scope: Seq<char>) -> nat {
    split_s(scope, '.').len()
}

impl FontRule {
    /// The number of dot-separated segments of the rule's scope.
    pub fn specificity(&self) -> (r: usize)
        ensures
            r == scope_specificity(self.scope@),
    {
        let chars = chars_of(self.scope.as_str());
        let parts = split(chars.as_slice(), '.');
        parts.len()
    }
}

impl Clone for FontRule {
    fn clone(&self) -> (r: Self)
        ensures
            r@ == self@,
    {
        FontRule { scope: self.scope.clone(), font: self.font.clone() }
    }
}

/// The font resolved for a token scope, with the specificity of the rule that
/// produced it.
#[derive(Debug)]
pub struct FontAssignment {
    pub scope: String,
    pub font: FontSpec,
    pub specificity: usize,
    pub is_active: bool,
}

/// The mathematical content of a [`FontAssignment`].
pub struct FontAssignmentView {
    pub scope: Seq<char>,
    pub font: FontSpecView,
    pub specificity: usize,
    pub is_active: bool,
}

impl View for FontAssignment {
    type V = FontAssignmentView;

    open spec fn view(&self) -> FontAssignmentView {
        FontAssignmentView {
            scope: self.scope@,
            font: self.font@,
            specificity: self.specificity,
            is_active: self.is_active,
        }
    }
}

impl DeepView for FontAssignment {
    type V = FontAssignmentView;

    open spec fn deep_view(&self) -> FontAssignmentView {
        self@
    }
}

impl Clone for FontAssignment {
    fn clone(&self) -> (r: Self)
        ensures
            r@ == self@,
    {
        FontAssignment {
            scope: self.scope.clone(),
            font: self.font.clone(),
            specificity: self.specificity,
            is_active: self.is_active,
        }
    }
}

} // verus!
