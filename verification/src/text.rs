use vstd::prelude::*;

use crate::strings::{lemma_split_on_nonempty, split_on, split_str, str_eq, views_of};

verus! {

/// A colour as four premultiplied RGBA channels.
#[derive(Debug, Clone, Copy, PartialEq, Eq, Structural, Hash)]
pub struct Color32 {
    pub r: u8,
    pub g: u8,
    pub b: u8,
    pub a: u8,
}

/// Opaque white, the default text colour.
pub open spec fn white() -> Color32 {
    Color32 { r: 255, g: 255, b: 255, a: 255 }
}

/// A font family: one of the generic CSS families, or a named font.
#[derive(Debug)]
pub enum Family {
    Name(String),
    Serif,
    SansSerif,
    Cursive,
    Fantasy,
    Monospace,
}

/// How wide the glyphs of a font are.
#[derive(Debug, Clone, Copy, PartialEq, Eq, Structural, Hash)]
pub enum Stretch {
    UltraCondensed,
    ExtraCondensed,
    Condensed,
    SemiCondensed,
    Normal,
    SemiExpanded,
    Expanded,
    ExtraExpanded,
    UltraExpanded,
}

/// Upright, italic or oblique glyphs.
#[derive(Debug, Clone, Copy, PartialEq, Eq, Structural, Hash)]
pub enum Style {
    Normal,
    Italic,
    Oblique,
}

/// Horizontal alignment of the lines of a text object.
#[derive(Debug, Clone, Copy, PartialEq, Eq, Structural, Hash)]
pub enum Align {
    Left,
    Right,
    Center,
    Justified,
    End,
}

/// A font weight on the CSS scale, where 400 is normal and 700 bold.
#[derive(Debug, Clone, Copy, PartialEq, Eq, Structural, Hash)]
pub struct Weight(pub u16);

impl Clone for Family {
    fn clone(&self) -> (r: Self)
        ensures
            r == *self,
    {
        match self {
            Family::Name(n) => Family::Name(n.clone()),
            Family::Serif => Family::Serif,
            Family::SansSerif => Family::SansSerif,
            Family::Cursive => Family::Cursive,
            Family::Fantasy => Family::Fantasy,
            Family::Monospace => Family::Monospace,
        }
    }
}

impl Default for Family {
    fn default() -> (f: Self)
        ensures
            f == Family::SansSerif,
    {
        Family::SansSerif
    }
}

impl Default for Stretch {
    fn default() -> (s: Self)
        ensures
            s == Stretch::Normal,
    {
        Stretch::Normal
    }
}

impl Default for Style {
    fn default() -> (s: Self)
        ensures
            s == Style::Normal,
    {
        Style::Normal
    }
}

impl Default for Align {
    fn default() -> (a: Self)
        ensures
            a == Align::Left,
    {
        Align::Left
    }
}

impl Default for Weight {
    fn default() -> (w: Self)
        ensures
            w == Weight(400),
    {
        Weight(400)
    }
}

/// The attributes of a run of text.
#[derive(Debug)]
pub struct Attrs {
    pub color: Color32,
    pub family: Family,
    pub stretch: Stretch,
    pub style: Style,
    pub weight: Weight,
}

impl Clone for Attrs {
    fn clone(&self) -> (r: Self)
        ensures
            r == *self,
    {
        Attrs {
            color: self.color,
            family: self.family.clone(),
            stretch: self.stretch,
            style: self.style,
            weight: self.weight,
        }
    }
}

impl Default for Attrs {
    fn default() -> (a: Self)
        ensures
            a.color == white(),
            a.family == Family::SansSerif,
            a.stretch == Stretch::Normal,
            a.style == Style::Normal,
            a.weight == Weight(400),
    {
        Attrs {
            color: Color32 { r: 255, g: 255, b: 255, a: 255 },
            family: Family::SansSerif,
            stretch: Stretch::Normal,
            style: Style::Normal,
            weight: Weight(400),
        }
    }
}

/// A change applied to the attributes of a run of text.
#[derive(Debug, Clone, Copy)]
pub enum Modifier {
    Style(Style),
    Weight(Weight),
    Color(Color32),
    Strikethrough,
}

/// The generic family a base name denotes, if it denotes one.
pub open spec fn generic_family(base: Seq<char>) -> Option<Family> {
    if base == "serif"@ {
        Some(Family::Serif)
    } else if base == "sans-serif"@ {
        Some(Family::SansSerif)
    } else if base == "cursive"@ {
        Some(Family::Cursive)
    } else if base == "fantasy"@ {
        Some(Family::Fantasy)
    } else if base == "monospace"@ {
        Some(Family::Monospace)
    } else {
        None
    }
}

/// Each generic family name selects its generic family: `serif`,
/// `sans-serif`, `cursive`, `fantasy` and `monospace`; any other base name
/// selects the font of that name.
pub proof fn lemma_generic_family_names(base: Seq<char>, f: Family)
    ensures
        generic_family("serif"@) == Some(Family::Serif),
        generic_family("sans-serif"@) == Some(Family::SansSerif),
        generic_family("cursive"@) == Some(Family::Cursive),
        generic_family("fantasy"@) == Some(Family::Fantasy),
        generic_family("monospace"@) == Some(Family::Monospace),
        base != "serif"@ && base != "sans-serif"@ && base != "cursive"@ && base != "fantasy"@
            && base != "monospace"@ ==> (family_named(f, base) <==> (f matches Family::Name(n) && n@ == base)),
{
    reveal_strlit("serif");
    reveal_strlit("sans-serif");
    reveal_strlit("cursive");
    reveal_strlit("fantasy");
    reveal_strlit("monospace");
    assert("sans-serif"@[1] != "serif"@[1]);
    assert("cursive"@[0] != "serif"@[0] && "cursive"@[0] != "sans-serif"@[0]);
    assert("fantasy"@[0] != "serif"@[0] && "fantasy"@[0] != "sans-serif"@[0] && "fantasy"@[0] != "cursive"@[0]);
    assert("monospace"@[0] != "serif"@[0] && "monospace"@[0] != "sans-serif"@[0] && "monospace"@[0]
        != "cursive"@[0] && "monospace"@[0] != "fantasy"@[0]);
}

/// `f` is the family that the base name `base` selects: a generic family,
/// or else the font of that name.
pub open spec fn family_named(f: Family, base: Seq<char>) -> bool {
    match generic_family(base) {
        Some(g) => f == g,
        None => f matches Family::Name(n) && n@ == base,
    }
}

/// The attributes after one font option word (`italic`, `bold`,
/// `condensed`, ...); unknown words change nothing.
pub open spec fn apply_font_word(a: Attrs, w: Seq<char>) -> Attrs {
    if w == "normal"@ {
        Attrs { style: Style::Normal, ..a }
    } else if w == "italic"@ {
        Attrs { style: Style::Italic, ..a }
    } else if w == "oblique"@ {
        Attrs { style: Style::Oblique, ..a }
    } else if w == "thin"@ {
        Attrs { weight: Weight(100), ..a }
    } else if w == "extra_light"@ {
        Attrs { weight: Weight(200), ..a }
    } else if w == "light"@ {
        Attrs { weight: Weight(300), ..a }
    } else if w == "medium"@ {
        Attrs { weight: Weight(500), ..a }
    } else if w == "semibold"@ {
        Attrs { weight: Weight(600), ..a }
    } else if w == "bold"@ {
        Attrs { weight: Weight(700), ..a }
    } else if w == "extra_bold"@ {
        Attrs { weight: Weight(800), ..a }
    } else if w == "black"@ {
        Attrs { weight: Weight(900), ..a }
    } else if w == "ultracondensed"@ {
        Attrs { stretch: Stretch::UltraCondensed, ..a }
    } else if w == "extracondensed"@ {
        Attrs { stretch: Stretch::ExtraCondensed, ..a }
    } else if w == "condensed"@ {
        Attrs { stretch: Stretch::Condensed, ..a }
    } else if w == "semicondensed"@ {
        Attrs { stretch: Stretch::SemiCondensed, ..a }
    } else if w == "semiexpanded"@ {
        Attrs { stretch: Stretch::SemiExpanded, ..a }
    } else if w == "expanded"@ {
        Attrs { stretch: Stretch::Expanded, ..a }
    } else if w == "extraexpanded"@ {
        Attrs { stretch: Stretch::ExtraExpanded, ..a }
    } else if w == "ultraexpanded"@ {
        Attrs { stretch: Stretch::UltraExpanded, ..a }
    } else {
        a
    }
}

/// The attributes after the option words `ws`, applied in order.
pub open spec fn apply_font_words(a: Attrs, ws: Seq<Seq<char>>) -> Attrs
    decreases ws.len(),
{
    if ws.len() == 0 {
        a
    } else {
        apply_font_word(apply_font_words(a, ws.drop_last()), ws.last())
    }
}

/// The attributes after a modifier.
pub open spec fn modified(a: Attrs, m: Modifier) -> Attrs {
    match m {
        Modifier::Style(s) => Attrs { style: s, ..a },
        Modifier::Weight(w) => Attrs { weight: w, ..a },
        Modifier::Color(c) => Attrs { color: c, ..a },
        Modifier::Strikethrough => a,
    }
}

/// The family a base name selects.
fn family_from_base(base: &str) -> (f: Family)
    ensures
        family_named(f, base@),
{
    if str_eq(base, "serif") {
        Family::Serif
    } else if str_eq(base, "sans-serif") {
        Family::SansSerif
    } else if str_eq(base, "cursive") {
        Family::Cursive
    } else if str_eq(base, "fantasy") {
        Family::Fantasy
    } else if str_eq(base, "monospace") {
        Family::Monospace
    } else {
        Family::Name(base.to_owned())
    }
}

impl Attrs {
    /// Applies one font option word.
    fn apply_font_option(&mut self, word: &str)
        ensures
            *final(self) == apply_font_word(*old(self), word@),
    {
        if str_eq(word, "normal") {
            self.style = Style::Normal;
        } else if str_eq(word, "italic") {
            self.style = Style::Italic;
        } else if str_eq(word, "oblique") {
            self.style = Style::Oblique;
        } else if str_eq(word, "thin") {
            self.weight = Weight(100);
        } else if str_eq(word, "extra_light") {
            self.weight = Weight(200);
        } else if str_eq(word, "light") {
            self.weight = Weight(300);
        } else if str_eq(word, "medium") {
            self.weight = Weight(500);
        } else if str_eq(word, "semibold") {
            self.weight = Weight(600);
        } else if str_eq(word, "bold") {
            self.weight = Weight(700);
        } else if str_eq(word, "extra_bold") {
            self.weight = Weight(800);
        } else if str_eq(word, "black") {
            self.weight = Weight(900);
        } else if str_eq(word, "ultracondensed") {
            self.stretch = Stretch::UltraCondensed;
        } else if str_eq(word, "extracondensed") {
            self.stretch = Stretch::ExtraCondensed;
        } else if str_eq(word, "condensed") {
            self.stretch = Stretch::Condensed;
        } else if str_eq(word, "semicondensed") {
            self.stretch = Stretch::SemiCondensed;
        } else if str_eq(word, "semiexpanded") {
            self.stretch = Stretch::SemiExpanded;
        } else if str_eq(word, "expanded") {
            self.stretch = Stretch::Expanded;
        } else if str_eq(word, "extraexpanded") {
            self.stretch = Stretch::ExtraExpanded;
        } else if str_eq(word, "ultraexpanded") {
            self.stretch = Stretch::UltraExpanded;
        }
    }

    /// Applies a font string such as `monospace:bold:italic`: the part
    /// before the first `:` selects the family, and each later part is an
    /// option word applied in order. The colour is left alone.
    pub fn apply_fontstr(&mut self, family: &str)
        ensures
            ({
                let parts = split_on(family@, ':');
                &&& family_named(final(self).family, parts[0])
                &&& *final(self) == (Attrs {
                    family: final(self).family,
                    ..apply_font_words(*old(self), parts.drop_first())
                })
            }),
    {
        let pieces = split_str(family, ':');
        proof {
            lemma_split_on_nonempty(family@, ':');
        }
        let ghost parts = views_of(pieces@);
        let ghost start = *self;
        self.family = family_from_base(pieces[0].as_str());
        let ghost chosen = self.family;
        let mut k: usize = 1;
        assert(parts.drop_first().take(0) =~= Seq::<Seq<char>>::empty());
        while k < pieces.len()
            invariant
                parts == views_of(pieces@),
                parts.len() >= 1,
                1 <= k <= pieces.len(),
                self.family == chosen,
                *self == (Attrs {
                    family: chosen,
                    ..apply_font_words(start, parts.drop_first().take(k - 1))
                }),
            decreases pieces.len() - k,
        {
            let ghost before = *self;
            self.apply_font_option(pieces[k].as_str());
            assert(parts.drop_first().take(k as int).drop_last() =~= parts.drop_first().take(
                k - 1,
            ));
            assert(parts.drop_first().take(k as int).last() == pieces@[k as int]@);
            k = k + 1;
        }
        assert(parts.drop_first().take(k - 1) =~= parts.drop_first());
    }

    /// Applies a style, weight or colour modifier; a strikethrough changes
    /// nothing.
    pub fn apply_modifier(&mut self, modifier: Modifier)
        ensures
            *final(self) == modified(*old(self), modifier),
    {
        match modifier {
            Modifier::Style(style) => self.style = style,
            Modifier::Weight(weight) => self.weight = weight,
            Modifier::Color(color) => self.color = color,
            Modifier::Strikethrough => {},
        }
    }
}

} // verus!
