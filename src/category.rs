//! Resource categories of bill-of-quantities items, the marker rows that
//! announce them, and the one-letter code prefix each one carries.
use vstd::prelude::*;
use crate::text::text_eq;

verus! {

/// The resource kind of a line item.
#[derive(Clone, Copy, Debug, PartialEq, Eq, Structural)]
pub enum Category {
    Labor,
    Material,
    Machine,
    Uncategorized,
}

/// The text of a marker row that opens the section of category `c`.
pub open spec fn marker_spec(c: Category) -> Seq<char> {
    match c {
        Category::Labor => "人工类别"@,
        Category::Material => "材料类别"@,
        Category::Machine => "机械类别"@,
        Category::Uncategorized => "未知类别"@,
    }
}

/// The category that a marker text announces, if it is one of the three markers.
pub open spec fn classify_spec(s: Seq<char>) -> Option<Category> {
    if s == marker_spec(Category::Labor) {
        Some(Category::Labor)
    } else if s == marker_spec(Category::Material) {
        Some(Category::Material)
    } else if s == marker_spec(Category::Machine) {
        Some(Category::Machine)
    } else {
        None
    }
}

/// The letter that codes of category `c` start with.
pub open spec fn prefix_spec(c: Category) -> Option<char> {
    match c {
        Category::Labor => Some('L'),
        Category::Material => Some('M'),
        Category::Machine => Some('E'),
        Category::Uncategorized => None,
    }
}

/// Whether `c` is one of the three code-prefix letters.
pub open spec fn is_prefix_letter(c: char) -> bool {
    c == 'L' || c == 'M' || c == 'E'
}

/// The name a category is stored under.
pub open spec fn name_spec(c: Category) -> Seq<char> {
    match c {
        Category::Labor => "labor"@,
        Category::Material => "material"@,
        Category::Machine => "machine"@,
        Category::Uncategorized => "none"@,
    }
}

/// The category stored under `s`; unknown names are uncategorized.
pub open spec fn from_name_spec(s: Seq<char>) -> Category {
    if s == name_spec(Category::Labor) {
        Category::Labor
    } else if s == name_spec(Category::Material) {
        Category::Material
    } else if s == name_spec(Category::Machine) {
        Category::Machine
    } else {
        Category::Uncategorized
    }
}

/// The three marker texts (and the fallback text) are pairwise distinct.
pub proof fn lemma_markers_distinct()
    ensures
        marker_spec(Category::Labor) != marker_spec(Category::Material),
        marker_spec(Category::Labor) != marker_spec(Category::Machine),
        marker_spec(Category::Material) != marker_spec(Category::Machine),
        marker_spec(Category::Uncategorized) != marker_spec(Category::Labor),
        marker_spec(Category::Uncategorized) != marker_spec(Category::Material),
        marker_spec(Category::Uncategorized) != marker_spec(Category::Machine),
{
    reveal_strlit("人工类别");
    reveal_strlit("材料类别");
    reveal_strlit("机械类别");
    reveal_strlit("未知类别");
    assert(marker_spec(Category::Labor)[0] != marker_spec(Category::Material)[0]);
    assert(marker_spec(Category::Labor)[0] != marker_spec(Category::Machine)[0]);
    assert(marker_spec(Category::Material)[0] != marker_spec(Category::Machine)[0]);
    assert(marker_spec(Category::Uncategorized)[0] != marker_spec(Category::Labor)[0]);
    assert(marker_spec(Category::Uncategorized)[0] != marker_spec(Category::Material)[0]);
    assert(marker_spec(Category::Uncategorized)[0] != marker_spec(Category::Machine)[0]);
}

/// The stored names are pairwise distinct.
pub proof fn lemma_names_distinct()
    ensures
        name_spec(Category::Labor) != name_spec(Category::Material),
        name_spec(Category::Labor) != name_spec(Category::Machine),
        name_spec(Category::Labor) != name_spec(Category::Uncategorized),
        name_spec(Category::Material) != name_spec(Category::Machine),
        name_spec(Category::Material) != name_spec(Category::Uncategorized),
        name_spec(Category::Machine) != name_spec(Category::Uncategorized),
{
    reveal_strlit("labor");
    reveal_strlit("material");
    reveal_strlit("machine");
    reveal_strlit("none");
    assert(name_spec(Category::Labor)[0] != name_spec(Category::Material)[0]);
    assert(name_spec(Category::Labor)[0] != name_spec(Category::Machine)[0]);
    assert(name_spec(Category::Labor)[0] != name_spec(Category::Uncategorized)[0]);
    assert(name_spec(Category::Material).len() != name_spec(Category::Machine).len()
        || name_spec(Category::Material)[2] != name_spec(Category::Machine)[2]);
    assert(name_spec(Category::Material)[0] != name_spec(Category::Uncategorized)[0]);
    assert(name_spec(Category::Machine)[0] != name_spec(Category::Uncategorized)[0]);
}

impl Category {
    /// The category announced by a marker row, or `None` for any other text.
    /// The match is exact: surrounding whitespace makes it no marker.
    pub fn classify(text: &str) -> (r: Option<Category>)
        ensures
            r == classify_spec(text@),
    {
        if text_eq(text, "人工类别") {
            Some(Category::Labor)
        } else if text_eq(text, "材料类别") {
            Some(Category::Material)
        } else if text_eq(text, "机械类别") {
            Some(Category::Machine)
        } else {
            None
        }
    }

    /// The marker text of this category.
    pub fn marker(self) -> (r: &'static str)
        ensures
            r@ == marker_spec(self),
    {
        match self {
            Category::Labor => "人工类别",
            Category::Material => "材料类别",
            Category::Machine => "机械类别",
            Category::Uncategorized => "未知类别",
        }
    }

    /// The code prefix letter of this category; uncategorized items have none.
    pub fn prefix(self) -> (r: Option<char>)
        ensures
            r == prefix_spec(self),
    {
        match self {
            Category::Labor => Some('L'),
            Category::Material => Some('M'),
            Category::Machine => Some('E'),
            Category::Uncategorized => None,
        }
    }

    /// The name this category is stored under.
    pub fn name(self) -> (r: &'static str)
        ensures
            r@ == name_spec(self),
    {
        match self {
            Category::Labor => "labor",
            Category::Material => "material",
            Category::Machine => "machine",
            Category::Uncategorized => "none",
        }
    }

    /// The category stored under `s`; any unknown name reads as uncategorized.
    pub fn from_name(s: &str) -> (r: Category)
        ensures
            r == from_name_spec(s@),
    {
        if text_eq(s, "labor") {
            Category::Labor
        } else if text_eq(s, "material") {
            Category::Material
        } else if text_eq(s, "machine") {
            Category::Machine
        } else {
            Category::Uncategorized
        }
    }
}

/// Classifying the marker text of any of the three categories gives that
/// category back, and its prefix is the category's letter.
pub proof fn lemma_classify_marker(c: Category)
    requires
        c != Category::Uncategorized,
    ensures
        classify_spec(marker_spec(c)) == Some(c),
        prefix_spec(c) is Some,
        is_prefix_letter(prefix_spec(c)->0),
{
    lemma_markers_distinct();
}

/// Classification is exact: a text is classified only when it is one of the
/// three marker texts, and then as that marker's category, which has a
/// prefix letter.
pub proof fn lemma_classify_exact(s: Seq<char>)
    ensures
        classify_spec(s) matches Some(c) ==> s == marker_spec(c) && c != Category::Uncategorized
            && prefix_spec(c) is Some,
        (s != marker_spec(Category::Labor) && s != marker_spec(Category::Material) && s
            != marker_spec(Category::Machine)) ==> classify_spec(s) is None,
{
}

/// The fallback marker of uncategorized items is not itself a marker.
pub proof fn lemma_fallback_not_marker()
    ensures
        classify_spec(marker_spec(Category::Uncategorized)) is None,
{
    lemma_markers_distinct();
}

/// Reading back the stored name of a category gives the category.
pub proof fn lemma_name_round_trip(c: Category)
    ensures
        from_name_spec(name_spec(c)) == c,
{
    lemma_names_distinct();
}

} // verus!
