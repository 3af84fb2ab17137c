//! The categories of the settings dialog.
use vstd::prelude::*;

verus! {

/// A page of the settings dialog.
#[derive(Debug, Clone, Copy, PartialEq, Eq, Structural, Default)]
pub enum SettingsCategory {
    #[default]
    General,
    Appearance,
    Shortcuts,
    About,
}

/// The label shown for a category.
pub open spec fn category_label(c: SettingsCategory) -> Seq<char> {
    match c {
        SettingsCategory::General => "General"@,
        SettingsCategory::Appearance => "Appearance"@,
        SettingsCategory::Shortcuts => "Shortcuts"@,
        SettingsCategory::About => "About"@,
    }
}

/// The categories in the order the dialog lists them.
pub open spec fn all_categories() -> Seq<SettingsCategory> {
    seq![
        SettingsCategory::General,
        SettingsCategory::Appearance,
        SettingsCategory::Shortcuts,
        SettingsCategory::About,
    ]
}

impl SettingsCategory {
    pub fn label(&self) -> (r: &'static str)
        ensures
            r@ == category_label(*self),
    {
        match self {
            SettingsCategory::General => "General",
            SettingsCategory::Appearance => "Appearance",
            SettingsCategory::Shortcuts => "Shortcuts",
            SettingsCategory::About => "About",
        }
    }

    pub fn all() -> (r: &'static [SettingsCategory])
        ensures
            r@ == all_categories(),
    {
        let r: &'static [SettingsCategory] = &[
            SettingsCategory::General,
            SettingsCategory::Appearance,
            SettingsCategory::Shortcuts,
            SettingsCategory::About,
        ];
        r
    }
}

/// Every category is listed exactly once by `all`.
pub proof fn law_all_categories_listed(c: SettingsCategory)
    ensures
        all_categories().contains(c),
        all_categories().len() == 4,
        forall|i: int, j: int|
            0 <= i < j < 4 ==> all_categories()[i] != all_categories()[j],
{
    let s = all_categories();
    match c {
        SettingsCategory::General => assert(s[0] == c),
        SettingsCategory::Appearance => assert(s[1] == c),
        SettingsCategory::Shortcuts => assert(s[2] == c),
        SettingsCategory::About => assert(s[3] == c),
    }
}

} // verus!
