//! The grammar entry point and the selector that holds the active one.

use vstd::prelude::*;

verus! {

/// The grammar production that the whole input is matched against.
#[derive(Clone, Copy, PartialEq, Eq, Debug, Structural)]
pub enum GrammarEntryPoint {
    /// Lexical acceptance only: the text is split into tokens.
    TokenStreamOnly,
    /// A single top-level declaration.
    TopLevelItem,
    /// A selector state that no legitimate option leads to.
    Unrecognized,
}

/// The entry point that an option label stands for. Every label other than
/// the two known ones stands for `Unrecognized`.
pub open spec fn entry_point_named(label: Seq<char>) -> GrammarEntryPoint {
    if label == "TokenStream"@ {
        GrammarEntryPoint::TokenStreamOnly
    } else if label == "Item"@ {
        GrammarEntryPoint::TopLevelItem
    } else {
        GrammarEntryPoint::Unrecognized
    }
}

impl GrammarEntryPoint {
    /// Whether a parse is attempted under this entry point.
    pub open spec fn is_real(self) -> bool {
        self != GrammarEntryPoint::Unrecognized
    }

    /// The entry point that the option label `label` selects.
    pub fn from_label(label: &str) -> (mode: GrammarEntryPoint)
        ensures
            mode == entry_point_named(label@),
    {
        let given = label.to_owned();
        if given == "TokenStream".to_owned() {
            GrammarEntryPoint::TokenStreamOnly
        } else if given == "Item".to_owned() {
            GrammarEntryPoint::TopLevelItem
        } else {
            GrammarEntryPoint::Unrecognized
        }
    }

    /// The option label of a real entry point; `Unrecognized` has none.
    pub open spec fn label_of(self) -> Option<Seq<char>> {
        match self {
            GrammarEntryPoint::TokenStreamOnly => Some("TokenStream"@),
            GrammarEntryPoint::TopLevelItem => Some("Item"@),
            GrammarEntryPoint::Unrecognized => None,
        }
    }

    /// The option label of a real entry point; `Unrecognized` has none.
    pub fn label(self) -> (label: Option<&'static str>)
        ensures
            label.is_some() == self.label_of().is_some(),
            label matches Some(text) ==> self.label_of() == Some(text@),
    {
        match self {
            GrammarEntryPoint::TokenStreamOnly => Some("TokenStream"),
            GrammarEntryPoint::TopLevelItem => Some("Item"),
            GrammarEntryPoint::Unrecognized => None,
        }
    }
}

/// An entry point has a label exactly if it is real, and a real entry point
/// is found again from its own label.
pub proof fn lemma_label_names_its_entry_point(mode: GrammarEntryPoint)
    ensures
        mode.is_real() <==> mode.label_of().is_some(),
        mode.is_real() ==> entry_point_named(mode.label_of().unwrap()) == mode,
{
    reveal_strlit("TokenStream");
    reveal_strlit("Item");
    assert("Item"@.len() != "TokenStream"@.len());
}

/// Holds the entry point that is active. Exactly one is active at any time.
#[derive(Debug)]
pub struct ModeSelector {
    mode: GrammarEntryPoint,
}

impl ModeSelector {
    /// The entry point that is held.
    pub closed spec fn view(&self) -> GrammarEntryPoint {
        self.mode
    }

    /// A selector that holds `TopLevelItem`, the entry point of a new session.
    pub fn new() -> (selector: ModeSelector)
        ensures
            selector@ == GrammarEntryPoint::TopLevelItem,
    {
        ModeSelector { mode: GrammarEntryPoint::TopLevelItem }
    }

    /// The entry point that is active.
    pub fn current(&self) -> (mode: GrammarEntryPoint)
        ensures
            mode == self@,
    {
        self.mode
    }

    /// Replaces the held entry point by `new_mode`. The result tells the
    /// observers whether the held value changed.
    pub fn select(&mut self, new_mode: GrammarEntryPoint) -> (changed: bool)
        ensures
            final(self)@ == new_mode,
            changed == (old(self)@ != new_mode),
        no_unwind
    {
        let changed = self.mode != new_mode;
        self.mode = new_mode;
        changed
    }
}

} // verus!
