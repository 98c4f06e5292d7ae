//! The buffer that the dialogue box is drawn from.

use vstd::prelude::*;

verus! {

/// The line that the dialogue box shows: who speaks, if anyone is named, and
/// what is said. The text is shown as it comes; nothing here reads it.
#[derive(Debug, PartialEq, Eq)]
pub struct DialogBoxContent {
    pub character: Option<String>,
    pub line: String,
}

/// A `DialogBoxContent` as the characters it holds.
pub ghost struct DialogBoxContentView {
    pub character: Option<Seq<char>>,
    pub line: Seq<char>,
}

impl View for DialogBoxContent {
    type V = DialogBoxContentView;

    open spec fn view(&self) -> DialogBoxContentView {
        DialogBoxContentView {
            character: match self.character {
                Some(name) => Some(name@),
                None => None,
            },
            line: self.line@,
        }
    }
}

impl DialogBoxContent {
    /// The content before any line was presented: no speaker, no text.
    pub open spec fn blank() -> DialogBoxContentView {
        DialogBoxContentView { character: None, line: Seq::empty() }
    }
}

impl Default for DialogBoxContent {
    fn default() -> (content: Self)
        ensures
            content@ == DialogBoxContent::blank(),
    {
        DialogBoxContent { character: None, line: String::new() }
    }
}

} // verus!
