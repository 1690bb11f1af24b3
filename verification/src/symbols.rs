//! Symbol tables: the static table of known literals that classifies a
//! lexeme, and the entries that a validation run emits.

use vstd::hash_map::StringHashMap;
use vstd::prelude::*;
use vstd::string::*;

verus! {

/// A lexeme together with the label it was classified under.
#[derive(Clone, Debug, PartialEq, Eq)]
pub struct SymbolEntry {
    pub lexeme: String,
    pub label: String,
}

impl View for SymbolEntry {
    type V = (Seq<char>, Seq<char>);

    open spec fn view(&self) -> (Seq<char>, Seq<char>) {
        (self.lexeme@, self.label@)
    }
}

impl DeepView for SymbolEntry {
    type V = (Seq<char>, Seq<char>);

    open spec fn deep_view(&self) -> (Seq<char>, Seq<char>) {
        self@
    }
}

/// The text of the line that reports an entry.
pub open spec fn entry_line(entry: (Seq<char>, Seq<char>)) -> Seq<char> {
    "token: "@ + entry.0 + " token_type: "@ + entry.1
}

impl SymbolEntry {
    /// The line that reports this entry: `token: <lexeme> token_type: <label>`.
    pub fn line(&self) -> (r: String)
        ensures
            r@ == entry_line(self@),
    {
        let mut text = String::from_str("token: ");
        text.append(self.lexeme.as_str());
        text.append(" token_type: ");
        text.append(self.label.as_str());
        text
    }
}

/// The static symbol table: a finite map from literal lexemes to labels. It is
/// filled when the configuration is loaded and only read afterwards.
pub struct SymbolTable {
    labels: StringHashMap<String>,
}

impl View for SymbolTable {
    type V = Map<Seq<char>, Seq<char>>;

    closed spec fn view(&self) -> Map<Seq<char>, Seq<char>> {
        self.labels@.map_values(|label: String| label@)
    }
}

impl SymbolTable {
    /// The table without entries.
    pub fn new() -> (r: SymbolTable)
        ensures
            r@ == Map::<Seq<char>, Seq<char>>::empty(),
    {
        let r = SymbolTable { labels: StringHashMap::new() };
        r
    }

    /// Registers `label` for `lexeme`, in place of any label that the lexeme
    /// had before.
    pub fn insert(&mut self, lexeme: String, label: String)
        ensures
            final(self)@ == old(self)@.insert(lexeme@, label@),
    {
        self.labels.insert(lexeme, label);
    }

    /// The label registered for exactly this lexeme, if there is one.
    pub fn classify(&self, lexeme: &str) -> (r: Option<String>)
        ensures
            match r {
                Some(label) => self@.contains_key(lexeme@) && label@ == self@[lexeme@],
                None => !self@.contains_key(lexeme@),
            },
    {
        match self.labels.get(lexeme) {
            Some(label) => Some(label.clone()),
            None => None,
        }
    }
}

} // verus!
