//! The syntax-highlighting collaborator: an explicitly constructed handle
//! around syntect's bundled syntax and theme tables, injected into the
//! renderer. Highlighting is best-effort — a lookup or highlighting failure
//! is reported as `None` and never an error — and the language-alias policy
//! for unsupported tags lives with the renderer, not here.
use vstd::prelude::*;
use vstd::string::StringExecFns;
use crate::text::str_eq;

verus! {

#[verifier::external_type_specification]
#[verifier::external_body]
pub struct ExSyntaxSet(syntect::parsing::SyntaxSet);

#[verifier::external_type_specification]
#[verifier::external_body]
pub struct ExTheme(syntect::highlighting::Theme);

/// The highlighted HTML that syntect's bundled tables produce for a code
/// text under a theme, when the language token is found by token lookup
/// and highlighting succeeds. The result depends only on the three
/// arguments, since the tables are fixed data bundled with the library.
pub uninterp spec fn token_highlight_of(
    theme: Seq<char>,
    token: Seq<char>,
    code: Seq<char>,
) -> Option<Seq<char>>;

/// As `token_highlight_of`, but for lookup by exact syntax name.
pub uninterp spec fn named_highlight_of(
    theme: Seq<char>,
    name: Seq<char>,
    code: Seq<char>,
) -> Option<Seq<char>>;

/// A handle on syntect's bundled syntax table and one of its bundled
/// themes, chosen by name at construction. Built once at program start and
/// passed by reference into every render.
pub struct Highlighter {
    syntaxes: syntect::parsing::SyntaxSet,
    theme: syntect::highlighting::Theme,
    theme_name: String,
}

impl Highlighter {
    /// The name of the theme this handle highlights with; the contracts of
    /// the highlighting calls are stated over it.
    pub closed spec fn theme_id(&self) -> Seq<char> {
        self.theme_name@
    }

    /// Relies on `SyntaxSet::load_defaults_newlines`, `ThemeSet::load_defaults`
    /// and `BTreeMap::get`: builds the handle from syntect's bundled tables,
    /// returning `None` when no bundled theme carries the requested name.
    #[verifier::external_body]
    pub fn new(theme_name: &str) -> (r: Option<Highlighter>)
        ensures
            (match r {
                Some(h) => h.theme_id() == theme_name@,
                None => true,
            }),
    {
        let syntaxes = syntect::parsing::SyntaxSet::load_defaults_newlines();
        let themes = syntect::highlighting::ThemeSet::load_defaults();
        match themes.themes.get(theme_name) {
            Some(theme) => Some(Highlighter {
                syntaxes,
                theme: theme.clone(),
                theme_name: theme_name.to_string(),
            }),
            None => None,
        }
    }

    /// Relies on `SyntaxSet::find_syntax_by_token` and
    /// `highlighted_html_for_string`: looks the token up in the bundled
    /// table and renders the highlighted HTML snippet, `None` when the
    /// token is unknown or highlighting fails. Both steps read only the
    /// bundled tables and the chosen theme, so the outcome is the function
    /// of the theme name, token and code that `token_highlight_of` names.
    #[verifier::external_body]
    pub fn highlight_by_token(&self, token: &str, code: &str) -> (r: Option<String>)
        ensures
            (match r {
                Some(h) => token_highlight_of(self.theme_id(), token@, code@) == Some(h@),
                None => token_highlight_of(self.theme_id(), token@, code@) is None,
            }),
    {
        match self.syntaxes.find_syntax_by_token(token) {
            Some(syntax) => syntect::html::highlighted_html_for_string(
                code,
                &self.syntaxes,
                syntax,
                &self.theme,
            ).ok(),
            None => None,
        }
    }

    /// Relies on `SyntaxSet::find_syntax_by_name` and
    /// `highlighted_html_for_string`, as `highlight_by_token` does for
    /// token lookup; `named_highlight_of` names the outcome.
    #[verifier::external_body]
    pub fn highlight_by_name(&self, name: &str, code: &str) -> (r: Option<String>)
        ensures
            (match r {
                Some(h) => named_highlight_of(self.theme_id(), name@, code@) == Some(h@),
                None => named_highlight_of(self.theme_id(), name@, code@) is None,
            }),
    {
        match self.syntaxes.find_syntax_by_name(name) {
            Some(syntax) => syntect::html::highlighted_html_for_string(
                code,
                &self.syntaxes,
                syntax,
                &self.theme,
            ).ok(),
            None => None,
        }
    }
}

/// The renderer's alias policy for language tags whose grammar is not
/// bundled: such a tag is retried under the name of a visually similar
/// bundled grammar.
pub open spec fn alias_of(lang: Seq<char>) -> Option<Seq<char>> {
    if lang == "nix"@ {
        Some("JavaScript"@)
    } else if lang == "toml"@ {
        Some("YAML"@)
    } else {
        None
    }
}

/// The fallback grammar name for an unsupported language tag, if any.
pub fn alias_for_language(lang: &str) -> (r: Option<&'static str>)
    ensures
        (match r {
            Some(name) => alias_of(lang@) == Some(name@),
            None => alias_of(lang@) is None,
        }),
{
    if str_eq(lang, "nix") {
        Some("JavaScript")
    } else if str_eq(lang, "toml") {
        Some("YAML")
    } else {
        None
    }
}

} // verus!
