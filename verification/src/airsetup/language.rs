use vstd::prelude::*;

verus! {

/// A system language.
#[derive(Debug, Clone, Copy, PartialEq, Eq, Structural)]
pub enum Language {
    English,
    Czech,
    Slovak,
}

/// Name of a language in itself.
pub open spec fn language_label(l: Language) -> Seq<char> {
    match l {
        Language::English => "English"@,
        Language::Czech => "Čeština"@,
        Language::Slovak => "Slovenčina"@,
    }
}

/// IETF code of a language.
pub open spec fn language_code(l: Language) -> Seq<char> {
    match l {
        Language::English => "en"@,
        Language::Czech => "cs"@,
        Language::Slovak => "sk"@,
    }
}

/// Every language has a name, and no two languages share a code.
pub proof fn lemma_language_codes(a: Language, b: Language)
    ensures
        language_label(a).len() > 0,
        a != b ==> language_code(a) != language_code(b),
{
    reveal_strlit("English");
    reveal_strlit("Čeština");
    reveal_strlit("Slovenčina");
    reveal_strlit("en");
    reveal_strlit("cs");
    reveal_strlit("sk");
    if a != b {
        assert(language_code(a)[0] != language_code(b)[0]);
    }
}

impl Language {
    /// All languages offered.
    pub fn all() -> (v: Vec<Self>)
        ensures
            v@ == seq![Language::English, Language::Czech, Language::Slovak],
    {
        let v: Vec<Language> = vec![Language::English, Language::Czech, Language::Slovak];
        proof {
            assert(v@ =~= seq![Language::English, Language::Czech, Language::Slovak]);
        }
        v
    }

    /// Name of the language in itself.
    pub fn label(self) -> (s: &'static str)
        ensures
            s@ == language_label(self),
    {
        match self {
            Language::English => "English",
            Language::Czech => "Čeština",
            Language::Slovak => "Slovenčina",
        }
    }

    /// IETF language code.
    pub fn code(self) -> (s: &'static str)
        ensures
            s@ == language_code(self),
    {
        match self {
            Language::English => "en",
            Language::Czech => "cs",
            Language::Slovak => "sk",
        }
    }
}

/// The language step.
#[derive(Debug)]
pub struct LanguageStep {
    pub selected: Language,
}

impl LanguageStep {
    pub fn new() -> (s: Self)
        ensures
            s.selected == Language::English,
    {
        LanguageStep { selected: Language::English }
    }

    pub fn select(&mut self, lang: Language)
        ensures
            final(self).selected == lang,
    {
        self.selected = lang;
    }
}

impl Default for LanguageStep {
    fn default() -> (s: Self)
        ensures
            s.selected == Language::English,
    {
        Self::new()
    }
}

} // verus!
