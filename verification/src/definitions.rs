//! The closed set of languages this engine analyzes, and the mapping from a
//! language to the grammar capability that parses it.

use vstd::prelude::*;

verus! {

/// A language this engine can analyze. The set is closed: a new variant is
/// added deliberately, together with the grammar that parses it.
#[derive(Clone, Copy, PartialEq, Eq, Structural, Debug)]
pub enum SupportedLanguageE {
    LangC,
    LangCPP,
}

/// The language, if any, that a document-synchronization language identifier
/// denotes: `"c"` and `"cpp"` are recognized, everything else is not.
pub open spec fn language_of_id(id: Seq<char>) -> Option<SupportedLanguageE> {
    if id == "c"@ {
        Some(SupportedLanguageE::LangC)
    } else if id == "cpp"@ {
        Some(SupportedLanguageE::LangCPP)
    } else {
        None
    }
}

/// The language, if any, that a file extension denotes: `cpp`, `cxx` and
/// `cc` are C++, `c` and `h` are C, everything else is unrecognized.
pub open spec fn language_of_extension(ext: Seq<char>) -> Option<SupportedLanguageE> {
    if ext == "cpp"@ || ext == "cxx"@ || ext == "cc"@ {
        Some(SupportedLanguageE::LangCPP)
    } else if ext == "c"@ || ext == "h"@ {
        Some(SupportedLanguageE::LangC)
    } else {
        None
    }
}

#[verifier::external_type_specification]
#[verifier::external_body]
pub struct ExLanguage(tree_sitter::Language);

impl SupportedLanguageE {
    /// Resolves the identifier a client sent at document-open time.
    pub fn from_language_id(language_id: &str) -> (r: Option<SupportedLanguageE>)
        ensures
            r == language_of_id(language_id@),
    {
        let owned: String = language_id.to_owned();
        if owned == "c".to_owned() {
            Some(SupportedLanguageE::LangC)
        } else if owned == "cpp".to_owned() {
            Some(SupportedLanguageE::LangCPP)
        } else {
            None
        }
    }

    /// Resolves the file extension of a document's URI, for change events
    /// that carry no language identifier.
    pub fn from_file_extension(extension: &str) -> (r: Option<SupportedLanguageE>)
        ensures
            r == language_of_extension(extension@),
    {
        let owned: String = extension.to_owned();
        if owned == "cpp".to_owned() || owned == "cxx".to_owned() || owned == "cc".to_owned() {
            Some(SupportedLanguageE::LangCPP)
        } else if owned == "c".to_owned() || owned == "h".to_owned() {
            Some(SupportedLanguageE::LangC)
        } else {
            None
        }
    }

    /// Relies on tree_sitter_c::LANGUAGE and tree_sitter_cpp::LANGUAGE: each is
    /// the grammar capability for its language, converted to a parser language
    /// object. Nothing is assumed of the returned value; it is an opaque
    /// capability handed back to the parser.
    #[verifier::external_body]
    pub fn to_parser_language(self) -> tree_sitter::Language {
        match self {
            SupportedLanguageE::LangC => tree_sitter_c::LANGUAGE.into(),
            SupportedLanguageE::LangCPP => tree_sitter_cpp::LANGUAGE.into(),
        }
    }
}

} // verus!
