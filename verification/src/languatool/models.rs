//! The part of LanguageTool's `/v2/check` reply that the editor reads.
use vstd::prelude::*;

verus! {

/// One replacement that LanguageTool proposes for a match.
#[derive(Debug, Clone, PartialEq)]
pub struct ReplacementDto {
    pub value: String,
}

/// One problem that LanguageTool found: where it is and what could replace it.
#[derive(Debug, Clone, PartialEq)]
pub struct MatchDto {
    pub offset: i32,
    pub length: i32,
    pub replacements: Vec<ReplacementDto>,
}

/// The reply of LanguageTool's `/v2/check`.
#[derive(Debug, Clone, PartialEq)]
pub struct LanguageToolDto {
    pub matches: Vec<MatchDto>,
}

} // verus!
