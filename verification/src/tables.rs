//! Compile-time character tables: diacritic-to-ASCII, confusable-to-ASCII and
//! typographic replacements. Replacements are one or two ASCII characters.

use vstd::prelude::*;

verus! {

/// The script family of a confusable character, used in finding notes.
#[derive(Clone, Copy, PartialEq, Eq, Debug)]
pub enum ConfusableScript {
    Cyrillic,
    Greek,
}

/// The three-letter abbreviation written in confusable notes.
pub open spec fn spec_script_abbrev(t: ConfusableScript) -> Seq<char> {
    match t {
        ConfusableScript::Cyrillic => seq!['c', 'y', 'r'],
        ConfusableScript::Greek => seq!['g', 'r', 'e'],
    }
}

/// The ASCII replacement for a precomposed Latin letter with a diacritic:
/// one or, for ligatures, two characters.
pub open spec fn spec_diacritic(c: char) -> Option<(char, Option<char>)> {
    match c {
        'à' | 'á' | 'â' | 'ä' | 'ã' | 'å' => Some(('a', None)),
        'À' | 'Á' | 'Â' | 'Ä' | 'Ã' | 'Å' => Some(('A', None)),
        'ç' => Some(('c', None)),
        'Ç' => Some(('C', None)),
        'è' | 'é' | 'ê' | 'ë' => Some(('e', None)),
        'È' | 'É' | 'Ê' | 'Ë' => Some(('E', None)),
        'ì' | 'í' | 'î' | 'ï' => Some(('i', None)),
        'Ì' | 'Í' | 'Î' | 'Ï' => Some(('I', None)),
        'ñ' => Some(('n', None)),
        'Ñ' => Some(('N', None)),
        'ò' | 'ó' | 'ô' | 'ö' | 'õ' => Some(('o', None)),
        'Ò' | 'Ó' | 'Ô' | 'Ö' | 'Õ' => Some(('O', None)),
        'ù' | 'ú' | 'û' | 'ü' => Some(('u', None)),
        'Ù' | 'Ú' | 'Û' | 'Ü' => Some(('U', None)),
        'ÿ' => Some(('y', None)),
        'Ÿ' => Some(('Y', None)),
        'œ' => Some(('o', Some('e'))),
        'Œ' => Some(('O', Some('E'))),
        'æ' => Some(('a', Some('e'))),
        'Æ' => Some(('A', Some('E'))),
        _ => None,
    }
}

/// Executable diacritic lookup.
pub fn diacritic_replacement(c: char) -> (r: Option<(char, Option<char>)>)
    ensures
        r == spec_diacritic(c),
{
    match c {
        'à' | 'á' | 'â' | 'ä' | 'ã' | 'å' => Some(('a', None)),
        'À' | 'Á' | 'Â' | 'Ä' | 'Ã' | 'Å' => Some(('A', None)),
        'ç' => Some(('c', None)),
        'Ç' => Some(('C', None)),
        'è' | 'é' | 'ê' | 'ë' => Some(('e', None)),
        'È' | 'É' | 'Ê' | 'Ë' => Some(('E', None)),
        'ì' | 'í' | 'î' | 'ï' => Some(('i', None)),
        'Ì' | 'Í' | 'Î' | 'Ï' => Some(('I', None)),
        'ñ' => Some(('n', None)),
        'Ñ' => Some(('N', None)),
        'ò' | 'ó' | 'ô' | 'ö' | 'õ' => Some(('o', None)),
        'Ò' | 'Ó' | 'Ô' | 'Ö' | 'Õ' => Some(('O', None)),
        'ù' | 'ú' | 'û' | 'ü' => Some(('u', None)),
        'Ù' | 'Ú' | 'Û' | 'Ü' => Some(('U', None)),
        'ÿ' => Some(('y', None)),
        'Ÿ' => Some(('Y', None)),
        'œ' => Some(('o', Some('e'))),
        'Œ' => Some(('O', Some('E'))),
        'æ' => Some(('a', Some('e'))),
        'Æ' => Some(('A', Some('E'))),
        _ => None,
    }
}

/// The character sequence a replacement stands for.
pub open spec fn spec_repl_seq(r: (char, Option<char>)) -> Seq<char> {
    match r.1 {
        None => seq![r.0],
        Some(second) => seq![r.0, second],
    }
}

/// The Latin letter a Cyrillic or Greek lookalike is confused with, and the
/// script the lookalike belongs to.
pub open spec fn spec_confusable(c: char) -> Option<(char, ConfusableScript)> {
    match c {
        'а' => Some(('a', ConfusableScript::Cyrillic)),
        'А' => Some(('A', ConfusableScript::Cyrillic)),
        'е' => Some(('e', ConfusableScript::Cyrillic)),
        'Е' => Some(('E', ConfusableScript::Cyrillic)),
        'о' => Some(('o', ConfusableScript::Cyrillic)),
        'О' => Some(('O', ConfusableScript::Cyrillic)),
        'р' => Some(('p', ConfusableScript::Cyrillic)),
        'Р' => Some(('P', ConfusableScript::Cyrillic)),
        'с' => Some(('c', ConfusableScript::Cyrillic)),
        'С' => Some(('C', ConfusableScript::Cyrillic)),
        'у' => Some(('y', ConfusableScript::Cyrillic)),
        'У' => Some(('Y', ConfusableScript::Cyrillic)),
        'х' => Some(('x', ConfusableScript::Cyrillic)),
        'Х' => Some(('X', ConfusableScript::Cyrillic)),
        'Α' => Some(('A', ConfusableScript::Greek)),
        'Β' => Some(('B', ConfusableScript::Greek)),
        'Ε' => Some(('E', ConfusableScript::Greek)),
        'Η' => Some(('H', ConfusableScript::Greek)),
        'Ι' => Some(('I', ConfusableScript::Greek)),
        'Κ' => Some(('K', ConfusableScript::Greek)),
        'Μ' => Some(('M', ConfusableScript::Greek)),
        'Ν' => Some(('N', ConfusableScript::Greek)),
        'Ο' => Some(('O', ConfusableScript::Greek)),
        'Ρ' => Some(('P', ConfusableScript::Greek)),
        'Τ' => Some(('T', ConfusableScript::Greek)),
        'Χ' => Some(('X', ConfusableScript::Greek)),
        'Υ' => Some(('Y', ConfusableScript::Greek)),
        _ => None,
    }
}

/// Executable confusable lookup.
pub fn confusable_replacement(c: char) -> (r: Option<(char, ConfusableScript)>)
    ensures
        r == spec_confusable(c),
{
    match c {
        'а' => Some(('a', ConfusableScript::Cyrillic)),
        'А' => Some(('A', ConfusableScript::Cyrillic)),
        'е' => Some(('e', ConfusableScript::Cyrillic)),
        'Е' => Some(('E', ConfusableScript::Cyrillic)),
        'о' => Some(('o', ConfusableScript::Cyrillic)),
        'О' => Some(('O', ConfusableScript::Cyrillic)),
        'р' => Some(('p', ConfusableScript::Cyrillic)),
        'Р' => Some(('P', ConfusableScript::Cyrillic)),
        'с' => Some(('c', ConfusableScript::Cyrillic)),
        'С' => Some(('C', ConfusableScript::Cyrillic)),
        'у' => Some(('y', ConfusableScript::Cyrillic)),
        'У' => Some(('Y', ConfusableScript::Cyrillic)),
        'х' => Some(('x', ConfusableScript::Cyrillic)),
        'Х' => Some(('X', ConfusableScript::Cyrillic)),
        'Α' => Some(('A', ConfusableScript::Greek)),
        'Β' => Some(('B', ConfusableScript::Greek)),
        'Ε' => Some(('E', ConfusableScript::Greek)),
        'Η' => Some(('H', ConfusableScript::Greek)),
        'Ι' => Some(('I', ConfusableScript::Greek)),
        'Κ' => Some(('K', ConfusableScript::Greek)),
        'Μ' => Some(('M', ConfusableScript::Greek)),
        'Ν' => Some(('N', ConfusableScript::Greek)),
        'Ο' => Some(('O', ConfusableScript::Greek)),
        'Ρ' => Some(('P', ConfusableScript::Greek)),
        'Τ' => Some(('T', ConfusableScript::Greek)),
        'Χ' => Some(('X', ConfusableScript::Greek)),
        'Υ' => Some(('Y', ConfusableScript::Greek)),
        _ => None,
    }
}

/// Typographic punctuation folded to ASCII in the fr-fraud profile.
pub open spec fn spec_typographic(c: char) -> Option<char> {
    match c {
        '«' | '»' | '“' | '”' => Some('"'),
        '‘' | '’' => Some('\''),
        '–' | '—' | '‑' => Some('-'),
        _ => None,
    }
}

/// Executable typographic lookup.
pub fn typographic_replacement(c: char) -> (r: Option<char>)
    ensures
        r == spec_typographic(c),
{
    match c {
        '«' | '»' | '“' | '”' => Some('"'),
        '‘' | '’' => Some('\''),
        '–' | '—' | '‑' => Some('-'),
        _ => None,
    }
}

} // verus!
