//! Accent characters per letter key and language.

use vstd::prelude::*;
use super::settings::Language;

verus! {

/// A key that may have accented characters.
#[derive(Debug, Clone, Copy, PartialEq, Eq, Hash, Structural)]
pub enum LetterKey {
    VK0,
    VK1,
    VK2,
    VK3,
    VK4,
    VK5,
    VK6,
    VK7,
    VK8,
    VK9,
    VkA,
    VkB,
    VkC,
    VkD,
    VkE,
    VkF,
    VkG,
    VkH,
    VkI,
    VkJ,
    VkK,
    VkL,
    VkM,
    VkN,
    VkO,
    VkP,
    VkQ,
    VkR,
    VkS,
    VkT,
    VkU,
    VkV,
    VkW,
    VkX,
    VkY,
    VkZ,
    VkComma,
    VkPeriod,
    VkMinus,
    VkPlus,
}

/// The letter key of a virtual-key code, if any.
pub open spec fn letter_of_vk(vk: u32) -> Option<LetterKey> {
    if vk == 0x30 {
        Some(LetterKey::VK0)
    } else if vk == 0x31 {
        Some(LetterKey::VK1)
    } else if vk == 0x32 {
        Some(LetterKey::VK2)
    } else if vk == 0x33 {
        Some(LetterKey::VK3)
    } else if vk == 0x34 {
        Some(LetterKey::VK4)
    } else if vk == 0x35 {
        Some(LetterKey::VK5)
    } else if vk == 0x36 {
        Some(LetterKey::VK6)
    } else if vk == 0x37 {
        Some(LetterKey::VK7)
    } else if vk == 0x38 {
        Some(LetterKey::VK8)
    } else if vk == 0x39 {
        Some(LetterKey::VK9)
    } else if vk == 0x41 {
        Some(LetterKey::VkA)
    } else if vk == 0x42 {
        Some(LetterKey::VkB)
    } else if vk == 0x43 {
        Some(LetterKey::VkC)
    } else if vk == 0x44 {
        Some(LetterKey::VkD)
    } else if vk == 0x45 {
        Some(LetterKey::VkE)
    } else if vk == 0x46 {
        Some(LetterKey::VkF)
    } else if vk == 0x47 {
        Some(LetterKey::VkG)
    } else if vk == 0x48 {
        Some(LetterKey::VkH)
    } else if vk == 0x49 {
        Some(LetterKey::VkI)
    } else if vk == 0x4A {
        Some(LetterKey::VkJ)
    } else if vk == 0x4B {
        Some(LetterKey::VkK)
    } else if vk == 0x4C {
        Some(LetterKey::VkL)
    } else if vk == 0x4D {
        Some(LetterKey::VkM)
    } else if vk == 0x4E {
        Some(LetterKey::VkN)
    } else if vk == 0x4F {
        Some(LetterKey::VkO)
    } else if vk == 0x50 {
        Some(LetterKey::VkP)
    } else if vk == 0x51 {
        Some(LetterKey::VkQ)
    } else if vk == 0x52 {
        Some(LetterKey::VkR)
    } else if vk == 0x53 {
        Some(LetterKey::VkS)
    } else if vk == 0x54 {
        Some(LetterKey::VkT)
    } else if vk == 0x55 {
        Some(LetterKey::VkU)
    } else if vk == 0x56 {
        Some(LetterKey::VkV)
    } else if vk == 0x57 {
        Some(LetterKey::VkW)
    } else if vk == 0x58 {
        Some(LetterKey::VkX)
    } else if vk == 0x59 {
        Some(LetterKey::VkY)
    } else if vk == 0x5A {
        Some(LetterKey::VkZ)
    } else if vk == 0xBC {
        Some(LetterKey::VkComma)
    } else if vk == 0xBE {
        Some(LetterKey::VkPeriod)
    } else if vk == 0xBD {
        Some(LetterKey::VkMinus)
    } else if vk == 0xBB {
        Some(LetterKey::VkPlus)
    } else {
        None
    }
}

impl LetterKey {
    /// Converts a virtual-key code to a letter key.
    pub fn from_vk(vk: u32) -> (r: Option<Self>)
        ensures
            r == letter_of_vk(vk),
    {
        match vk {
            0x30 => Some(Self::VK0),
            0x31 => Some(Self::VK1),
            0x32 => Some(Self::VK2),
            0x33 => Some(Self::VK3),
            0x34 => Some(Self::VK4),
            0x35 => Some(Self::VK5),
            0x36 => Some(Self::VK6),
            0x37 => Some(Self::VK7),
            0x38 => Some(Self::VK8),
            0x39 => Some(Self::VK9),
            0x41 => Some(Self::VkA),
            0x42 => Some(Self::VkB),
            0x43 => Some(Self::VkC),
            0x44 => Some(Self::VkD),
            0x45 => Some(Self::VkE),
            0x46 => Some(Self::VkF),
            0x47 => Some(Self::VkG),
            0x48 => Some(Self::VkH),
            0x49 => Some(Self::VkI),
            0x4A => Some(Self::VkJ),
            0x4B => Some(Self::VkK),
            0x4C => Some(Self::VkL),
            0x4D => Some(Self::VkM),
            0x4E => Some(Self::VkN),
            0x4F => Some(Self::VkO),
            0x50 => Some(Self::VkP),
            0x51 => Some(Self::VkQ),
            0x52 => Some(Self::VkR),
            0x53 => Some(Self::VkS),
            0x54 => Some(Self::VkT),
            0x55 => Some(Self::VkU),
            0x56 => Some(Self::VkV),
            0x57 => Some(Self::VkW),
            0x58 => Some(Self::VkX),
            0x59 => Some(Self::VkY),
            0x5A => Some(Self::VkZ),
            0xBC => Some(Self::VkComma),
            0xBE => Some(Self::VkPeriod),
            0xBD => Some(Self::VkMinus),
            0xBB => Some(Self::VkPlus),
            _ => None,
        }
    }
}

/// Accents of the french language.
pub open spec fn french_accents(letter: LetterKey) -> Seq<char> {
    match letter {
        LetterKey::VkA => seq!['à', 'â', 'á', 'ä', 'ã', 'æ'],
        LetterKey::VkC => seq!['ç'],
        LetterKey::VkE => seq!['é', 'è', 'ê', 'ë', '€'],
        LetterKey::VkI => seq!['î', 'ï', 'í', 'ì'],
        LetterKey::VkO => seq!['ô', 'ö', 'ó', 'ò', 'õ', 'œ'],
        LetterKey::VkU => seq!['û', 'ù', 'ü', 'ú'],
        LetterKey::VkY => seq!['ÿ', 'ý'],
        _ => Seq::empty(),
    }
}

/// Accents of the spanish language.
pub open spec fn spanish_accents(letter: LetterKey) -> Seq<char> {
    match letter {
        LetterKey::VkA => seq!['á'],
        LetterKey::VkE => seq!['é', '€'],
        LetterKey::VkI => seq!['í'],
        LetterKey::VkN => seq!['ñ'],
        LetterKey::VkO => seq!['ó'],
        LetterKey::VkU => seq!['ú', 'ü'],
        _ => Seq::empty(),
    }
}

/// Accents of the german language.
pub open spec fn german_accents(letter: LetterKey) -> Seq<char> {
    match letter {
        LetterKey::VkA => seq!['ä'],
        LetterKey::VkE => seq!['€'],
        LetterKey::VkO => seq!['ö'],
        LetterKey::VkS => seq!['ß'],
        LetterKey::VkU => seq!['ü'],
        _ => Seq::empty(),
    }
}

/// Accents of the portuguese language.
pub open spec fn portuguese_accents(letter: LetterKey) -> Seq<char> {
    match letter {
        LetterKey::VkA => seq!['á', 'à', 'â', 'ã'],
        LetterKey::VkC => seq!['ç'],
        LetterKey::VkE => seq!['é', 'ê', '€'],
        LetterKey::VkI => seq!['í'],
        LetterKey::VkO => seq!['ô', 'ó', 'õ'],
        LetterKey::VkU => seq!['ú'],
        _ => Seq::empty(),
    }
}

/// Accents of the italian language.
pub open spec fn italian_accents(letter: LetterKey) -> Seq<char> {
    match letter {
        LetterKey::VkA => seq!['à'],
        LetterKey::VkE => seq!['è', 'é', 'ə', '€'],
        LetterKey::VkI => seq!['ì', 'í'],
        LetterKey::VkO => seq!['ò', 'ó'],
        LetterKey::VkU => seq!['ù', 'ú'],
        _ => Seq::empty(),
    }
}

/// Accents of the polish language.
pub open spec fn polish_accents(letter: LetterKey) -> Seq<char> {
    match letter {
        LetterKey::VkA => seq!['ą'],
        LetterKey::VkC => seq!['ć'],
        LetterKey::VkE => seq!['ę', '€'],
        LetterKey::VkL => seq!['ł'],
        LetterKey::VkN => seq!['ń'],
        LetterKey::VkO => seq!['ó'],
        LetterKey::VkS => seq!['ś'],
        LetterKey::VkZ => seq!['ż', 'ź'],
        _ => Seq::empty(),
    }
}

/// Accents of the czech language.
pub open spec fn czech_accents(letter: LetterKey) -> Seq<char> {
    match letter {
        LetterKey::VkA => seq!['á'],
        LetterKey::VkC => seq!['č'],
        LetterKey::VkD => seq!['ď'],
        LetterKey::VkE => seq!['é', 'ě'],
        LetterKey::VkI => seq!['í'],
        LetterKey::VkN => seq!['ň'],
        LetterKey::VkO => seq!['ó'],
        LetterKey::VkR => seq!['ř'],
        LetterKey::VkS => seq!['š'],
        LetterKey::VkT => seq!['ť'],
        LetterKey::VkU => seq!['ú', 'ů'],
        LetterKey::VkY => seq!['ý'],
        LetterKey::VkZ => seq!['ž'],
        _ => Seq::empty(),
    }
}

/// Accents of the romanian language.
pub open spec fn romanian_accents(letter: LetterKey) -> Seq<char> {
    match letter {
        LetterKey::VkA => seq!['ă', 'â'],
        LetterKey::VkI => seq!['î'],
        LetterKey::VkS => seq!['ș'],
        LetterKey::VkT => seq!['ț'],
        _ => Seq::empty(),
    }
}

/// Accents of the swedish language.
pub open spec fn swedish_accents(letter: LetterKey) -> Seq<char> {
    match letter {
        LetterKey::VkA => seq!['å', 'ä'],
        LetterKey::VkO => seq!['ö'],
        _ => Seq::empty(),
    }
}

/// Accents of the turkish language.
pub open spec fn turkish_accents(letter: LetterKey) -> Seq<char> {
    match letter {
        LetterKey::VkC => seq!['ç'],
        LetterKey::VkG => seq!['ğ'],
        LetterKey::VkI => seq!['ı', 'İ'],
        LetterKey::VkO => seq!['ö'],
        LetterKey::VkS => seq!['ş'],
        LetterKey::VkU => seq!['ü'],
        _ => Seq::empty(),
    }
}

/// Accents of the dutch language.
pub open spec fn dutch_accents(letter: LetterKey) -> Seq<char> {
    match letter {
        LetterKey::VkE => seq!['é', 'ë', '€'],
        LetterKey::VkI => seq!['ï'],
        LetterKey::VkO => seq!['ö'],
        LetterKey::VkU => seq!['ü'],
        _ => Seq::empty(),
    }
}

/// Accents of the hungarian language.
pub open spec fn hungarian_accents(letter: LetterKey) -> Seq<char> {
    match letter {
        LetterKey::VkA => seq!['á'],
        LetterKey::VkE => seq!['é'],
        LetterKey::VkI => seq!['í'],
        LetterKey::VkO => seq!['ó', 'ö', 'ő'],
        LetterKey::VkU => seq!['ú', 'ü', 'ű'],
        _ => Seq::empty(),
    }
}

/// Accents of the catalan language.
pub open spec fn catalan_accents(letter: LetterKey) -> Seq<char> {
    match letter {
        LetterKey::VkA => seq!['à'],
        LetterKey::VkC => seq!['ç'],
        LetterKey::VkE => seq!['é', 'è', '€'],
        LetterKey::VkI => seq!['í', 'ï'],
        LetterKey::VkO => seq!['ó', 'ò'],
        LetterKey::VkU => seq!['ú', 'ü'],
        _ => Seq::empty(),
    }
}

/// Accents of the croatian language.
pub open spec fn croatian_accents(letter: LetterKey) -> Seq<char> {
    match letter {
        LetterKey::VkC => seq!['č', 'ć'],
        LetterKey::VkD => seq!['đ'],
        LetterKey::VkS => seq!['š'],
        LetterKey::VkZ => seq!['ž'],
        _ => Seq::empty(),
    }
}

/// Accents of the danish language.
pub open spec fn danish_accents(letter: LetterKey) -> Seq<char> {
    match letter {
        LetterKey::VkA => seq!['å', 'æ'],
        LetterKey::VkO => seq!['ø'],
        _ => Seq::empty(),
    }
}

/// Accents of the norwegian language.
pub open spec fn norwegian_accents(letter: LetterKey) -> Seq<char> {
    match letter {
        LetterKey::VkA => seq!['å', 'æ'],
        LetterKey::VkO => seq!['ø'],
        _ => Seq::empty(),
    }
}

/// Accents of the welsh language.
pub open spec fn welsh_accents(letter: LetterKey) -> Seq<char> {
    match letter {
        LetterKey::VkA => seq!['â'],
        LetterKey::VkE => seq!['ê'],
        LetterKey::VkI => seq!['î'],
        LetterKey::VkO => seq!['ô'],
        LetterKey::VkU => seq!['û'],
        LetterKey::VkW => seq!['ŵ'],
        LetterKey::VkY => seq!['ŷ'],
        _ => Seq::empty(),
    }
}

/// Accents of the currency language.
pub open spec fn currency_accents(letter: LetterKey) -> Seq<char> {
    match letter {
        LetterKey::VkE => seq!['€'],
        LetterKey::VkR => seq!['₹', '₽'],
        LetterKey::VkY => seq!['¥'],
        LetterKey::VkL => seq!['£'],
        LetterKey::VkC => seq!['¢', '₡'],
        _ => Seq::empty(),
    }
}

/// The accents of `letter` in `language`.
pub open spec fn accents_of(letter: LetterKey, language: Language) -> Seq<char> {
    match language {
        Language::French => french_accents(letter),
        Language::Spanish => spanish_accents(letter),
        Language::German => german_accents(letter),
        Language::Portuguese => portuguese_accents(letter),
        Language::Italian => italian_accents(letter),
        Language::Polish => polish_accents(letter),
        Language::Czech => czech_accents(letter),
        Language::Romanian => romanian_accents(letter),
        Language::Swedish => swedish_accents(letter),
        Language::Turkish => turkish_accents(letter),
        Language::Dutch => dutch_accents(letter),
        Language::Hungarian => hungarian_accents(letter),
        Language::Catalan => catalan_accents(letter),
        Language::Croatian => croatian_accents(letter),
        Language::Danish => danish_accents(letter),
        Language::Norwegian => norwegian_accents(letter),
        Language::Welsh => welsh_accents(letter),
        Language::Currency => currency_accents(letter),
    }
}

fn french(letter: LetterKey) -> (r: Vec<char>)
    ensures
        r@ == french_accents(letter),
{
    match letter {
        LetterKey::VkA => vec!['à', 'â', 'á', 'ä', 'ã', 'æ'],
        LetterKey::VkC => vec!['ç'],
        LetterKey::VkE => vec!['é', 'è', 'ê', 'ë', '€'],
        LetterKey::VkI => vec!['î', 'ï', 'í', 'ì'],
        LetterKey::VkO => vec!['ô', 'ö', 'ó', 'ò', 'õ', 'œ'],
        LetterKey::VkU => vec!['û', 'ù', 'ü', 'ú'],
        LetterKey::VkY => vec!['ÿ', 'ý'],
        _ => Vec::new(),
    }
}

fn spanish(letter: LetterKey) -> (r: Vec<char>)
    ensures
        r@ == spanish_accents(letter),
{
    match letter {
        LetterKey::VkA => vec!['á'],
        LetterKey::VkE => vec!['é', '€'],
        LetterKey::VkI => vec!['í'],
        LetterKey::VkN => vec!['ñ'],
        LetterKey::VkO => vec!['ó'],
        LetterKey::VkU => vec!['ú', 'ü'],
        _ => Vec::new(),
    }
}

fn german(letter: LetterKey) -> (r: Vec<char>)
    ensures
        r@ == german_accents(letter),
{
    match letter {
        LetterKey::VkA => vec!['ä'],
        LetterKey::VkE => vec!['€'],
        LetterKey::VkO => vec!['ö'],
        LetterKey::VkS => vec!['ß'],
        LetterKey::VkU => vec!['ü'],
        _ => Vec::new(),
    }
}

fn portuguese(letter: LetterKey) -> (r: Vec<char>)
    ensures
        r@ == portuguese_accents(letter),
{
    match letter {
        LetterKey::VkA => vec!['á', 'à', 'â', 'ã'],
        LetterKey::VkC => vec!['ç'],
        LetterKey::VkE => vec!['é', 'ê', '€'],
        LetterKey::VkI => vec!['í'],
        LetterKey::VkO => vec!['ô', 'ó', 'õ'],
        LetterKey::VkU => vec!['ú'],
        _ => Vec::new(),
    }
}

fn italian(letter: LetterKey) -> (r: Vec<char>)
    ensures
        r@ == italian_accents(letter),
{
    match letter {
        LetterKey::VkA => vec!['à'],
        LetterKey::VkE => vec!['è', 'é', 'ə', '€'],
        LetterKey::VkI => vec!['ì', 'í'],
        LetterKey::VkO => vec!['ò', 'ó'],
        LetterKey::VkU => vec!['ù', 'ú'],
        _ => Vec::new(),
    }
}

fn polish(letter: LetterKey) -> (r: Vec<char>)
    ensures
        r@ == polish_accents(letter),
{
    match letter {
        LetterKey::VkA => vec!['ą'],
        LetterKey::VkC => vec!['ć'],
        LetterKey::VkE => vec!['ę', '€'],
        LetterKey::VkL => vec!['ł'],
        LetterKey::VkN => vec!['ń'],
        LetterKey::VkO => vec!['ó'],
        LetterKey::VkS => vec!['ś'],
        LetterKey::VkZ => vec!['ż', 'ź'],
        _ => Vec::new(),
    }
}

fn czech(letter: LetterKey) -> (r: Vec<char>)
    ensures
        r@ == czech_accents(letter),
{
    match letter {
        LetterKey::VkA => vec!['á'],
        LetterKey::VkC => vec!['č'],
        LetterKey::VkD => vec!['ď'],
        LetterKey::VkE => vec!['é', 'ě'],
        LetterKey::VkI => vec!['í'],
        LetterKey::VkN => vec!['ň'],
        LetterKey::VkO => vec!['ó'],
        LetterKey::VkR => vec!['ř'],
        LetterKey::VkS => vec!['š'],
        LetterKey::VkT => vec!['ť'],
        LetterKey::VkU => vec!['ú', 'ů'],
        LetterKey::VkY => vec!['ý'],
        LetterKey::VkZ => vec!['ž'],
        _ => Vec::new(),
    }
}

fn romanian(letter: LetterKey) -> (r: Vec<char>)
    ensures
        r@ == romanian_accents(letter),
{
    match letter {
        LetterKey::VkA => vec!['ă', 'â'],
        LetterKey::VkI => vec!['î'],
        LetterKey::VkS => vec!['ș'],
        LetterKey::VkT => vec!['ț'],
        _ => Vec::new(),
    }
}

fn swedish(letter: LetterKey) -> (r: Vec<char>)
    ensures
        r@ == swedish_accents(letter),
{
    match letter {
        LetterKey::VkA => vec!['å', 'ä'],
        LetterKey::VkO => vec!['ö'],
        _ => Vec::new(),
    }
}

fn turkish(letter: LetterKey) -> (r: Vec<char>)
    ensures
        r@ == turkish_accents(letter),
{
    match letter {
        LetterKey::VkC => vec!['ç'],
        LetterKey::VkG => vec!['ğ'],
        LetterKey::VkI => vec!['ı', 'İ'],
        LetterKey::VkO => vec!['ö'],
        LetterKey::VkS => vec!['ş'],
        LetterKey::VkU => vec!['ü'],
        _ => Vec::new(),
    }
}

fn dutch(letter: LetterKey) -> (r: Vec<char>)
    ensures
        r@ == dutch_accents(letter),
{
    match letter {
        LetterKey::VkE => vec!['é', 'ë', '€'],
        LetterKey::VkI => vec!['ï'],
        LetterKey::VkO => vec!['ö'],
        LetterKey::VkU => vec!['ü'],
        _ => Vec::new(),
    }
}

fn hungarian(letter: LetterKey) -> (r: Vec<char>)
    ensures
        r@ == hungarian_accents(letter),
{
    match letter {
        LetterKey::VkA => vec!['á'],
        LetterKey::VkE => vec!['é'],
        LetterKey::VkI => vec!['í'],
        LetterKey::VkO => vec!['ó', 'ö', 'ő'],
        LetterKey::VkU => vec!['ú', 'ü', 'ű'],
        _ => Vec::new(),
    }
}

fn catalan(letter: LetterKey) -> (r: Vec<char>)
    ensures
        r@ == catalan_accents(letter),
{
    match letter {
        LetterKey::VkA => vec!['à'],
        LetterKey::VkC => vec!['ç'],
        LetterKey::VkE => vec!['é', 'è', '€'],
        LetterKey::VkI => vec!['í', 'ï'],
        LetterKey::VkO => vec!['ó', 'ò'],
        LetterKey::VkU => vec!['ú', 'ü'],
        _ => Vec::new(),
    }
}

fn croatian(letter: LetterKey) -> (r: Vec<char>)
    ensures
        r@ == croatian_accents(letter),
{
    match letter {
        LetterKey::VkC => vec!['č', 'ć'],
        LetterKey::VkD => vec!['đ'],
        LetterKey::VkS => vec!['š'],
        LetterKey::VkZ => vec!['ž'],
        _ => Vec::new(),
    }
}

fn danish(letter: LetterKey) -> (r: Vec<char>)
    ensures
        r@ == danish_accents(letter),
{
    match letter {
        LetterKey::VkA => vec!['å', 'æ'],
        LetterKey::VkO => vec!['ø'],
        _ => Vec::new(),
    }
}

fn norwegian(letter: LetterKey) -> (r: Vec<char>)
    ensures
        r@ == norwegian_accents(letter),
{
    match letter {
        LetterKey::VkA => vec!['å', 'æ'],
        LetterKey::VkO => vec!['ø'],
        _ => Vec::new(),
    }
}

fn welsh(letter: LetterKey) -> (r: Vec<char>)
    ensures
        r@ == welsh_accents(letter),
{
    match letter {
        LetterKey::VkA => vec!['â'],
        LetterKey::VkE => vec!['ê'],
        LetterKey::VkI => vec!['î'],
        LetterKey::VkO => vec!['ô'],
        LetterKey::VkU => vec!['û'],
        LetterKey::VkW => vec!['ŵ'],
        LetterKey::VkY => vec!['ŷ'],
        _ => Vec::new(),
    }
}

fn currency(letter: LetterKey) -> (r: Vec<char>)
    ensures
        r@ == currency_accents(letter),
{
    match letter {
        LetterKey::VkE => vec!['€'],
        LetterKey::VkR => vec!['₹', '₽'],
        LetterKey::VkY => vec!['¥'],
        LetterKey::VkL => vec!['£'],
        LetterKey::VkC => vec!['¢', '₡'],
        _ => Vec::new(),
    }
}

/// The accents of `letter` in `language`.
pub fn get_accents(letter: LetterKey, language: Language) -> (r: Vec<char>)
    ensures
        r@ == accents_of(letter, language),
{
    match language {
        Language::French => french(letter),
        Language::Spanish => spanish(letter),
        Language::German => german(letter),
        Language::Portuguese => portuguese(letter),
        Language::Italian => italian(letter),
        Language::Polish => polish(letter),
        Language::Czech => czech(letter),
        Language::Romanian => romanian(letter),
        Language::Swedish => swedish(letter),
        Language::Turkish => turkish(letter),
        Language::Dutch => dutch(letter),
        Language::Hungarian => hungarian(letter),
        Language::Catalan => catalan(letter),
        Language::Croatian => croatian(letter),
        Language::Danish => danish(letter),
        Language::Norwegian => norwegian(letter),
        Language::Welsh => welsh(letter),
        Language::Currency => currency(letter),
    }
}

/// The last character of a non-empty sequence.
pub open spec fn last_char(s: Seq<char>) -> char {
    s[s.len() - 1]
}

/// Appends the characters of `chars` that are not yet in `acc`, in order.
pub open spec fn push_unique(acc: Seq<char>, chars: Seq<char>) -> Seq<char>
    decreases chars.len(),
{
    if chars.len() == 0 {
        acc
    } else {
        let a = push_unique(acc, chars.drop_last());
        if a.contains(last_char(chars)) {
            a
        } else {
            a.push(last_char(chars))
        }
    }
}

/// The accents of `letter` in all of `languages`, in order, each once.
pub open spec fn merged_accents(letter: LetterKey, languages: Seq<Language>) -> Seq<char>
    decreases languages.len(),
{
    if languages.len() == 0 {
        Seq::empty()
    } else {
        push_unique(merged_accents(letter, languages.drop_last()), accents_of(letter, languages.last()))
    }
}

fn contains_char(v: &Vec<char>, c: char) -> (b: bool)
    ensures
        b == v@.contains(c),
{
    let mut i: usize = 0;
    while i < v.len()
        invariant
            i <= v@.len(),
            forall|j: int| 0 <= j < i ==> v@[j] != c,
        decreases v@.len() - i,
    {
        if v[i] == c {
            return true;
        }
        i = i + 1;
    }
    false
}

/// The accents of `letter` in all the given languages, in order, without duplicates.
pub fn get_accents_for_languages(letter: LetterKey, languages: &[Language]) -> (r: Vec<char>)
    ensures
        r@ == merged_accents(letter, languages@),
{
    let mut result: Vec<char> = Vec::new();
    let mut i: usize = 0;
    while i < languages.len()
        invariant
            i <= languages@.len(),
            result@ == merged_accents(letter, languages@.take(i as int)),
        decreases languages@.len() - i,
    {
        let table = get_accents(letter, languages[i]);
        let ghost base = result@;
        let mut j: usize = 0;
        while j < table.len()
            invariant
                j <= table@.len(),
                result@ == push_unique(base, table@.take(j as int)),
            decreases table@.len() - j,
        {
            let ch = table[j];
            proof {
                assert(table@.take(j + 1).drop_last() =~= table@.take(j as int));
            }
            if !contains_char(&result, ch) {
                result.push(ch);
            }
            j = j + 1;
        }
        proof {
            assert(table@.take(table@.len() as int) =~= table@);
            assert(languages@.take(i + 1).drop_last() =~= languages@.take(i as int));
        }
        i = i + 1;
    }
    proof {
        assert(languages@.take(languages@.len() as int) =~= languages@);
    }
    result
}

/// Whether `letter` has an accent in any of the given languages.
pub fn has_accents(letter: LetterKey, languages: &[Language]) -> (b: bool)
    ensures
        b == exists|i: int| 0 <= i < languages@.len() && accents_of(letter, #[trigger] languages@[i]).len() > 0,
{
    let mut i: usize = 0;
    while i < languages.len()
        invariant
            i <= languages@.len(),
            forall|k: int| 0 <= k < i ==> accents_of(letter, #[trigger] languages@[k]).len() == 0,
        decreases languages@.len() - i,
    {
        let table = get_accents(letter, languages[i]);
        if table.len() > 0 {
            return true;
        }
        i = i + 1;
    }
    false
}

proof fn lemma_push_unique_contains(acc: Seq<char>, chars: Seq<char>, c: char)
    ensures
        push_unique(acc, chars).contains(c) <==> (acc.contains(c) || chars.contains(c)),
    decreases chars.len(),
{
    if chars.len() > 0 {
        let prefix = chars.drop_last();
        lemma_push_unique_contains(acc, prefix, c);
        let a = push_unique(acc, prefix);
        let l = last_char(chars);
        if chars.contains(c) {
            let k = choose|k: int| 0 <= k < chars.len() && chars[k] == c;
            if k < chars.len() - 1 {
                assert(prefix[k] == c);
            }
        }
        if prefix.contains(c) {
            let k = choose|k: int| 0 <= k < prefix.len() && prefix[k] == c;
            assert(chars[k] == c);
        }
        if c == l {
            assert(chars[chars.len() - 1] == c);
        }
        if !a.contains(l) {
            let b = a.push(l);
            if b.contains(c) {
                let k = choose|k: int| 0 <= k < b.len() && b[k] == c;
                if k < a.len() {
                    assert(a[k] == c);
                }
            }
            if a.contains(c) {
                let k = choose|k: int| 0 <= k < a.len() && a[k] == c;
                assert(b[k] == c);
            }
            if c == l {
                assert(b[a.len() as int] == c);
            }
        }
    }
}

proof fn lemma_push_unique_no_dup(acc: Seq<char>, chars: Seq<char>)
    requires
        acc.no_duplicates(),
    ensures
        push_unique(acc, chars).no_duplicates(),
    decreases chars.len(),
{
    if chars.len() > 0 {
        lemma_push_unique_no_dup(acc, chars.drop_last());
    }
}

proof fn lemma_merged_contains(letter: LetterKey, languages: Seq<Language>, c: char)
    ensures
        merged_accents(letter, languages).contains(c) <==> exists|i: int|
            0 <= i < languages.len() && accents_of(letter, #[trigger] languages[i]).contains(c),
    decreases languages.len(),
{
    if languages.len() > 0 {
        let prefix = languages.drop_last();
        lemma_merged_contains(letter, prefix, c);
        lemma_push_unique_contains(merged_accents(letter, prefix), accents_of(letter, languages.last()), c);
        if merged_accents(letter, languages).contains(c) {
            if merged_accents(letter, prefix).contains(c) {
                let i = choose|i: int| 0 <= i < prefix.len() && accents_of(letter, #[trigger] prefix[i]).contains(c);
                assert(languages[i] == prefix[i]);
            } else {
                assert(languages[languages.len() - 1] == languages.last());
            }
        }
        if exists|i: int| 0 <= i < languages.len() && accents_of(letter, #[trigger] languages[i]).contains(c) {
            let i = choose|i: int| 0 <= i < languages.len() && accents_of(letter, #[trigger] languages[i]).contains(c);
            if i < languages.len() - 1 {
                assert(prefix[i] == languages[i]);
            }
        }
    }
}

proof fn lemma_merged_no_dup(letter: LetterKey, languages: Seq<Language>)
    ensures
        merged_accents(letter, languages).no_duplicates(),
    decreases languages.len(),
{
    if languages.len() > 0 {
        lemma_merged_no_dup(letter, languages.drop_last());
        lemma_push_unique_no_dup(merged_accents(letter, languages.drop_last()), accents_of(letter, languages.last()));
    }
}

/// The merged accent list holds each character once, and holds exactly the
/// accents of the letter in the selected languages.
pub proof fn lemma_merged_accents_exact(letter: LetterKey, languages: Seq<Language>, c: char)
    ensures
        merged_accents(letter, languages).no_duplicates(),
        merged_accents(letter, languages).contains(c) <==> exists|i: int|
            0 <= i < languages.len() && accents_of(letter, #[trigger] languages[i]).contains(c),
{
    lemma_merged_no_dup(letter, languages);
    lemma_merged_contains(letter, languages, c);
}

} // verus!
