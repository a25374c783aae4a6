//! Game versions, families and languages of the Gen 4 games.
use vstd::prelude::*;

verus! {

/// Game language/region.
#[derive(Debug, Clone, Copy, PartialEq, Eq, Hash, Structural)]
pub enum GameLanguage {
    /// English (USA/Europe)
    English,
    /// Japanese
    Japanese,
    /// French
    French,
    /// German
    German,
    /// Italian
    Italian,
    /// Spanish
    Spanish,
    /// Korean
    Korean,
}

impl Default for GameLanguage {
    fn default() -> (l: Self)
        ensures
            l == GameLanguage::English,
    {
        GameLanguage::English
    }
}

/// Semantic identity of a ROM: its game code and the game, family, region and
/// language resolved from it.
#[derive(Debug, Clone)]
pub struct RomIdentity {
    pub game_code: String,
    pub game: Game,
    pub family: GameFamily,
    pub region: Option<String>,
    pub language: GameLanguage,
    pub rom_version: u8,
}

/// Game family grouping.
#[derive(Debug, Clone, Copy, PartialEq, Eq, Hash, Structural)]
pub enum GameFamily {
    /// Diamond and Pearl
    DP,
    /// Platinum
    Platinum,
    /// HeartGold and SoulSilver
    HGSS,
}

/// Specific game version.
#[derive(Debug, Clone, Copy, PartialEq, Eq, Hash, Structural)]
pub enum Game {
    Diamond,
    Pearl,
    Platinum,
    HeartGold,
    SoulSilver,
}

impl Game {
    /// The family each game belongs to.
    pub open spec fn spec_family(self) -> GameFamily {
        match self {
            Game::Diamond | Game::Pearl => GameFamily::DP,
            Game::Platinum => GameFamily::Platinum,
            Game::HeartGold | Game::SoulSilver => GameFamily::HGSS,
        }
    }

    /// Get the map header size in bytes: every Gen 4 game stores 24-byte headers.
    pub fn map_header_size(&self) -> (n: usize)
        ensures
            n == 24,
    {
        24
    }

    /// Get the game family for this game.
    pub fn family(&self) -> (f: GameFamily)
        ensures
            f == self.spec_family(),
    {
        match self {
            Game::Diamond | Game::Pearl => GameFamily::DP,
            Game::Platinum => GameFamily::Platinum,
            Game::HeartGold | Game::SoulSilver => GameFamily::HGSS,
        }
    }
}

impl GameFamily {
    /// The representative game of a family.
    pub open spec fn spec_default_game(self) -> Game {
        match self {
            GameFamily::DP => Game::Diamond,
            GameFamily::Platinum => Game::Platinum,
            GameFamily::HGSS => Game::HeartGold,
        }
    }

    /// Returns a representative game for this family (Diamond, Platinum, HeartGold).
    pub fn default_game(self) -> (g: Game)
        ensures
            g == self.spec_default_game(),
            g.spec_family() == self,
    {
        match self {
            GameFamily::DP => Game::Diamond,
            GameFamily::Platinum => Game::Platinum,
            GameFamily::HGSS => Game::HeartGold,
        }
    }

    /// Get the map header size in bytes for this game family: 24 for all.
    pub fn map_header_size(&self) -> (n: usize)
        ensures
            n == 24,
    {
        24
    }

    /// The encounter file id that means "no encounters".
    pub open spec fn spec_null_encounter_id(self) -> u16 {
        match self {
            GameFamily::DP | GameFamily::Platinum => 0xFFFF,
            GameFamily::HGSS => 0xFF,
        }
    }

    /// Get the null encounter file ID for this game family.
    pub fn null_encounter_id(&self) -> (id: u16)
        ensures
            id == self.spec_null_encounter_id(),
    {
        match self {
            GameFamily::DP | GameFamily::Platinum => 0xFFFF,
            GameFamily::HGSS => 0xFF,
        }
    }
}

impl GameLanguage {
    /// The language of a region code letter; Europe (`P`) and unknown codes use English.
    pub open spec fn spec_from_region_code(code: char) -> GameLanguage {
        if code == 'J' {
            GameLanguage::Japanese
        } else if code == 'F' {
            GameLanguage::French
        } else if code == 'D' {
            GameLanguage::German
        } else if code == 'I' {
            GameLanguage::Italian
        } else if code == 'S' {
            GameLanguage::Spanish
        } else if code == 'K' {
            GameLanguage::Korean
        } else {
            GameLanguage::English
        }
    }

    pub fn from_region_code(code: char) -> (l: Self)
        ensures
            l == Self::spec_from_region_code(code),
    {
        match code {
            'J' => GameLanguage::Japanese,
            'E' => GameLanguage::English,
            'P' => GameLanguage::English,
            'F' => GameLanguage::French,
            'D' => GameLanguage::German,
            'I' => GameLanguage::Italian,
            'S' => GameLanguage::Spanish,
            'K' => GameLanguage::Korean,
            _ => GameLanguage::English,
        }
    }

    pub fn is_japanese(&self) -> (b: bool)
        ensures
            b == (*self == GameLanguage::Japanese),
    {
        match self {
            GameLanguage::Japanese => true,
            _ => false,
        }
    }

    /// The DSPRE/decomp locale key of a language.
    pub open spec fn spec_locale_key(self) -> Seq<char> {
        match self {
            GameLanguage::English => "en_US"@,
            GameLanguage::Japanese => "ja_JP"@,
            GameLanguage::French => "fr_FR"@,
            GameLanguage::German => "de_DE"@,
            GameLanguage::Italian => "it_IT"@,
            GameLanguage::Spanish => "es_ES"@,
            GameLanguage::Korean => "ko_KR"@,
        }
    }

    /// Return the DSPRE/Decomp locale key for this language.
    pub fn locale_key(&self) -> (k: &'static str)
        ensures
            k@ == self.spec_locale_key(),
    {
        match self {
            GameLanguage::English => "en_US",
            GameLanguage::Japanese => "ja_JP",
            GameLanguage::French => "fr_FR",
            GameLanguage::German => "de_DE",
            GameLanguage::Italian => "it_IT",
            GameLanguage::Spanish => "es_ES",
            GameLanguage::Korean => "ko_KR",
        }
    }
}

} // verus!
