use vstd::prelude::*;

use crate::text::str_eq;

verus! {

/// A label describing a game.
#[derive(Debug, Clone, PartialEq, Eq, PartialOrd, Ord, Hash)]
pub enum GameTag {
    /// No payment is needed to play.
    FreeToPlay,
    /// Players can play together.
    Cooperative,
    /// Players can talk to each other (chat, voice, video).
    SocialFeatures,
    /// Gamepads are supported.
    ControllerSupport,
    /// Gambling appears in the game or its mechanics.
    Gambling,
    /// Content can be bought with real money.
    InGamePurchases,
    /// Violence is shown explicitly.
    GraphicViolence,
    /// Content meant for adults only.
    AdultContent,
    /// A label with no dedicated variant, kept as written.
    Other(String),
}

/// Text form of a tag: its canonical name, or the text of another tag.
pub open spec fn game_tag_text(t: GameTag) -> Seq<char> {
    match t {
        GameTag::FreeToPlay => "free-to-play"@,
        GameTag::Cooperative => "cooperative"@,
        GameTag::SocialFeatures => "social-features"@,
        GameTag::ControllerSupport => "controller-support"@,
        GameTag::Gambling => "gambling"@,
        GameTag::InGamePurchases => "in-game-purchases"@,
        GameTag::GraphicViolence => "graphic-violence"@,
        GameTag::AdultContent => "adult-content"@,
        GameTag::Other(s) => s@,
    }
}

/// Tag whose canonical name is `s`.
pub open spec fn tag_of_name(s: Seq<char>) -> Option<GameTag> {
    if s == "free-to-play"@ {
        Some(GameTag::FreeToPlay)
    } else if s == "cooperative"@ {
        Some(GameTag::Cooperative)
    } else if s == "social-features"@ {
        Some(GameTag::SocialFeatures)
    } else if s == "controller-support"@ {
        Some(GameTag::ControllerSupport)
    } else if s == "gambling"@ {
        Some(GameTag::Gambling)
    } else if s == "in-game-purchases"@ {
        Some(GameTag::InGamePurchases)
    } else if s == "graphic-violence"@ {
        Some(GameTag::GraphicViolence)
    } else if s == "adult-content"@ {
        Some(GameTag::AdultContent)
    } else {
        None
    }
}

/// Tag of a shorter spelling.
pub open spec fn tag_of_alias(s: Seq<char>) -> Option<GameTag> {
    if s == "18+"@ {
        Some(GameTag::AdultContent)
    } else if s == "R18"@ {
        Some(GameTag::AdultContent)
    } else if s == "adult"@ {
        Some(GameTag::AdultContent)
    } else if s == "controller"@ {
        Some(GameTag::ControllerSupport)
    } else if s == "coop"@ {
        Some(GameTag::Cooperative)
    } else if s == "f2p"@ {
        Some(GameTag::FreeToPlay)
    } else if s == "free"@ {
        Some(GameTag::FreeToPlay)
    } else if s == "payments"@ {
        Some(GameTag::InGamePurchases)
    } else if s == "purchases"@ {
        Some(GameTag::InGamePurchases)
    } else if s == "social"@ {
        Some(GameTag::SocialFeatures)
    } else if s == "violence"@ {
        Some(GameTag::GraphicViolence)
    } else {
        None
    }
}

/// Tag a text names, by canonical name or shorter spelling.
pub open spec fn known_tag(s: Seq<char>) -> Option<GameTag> {
    match tag_of_name(s) {
        Some(t) => Some(t),
        None => tag_of_alias(s),
    }
}

impl GameTag {
    /// Canonical name of a tag that has a variant.
    fn canonical_name(&self) -> (r: &'static str)
        requires
            !(*self is Other),
        ensures
            r@ == game_tag_text(*self),
    {
        match self {
            GameTag::FreeToPlay => "free-to-play",
            GameTag::Cooperative => "cooperative",
            GameTag::SocialFeatures => "social-features",
            GameTag::ControllerSupport => "controller-support",
            GameTag::Gambling => "gambling",
            GameTag::InGamePurchases => "in-game-purchases",
            GameTag::GraphicViolence => "graphic-violence",
            GameTag::AdultContent => "adult-content",
            GameTag::Other(_) => "",
        }
    }

    /// Text form of the tag.
    pub fn to_string(&self) -> (r: String)
        ensures
            r@ == game_tag_text(*self),
    {
        match self {
            GameTag::Other(s) => s.clone(),
            _ => String::from_str(self.canonical_name()),
        }
    }

    /// Tag with the canonical name `s`.
    fn of_name(s: &str) -> (r: Option<GameTag>)
        ensures
            r == tag_of_name(s@),
    {
        if str_eq(s, "free-to-play") {
            Some(GameTag::FreeToPlay)
        } else if str_eq(s, "cooperative") {
            Some(GameTag::Cooperative)
        } else if str_eq(s, "social-features") {
            Some(GameTag::SocialFeatures)
        } else if str_eq(s, "controller-support") {
            Some(GameTag::ControllerSupport)
        } else if str_eq(s, "gambling") {
            Some(GameTag::Gambling)
        } else if str_eq(s, "in-game-purchases") {
            Some(GameTag::InGamePurchases)
        } else if str_eq(s, "graphic-violence") {
            Some(GameTag::GraphicViolence)
        } else if str_eq(s, "adult-content") {
            Some(GameTag::AdultContent)
        } else {
            None
        }
    }

    /// Tag with the shorter spelling `s`.
    fn of_alias(s: &str) -> (r: Option<GameTag>)
        ensures
            r == tag_of_alias(s@),
    {
        if str_eq(s, "18+") {
            Some(GameTag::AdultContent)
        } else if str_eq(s, "R18") {
            Some(GameTag::AdultContent)
        } else if str_eq(s, "adult") {
            Some(GameTag::AdultContent)
        } else if str_eq(s, "controller") {
            Some(GameTag::ControllerSupport)
        } else if str_eq(s, "coop") {
            Some(GameTag::Cooperative)
        } else if str_eq(s, "f2p") {
            Some(GameTag::FreeToPlay)
        } else if str_eq(s, "free") {
            Some(GameTag::FreeToPlay)
        } else if str_eq(s, "payments") {
            Some(GameTag::InGamePurchases)
        } else if str_eq(s, "purchases") {
            Some(GameTag::InGamePurchases)
        } else if str_eq(s, "social") {
            Some(GameTag::SocialFeatures)
        } else if str_eq(s, "violence") {
            Some(GameTag::GraphicViolence)
        } else {
            None
        }
    }

    /// Tag a text names.
    pub fn from_str(s: &str) -> (r: Result<GameTag, ()>)
        ensures
            known_tag(s@) matches Some(t) ==> r == Ok::<GameTag, ()>(t),
            known_tag(s@) is None ==> r is Err,
    {
        match GameTag::of_name(s) {
            Some(t) => Ok(t),
            None => match GameTag::of_alias(s) {
                Some(t) => Ok(t),
                None => Err(()),
            },
        }
    }

    /// Tag of the given text: a known tag, else `Other` holding the text.
    pub fn from_text(s: &str) -> (r: GameTag)
        ensures
            known_tag(s@) matches Some(t) ==> r == t,
            known_tag(s@) is None ==> (r matches GameTag::Other(x) && x@ == s@),
    {
        match GameTag::from_str(s) {
            Ok(t) => t,
            Err(()) => GameTag::Other(String::from_str(s)),
        }
    }
}

/// The text form of a tag names the tag again, unless it is another tag
/// whose text names a known one.
pub proof fn lemma_game_tag_roundtrip(t: GameTag)
    ensures
        !(t is Other) ==> known_tag(game_tag_text(t)) == Some(t),
        t matches GameTag::Other(x) ==> (known_tag(x@) is None ==> known_tag(game_tag_text(t)) is None),
{
    reveal_strlit("free-to-play");
    reveal_strlit("cooperative");
    reveal_strlit("social-features");
    reveal_strlit("controller-support");
    reveal_strlit("gambling");
    reveal_strlit("in-game-purchases");
    reveal_strlit("graphic-violence");
    reveal_strlit("adult-content");
    match t {
        GameTag::FreeToPlay => {
        },
        GameTag::Cooperative => {
            assert("cooperative"@.len() != "free-to-play"@.len());
        },
        GameTag::SocialFeatures => {
            assert("social-features"@.len() != "free-to-play"@.len());
            assert("social-features"@.len() != "cooperative"@.len());
        },
        GameTag::ControllerSupport => {
            assert("controller-support"@.len() != "free-to-play"@.len());
            assert("controller-support"@.len() != "cooperative"@.len());
            assert("controller-support"@.len() != "social-features"@.len());
        },
        GameTag::Gambling => {
            assert("gambling"@.len() != "free-to-play"@.len());
            assert("gambling"@.len() != "cooperative"@.len());
            assert("gambling"@.len() != "social-features"@.len());
            assert("gambling"@.len() != "controller-support"@.len());
        },
        GameTag::InGamePurchases => {
            assert("in-game-purchases"@.len() != "free-to-play"@.len());
            assert("in-game-purchases"@.len() != "cooperative"@.len());
            assert("in-game-purchases"@.len() != "social-features"@.len());
            assert("in-game-purchases"@.len() != "controller-support"@.len());
            assert("in-game-purchases"@.len() != "gambling"@.len());
        },
        GameTag::GraphicViolence => {
            assert("graphic-violence"@.len() != "free-to-play"@.len());
            assert("graphic-violence"@.len() != "cooperative"@.len());
            assert("graphic-violence"@.len() != "social-features"@.len());
            assert("graphic-violence"@.len() != "controller-support"@.len());
            assert("graphic-violence"@.len() != "gambling"@.len());
            assert("graphic-violence"@.len() != "in-game-purchases"@.len());
        },
        GameTag::AdultContent => {
            assert("adult-content"@.len() != "free-to-play"@.len());
            assert("adult-content"@.len() != "cooperative"@.len());
            assert("adult-content"@.len() != "social-features"@.len());
            assert("adult-content"@.len() != "controller-support"@.len());
            assert("adult-content"@.len() != "gambling"@.len());
            assert("adult-content"@.len() != "in-game-purchases"@.len());
            assert("adult-content"@.len() != "graphic-violence"@.len());
        },
        GameTag::Other(_) => {},
    }
}

} // verus!
