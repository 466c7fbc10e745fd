use vstd::prelude::*;

use crate::assoc::{first_key_at, lemma_key_index_is, text_keys};
use crate::json::{json_get, json_strings, json_text, json_texts, JsonValue};

verus! {

/// Why a game description could not be read.
#[derive(Debug, Clone, Copy, PartialEq, Eq, Structural)]
pub enum GameInfoDeserializeError {
    MissingTitle,
    MissingDescription,
    MissingDeveloper,
    MissingPublisher,
    MissingImages,
    MissingGameIcon,
    MissingGamePoster,
    MissingGameBackground,
    MissingGameSlides,
    InvalidLocalizableString,
}

/// The message that describes an error.
pub open spec fn game_info_error_message(e: GameInfoDeserializeError) -> Seq<char> {
    match e {
        GameInfoDeserializeError::MissingTitle => "game title is not specified"@,
        GameInfoDeserializeError::MissingDescription => "game description is not specified"@,
        GameInfoDeserializeError::MissingDeveloper => "game developer is not specified"@,
        GameInfoDeserializeError::MissingPublisher => "game publisher is not specified"@,
        GameInfoDeserializeError::MissingImages => "game images are not provided"@,
        GameInfoDeserializeError::MissingGameIcon => "game icon URL is not specified"@,
        GameInfoDeserializeError::MissingGamePoster => "game poster URL is not specified"@,
        GameInfoDeserializeError::MissingGameBackground => "game background image URL is not specified"@,
        GameInfoDeserializeError::MissingGameSlides => "game slide images URLs are not provided"@,
        GameInfoDeserializeError::InvalidLocalizableString => "invalid localizable string format"@,
    }
}

impl GameInfoDeserializeError {
    /// The message that describes the error.
    pub fn message(&self) -> (r: &'static str)
        ensures
            r@ == game_info_error_message(*self),
    {
        match self {
            GameInfoDeserializeError::MissingTitle => "game title is not specified",
            GameInfoDeserializeError::MissingDescription => "game description is not specified",
            GameInfoDeserializeError::MissingDeveloper => "game developer is not specified",
            GameInfoDeserializeError::MissingPublisher => "game publisher is not specified",
            GameInfoDeserializeError::MissingImages => "game images are not provided",
            GameInfoDeserializeError::MissingGameIcon => "game icon URL is not specified",
            GameInfoDeserializeError::MissingGamePoster => "game poster URL is not specified",
            GameInfoDeserializeError::MissingGameBackground => "game background image URL is not specified",
            GameInfoDeserializeError::MissingGameSlides => "game slide images URLs are not provided",
            GameInfoDeserializeError::InvalidLocalizableString => "invalid localizable string format",
        }
    }
}

/// URLs of the images of a game.
#[derive(Debug, Clone, PartialEq, Eq)]
pub struct GameImages {
    pub icon: String,
    pub poster: String,
    pub background: String,
    pub slides: Vec<String>,
}

/// Texts of the images of a game: icon, poster, background and slides.
pub type GameImagesView = (Seq<char>, Seq<char>, Seq<char>, Seq<Seq<char>>);

impl View for GameImages {
    type V = GameImagesView;

    open spec fn view(&self) -> GameImagesView {
        (self.icon@, self.poster@, self.background@, self.slides@.map_values(|s: String| s@))
    }
}

/// What reading the images of a game from `v` gives: the icon, poster and
/// background strings and the slides array of strings, each an error of
/// its own when missing or of another kind, checked in that order.
pub open spec fn decode_game_images(v: JsonValue) -> Result<GameImagesView, GameInfoDeserializeError> {
    let icon = json_text(json_get(v, "icon"@));
    let poster = json_text(json_get(v, "poster"@));
    let background = json_text(json_get(v, "background"@));
    let slides = json_texts(json_get(v, "slides"@));
    if icon is None {
        Err(GameInfoDeserializeError::MissingGameIcon)
    } else if poster is None {
        Err(GameInfoDeserializeError::MissingGamePoster)
    } else if background is None {
        Err(GameInfoDeserializeError::MissingGameBackground)
    } else if slides is None {
        Err(GameInfoDeserializeError::MissingGameSlides)
    } else {
        Ok((icon->Some_0, poster->Some_0, background->Some_0, slides->Some_0))
    }
}

/// `v` is the JSON object of images `x`: the members `icon`, `poster`,
/// `background` (strings) and `slides` (an array of strings), in that order.
pub open spec fn is_game_images_json(v: JsonValue, x: GameImagesView) -> bool {
    &&& v matches JsonValue::Object(f)
    &&& f@.len() == 4
    &&& f@[0].0@ == "icon"@ && json_text(Some(f@[0].1)) == Some(x.0)
    &&& f@[1].0@ == "poster"@ && json_text(Some(f@[1].1)) == Some(x.1)
    &&& f@[2].0@ == "background"@ && json_text(Some(f@[2].1)) == Some(x.2)
    &&& f@[3].0@ == "slides"@ && json_texts(Some(f@[3].1)) == Some(x.3)
}

/// The text of a string member, or `err`.
fn member_text(value: &JsonValue, key: &str, err: GameInfoDeserializeError) -> (r: Result<String, GameInfoDeserializeError>)
    ensures
        match r {
            Ok(s) => json_text(json_get(*value, key@)) == Some(s@),
            Err(e) => e == err && json_text(json_get(*value, key@)) is None,
        },
{
    match value.get(key) {
        Some(x) => match x.as_str() {
            Some(s) => Ok(s.to_owned()),
            None => Err(err),
        },
        None => Err(err),
    }
}

impl GameImages {
    /// Read the images of a game from a JSON object.
    pub fn from_json(value: &JsonValue) -> (r: Result<GameImages, GameInfoDeserializeError>)
        ensures
            match r {
                Ok(x) => decode_game_images(*value) == Ok::<GameImagesView, GameInfoDeserializeError>(x@),
                Err(e) => decode_game_images(*value) == Err::<GameImagesView, GameInfoDeserializeError>(e),
            },
    {
        let icon = match member_text(value, "icon", GameInfoDeserializeError::MissingGameIcon) {
            Ok(s) => s,
            Err(e) => return Err(e),
        };
        let poster = match member_text(value, "poster", GameInfoDeserializeError::MissingGamePoster) {
            Ok(s) => s,
            Err(e) => return Err(e),
        };
        let background = match member_text(value, "background", GameInfoDeserializeError::MissingGameBackground) {
            Ok(s) => s,
            Err(e) => return Err(e),
        };
        let slides = match value.get("slides") {
            Some(x) => match json_strings(x) {
                Some(v) => v,
                None => return Err(GameInfoDeserializeError::MissingGameSlides),
            },
            None => return Err(GameInfoDeserializeError::MissingGameSlides),
        };
        Ok(GameImages { icon, poster, background, slides })
    }

    /// The JSON object of the images: `icon`, `poster`, `background` and
    /// `slides`. Reading it back gives the same images.
    pub fn to_json(&self) -> (r: JsonValue)
        ensures
            is_game_images_json(r, self@),
            decode_game_images(r) == Ok::<GameImagesView, GameInfoDeserializeError>(self@),
    {
        let mut slides: Vec<JsonValue> = Vec::new();
        let mut i: usize = 0;
        while i < self.slides.len()
            invariant
                i <= self.slides@.len(),
                slides@.len() == i,
                forall|j: int| 0 <= j < i ==> (#[trigger] slides@[j]) is Text,
                forall|j: int| 0 <= j < i ==> (#[trigger] slides@[j])->Text_0@ == self.slides@[j]@,
            decreases self.slides@.len() - i,
        {
            slides.push(JsonValue::Text(self.slides[i].clone()));
            i = i + 1;
        }
        assert(slides@.map_values(|x: JsonValue| x->Text_0@) =~= self.slides@.map_values(|s: String| s@));
        let mut fields: Vec<(String, JsonValue)> = Vec::new();
        fields.push(("icon".to_owned(), JsonValue::Text(self.icon.clone())));
        fields.push(("poster".to_owned(), JsonValue::Text(self.poster.clone())));
        fields.push(("background".to_owned(), JsonValue::Text(self.background.clone())));
        fields.push(("slides".to_owned(), JsonValue::Array(slides)));
        let r = JsonValue::Object(fields);
        proof {
            lemma_decode_game_images_json(r, self@);
        }
        r
    }
}

/// Reading the images back from their JSON object gives them.
pub proof fn lemma_decode_game_images_json(v: JsonValue, x: GameImagesView)
    requires
        is_game_images_json(v, x),
    ensures
        decode_game_images(v) == Ok::<GameImagesView, GameInfoDeserializeError>(x),
{
    reveal_strlit("icon");
    reveal_strlit("poster");
    reveal_strlit("background");
    reveal_strlit("slides");
    let f = v->Object_0;
    let s = text_keys(f@);
    assert(s[0].0 == "icon"@);
    assert(s[1].0 == "poster"@);
    assert(s[2].0 == "background"@);
    assert(s[3].0 == "slides"@);
    assert("icon"@ != "poster"@ && "icon"@ != "background"@ && "icon"@ != "slides"@) by {
        assert("icon"@[0] != "poster"@[0]);
        assert("icon"@.len() != "background"@.len());
        assert("icon"@[0] != "slides"@[0]);
    }
    assert("poster"@ != "background"@ && "poster"@ != "slides"@) by {
        assert("poster"@[0] != "background"@[0]);
        assert("poster"@[0] != "slides"@[0]);
    }
    assert("background"@ != "slides"@) by {
        assert("background"@[0] != "slides"@[0]);
    }
    assert(first_key_at(s, "icon"@, 0));
    assert(first_key_at(s, "poster"@, 1));
    assert(first_key_at(s, "background"@, 2));
    assert(first_key_at(s, "slides"@, 3));
    lemma_key_index_is(s, "icon"@, 0);
    lemma_key_index_is(s, "poster"@, 1);
    lemma_key_index_is(s, "background"@, 2);
    lemma_key_index_is(s, "slides"@, 3);
}

} // verus!
