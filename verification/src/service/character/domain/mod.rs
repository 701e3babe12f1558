//! Domain model of a player character: profile, appearance and identity.
use vstd::prelude::*;

verus! {

/// Gender recorded in a character profile.
#[derive(Debug, Clone, Copy, PartialEq, Eq, Structural)]
pub enum Gender {
    Unknown,
    Male,
    Female,
}

/// A character's profile.
#[derive(Debug, PartialEq, Eq)]
pub struct Profile {
    pub id: String,
    pub gender: Gender,
    pub name: String,
}

/// Skin tone of a character.
#[derive(Debug, Clone, Copy, PartialEq, Eq, Structural)]
pub enum Skin {
    Unknown,
    White,
    Black,
    Yellow,
}

/// A character's appearance.
#[derive(Debug, Clone, Copy, PartialEq, Eq, Structural)]
pub struct Appearance {
    pub skin: Skin,
}

/// A character: an identifier, a profile and an appearance.
#[derive(Debug, PartialEq, Eq)]
pub struct Character {
    id: String,
    pub profile: Profile,
    pub appearance: Appearance,
}

/// Mathematical model of a [`Profile`].
pub struct ProfileView {
    pub id: Seq<char>,
    pub gender: Gender,
    pub name: Seq<char>,
}

/// Mathematical model of a [`Character`].
pub struct CharacterView {
    pub id: Seq<char>,
    pub profile: ProfileView,
    pub appearance: Appearance,
}

impl View for Profile {
    type V = ProfileView;

    open spec fn view(&self) -> ProfileView {
        ProfileView { id: self.id@, gender: self.gender, name: self.name@ }
    }
}

impl View for Character {
    type V = CharacterView;

    closed spec fn view(&self) -> CharacterView {
        CharacterView { id: self.id@, profile: self.profile@, appearance: self.appearance }
    }
}

/// Lower-case hexadecimal digits.
pub open spec fn is_lower_hex(c: char) -> bool {
    ('0' <= c && c <= '9') || ('a' <= c && c <= 'f')
}

/// The hyphenated lower-case text of a version 4 (random) RFC 4122 UUID:
/// `xxxxxxxx-xxxx-4xxx-Yxxx-xxxxxxxxxxxx` with `Y` one of `8`, `9`, `a`, `b`.
pub open spec fn is_v4_hyphenated(s: Seq<char>) -> bool {
    &&& s.len() == 36
    &&& forall|i: int|
        0 <= i < 36 ==> if i == 8 || i == 13 || i == 18 || i == 23 {
            #[trigger] s[i] == '-'
        } else {
            is_lower_hex(s[i])
        }
    &&& s[14] == '4'
    &&& (s[19] == '8' || s[19] == '9' || s[19] == 'a' || s[19] == 'b')
}

/// `uuid::Uuid::new_v4().to_hyphenated().to_string()`: a fresh random identifier.
/// Claimed: the text is a hyphenated lower-case version 4 UUID, as uuid's encoder
/// writes it (version nibble 4, RFC 4122 variant bits `10`). The value itself
/// comes from the operating system's random source and is not stated; uuid
/// panics when that source fails.
#[verifier::external_body]
fn new_v4_id() -> (id: String)
    ensures
        is_v4_hyphenated(id@),
{
    uuid::Uuid::new_v4().to_hyphenated().to_string()
}

impl Character {
    /// Creates a character with a freshly generated random identifier.
    pub fn new(profile: Profile, appearance: Appearance) -> (c: Self)
        ensures
            c@.profile == profile@,
            c@.appearance == appearance,
            is_v4_hyphenated(c@.id),
    {
        Self::new_with_id(profile, appearance, new_v4_id())
    }

    /// Creates a character with the given identifier.
    pub fn new_with_id(profile: Profile, appearance: Appearance, id: String) -> (c: Self)
        ensures
            c@ == (CharacterView { id: id@, profile: profile@, appearance }),
    {
        Self { id: id, appearance: appearance, profile: profile }
    }

    /// The character's identifier.
    pub fn get_id(&self) -> (id: &String)
        ensures
            id@ == self@.id,
    {
        &self.id
    }

    /// The character's profile.
    pub fn get_profile(&self) -> (p: &Profile)
        ensures
            p@ == self@.profile,
    {
        &self.profile
    }

    /// Replaces the profile; identifier and appearance are kept.
    pub fn change_profile(self, to: Profile) -> (c: Self)
        ensures
            c@ == (CharacterView { profile: to@, ..self@ }),
    {
        let mut s = self;
        s.profile = to;
        s
    }

    /// The character's appearance.
    pub fn get_appearance(&self) -> (a: &Appearance)
        ensures
            *a == self@.appearance,
    {
        &self.appearance
    }

    /// Replaces the appearance; identifier and profile are kept.
    pub fn change_appearance(self, to: Appearance) -> (c: Self)
        ensures
            c@ == (CharacterView { appearance: to, ..self@ }),
    {
        let mut s = self;
        s.appearance = to;
        s
    }
}

} // verus!
