use icale_core::service::character::domain::{Appearance, Character, Gender, Profile, Skin};

fn profile() -> Profile {
    Profile {
        id: String::from("euiko"),
        gender: Gender::Male,
        name: String::from("Candra Kharista"),
    }
}

fn is_v4(id: &str) -> bool {
    let b: Vec<char> = id.chars().collect();
    b.len() == 36
        && b.iter().enumerate().all(|(i, c)| {
            if [8, 13, 18, 23].contains(&i) {
                *c == '-'
            } else {
                c.is_ascii_digit() || ('a'..='f').contains(c)
            }
        })
        && b[14] == '4'
        && "89ab".contains(b[19])
}

#[test]
fn mod_new() {
    let profile = profile();

    let appearance = Appearance { skin: Skin::Yellow };

    let euiko = Character::new(profile, appearance);

    let p = euiko.get_profile();
    let a = euiko.get_appearance();

    assert_eq!(p.id, "euiko");
    assert_eq!(a.skin, Skin::Yellow);
}

#[test]
fn new_characters_get_fresh_v4_ids() {
    let a = Character::new(profile(), Appearance { skin: Skin::White });
    let b = Character::new(profile(), Appearance { skin: Skin::White });
    assert!(is_v4(a.get_id()));
    assert!(is_v4(b.get_id()));
    assert_ne!(a.get_id(), b.get_id());
}

#[test]
fn changes_keep_identity() {
    let c = Character::new_with_id(profile(), Appearance { skin: Skin::Black }, "c-1".to_string());
    let c = c.change_appearance(Appearance { skin: Skin::White });
    assert_eq!(c.get_id(), "c-1");
    assert_eq!(c.get_appearance().skin, Skin::White);
    assert_eq!(c.get_profile().name, "Candra Kharista");
    let c = c.change_profile(Profile {
        id: "other".to_string(),
        gender: Gender::Female,
        name: "Other".to_string(),
    });
    assert_eq!(c.get_id(), "c-1");
    assert_eq!(c.get_profile().id, "other");
    assert_eq!(c.get_profile().gender, Gender::Female);
    assert_eq!(c.get_appearance().skin, Skin::White);
}
