use portpub::ident::Uuid;
use portpub::random::{random_string, string_of_picks, RandomStringError};

#[test]
fn identifier_as_text() {
    let id = Uuid { value: 0x0123456789abcdef_0fedcba987654321 };
    assert_eq!(id.to_text(), "01234567-89ab-cdef-0fed-cba987654321");
    assert_eq!(Uuid { value: 0 }.to_text(), "00000000-0000-0000-0000-000000000000");
    assert_eq!(Uuid { value: u128::MAX }.to_text(), "ffffffff-ffff-ffff-ffff-ffffffffffff");
}

#[test]
fn drawn_identifiers_are_random() {
    let a = Uuid::new_v4();
    let b = Uuid::new_v4();
    assert!(a != b);
    assert!(a.to_text() != b.to_text());
    for id in [a, b] {
        let text = id.to_text();
        assert_eq!(text.len(), 36);
        assert_eq!(&text[14..15], "4");
        assert!("89ab".contains(&text[19..20]));
        assert_eq!(uuid::Uuid::parse_str(&text).unwrap().as_u128(), id.value);
    }
}

#[test]
fn random_names_are_labels() {
    let allowed = "abcdefghijklmnopqrstuvwxyz0123456789-";
    for length in [1u8, 5, 255] {
        let name = random_string(length).unwrap();
        assert_eq!(name.chars().count(), length as usize);
        assert!(name.chars().all(|c| allowed.contains(c)));
    }
    assert!(random_string(40).unwrap() != random_string(40).unwrap());
}

#[test]
fn random_name_without_characters() {
    assert_eq!(random_string(0), Err(RandomStringError::ZeroLength));
    assert_eq!(RandomStringError::ZeroLength.message(), "length must be greater than 0");
}

#[test]
fn drawn_bytes_make_a_text() {
    assert_eq!(string_of_picks(&vec![Some(b'a'), Some(b'-'), Some(b'9')]), Ok("a-9".to_string()));
    assert_eq!(string_of_picks(&vec![]), Ok(String::new()));
    assert_eq!(
        string_of_picks(&vec![Some(b'a'), None, Some(b'b')]),
        Err(RandomStringError::NoCharacter)
    );
    assert_eq!(RandomStringError::NoCharacter.message(), "failed to generate random character");
}
