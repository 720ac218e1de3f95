use apiserver::models::{AllProfiles, ProfileFromDB, UserFromDB};
use apiserver::profile::{
    add_image, get_imgages, get_profile_image, update_profile_image, ProfileError,
    UpdateProfileData,
};
use apiserver::snowflake::Snowflake;

fn user_with_photo(photo: i32) -> UserFromDB {
    UserFromDB {
        id: 1,
        email: "user@example.com".to_owned(),
        email_hash: Some("00112233445566778899aabbccddeeff".to_owned()),
        active_photo_id: photo,
    }
}

#[test]
fn image_lookup_answers_the_active_photo() {
    let user = user_with_photo(7);
    assert_eq!(get_profile_image(Some(&user)).unwrap(), 7);
}

#[test]
fn image_lookup_refuses_unknown_digests_and_bare_users() {
    assert_eq!(get_profile_image(None).unwrap_err(), ProfileError::UserNotFound);
    let bare = user_with_photo(-1);
    assert_eq!(get_profile_image(Some(&bare)).unwrap_err(), ProfileError::NoActivePhoto);
}

#[test]
fn image_listing_hands_the_rows_through() {
    let rows = AllProfiles { id: vec![3, 5, 8] };
    assert_eq!(get_imgages(Some(rows)).unwrap().id, vec![3, 5, 8]);
    assert_eq!(get_imgages(None).unwrap_err(), ProfileError::NoProfiles);
}

#[test]
fn profile_update_needs_an_owned_profile_row() {
    let data = UpdateProfileData { profile_id: 12 };
    assert_eq!(update_profile_image(&data, None).unwrap_err(), ProfileError::ProfileNotFound);
    let row = ProfileFromDB { id: 12, user_id: 1 };
    assert_eq!(update_profile_image(&data, Some(&row)).unwrap(), 12);
}

#[test]
fn image_upload_gate_and_fresh_profile_row() {
    let mut sf = Snowflake::new(2).unwrap();
    assert_eq!(add_image(false, 1, &mut sf).unwrap_err(), ProfileError::NotAnImage);
    assert_eq!(sf.counter, 0);
    let row = add_image(true, 1, &mut sf).unwrap();
    assert_eq!(row.user_id, 1);
    assert_eq!((row.id as u64) & 0x1fff, 0);
    assert_eq!(sf.counter, 1);
}
