use vstd::prelude::*;
use crate::models::{AllProfiles, ProfileFromDB, UserFromDB};
use crate::snowflake::{counter_after, id_of, Snowflake};

verus! {

/// The path parameters of a public image lookup: the non-secret email
/// digest.
#[derive(Debug)]
pub struct PathParams {
    pub email_hash: String,
}

/// What a profile update request carries: the profile image to make
/// active.
#[derive(Debug)]
pub struct UpdateProfileData {
    pub profile_id: i32,
}

/// Why a profile request was refused.
#[derive(Clone, Copy, PartialEq, Eq, Structural, Debug)]
pub enum ProfileError {
    /// No user matches the lookup digest.
    UserNotFound,
    /// The user has no active profile picture.
    NoActivePhoto,
    /// The uploaded file is not an image.
    NotAnImage,
    /// The identifier generator could not read the clock.
    IdGeneration,
    /// The user owns no profile with the given id.
    ProfileNotFound,
    /// The user has no profile rows at all.
    NoProfiles,
}

/// The decision behind the public image lookup: an unknown digest is
/// refused, a user who never kept a picture is refused, and otherwise the
/// active photo id is answered.
pub fn get_profile_image(user: Option<&UserFromDB>) -> (r: Result<i32, ProfileError>)
    ensures
        user is None ==> r == Err::<i32, ProfileError>(ProfileError::UserNotFound),
        user matches Some(u) ==> r == (if u.active_photo_id == -1 {
            Err::<i32, ProfileError>(ProfileError::NoActivePhoto)
        } else {
            Ok::<i32, ProfileError>(u.active_photo_id)
        }),
{
    match user {
        None => Err(ProfileError::UserNotFound),
        Some(u) => {
            if u.active_photo_id == -1 {
                Err(ProfileError::NoActivePhoto)
            } else {
                Ok(u.active_photo_id)
            }
        },
    }
}

/// The decision behind listing a user's images: the aggregate row is
/// answered as it came, and its absence is refused.
pub fn get_imgages(profiles: Option<AllProfiles>) -> (r: Result<AllProfiles, ProfileError>)
    ensures
        profiles is None ==> r == Err::<AllProfiles, ProfileError>(ProfileError::NoProfiles),
        profiles matches Some(p) ==> (r matches Ok(q) && q.id@ == p.id@),
{
    match profiles {
        None => Err(ProfileError::NoProfiles),
        Some(p) => Ok(p),
    }
}

/// The decision behind making a picture the active one: only a profile row
/// that exists and belongs to the requesting user lets the update go on.
pub fn update_profile_image(data: &UpdateProfileData, profile: Option<&ProfileFromDB>) -> (r:
    Result<i32, ProfileError>)
    ensures
        profile is None ==> r == Err::<i32, ProfileError>(ProfileError::ProfileNotFound),
        profile is Some ==> r == Ok::<i32, ProfileError>(data.profile_id),
{
    match profile {
        None => Err(ProfileError::ProfileNotFound),
        Some(_) => Ok(data.profile_id),
    }
}

/// The decision behind an image upload, once the boundary has told an
/// image apart from anything else: a fresh profile identifier is minted
/// and the row to insert is assembled.
pub fn add_image(is_image: bool, user_id: i64, generator: &mut Snowflake) -> (r: Result<
    ProfileFromDB,
    ProfileError,
>)
    requires
        old(generator).wf(),
    ensures
        final(generator).wf(),
        final(generator).machine_id == old(generator).machine_id,
        !is_image ==> r == Err::<ProfileFromDB, ProfileError>(ProfileError::NotAnImage)
            && *final(generator) == *old(generator),
        is_image ==> (r matches Err(e) ==> e is IdGeneration && *final(generator) == *old(
            generator,
        )),
        r matches Ok(rec) ==> ({
            &&& is_image
            &&& rec.user_id == user_id
            &&& exists|s: u64|
                rec.id == id_of(s, old(generator).machine_id, old(generator).counter) as i64
            &&& final(generator).counter == counter_after(old(generator).counter, 1)
        }),
{
    if !is_image {
        return Err(ProfileError::NotAnImage);
    }
    let id = match generator.generate_id() {
        Ok(id) => id,
        Err(_) => {
            return Err(ProfileError::IdGeneration);
        },
    };
    Ok(ProfileFromDB { id: id as i64, user_id })
}

} // verus!
