use koto_memory::Profile;
use koto_memory::ProfileError;
use koto_memory::select_profile;

#[test]
fn selecting_exactly_one_profile_succeeds() {
    assert_eq!(
        select_profile(true, false, false, false),
        Ok(Profile::SingleThreadRefcount)
    );
    assert_eq!(
        select_profile(false, true, false, false),
        Ok(Profile::MultiThreadRefcount)
    );
    assert_eq!(
        select_profile(false, false, true, false),
        Ok(Profile::SingleThreadGc)
    );
    assert_eq!(
        select_profile(false, false, false, true),
        Ok(Profile::MultiThreadGc)
    );
}

#[test]
fn selecting_no_profile_is_fatal() {
    assert_eq!(
        select_profile(false, false, false, false),
        Err(ProfileError::NoneSelected)
    );
}

#[test]
fn selecting_two_profiles_names_the_conflict() {
    assert_eq!(
        select_profile(true, false, true, false),
        Err(ProfileError::Conflict(vec![
            Profile::SingleThreadRefcount,
            Profile::SingleThreadGc,
        ]))
    );
}

#[test]
fn selecting_all_profiles_names_every_choice() {
    assert_eq!(
        select_profile(true, true, true, true),
        Err(ProfileError::Conflict(vec![
            Profile::SingleThreadRefcount,
            Profile::MultiThreadRefcount,
            Profile::SingleThreadGc,
            Profile::MultiThreadGc,
        ]))
    );
}
