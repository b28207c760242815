//! Backend profiles: the four mutually exclusive memory-management strategies.
//!
//! Exactly one profile is fixed per build of the runtime. Selecting zero or
//! more than one is a fatal configuration error whose diagnostic enumerates
//! the conflicting (or missing) choices.

use vstd::prelude::*;

verus! {

/// One of the four mutually exclusive memory-management strategies.
#[derive(Clone, Copy, Debug, PartialEq, Eq, Structural)]
pub enum Profile {
    /// Single-thread reference counting without cycle collection.
    SingleThreadRefcount,
    /// Multi-thread atomic reference counting without cycle collection.
    MultiThreadRefcount,
    /// Single-thread cycle-collecting tracing garbage collection.
    SingleThreadGc,
    /// Multi-thread cycle-collecting tracing garbage collection.
    MultiThreadGc,
}

impl Profile {
    /// True for the profiles whose backend is a cycle-collecting collector.
    pub open spec fn is_garbage_collecting(self) -> bool {
        self == Profile::SingleThreadGc || self == Profile::MultiThreadGc
    }

    /// True for the profiles whose pointers may be shared across threads.
    pub open spec fn is_multi_threaded(self) -> bool {
        self == Profile::MultiThreadRefcount || self == Profile::MultiThreadGc
    }
}

/// A fatal configuration error: the build selected zero profiles, or more
/// than one.
#[derive(Clone, Debug, PartialEq, Eq)]
pub enum ProfileError {
    /// No profile was selected.
    NoneSelected,
    /// Two or more profiles were selected; the conflicting choices are
    /// enumerated in the order they are declared in [`Profile`].
    Conflict(Vec<Profile>),
}

/// The number of selected profile switches.
pub open spec fn selected_count(rc: bool, arc: bool, gc: bool, agc: bool) -> int {
    (if rc { 1int } else { 0int }) + (if arc { 1int } else { 0int })
        + (if gc { 1int } else { 0int }) + (if agc { 1int } else { 0int })
}

/// The selected profiles, in declaration order.
pub open spec fn selected_profiles(rc: bool, arc: bool, gc: bool, agc: bool) -> Seq<Profile> {
    let s0: Seq<Profile> = if rc { seq![Profile::SingleThreadRefcount] } else { seq![] };
    let s1: Seq<Profile> = if arc { seq![Profile::MultiThreadRefcount] } else { seq![] };
    let s2: Seq<Profile> = if gc { seq![Profile::SingleThreadGc] } else { seq![] };
    let s3: Seq<Profile> = if agc { seq![Profile::MultiThreadGc] } else { seq![] };
    s0 + s1 + s2 + s3
}

/// Validates the build-time backend choice. Exactly one of the four switches
/// must be set; the error for an invalid choice names the missing or
/// conflicting options.
pub fn select_profile(rc: bool, arc: bool, gc: bool, agc: bool) -> (r: Result<
    Profile,
    ProfileError,
>)
    ensures
        selected_count(rc, arc, gc, agc) == 1 ==> r == Ok::<Profile, ProfileError>(
            selected_profiles(rc, arc, gc, agc)[0],
        ),
        selected_count(rc, arc, gc, agc) == 0 ==> r == Err::<Profile, ProfileError>(
            ProfileError::NoneSelected,
        ),
        selected_count(rc, arc, gc, agc) >= 2 ==> (r matches Err(ProfileError::Conflict(c))
            && c@ == selected_profiles(rc, arc, gc, agc)),
{
    let mut selected: Vec<Profile> = Vec::new();
    if rc {
        selected.push(Profile::SingleThreadRefcount);
    }
    if arc {
        selected.push(Profile::MultiThreadRefcount);
    }
    if gc {
        selected.push(Profile::SingleThreadGc);
    }
    if agc {
        selected.push(Profile::MultiThreadGc);
    }
    proof {
        assert(selected@ =~= selected_profiles(rc, arc, gc, agc));
    }
    if selected.len() == 0 {
        Err(ProfileError::NoneSelected)
    } else if selected.len() == 1 {
        Ok(selected[0])
    } else {
        Err(ProfileError::Conflict(selected))
    }
}

} // verus!
