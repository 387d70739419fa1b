//! Replacing one path by a link to another without ever losing data.
//!
//! A link cannot be created over an existing path, but a rename replaces its
//! target atomically. So the link is first created under a temporary name
//! next to the path it will replace, and then renamed over it. Whatever goes
//! wrong, the temporary name is removed again and the path is left as it was.
//!
//! The filesystem calls themselves are made by the caller; this module says
//! which call comes next and what its outcome leads to.

use vstd::prelude::*;
use crate::settings::RunMode;

verus! {

/// How two paths came to share their content.
#[derive(Debug, Copy, Clone, PartialEq, Eq, Structural)]
pub enum LinkType {
    Hardlink,
    Reflink,
}

/// One filesystem call of the replacement.
#[derive(Debug, Copy, Clone, PartialEq, Eq, Structural)]
pub enum LinkOp {
    /// Clone the source copy-on-write at the temporary path.
    Clone,
    /// Create a hardlink to the source at the temporary path.
    HardLink,
    /// Rename the temporary path over the destination.
    Rename,
    /// Remove the temporary path, whether or not it exists.
    RemoveTemp,
}

/// Where a replacement stands.
#[derive(Debug, Copy, Clone, PartialEq, Eq, Structural)]
pub enum LinkState {
    /// A clone is to be made; if it fails, `fallback` says whether a
    /// hardlink is tried in its place.
    Cloning { fallback: bool },
    /// A hardlink is to be made.
    Linking,
    /// The link exists under the temporary name and is to be renamed.
    Renaming(LinkType),
    /// A call failed; the temporary name is to be removed.
    Cleaning,
    /// The destination is now a link of this type to the source.
    Linked(LinkType),
    /// The destination is as it was.
    Failed,
}

impl LinkState {
    /// The state in which a replacement starts; none in the modes that leave
    /// the filesystem alone.
    pub open spec fn spec_start(mode: RunMode) -> Option<LinkState> {
        match mode {
            RunMode::Hardlink => Some(LinkState::Linking),
            RunMode::Reflink => Some(LinkState::Cloning { fallback: false }),
            RunMode::ReflinkOrHardlink => Some(LinkState::Cloning { fallback: true }),
            RunMode::DryRun => None,
            RunMode::DryRunNoMerging => None,
        }
    }

    /// The call that has to be made in this state; none once the replacement
    /// is over.
    pub open spec fn spec_op(self) -> Option<LinkOp> {
        match self {
            LinkState::Cloning { fallback } => Some(LinkOp::Clone),
            LinkState::Linking => Some(LinkOp::HardLink),
            LinkState::Renaming(_) => Some(LinkOp::Rename),
            LinkState::Cleaning => Some(LinkOp::RemoveTemp),
            LinkState::Linked(_) => None,
            LinkState::Failed => None,
        }
    }

    /// The state after the call of this state succeeded (`ok`) or failed.
    pub open spec fn spec_advance(self, ok: bool) -> LinkState {
        match self {
            LinkState::Cloning { fallback } => if ok {
                LinkState::Renaming(LinkType::Reflink)
            } else if fallback {
                LinkState::Linking
            } else {
                LinkState::Cleaning
            },
            LinkState::Linking => if ok {
                LinkState::Renaming(LinkType::Hardlink)
            } else {
                LinkState::Cleaning
            },
            LinkState::Renaming(kind) => if ok {
                LinkState::Linked(kind)
            } else {
                LinkState::Cleaning
            },
            LinkState::Cleaning => LinkState::Failed,
            LinkState::Linked(kind) => LinkState::Linked(kind),
            LinkState::Failed => LinkState::Failed,
        }
    }

    /// Whether the replacement has ended, well or not.
    pub open spec fn spec_is_over(self) -> bool {
        self.spec_op() is None
    }

    #[verifier::when_used_as_spec(spec_start)]
    pub fn start(mode: RunMode) -> (r: Option<LinkState>)
        ensures
            r == LinkState::spec_start(mode),
    {
        match mode {
            RunMode::Hardlink => Some(LinkState::Linking),
            RunMode::Reflink => Some(LinkState::Cloning { fallback: false }),
            RunMode::ReflinkOrHardlink => Some(LinkState::Cloning { fallback: true }),
            RunMode::DryRun => None,
            RunMode::DryRunNoMerging => None,
        }
    }

    #[verifier::when_used_as_spec(spec_op)]
    pub fn op(self) -> (r: Option<LinkOp>)
        ensures
            r == self.spec_op(),
    {
        match self {
            LinkState::Cloning { fallback: _ } => Some(LinkOp::Clone),
            LinkState::Linking => Some(LinkOp::HardLink),
            LinkState::Renaming(_) => Some(LinkOp::Rename),
            LinkState::Cleaning => Some(LinkOp::RemoveTemp),
            LinkState::Linked(_) => None,
            LinkState::Failed => None,
        }
    }

    #[verifier::when_used_as_spec(spec_advance)]
    pub fn advance(self, ok: bool) -> (r: LinkState)
        ensures
            r == self.spec_advance(ok),
    {
        match self {
            LinkState::Cloning { fallback } => if ok {
                LinkState::Renaming(LinkType::Reflink)
            } else if fallback {
                LinkState::Linking
            } else {
                LinkState::Cleaning
            },
            LinkState::Linking => if ok {
                LinkState::Renaming(LinkType::Hardlink)
            } else {
                LinkState::Cleaning
            },
            LinkState::Renaming(kind) => if ok {
                LinkState::Linked(kind)
            } else {
                LinkState::Cleaning
            },
            LinkState::Cleaning => LinkState::Failed,
            LinkState::Linked(kind) => LinkState::Linked(kind),
            LinkState::Failed => LinkState::Failed,
        }
    }
}

/// What a replacement in `mode` comes to when cloning, hardlinking and
/// renaming would go as the three flags say: the type of link that ends up at
/// the destination, if any.
pub open spec fn link_result(mode: RunMode, clone_ok: bool, link_ok: bool, rename_ok: bool) -> Option<
    LinkType,
> {
    match mode {
        RunMode::Hardlink => if link_ok && rename_ok {
            Some(LinkType::Hardlink)
        } else {
            None
        },
        RunMode::Reflink => if clone_ok && rename_ok {
            Some(LinkType::Reflink)
        } else {
            None
        },
        RunMode::ReflinkOrHardlink => if clone_ok && rename_ok {
            Some(LinkType::Reflink)
        } else if !clone_ok && link_ok && rename_ok {
            Some(LinkType::Hardlink)
        } else {
            None
        },
        RunMode::DryRun => None,
        RunMode::DryRunNoMerging => None,
    }
}

/// Outcome of the call `op` under the three flags. Removing the temporary
/// name is taken to succeed; its outcome changes nothing.
pub open spec fn outcome_of(op: LinkOp, clone_ok: bool, link_ok: bool, rename_ok: bool) -> bool {
    match op {
        LinkOp::Clone => clone_ok,
        LinkOp::HardLink => link_ok,
        LinkOp::Rename => rename_ok,
        LinkOp::RemoveTemp => true,
    }
}

/// The state reached from `state` after at most `steps` calls.
pub open spec fn run(state: LinkState, steps: nat, clone_ok: bool, link_ok: bool, rename_ok: bool) -> LinkState
    decreases steps,
{
    if steps == 0 || state.spec_op() is None {
        state
    } else {
        run(
            state.spec_advance(outcome_of(state.spec_op()->0, clone_ok, link_ok, rename_ok)),
            (steps - 1) as nat,
            clone_ok,
            link_ok,
            rename_ok,
        )
    }
}

/// In every mode that touches the disk a replacement is over after at most
/// four calls. It ends with a link at the destination exactly when a link
/// could be made under the temporary name and the rename succeeded; the link
/// is a clone unless cloning failed and a hardlink was allowed in its place.
/// In every other case the last call made is the removal of the temporary
/// name.
pub proof fn replacement_ends(mode: RunMode, clone_ok: bool, link_ok: bool, rename_ok: bool)
    requires
        mode.touches_disk(),
    ensures
        ({
            let end = run(LinkState::spec_start(mode)->0, 4, clone_ok, link_ok, rename_ok);
            &&& end.spec_is_over()
            &&& match link_result(mode, clone_ok, link_ok, rename_ok) {
                Some(kind) => end == LinkState::Linked(kind),
                None => end == LinkState::Failed,
            }
        }),
{
    reveal_with_fuel(run, 5);
}

/// A link is only ever reported after a rename that succeeded, and a failure
/// only after the temporary name was removed.
pub proof fn endings_are_earned(state: LinkState, ok: bool)
    requires
        !state.spec_is_over(),
    ensures
        state.spec_advance(ok) is Linked ==> state is Renaming && ok,
        state.spec_advance(ok) is Failed ==> state is Cleaning,
{
}

} // verus!
