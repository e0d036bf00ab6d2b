//! Pull requests as the application keeps them.
use vstd::prelude::*;

verus! {

/// Whether a pull request can be merged, as the background checks found it.
#[derive(Debug, Clone, Copy, PartialEq, Eq, Structural)]
pub enum MergeableStatus {
    /// Not yet checked
    Unknown,
    /// Background check in progress
    BuildInProgress,
    /// Ready to merge
    Ready,
    /// Branch is behind its base and needs a rebase
    NeedsRebase,
    /// CI or build checks failed
    BuildFailed,
    /// Has merge conflicts
    Conflicted,
    /// Blocked by reviews or other checks
    Blocked,
    /// Currently rebasing
    Rebasing,
    /// Currently merging
    Merging,
}

/// The one-character icon of a status.
pub open spec fn status_icon(s: MergeableStatus) -> Seq<char> {
    match s {
        MergeableStatus::Unknown => "?"@,
        MergeableStatus::BuildInProgress => "⋯"@,
        MergeableStatus::Ready => "✓"@,
        MergeableStatus::NeedsRebase => "↻"@,
        MergeableStatus::BuildFailed => "✗"@,
        MergeableStatus::Conflicted => "✗"@,
        MergeableStatus::Blocked => "⊗"@,
        MergeableStatus::Rebasing => "⟳"@,
        MergeableStatus::Merging => "⇒"@,
    }
}

/// The label of a status.
pub open spec fn status_label(s: MergeableStatus) -> Seq<char> {
    match s {
        MergeableStatus::Unknown => "Unknown"@,
        MergeableStatus::BuildInProgress => "Building"@,
        MergeableStatus::Ready => "Ready"@,
        MergeableStatus::NeedsRebase => "Needs Rebase"@,
        MergeableStatus::BuildFailed => "Build Failed"@,
        MergeableStatus::Conflicted => "Conflicted"@,
        MergeableStatus::Blocked => "Blocked"@,
        MergeableStatus::Rebasing => "Rebasing..."@,
        MergeableStatus::Merging => "Merging..."@,
    }
}

/// The variant's name, as `{:?}` prints it.
pub open spec fn status_name(s: MergeableStatus) -> Seq<char> {
    match s {
        MergeableStatus::Unknown => "Unknown"@,
        MergeableStatus::BuildInProgress => "BuildInProgress"@,
        MergeableStatus::Ready => "Ready"@,
        MergeableStatus::NeedsRebase => "NeedsRebase"@,
        MergeableStatus::BuildFailed => "BuildFailed"@,
        MergeableStatus::Conflicted => "Conflicted"@,
        MergeableStatus::Blocked => "Blocked"@,
        MergeableStatus::Rebasing => "Rebasing"@,
        MergeableStatus::Merging => "Merging"@,
    }
}

/// Terminal colours of the status column.
#[derive(Debug, Clone, Copy, PartialEq, Eq, Structural)]
pub enum StatusColor {
    DarkGray,
    Yellow,
    Green,
    Red,
    Cyan,
}

/// The colour a status is shown in.
pub open spec fn status_color(s: MergeableStatus) -> StatusColor {
    match s {
        MergeableStatus::Unknown => StatusColor::DarkGray,
        MergeableStatus::BuildInProgress | MergeableStatus::NeedsRebase => StatusColor::Yellow,
        MergeableStatus::Ready => StatusColor::Green,
        MergeableStatus::BuildFailed | MergeableStatus::Conflicted | MergeableStatus::Blocked => StatusColor::Red,
        MergeableStatus::Rebasing | MergeableStatus::Merging => StatusColor::Cyan,
    }
}

impl MergeableStatus {
    /// Colour of the status.
    pub fn color(&self) -> (r: StatusColor)
        ensures
            r == status_color(*self),
    {
        match self {
            MergeableStatus::Unknown => StatusColor::DarkGray,
            MergeableStatus::BuildInProgress | MergeableStatus::NeedsRebase => StatusColor::Yellow,
            MergeableStatus::Ready => StatusColor::Green,
            MergeableStatus::BuildFailed | MergeableStatus::Conflicted | MergeableStatus::Blocked => StatusColor::Red,
            MergeableStatus::Rebasing | MergeableStatus::Merging => StatusColor::Cyan,
        }
    }

    /// Icon shown before the label.
    pub fn icon(&self) -> (r: &'static str)
        ensures
            r@ == status_icon(*self),
    {
        match self {
            MergeableStatus::Unknown => "?",
            MergeableStatus::BuildInProgress => "⋯",
            MergeableStatus::Ready => "✓",
            MergeableStatus::NeedsRebase => "↻",
            MergeableStatus::BuildFailed => "✗",
            MergeableStatus::Conflicted => "✗",
            MergeableStatus::Blocked => "⊗",
            MergeableStatus::Rebasing => "⟳",
            MergeableStatus::Merging => "⇒",
        }
    }

    /// Human-readable label.
    pub fn label(&self) -> (r: &'static str)
        ensures
            r@ == status_label(*self),
    {
        match self {
            MergeableStatus::Unknown => "Unknown",
            MergeableStatus::BuildInProgress => "Building",
            MergeableStatus::Ready => "Ready",
            MergeableStatus::NeedsRebase => "Needs Rebase",
            MergeableStatus::BuildFailed => "Build Failed",
            MergeableStatus::Conflicted => "Conflicted",
            MergeableStatus::Blocked => "Blocked",
            MergeableStatus::Rebasing => "Rebasing...",
            MergeableStatus::Merging => "Merging...",
        }
    }

    /// The variant's name.
    pub fn name(&self) -> (r: &'static str)
        ensures
            r@ == status_name(*self),
    {
        match self {
            MergeableStatus::Unknown => "Unknown",
            MergeableStatus::BuildInProgress => "BuildInProgress",
            MergeableStatus::Ready => "Ready",
            MergeableStatus::NeedsRebase => "NeedsRebase",
            MergeableStatus::BuildFailed => "BuildFailed",
            MergeableStatus::Conflicted => "Conflicted",
            MergeableStatus::Blocked => "Blocked",
            MergeableStatus::Rebasing => "Rebasing",
            MergeableStatus::Merging => "Merging",
        }
    }
}

/// A pull request. Times are Unix timestamps in seconds (UTC).
#[derive(Debug)]
pub struct Pr {
    pub number: usize,
    pub title: String,
    pub body: String,
    pub author: String,
    pub no_comments: usize,
    pub merge_state: String,
    /// Checked by a background task
    pub mergeable: MergeableStatus,
    /// The branch is behind its base
    pub needs_rebase: bool,
    pub created_at: i64,
    pub updated_at: i64,
}

impl Clone for Pr {
    fn clone(&self) -> (r: Self)
        ensures
            r == *self,
    {
        Pr {
            number: self.number,
            title: self.title.clone(),
            body: self.body.clone(),
            author: self.author.clone(),
            no_comments: self.no_comments,
            merge_state: self.merge_state.clone(),
            mergeable: self.mergeable,
            needs_rebase: self.needs_rebase,
            created_at: self.created_at,
            updated_at: self.updated_at,
        }
    }
}

/// How GitHub reports whether a pull request can be merged.
#[derive(Debug, Clone, Copy, PartialEq, Eq, Structural)]
pub enum MergeableState {
    Behind,
    Blocked,
    Clean,
    Dirty,
    Draft,
    HasHooks,
    Unknown,
    Unstable,
}

/// A pull request as GitHub lists it.
#[derive(Debug)]
pub struct PullRequestInfo {
    pub number: u64,
    pub title: Option<String>,
    pub body: Option<String>,
    /// Login of the author
    pub author: String,
    pub comments: Option<u64>,
    pub mergeable_state: Option<MergeableState>,
    pub created_at: i64,
    pub updated_at: i64,
}

/// What a separate request for one pull request adds to the listing.
#[derive(Debug)]
pub struct PullRequestDetails {
    pub mergeable_state: Option<MergeableState>,
    pub merge_commit_sha: Option<String>,
}

/// The details are asked for only where the listing leaves the mergeable
/// state out.
pub open spec fn spec_needs_details(info: PullRequestInfo) -> bool {
    info.mergeable_state is None
}

pub fn needs_details(info: &PullRequestInfo) -> (r: bool)
    ensures
        r == spec_needs_details(*info),
{
    info.mergeable_state.is_none()
}

pub open spec fn text_or_empty(s: Option<String>) -> Seq<char> {
    match s {
        Some(t) => t@,
        None => Seq::empty(),
    }
}

/// The merge state shown for a listed pull request: the listed state, else
/// the details' state (unknown where there is none); the merge commit is
/// shown only where it came with the details.
pub open spec fn listed_merge_state(info: PullRequestInfo, details: Option<PullRequestDetails>) -> Seq<char> {
    let (state, commit) = if info.mergeable_state is None {
        match details {
            Some(d) => (
                match d.mergeable_state {
                    Some(st) => st,
                    None => MergeableState::Unknown,
                },
                crate::log_types::opt_string_view(d.merge_commit_sha),
            ),
            None => (MergeableState::Unknown, None),
        }
    } else {
        (MergeableState::Unknown, None)
    };
    let shown = match info.mergeable_state {
        Some(st) => st,
        None => state,
    };
    spec_merge_state_text(shown, commit)
}

impl Pr {
    /// The pull request from its listing and, where the listing leaves the
    /// mergeable state out, its details; its status is checked later.
    pub fn from_pull_request(info: &PullRequestInfo, details: Option<PullRequestDetails>) -> (r: Pr)
        ensures
            r.number == info.number as usize,
            r.title@ == text_or_empty(info.title),
            r.body@ == text_or_empty(info.body),
            r.author@ == info.author@,
            r.no_comments == (match info.comments {
                Some(c) => c,
                None => 0,
            }) as usize,
            r.merge_state@ == listed_merge_state(*info, details),
            r.mergeable == MergeableStatus::Unknown,
            !r.needs_rebase,
            r.created_at == info.created_at,
            r.updated_at == info.updated_at,
    {
        let (state, commit) = if info.mergeable_state.is_none() {
            match details {
                Some(d) => (
                    match d.mergeable_state {
                        Some(st) => st,
                        None => MergeableState::Unknown,
                    },
                    d.merge_commit_sha,
                ),
                None => (MergeableState::Unknown, None),
            }
        } else {
            (MergeableState::Unknown, None)
        };
        let shown = match info.mergeable_state {
            Some(st) => st,
            None => state,
        };
        let title = match &info.title {
            Some(t) => t.clone(),
            None => String::new(),
        };
        let body = match &info.body {
            Some(t) => t.clone(),
            None => String::new(),
        };
        let comments = match info.comments {
            Some(c) => c,
            None => 0,
        };
        Pr {
            number: info.number as usize,
            title,
            body,
            author: info.author.clone(),
            no_comments: comments as usize,
            merge_state: merge_state_text(shown, &commit),
            mergeable: MergeableStatus::Unknown,
            needs_rebase: false,
            created_at: info.created_at,
            updated_at: info.updated_at,
        }
    }
}

/// The short merge-state text: `y` (or `y:<merge commit>`) where GitHub
/// reports the pull request clean, `na` where unknown, `n` otherwise.
pub open spec fn spec_merge_state_text(state: MergeableState, merge_commit: Option<Seq<char>>) -> Seq<char> {
    match state {
        MergeableState::Clean => match merge_commit {
            Some(c) => "y:"@ + c,
            None => "y"@,
        },
        MergeableState::Unknown => "na"@,
        _ => "n"@,
    }
}

/// The short merge-state text shown for a pull request.
pub fn merge_state_text(state: MergeableState, merge_commit: &Option<String>) -> (r: String)
    ensures
        r@ == spec_merge_state_text(state, crate::log_types::opt_string_view(*merge_commit)),
{
    match state {
        MergeableState::Clean => match merge_commit {
            Some(c) => {
                let mut s = String::from_str("y:");
                s.append(c.as_str());
                s
            },
            None => String::from_str("y"),
        },
        MergeableState::Unknown => String::from_str("na"),
        _ => String::from_str("n"),
    }
}

} // verus!
