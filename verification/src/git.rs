//! Repository state and the mascot that reflects it.
use vstd::prelude::*;
use vstd::string::StringSliceAdditionalSpecFns;
use vstd::utf8::encode_utf8;
use vstd::utf8::is_char_boundary;

use crate::text::byte_len;
use crate::text::lower;
use crate::text::lowercase_of;

verus! {

/// `std::path::PathBuf`, carried through as an opaque value (a repository's
/// working directory).
#[verifier::external_type_specification]
#[verifier::external_body]
pub struct ExPathBuf(std::path::PathBuf);

/// The mood of the mascot, from the most to the least urgent.
#[derive(Debug, Clone, Copy, PartialEq, Eq, Structural)]
pub enum MascotState {
    Conflict,
    Dirty,
    StagedOnly,
    AheadOnly,
    CleanWithTime,
    CleanNoTime,
    NoRepo,
}

/// How the current branch stands against its upstream.
#[derive(Debug, Clone)]
pub struct GitAheadBehind {
    pub ahead: usize,
    pub behind: usize,
    pub has_upstream: bool,
    pub upstream_name: Option<String>,
}

impl Default for GitAheadBehind {
    fn default() -> (r: Self)
        ensures
            r.ahead == 0,
            r.behind == 0,
            !r.has_upstream,
            r.upstream_name is None,
    {
        GitAheadBehind { ahead: 0, behind: 0, has_upstream: false, upstream_name: None }
    }
}

/// What is known of the repository around a directory.
#[derive(Debug, Clone)]
pub struct GitState {
    pub is_repo: bool,
    pub repo_root: Option<std::path::PathBuf>,
    pub branch_name: String,
    pub commit_hash: String,
    pub is_detached: bool,
    pub ahead_behind: GitAheadBehind,
    pub modified_count: usize,
    pub staged_count: usize,
    pub untracked_count: usize,
    pub conflict_count: usize,
}

impl Default for GitState {
    /// The state outside any repository.
    fn default() -> (r: Self)
        ensures
            !r.is_repo,
            r.repo_root is None,
            r.branch_name@ == Seq::<char>::empty(),
            r.commit_hash@ == Seq::<char>::empty(),
            !r.is_detached,
            r.ahead_behind.ahead == 0,
            r.ahead_behind.behind == 0,
            !r.ahead_behind.has_upstream,
            r.ahead_behind.upstream_name is None,
            r.modified_count == 0,
            r.staged_count == 0,
            r.untracked_count == 0,
            r.conflict_count == 0,
    {
        GitState {
            is_repo: false,
            repo_root: None,
            branch_name: String::new(),
            commit_hash: String::new(),
            is_detached: false,
            ahead_behind: GitAheadBehind::default(),
            modified_count: 0,
            staged_count: 0,
            untracked_count: 0,
            conflict_count: 0,
        }
    }
}

/// The mascot's mood for a repository state.
pub open spec fn mascot_state_of(git: GitState, has_time_widget: bool) -> MascotState {
    if !git.is_repo {
        MascotState::NoRepo
    } else if git.conflict_count > 0 {
        MascotState::Conflict
    } else if git.modified_count > 0 || git.untracked_count > 0 {
        MascotState::Dirty
    } else if git.staged_count > 0 {
        MascotState::StagedOnly
    } else if git.ahead_behind.ahead > 0 {
        MascotState::AheadOnly
    } else if has_time_widget {
        MascotState::CleanWithTime
    } else {
        MascotState::CleanNoTime
    }
}

/// The mascot's mood for a repository state: no repository, conflict, dirty
/// working tree (modified or untracked), staged only, ahead of upstream, or
/// clean (ticking when a time widget is shown).
pub fn compute_mascot_state(git: &GitState, has_time_widget: bool) -> (r: MascotState)
    ensures
        r == mascot_state_of(*git, has_time_widget),
{
    if !git.is_repo {
        return MascotState::NoRepo;
    }
    if git.conflict_count > 0 {
        MascotState::Conflict
    } else if git.modified_count > 0 || git.untracked_count > 0 {
        MascotState::Dirty
    } else if git.staged_count > 0 {
        MascotState::StagedOnly
    } else if git.ahead_behind.ahead > 0 {
        MascotState::AheadOnly
    } else if has_time_widget {
        MascotState::CleanWithTime
    } else {
        MascotState::CleanNoTime
    }
}

/// The face, the mood word and the palette role shown for a state.
pub struct MascotVisual {
    pub middle_line: &'static str,
    pub mood_label: &'static str,
    pub color_role: &'static str,
}

/// Face, mood word and palette role of each state.
pub open spec fn visual_of(state: MascotState) -> (Seq<char>, Seq<char>, Seq<char>) {
    match state {
        MascotState::Conflict => ("( >_< )"@, "conflict"@, "status_error"@),
        MascotState::Dirty => ("( o.o )"@, "watching"@, "status_dirty"@),
        MascotState::StagedOnly => ("( ~_~ )"@, "ready"@, "status_clean"@),
        MascotState::AheadOnly => ("( ^.^)~"@, "ship"@, "gauge_fill"@),
        MascotState::CleanWithTime => ("( -.~ )"@, "ticking"@, "task_active"@),
        MascotState::CleanNoTime => ("( ^.^ )"@, "all clear"@, "status_clean"@),
        MascotState::NoRepo => ("( =.= )"@, "no repo"@, "muted"@),
    }
}

/// The face, mood word and palette role of a mood.
pub fn mascot_visual_for_state(state: MascotState) -> (r: MascotVisual)
    ensures
        (r.middle_line@, r.mood_label@, r.color_role@) == visual_of(state),
{
    match state {
        MascotState::Conflict => MascotVisual {
            middle_line: "( >_< )",
            mood_label: "conflict",
            color_role: "status_error",
        },
        MascotState::Dirty => MascotVisual {
            middle_line: "( o.o )",
            mood_label: "watching",
            color_role: "status_dirty",
        },
        MascotState::StagedOnly => MascotVisual {
            middle_line: "( ~_~ )",
            mood_label: "ready",
            color_role: "status_clean",
        },
        MascotState::AheadOnly => MascotVisual {
            middle_line: "( ^.^)~",
            mood_label: "ship",
            color_role: "gauge_fill",
        },
        MascotState::CleanWithTime => MascotVisual {
            middle_line: "( -.~ )",
            mood_label: "ticking",
            color_role: "task_active",
        },
        MascotState::CleanNoTime => MascotVisual {
            middle_line: "( ^.^ )",
            mood_label: "all clear",
            color_role: "status_clean",
        },
        MascotState::NoRepo => MascotVisual {
            middle_line: "( =.= )",
            mood_label: "no repo",
            color_role: "muted",
        },
    }
}

/// Outside a repository the mascot says so, whatever else the state holds.
pub proof fn law_outside_a_repository(git: GitState, has_time_widget: bool)
    requires
        !git.is_repo,
    ensures
        mascot_state_of(git, has_time_widget) == MascotState::NoRepo,
{
}

/// In a repository, conflicts outrank every other mood, and a repository
/// never shows the no-repository mood.
pub proof fn law_conflicts_come_first(git: GitState, has_time_widget: bool)
    requires
        git.is_repo,
    ensures
        git.conflict_count > 0 ==> mascot_state_of(git, has_time_widget) == MascotState::Conflict,
        mascot_state_of(git, has_time_widget) != MascotState::NoRepo,
{
}

/// In a repository the mood follows the working tree: with no conflicts,
/// any modified or untracked file makes it dirty; it is dirty only then;
/// staged-only only with staged files and nothing modified, untracked or
/// conflicting; ahead only with a clean tree and commits ahead; and clean
/// (ticking or not, as the time widget is shown) exactly when nothing is
/// modified, staged, untracked, conflicting or ahead.
pub proof fn law_mood_follows_the_tree(git: GitState, has_time_widget: bool)
    requires
        git.is_repo,
    ensures
        git.conflict_count == 0 && (git.modified_count > 0 || git.untracked_count > 0)
            ==> mascot_state_of(git, has_time_widget) == MascotState::Dirty,
        mascot_state_of(git, has_time_widget) == MascotState::Dirty
            ==> git.conflict_count == 0 && (git.modified_count > 0 || git.untracked_count > 0),
        mascot_state_of(git, has_time_widget) == MascotState::StagedOnly
            <==> (git.conflict_count == 0 && git.modified_count == 0 && git.untracked_count == 0 && git.staged_count > 0),
        mascot_state_of(git, has_time_widget) == MascotState::AheadOnly
            <==> (git.conflict_count == 0 && git.modified_count == 0 && git.untracked_count == 0 && git.staged_count == 0
                && git.ahead_behind.ahead > 0),
        (mascot_state_of(git, has_time_widget) == MascotState::CleanWithTime
            || mascot_state_of(git, has_time_widget) == MascotState::CleanNoTime)
            <==> (git.conflict_count == 0 && git.modified_count == 0 && git.untracked_count == 0 && git.staged_count == 0
                && git.ahead_behind.ahead == 0),
        mascot_state_of(git, has_time_widget) == MascotState::CleanWithTime ==> has_time_widget,
        mascot_state_of(git, has_time_widget) == MascotState::CleanNoTime ==> !has_time_widget,
{
}

/// Each mood has a label of its own.
pub proof fn law_moods_are_distinct(a: MascotState, b: MascotState)
    requires
        a != b,
    ensures
        visual_of(a).1 != visual_of(b).1,
{
    reveal_strlit("conflict");
    reveal_strlit("watching");
    reveal_strlit("ready");
    reveal_strlit("ship");
    reveal_strlit("ticking");
    reveal_strlit("all clear");
    reveal_strlit("no repo");
    let la = visual_of(a).1;
    let lb = visual_of(b).1;
    if la.len() == lb.len() {
        assert(la[0] != lb[0] || la[1] != lb[1]);
    }
}

/// What `repo.head()` gave: the hex form of the target object id (if the
/// reference resolves to one), whether it is a branch, and its short name (if
/// it is valid UTF-8).
pub struct HeadRef {
    pub target: Option<String>,
    pub is_branch: bool,
    pub shorthand: Option<String>,
}

/// A target whose hash can be abbreviated: shorter than seven bytes, or with
/// a character beginning at byte 7.
pub open spec fn short_hash_ok(target: Option<String>) -> bool {
    match target {
        Some(sha) => byte_len(sha@) >= 7 ==> is_char_boundary(encode_utf8(sha@), 7),
        None => true,
    }
}

/// `hash` is the abbreviated commit hash shown for a head: the first seven
/// bytes of the object id's hex form, all of it when shorter, or a dash when
/// the head does not point at an object.
pub open spec fn short_hash_of(target: Option<String>, hash: Seq<char>) -> bool {
    match target {
        Some(sha) => if byte_len(sha@) >= 7 {
            encode_utf8(hash) == encode_utf8(sha@).take(7)
        } else {
            hash == sha@
        },
        None => hash == "\u{2014}"@,
    }
}

/// Branch name, abbreviated hash and detachment of a head; `None` is a head
/// that could not be read.
pub open spec fn head_summary_of(head: Option<HeadRef>, r: (String, String, bool)) -> bool {
    match head {
        None => r.0@ == "main"@ && r.1@ == "\u{2014}"@ && !r.2,
        Some(h) => {
            &&& short_hash_of(h.target, r.1@)
            &&& if h.is_branch {
                &&& r.0@ == lower(
                    match h.shorthand {
                        Some(n) => n@,
                        None => "unknown"@,
                    },
                )
                &&& !r.2
            } else {
                &&& r.0@ == "detached@"@ + r.1@
                &&& r.2
            }
        },
    }
}

fn short_hash(target: &Option<String>) -> (r: String)
    requires
        short_hash_ok(*target),
    ensures
        short_hash_of(*target, r@),
{
    match target {
        Some(sha) => {
            let st = sha.as_str();
            if st.len() >= 7 {
                let (a, _) = st.split_at(7);
                let r = a.to_owned();
                proof {
                    assert(st@ == sha@);
                    assert(encode_utf8(r@) == a.spec_bytes());
                    assert(encode_utf8(sha@).take(7) =~= st.spec_bytes().subrange(0, 7));
                }
                r
            } else {
                let r = st.to_owned();
                proof {
                    assert(st@ == sha@);
                    assert(encode_utf8(st@) == st.spec_bytes());
                    assert(r@ == sha@);
                }
                r
            }
        },
        None => "\u{2014}".to_owned(),
    }
}

/// Names the head: its lowercased short name on a branch, `detached@` and the
/// abbreviated hash otherwise, `main` when the head cannot be read.
pub fn head_summary(head: Option<HeadRef>) -> (r: (String, String, bool))
    requires
        match head {
            Some(h) => short_hash_ok(h.target),
            None => true,
        },
    ensures
        head_summary_of(head, r),
{
    match head {
        None => ("main".to_owned(), "\u{2014}".to_owned(), false),
        Some(h) => {
            let hash = short_hash(&h.target);
            if h.is_branch {
                let name = match &h.shorthand {
                    Some(n) => lowercase_of(n.as_str()),
                    None => lowercase_of("unknown"),
                };
                (name, hash, false)
            } else {
                let name = "detached@".to_owned().concat(hash.as_str());
                (name, hash, true)
            }
        },
    }
}

/// What was found of the current branch's upstream: its name (if it is valid
/// UTF-8) and the commits the branch is ahead and behind, when both tips
/// resolve and the history walk succeeds.
pub struct UpstreamRef {
    pub name: Option<String>,
    pub counts: Option<(usize, usize)>,
}

/// Ahead/behind of a head: nothing when detached or without an upstream;
/// otherwise the upstream's lowercased name and the walk's counts, `0/0` when
/// they could not be had.
pub open spec fn ahead_behind_of(is_detached: bool, upstream: Option<UpstreamRef>, r: GitAheadBehind) -> bool {
    if is_detached || upstream is None {
        &&& r.ahead == 0
        &&& r.behind == 0
        &&& !r.has_upstream
        &&& r.upstream_name is None
    } else {
        let u = upstream->0;
        &&& r.has_upstream
        &&& match u.counts {
            Some((a, b)) => r.ahead == a && r.behind == b,
            None => r.ahead == 0 && r.behind == 0,
        }
        &&& match u.name {
            Some(n) => r.upstream_name matches Some(m) && m@ == lower(n@),
            None => r.upstream_name is None,
        }
    }
}

/// The upstream standing of the head (see `ahead_behind_of`).
pub fn ahead_behind_for(is_detached: bool, upstream: Option<UpstreamRef>) -> (r: GitAheadBehind)
    ensures
        ahead_behind_of(is_detached, upstream, r),
{
    if is_detached {
        return GitAheadBehind::default();
    }
    match upstream {
        None => GitAheadBehind::default(),
        Some(u) => {
            let upstream_name = match &u.name {
                Some(n) => Some(lowercase_of(n.as_str())),
                None => None,
            };
            let (ahead, behind) = match u.counts {
                Some(c) => c,
                None => (0, 0),
            };
            GitAheadBehind { ahead, behind, has_upstream: true, upstream_name }
        },
    }
}

/// `git2::Status::CONFLICTED` (libgit2's `GIT_STATUS_CONFLICTED`).
pub open spec fn conflicted_mask() -> u32 {
    0x8000
}

/// The index flags: new, modified, deleted, renamed, type change.
pub open spec fn index_mask() -> u32 {
    0x1f
}

/// The working-tree change flags: modified, deleted, type change, renamed.
pub open spec fn worktree_mask() -> u32 {
    0xf00
}

/// `git2::Status::WT_NEW`.
pub open spec fn untracked_mask() -> u32 {
    0x80
}

/// Reads `git2::Status::CONFLICTED.bits()`. Claimed: it is `1 << 15`,
/// libgit2's `GIT_STATUS_CONFLICTED`.
#[verifier::external_body]
fn status_conflicted() -> (r: u32)
    ensures
        r == conflicted_mask(),
{
    git2::Status::CONFLICTED.bits()
}

/// Unites `git2::Status::INDEX_NEW`, `INDEX_MODIFIED`, `INDEX_DELETED`,
/// `INDEX_RENAMED` and `INDEX_TYPECHANGE` and reads the bits. Claimed: they
/// are bits 0 to 4 (libgit2's `GIT_STATUS_INDEX_*`).
#[verifier::external_body]
fn status_index_changed() -> (r: u32)
    ensures
        r == index_mask(),
{
    (git2::Status::INDEX_NEW | git2::Status::INDEX_MODIFIED | git2::Status::INDEX_DELETED
        | git2::Status::INDEX_RENAMED | git2::Status::INDEX_TYPECHANGE).bits()
}

/// Unites `git2::Status::WT_MODIFIED`, `WT_DELETED`, `WT_RENAMED` and
/// `WT_TYPECHANGE` and reads the bits. Claimed: they are bits 8 to 11
/// (libgit2's `GIT_STATUS_WT_MODIFIED`, `_DELETED`, `_TYPECHANGE`, `_RENAMED`).
#[verifier::external_body]
fn status_worktree_changed() -> (r: u32)
    ensures
        r == worktree_mask(),
{
    (git2::Status::WT_MODIFIED | git2::Status::WT_DELETED | git2::Status::WT_RENAMED
        | git2::Status::WT_TYPECHANGE).bits()
}

/// Reads `git2::Status::WT_NEW.bits()`. Claimed: it is `1 << 7`, libgit2's
/// `GIT_STATUS_WT_NEW`.
#[verifier::external_body]
fn status_untracked() -> (r: u32)
    ensures
        r == untracked_mask(),
{
    git2::Status::WT_NEW.bits()
}

/// An entry in conflict (`contains(CONFLICTED)`).
pub open spec fn is_conflicted(bits: u32) -> bool {
    bits & conflicted_mask() == conflicted_mask()
}

/// A staged entry: not in conflict, with an index flag set.
pub open spec fn is_staged(bits: u32) -> bool {
    !is_conflicted(bits) && bits & index_mask() != 0
}

/// A modified entry: not in conflict, with a working-tree change flag set.
pub open spec fn is_modified(bits: u32) -> bool {
    !is_conflicted(bits) && bits & worktree_mask() != 0
}

/// An untracked entry: not in conflict, with `WT_NEW` set.
pub open spec fn is_untracked(bits: u32) -> bool {
    !is_conflicted(bits) && bits & untracked_mask() == untracked_mask()
}

/// How many of `s` satisfy `p`.
pub open spec fn count_where(s: Seq<u32>, p: spec_fn(u32) -> bool) -> nat
    decreases s.len(),
{
    if s.len() == 0 {
        0
    } else {
        count_where(s.drop_last(), p) + if p(s.last()) {
            1nat
        } else {
            0nat
        }
    }
}

/// A count of some entries is at most the number of entries.
pub proof fn lemma_count_where_le(s: Seq<u32>, p: spec_fn(u32) -> bool)
    ensures
        count_where(s, p) <= s.len(),
    decreases s.len(),
{
    if s.len() > 0 {
        lemma_count_where_le(s.drop_last(), p);
    }
}

/// Entries of the status list, counted by kind.
pub struct StatusTally {
    pub modified: usize,
    pub staged: usize,
    pub untracked: usize,
    pub conflicted: usize,
}

/// Counts the entries of a status list (each given by its `git2::Status`
/// bits): conflicts apart, and among the rest, staged, modified and untracked
/// entries (one entry may count under several of these).
pub fn tally_statuses(statuses: &Vec<u32>) -> (r: StatusTally)
    ensures
        r.conflicted == count_where(statuses@, |b: u32| is_conflicted(b)),
        r.staged == count_where(statuses@, |b: u32| is_staged(b)),
        r.modified == count_where(statuses@, |b: u32| is_modified(b)),
        r.untracked == count_where(statuses@, |b: u32| is_untracked(b)),
{
    let conflicted_bits = status_conflicted();
    let index_bits = status_index_changed();
    let worktree_bits = status_worktree_changed();
    let untracked_bits = status_untracked();
    let mut t = StatusTally { modified: 0, staged: 0, untracked: 0, conflicted: 0 };
    let mut i: usize = 0;
    while i < statuses.len()
        invariant
            i <= statuses.len(),
            conflicted_bits == conflicted_mask(),
            index_bits == index_mask(),
            worktree_bits == worktree_mask(),
            untracked_bits == untracked_mask(),
            t.conflicted == count_where(statuses@.take(i as int), |b: u32| is_conflicted(b)),
            t.staged == count_where(statuses@.take(i as int), |b: u32| is_staged(b)),
            t.modified == count_where(statuses@.take(i as int), |b: u32| is_modified(b)),
            t.untracked == count_where(statuses@.take(i as int), |b: u32| is_untracked(b)),
        decreases statuses.len() - i,
    {
        let s = statuses[i];
        let ghost pre = statuses@.take(i as int);
        let ghost post = statuses@.take(i + 1);
        proof {
            assert(post.drop_last() =~= pre);
            assert(post.last() == s);
            lemma_count_where_le(pre, |b: u32| is_conflicted(b));
            lemma_count_where_le(pre, |b: u32| is_staged(b));
            lemma_count_where_le(pre, |b: u32| is_modified(b));
            lemma_count_where_le(pre, |b: u32| is_untracked(b));
        }
        if s & conflicted_bits == conflicted_bits {
            t.conflicted = t.conflicted + 1;
        } else {
            if s & index_bits != 0 {
                t.staged = t.staged + 1;
            }
            if s & worktree_bits != 0 {
                t.modified = t.modified + 1;
            }
            if s & untracked_bits == untracked_bits {
                t.untracked = t.untracked + 1;
            }
        }
        i += 1;
    }
    assert(statuses@.take(i as int) =~= statuses@);
    t
}

/// The state of a repository that was found: its working directory, the head
/// as `head_summary` names it, the upstream standing as `ahead_behind_for`
/// gives it, and the status list tallied.
pub fn git_state_from(
    repo_root: Option<std::path::PathBuf>,
    head: (String, String, bool),
    upstream: Option<UpstreamRef>,
    statuses: &Vec<u32>,
) -> (r: GitState)
    ensures
        r.is_repo,
        r.repo_root == repo_root,
        r.branch_name == head.0,
        r.commit_hash == head.1,
        r.is_detached == head.2,
        ahead_behind_of(head.2, upstream, r.ahead_behind),
        r.conflict_count == count_where(statuses@, |b: u32| is_conflicted(b)),
        r.staged_count == count_where(statuses@, |b: u32| is_staged(b)),
        r.modified_count == count_where(statuses@, |b: u32| is_modified(b)),
        r.untracked_count == count_where(statuses@, |b: u32| is_untracked(b)),
{
    let (branch_name, commit_hash, is_detached) = head;
    let ahead_behind = ahead_behind_for(is_detached, upstream);
    let t = tally_statuses(statuses);
    GitState {
        is_repo: true,
        repo_root,
        branch_name,
        commit_hash,
        is_detached,
        ahead_behind,
        modified_count: t.modified,
        staged_count: t.staged,
        untracked_count: t.untracked,
        conflict_count: t.conflicted,
    }
}

} // verus!
