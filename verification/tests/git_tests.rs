use git2::Status;
use mew::git::{
    ahead_behind_for, compute_mascot_state, git_state_from, head_summary,
    mascot_visual_for_state, tally_statuses, GitAheadBehind, GitState, HeadRef, MascotState,
    UpstreamRef,
};

fn repo_state() -> GitState {
    let mut g = GitState::default();
    g.is_repo = true;
    g
}

#[test]
fn mascot_no_repo_outside_git() {
    let g = GitState::default();
    assert_eq!(compute_mascot_state(&g, true), MascotState::NoRepo);
    assert_eq!(compute_mascot_state(&g, false), MascotState::NoRepo);
}

#[test]
fn mascot_priority_order() {
    let mut g = repo_state();
    g.conflict_count = 1;
    g.modified_count = 3;
    g.staged_count = 2;
    g.ahead_behind.ahead = 4;
    assert_eq!(compute_mascot_state(&g, true), MascotState::Conflict);
    g.conflict_count = 0;
    assert_eq!(compute_mascot_state(&g, true), MascotState::Dirty);
    g.modified_count = 0;
    g.untracked_count = 1;
    assert_eq!(compute_mascot_state(&g, true), MascotState::Dirty);
    g.untracked_count = 0;
    assert_eq!(compute_mascot_state(&g, true), MascotState::StagedOnly);
    g.staged_count = 0;
    assert_eq!(compute_mascot_state(&g, true), MascotState::AheadOnly);
    g.ahead_behind.ahead = 0;
    g.ahead_behind.behind = 9;
    assert_eq!(compute_mascot_state(&g, true), MascotState::CleanWithTime);
    assert_eq!(compute_mascot_state(&g, false), MascotState::CleanNoTime);
}

#[test]
fn mascot_visuals_match_states() {
    let cases = [
        (MascotState::Conflict, "( >_< )", "conflict", "status_error"),
        (MascotState::Dirty, "( o.o )", "watching", "status_dirty"),
        (MascotState::StagedOnly, "( ~_~ )", "ready", "status_clean"),
        (MascotState::AheadOnly, "( ^.^)~", "ship", "gauge_fill"),
        (MascotState::CleanWithTime, "( -.~ )", "ticking", "task_active"),
        (MascotState::CleanNoTime, "( ^.^ )", "all clear", "status_clean"),
        (MascotState::NoRepo, "( =.= )", "no repo", "muted"),
    ];
    for (state, face, mood, role) in cases {
        let v = mascot_visual_for_state(state);
        assert_eq!(v.middle_line, face);
        assert_eq!(v.mood_label, mood);
        assert_eq!(v.color_role, role);
    }
}

#[test]
fn mood_labels_are_distinct() {
    let states = [
        MascotState::Conflict,
        MascotState::Dirty,
        MascotState::StagedOnly,
        MascotState::AheadOnly,
        MascotState::CleanWithTime,
        MascotState::CleanNoTime,
        MascotState::NoRepo,
    ];
    for a in states {
        for b in states {
            if a != b {
                assert_ne!(
                    mascot_visual_for_state(a).mood_label,
                    mascot_visual_for_state(b).mood_label
                );
            }
        }
    }
}

#[test]
fn head_on_branch_is_lowercased_and_hash_shortened() {
    let (name, hash, detached) = head_summary(Some(HeadRef {
        target: Some("0123456789abcdef0123456789abcdef01234567".to_string()),
        is_branch: true,
        shorthand: Some("Feature/X".to_string()),
    }));
    assert_eq!(name, "feature/x");
    assert_eq!(hash, "0123456");
    assert!(!detached);
}

#[test]
fn head_without_shorthand_is_unknown() {
    let (name, hash, _) = head_summary(Some(HeadRef {
        target: None,
        is_branch: true,
        shorthand: None,
    }));
    assert_eq!(name, "unknown");
    assert_eq!(hash, "\u{2014}");
}

#[test]
fn detached_head_names_the_commit() {
    let (name, hash, detached) = head_summary(Some(HeadRef {
        target: Some("abcdef1234".to_string()),
        is_branch: false,
        shorthand: Some("HEAD".to_string()),
    }));
    assert_eq!(name, "detached@abcdef1");
    assert_eq!(hash, "abcdef1");
    assert!(detached);
}

#[test]
fn short_target_is_kept_whole() {
    let (_, hash, _) = head_summary(Some(HeadRef {
        target: Some("abc".to_string()),
        is_branch: true,
        shorthand: Some("main".to_string()),
    }));
    assert_eq!(hash, "abc");
}

#[test]
fn unreadable_head_defaults_to_main() {
    let (name, hash, detached) = head_summary(None);
    assert_eq!(name, "main");
    assert_eq!(hash, "\u{2014}");
    assert!(!detached);
}

#[test]
fn upstream_counts_and_name() {
    let ab = ahead_behind_for(
        false,
        Some(UpstreamRef { name: Some("Origin/Main".to_string()), counts: Some((3, 1)) }),
    );
    assert_eq!((ab.ahead, ab.behind, ab.has_upstream), (3, 1, true));
    assert_eq!(ab.upstream_name.as_deref(), Some("origin/main"));
}

#[test]
fn upstream_without_counts_is_even() {
    let ab = ahead_behind_for(false, Some(UpstreamRef { name: None, counts: None }));
    assert_eq!((ab.ahead, ab.behind, ab.has_upstream), (0, 0, true));
    assert!(ab.upstream_name.is_none());
}

#[test]
fn detached_head_has_no_upstream() {
    let ab = ahead_behind_for(
        true,
        Some(UpstreamRef { name: Some("origin/main".to_string()), counts: Some((3, 1)) }),
    );
    assert_eq!((ab.ahead, ab.behind, ab.has_upstream), (0, 0, false));
    let d = GitAheadBehind::default();
    assert_eq!((d.ahead, d.behind, d.has_upstream), (0, 0, false));
}

#[test]
fn statuses_are_tallied_by_kind() {
    let statuses = vec![
        Status::CONFLICTED.bits(),
        (Status::CONFLICTED | Status::WT_MODIFIED).bits(),
        (Status::INDEX_NEW | Status::WT_MODIFIED).bits(),
        Status::INDEX_RENAMED.bits(),
        Status::WT_DELETED.bits(),
        Status::WT_NEW.bits(),
        Status::IGNORED.bits(),
        Status::CURRENT.bits(),
    ];
    let t = tally_statuses(&statuses);
    assert_eq!(t.conflicted, 2);
    assert_eq!(t.staged, 2);
    assert_eq!(t.modified, 2);
    assert_eq!(t.untracked, 1);
}

#[test]
fn state_from_found_repository() {
    let statuses = vec![Status::WT_NEW.bits(), Status::INDEX_MODIFIED.bits()];
    let g = git_state_from(
        None,
        ("main".to_string(), "1234567".to_string(), false),
        Some(UpstreamRef { name: Some("origin/main".to_string()), counts: Some((2, 0)) }),
        &statuses,
    );
    assert!(g.is_repo);
    assert_eq!(g.branch_name, "main");
    assert_eq!(g.commit_hash, "1234567");
    assert_eq!(g.ahead_behind.ahead, 2);
    assert_eq!(g.untracked_count, 1);
    assert_eq!(g.staged_count, 1);
    assert_eq!(g.modified_count, 0);
    assert_eq!(g.conflict_count, 0);
    assert_eq!(compute_mascot_state(&g, false), MascotState::Dirty);
}
