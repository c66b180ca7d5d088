use ultimate64_manager::profile_repo::{
    commit_failure_is_benign, entry_category, history_without_git, nothing_to_commit,
    save_category, sub_category, ProfileRepo,
};

#[test]
fn a_repository_is_initialized_by_either_directory() {
    assert!(ProfileRepo::new("/r".to_string(), true, false, false).is_initialized());
    assert!(ProfileRepo::new("/r".to_string(), false, true, false).is_initialized());
    let mut repo = ProfileRepo::new("/r".to_string(), false, false, true);
    assert!(!repo.is_initialized());
    assert_eq!(repo.root(), "/r");
    repo.mark_initialized();
    assert!(repo.is_initialized());
    assert!(repo.git_available());
}

#[test]
fn categories_nest_and_default_to_uncategorized() {
    assert_eq!(entry_category(""), "uncategorized");
    assert_eq!(entry_category("games"), "games");
    assert_eq!(sub_category("", "games"), "games");
    assert_eq!(sub_category("games", "arcade"), "games/arcade");
    assert_eq!(save_category(""), "uncategorized");
}

#[test]
fn commit_decisions() {
    assert!(nothing_to_commit(""));
    assert!(nothing_to_commit("  \n"));
    assert!(!nothing_to_commit(" M profiles/a.json\n"));
    assert!(commit_failure_is_benign("On branch main\nnothing to commit, working tree clean"));
    assert!(!commit_failure_is_benign("fatal: not a git repository"));
    assert!(history_without_git().is_empty());
}

#[test]
fn remote_and_commit_need_git() {
    let repo = ProfileRepo::new("/r".to_string(), true, true, false);
    assert!(!repo.commit_wanted());
    assert!(!repo.remote_checkable());
    let repo = ProfileRepo::new("/r".to_string(), false, false, true);
    assert!(repo.commit_wanted());
    assert!(!repo.remote_checkable());
}
