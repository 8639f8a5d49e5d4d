use comfy_patcher::github::{
    is_probable_sha, parse_branch_url, parse_pr_url, parse_repo_url, ref_lookup_next, RefLookupStep,
};
use comfy_patcher::models::TargetKind;

#[test]
fn parses_tree_urls_with_slashes() {
    let parsed = parse_branch_url("https://github.com/Comfy-Org/ComfyUI/tree/feature/a/b").unwrap();
    assert_eq!(parsed.owner, "Comfy-Org");
    assert_eq!(parsed.repo, "ComfyUI");
    assert_eq!(parsed.branch, "feature/a/b");
}

#[test]
fn parses_tree_urls_with_paths_after_branch() {
    let parsed = parse_branch_url("https://github.com/Comfy-Org/ComfyUI/tree/main/src/components").unwrap();
    assert_eq!(parsed.branch, "main/src/components");
}

#[test]
fn parses_pr_urls() {
    let parsed = parse_pr_url("https://github.com/Comfy-Org/ComfyUI/pull/12936").unwrap();
    assert_eq!(parsed.number, 12936);
}

#[test]
fn detects_sha() {
    assert!(is_probable_sha("abcdef1234567890"));
    assert!(!is_probable_sha("feature/something"));
}

#[test]
fn repo_urls_need_exactly_owner_and_repo() {
    let parsed = parse_repo_url("https://github.com/Comfy-Org/ComfyUI").unwrap();
    assert_eq!(parsed.owner, "Comfy-Org");
    assert_eq!(parsed.repo, "ComfyUI");
    assert!(parse_repo_url("https://github.com/Comfy-Org/ComfyUI/pull/1").is_none());
    assert!(parse_pr_url("https://github.com/Comfy-Org/ComfyUI/pull/abc").is_none());
}

#[test]
fn ref_lookup_asks_branch_then_tag_for_each_candidate() {
    assert!(matches!(ref_lookup_next(0, None, false), RefLookupStep::Exhausted));
    assert!(matches!(ref_lookup_next(2, None, false), RefLookupStep::Probe(0, true)));
    assert!(matches!(ref_lookup_next(2, Some((0, true)), false), RefLookupStep::Probe(0, false)));
    assert!(matches!(ref_lookup_next(2, Some((0, false)), false), RefLookupStep::Probe(1, true)));
    assert!(matches!(ref_lookup_next(2, Some((1, true)), true), RefLookupStep::Found(1, TargetKind::Branch)));
    assert!(matches!(ref_lookup_next(2, Some((1, false)), true), RefLookupStep::Found(1, TargetKind::Tag)));
    assert!(matches!(ref_lookup_next(2, Some((1, false)), false), RefLookupStep::Exhausted));
}
