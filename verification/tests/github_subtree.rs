use openfang_runtime::github::{
    enrich_tree_fetch_error, filter_tree_entries, local_path_for, parse_params, parse_repo_slug,
    resolve_github_token_with_env, plan_download, DownloadInput, TreeEntry, DEFAULT_MAX_FILES,
    DEFAULT_MAX_TOTAL_BYTES, MAX_FILES_HARD, MAX_PER_FILE_BYTES, MAX_TOTAL_BYTES_HARD,
};
use std::path::PathBuf;

#[test]
fn parses_owner_name_shortform() {
    let s = parse_repo_slug("sbhooley/ainativelang").unwrap();
    assert_eq!(s.owner, "sbhooley");
    assert_eq!(s.name, "ainativelang");
}

#[test]
fn parses_https_url_with_git_suffix() {
    let s = parse_repo_slug("https://github.com/sbhooley/ainativelang.git").unwrap();
    assert_eq!(s.owner, "sbhooley");
    assert_eq!(s.name, "ainativelang");
}

#[test]
fn parses_url_with_tree_suffix() {
    let s = parse_repo_slug("https://github.com/sbhooley/ainativelang/tree/main/apollo-x-bot")
        .unwrap();
    assert_eq!(s.owner, "sbhooley");
    assert_eq!(s.name, "ainativelang");
}

#[test]
fn parses_ssh_form() {
    let s = parse_repo_slug("git@github.com:sbhooley/ainativelang.git").unwrap();
    assert_eq!(s.owner, "sbhooley");
    assert_eq!(s.name, "ainativelang");
}

#[test]
fn rejects_garbage_repo() {
    assert!(parse_repo_slug("").is_err());
    assert!(parse_repo_slug("not-a-repo").is_err());
    assert!(parse_repo_slug("https://example.com/owner/name").is_err());
}

fn entry(path: &str, kind: &str, size: Option<u64>) -> TreeEntry {
    TreeEntry { path: path.to_string(), kind: kind.to_string(), size }
}

#[test]
fn filter_keeps_only_blobs_under_subpath() {
    let entries = vec![
        entry("apollo-x-bot/README.md", "blob", Some(100)),
        entry("apollo-x-bot/modules/apollo/follow_manager.ainl", "blob", Some(200)),
        entry("apollo-x-bot", "tree", None),
        entry("apollo-x-bot/modules", "tree", None),
        entry("other/file.txt", "blob", Some(50)),
    ];
    let (kept, skipped) = filter_tree_entries(&entries, "apollo-x-bot", &[], &[]);
    let kept_paths: Vec<_> = kept.iter().map(|e| e.path.as_str()).collect();
    assert_eq!(
        kept_paths,
        vec!["apollo-x-bot/README.md", "apollo-x-bot/modules/apollo/follow_manager.ainl",]
    );
    assert!(skipped.is_empty());
}

#[test]
fn filter_applies_extension_filter() {
    let entries = vec![
        entry("apollo-x-bot/README.md", "blob", Some(100)),
        entry("apollo-x-bot/follow.ainl", "blob", Some(50)),
        entry("apollo-x-bot/script.sh", "blob", Some(30)),
    ];
    let (kept, skipped) =
        filter_tree_entries(&entries, "apollo-x-bot", &["ainl".into(), ".md".into()], &[]);
    let kept_paths: Vec<_> = kept.iter().map(|e| e.path.as_str()).collect();
    assert_eq!(kept_paths, vec!["apollo-x-bot/README.md", "apollo-x-bot/follow.ainl"]);
    assert_eq!(skipped.len(), 1);
    assert_eq!(skipped[0].repo_path, "apollo-x-bot/script.sh");
    assert!(skipped[0].reason.contains("extensions"));
}

#[test]
fn filter_applies_exclude_substrings() {
    let entries = vec![
        entry("apollo-x-bot/secrets.env", "blob", Some(10)),
        entry("apollo-x-bot/keep.ainl", "blob", Some(10)),
    ];
    let (kept, skipped) = filter_tree_entries(&entries, "apollo-x-bot", &[], &["secrets".into()]);
    let kept_paths: Vec<_> = kept.iter().map(|e| e.path.as_str()).collect();
    assert_eq!(kept_paths, vec!["apollo-x-bot/keep.ainl"]);
    assert_eq!(skipped[0].repo_path, "apollo-x-bot/secrets.env");
    assert!(skipped[0].reason.contains("exclude"));
}

#[test]
fn filter_skips_oversized_blob() {
    let entries = vec![entry("huge/binary.bin", "blob", Some(MAX_PER_FILE_BYTES + 1))];
    let (kept, skipped) = filter_tree_entries(&entries, "huge", &[], &[]);
    assert!(kept.is_empty());
    assert_eq!(skipped.len(), 1);
    assert!(skipped[0].reason.contains("per-file cap"));
}

#[test]
fn filter_with_empty_subpath_takes_all_blobs() {
    let entries = vec![
        entry("a/b.txt", "blob", Some(1)),
        entry("c.txt", "blob", Some(1)),
        entry("d", "tree", None),
    ];
    let (kept, _) = filter_tree_entries(&entries, "", &[], &[]);
    let paths: Vec<_> = kept.iter().map(|e| e.path.as_str()).collect();
    assert_eq!(paths, vec!["a/b.txt", "c.txt"]);
}

#[test]
fn local_path_strips_subpath_prefix() {
    let p = local_path_for("apollo-x-bot/modules/apollo/follow.ainl", "apollo-x-bot", "apollo-x-bot");
    assert_eq!(PathBuf::from(p), PathBuf::from("apollo-x-bot/modules/apollo/follow.ainl"));
}

#[test]
fn local_path_handles_custom_dest() {
    let p =
        local_path_for("apollo-x-bot/modules/apollo/follow.ainl", "apollo-x-bot", "downloaded/bot");
    assert_eq!(PathBuf::from(p), PathBuf::from("downloaded/bot/modules/apollo/follow.ainl"));
}

#[test]
fn local_path_single_file_mode() {
    let p = local_path_for("apollo-x-bot/README.md", "apollo-x-bot/README.md", "out");
    assert_eq!(PathBuf::from(p), PathBuf::from("out/README.md"));
}

fn input_with_repo(repo: &str) -> DownloadInput {
    DownloadInput {
        repo: Some(repo.to_string()),
        path: None,
        dest: None,
        branch_present: false,
        branch: None,
        token: None,
        extensions: None,
        exclude: None,
        max_files: None,
        max_total_bytes: None,
        api_base: None,
        raw_base: None,
    }
}

#[test]
fn parse_params_defaults_dest_to_subpath_basename() {
    let mut input = input_with_repo("sbhooley/ainativelang");
    input.path = Some("apollo-x-bot/modules".to_string());
    let p = parse_params(&input).unwrap();
    assert_eq!(p.dest, "modules");
}

#[test]
fn parse_params_defaults_dest_to_repo_name_when_path_empty() {
    let input = input_with_repo("sbhooley/ainativelang");
    let p = parse_params(&input).unwrap();
    assert_eq!(p.dest, "ainativelang");
    assert_eq!(p.path, "");
    assert_eq!(p.branch, "main");
    assert!(!p.branch_explicit);
    assert_eq!(p.max_files, DEFAULT_MAX_FILES);
    assert_eq!(p.max_total_bytes, DEFAULT_MAX_TOTAL_BYTES);
}

#[test]
fn parse_params_clamps_caps_to_hard_max() {
    let mut input = input_with_repo("o/n");
    input.max_files = Some(999_999);
    input.max_total_bytes = Some(999_999_999_999u64);
    let p = parse_params(&input).unwrap();
    assert_eq!(p.max_files, MAX_FILES_HARD);
    assert_eq!(p.max_total_bytes, MAX_TOTAL_BYTES_HARD);
}

#[test]
fn parse_params_empty_or_whitespace_token_is_no_auth() {
    for token in ["", "   ", "\n"] {
        let mut input = input_with_repo("sbhooley/ainativelang");
        input.token = Some(token.to_string());
        let p = parse_params(&input).unwrap();
        assert_eq!(p.token, None, "token={token:?}");
    }
}

#[test]
fn resolve_github_token_prefers_tool_parameter() {
    let (t, src) = resolve_github_token_with_env(
        Some("from_param".to_string()),
        Some("from_env".to_string()),
        None,
    );
    assert_eq!(t.as_deref(), Some("from_param"));
    assert_eq!(src, "tool_parameter");
}

#[test]
fn resolve_github_token_uses_github_token_env() {
    let (t, src) = resolve_github_token_with_env(None, Some("ghp_from_env".to_string()), None);
    assert_eq!(t.as_deref(), Some("ghp_from_env"));
    assert_eq!(src, "env:GITHUB_TOKEN");
}

#[test]
fn resolve_github_token_falls_back_to_gh_token() {
    let (t, src) = resolve_github_token_with_env(None, None, Some("gh_from_gh_token".to_string()));
    assert_eq!(t.as_deref(), Some("gh_from_gh_token"));
    assert_eq!(src, "env:GH_TOKEN");
}

#[test]
fn enrich_error_adds_hint_only_without_auth() {
    let e = "GitHub API returned 404 Not Found for x".to_string();
    assert_eq!(enrich_tree_fetch_error(e.clone(), true), e);
    let hinted = enrich_tree_fetch_error(e.clone(), false);
    assert!(hinted.starts_with(&e));
    assert!(hinted.contains("Hint: GitHub often returns **404**"));
    let other = enrich_tree_fetch_error("boom".to_string(), false);
    assert_eq!(other, "boom");
    let rate = enrich_tree_fetch_error("hit rate limit".to_string(), false);
    assert!(rate.ends_with("`token` to raise limits."));
}

#[test]
fn parse_params_dest_is_a_clean_last_component() {
    let mut input = input_with_repo("o/repo.git");
    input.path = Some("/docs/guide/./".to_string());
    let p = parse_params(&input).unwrap();
    assert_eq!(p.path, "docs/guide/.");
    assert_eq!(p.dest, "guide");
    let mut input = input_with_repo("o/repo");
    input.path = Some("docs/..".to_string());
    let p = parse_params(&input).unwrap();
    assert_eq!(p.dest, "repo");
    let mut input = input_with_repo("o/repo");
    input.dest = Some("//out/dir//".to_string());
    input.token = Some("  tok  ".to_string());
    let p = parse_params(&input).unwrap();
    assert_eq!(p.dest, "out/dir");
    assert_eq!(p.token.as_deref(), Some("tok"));
}

#[test]
fn filter_puts_every_in_scope_blob_in_exactly_one_list() {
    let entries = vec![
        entry("src/a.rs", "blob", Some(10)),
        entry("src/b.md", "blob", Some(10)),
        entry("src", "tree", None),
        entry("other/c.rs", "blob", Some(10)),
        entry("src/target/d.rs", "blob", Some(10)),
        entry("src/big.rs", "blob", Some(MAX_PER_FILE_BYTES + 1)),
    ];
    let (kept, skipped) = filter_tree_entries(
        &entries,
        "/src/",
        &["rs".to_string()],
        &["target".to_string(), "".to_string()],
    );
    let kept_paths: Vec<&str> = kept.iter().map(|e| e.path.as_str()).collect();
    let skipped_paths: Vec<&str> = skipped.iter().map(|s| s.repo_path.as_str()).collect();
    assert_eq!(kept_paths, vec!["src/a.rs"]);
    assert_eq!(skipped_paths, vec!["src/b.md", "src/target/d.rs", "src/big.rs"]);
    assert_eq!(kept.len() + skipped.len(), 4);
}

#[test]
fn planned_download_hands_out_only_kept_entries_up_to_max_files() {
    let mut input = input_with_repo("o/n");
    input.path = Some("src".to_string());
    input.max_files = Some(2);
    input.max_total_bytes = Some(100);
    let params = parse_params(&input).unwrap();
    let entries = vec![
        entry("src/a.rs", "blob", Some(10)),
        entry("docs/x.md", "blob", Some(10)),
        entry("src/b.rs", "blob", Some(10)),
        entry("src/c.rs", "blob", Some(10)),
    ];
    let mut ledger = plan_download(&entries, &params);
    assert_eq!(ledger.skipped.len(), 1);
    assert_eq!(ledger.skipped[0].repo_path, "src/c.rs");
    let mut handed = Vec::new();
    while let Some(e) = ledger.next_entry() {
        handed.push(e.path.clone());
        if ledger.admit_before_fetch(&e.path) && ledger.admit_after_fetch(&e.path, 60) {
            ledger.record_written(format!("out/{}", e.path), 60);
        }
    }
    assert_eq!(handed, vec!["src/a.rs".to_string(), "src/b.rs".to_string()]);
    assert_eq!(ledger.written.len(), 1);
    assert_eq!(ledger.written[0].repo_path, "src/a.rs");
    assert_eq!(ledger.skipped.last().unwrap().repo_path, "src/b.rs");
    let repo = params.repo.clone();
    let m = ledger.finish("none", &repo, "main".to_string(), params.path.clone(), params.dest.clone());
    assert!(m.ok);
    assert_eq!(m.total_bytes, 60);
    assert_eq!(m.files_written.len(), 1);
}
