use pr_bench::errors::PipelineError;
use pr_bench::version::ToolchainVersion;
use pr_bench::version::TargetRevision;
use pr_bench::version::decrement_minor;
use pr_bench::version::resolve_target;
use pr_bench::version::resolve_pinned;
use pr_bench::version::parse_dotted;
use pr_bench::version::parse_tool_output;
use pr_bench::version::parse_stable_tags;
use pr_bench::version::channel_of_toolchain_file;

fn v(major: u64, minor: u64, patch: u64) -> ToolchainVersion {
    ToolchainVersion { major, minor, patch }
}

#[test]
fn pinned_version_with_matching_stable_tag_resolves_to_it() {
    // Pinned 1.75.0 decrements to 1.74.0; the stable tags include 1.74.0.
    let tags = vec![v(1, 72, 0), v(1, 73, 0), v(1, 74, 0)];
    let r = resolve_pinned(v(1, 75, 0), &tags);
    assert_eq!(r, Ok(TargetRevision::StableTag(v(1, 74, 0))));
}

#[test]
fn decremented_version_one_past_max_stable_minor_resolves_to_prerelease() {
    // Pinned 1.80.0 decrements to 1.79.0; the largest stable minor is 78.
    let tags = vec![v(1, 77, 2), v(1, 78, 0), v(1, 78, 1)];
    let r = resolve_pinned(v(1, 80, 0), &tags);
    assert_eq!(r, Ok(TargetRevision::PreReleaseBranch));
}

#[test]
fn decremented_version_far_past_stable_tags_fails_resolution() {
    // Pinned 1.90.0 decrements to 1.89.0; the largest stable minor is 70.
    let tags = vec![v(1, 69, 0), v(1, 70, 0)];
    let r = resolve_pinned(v(1, 90, 0), &tags);
    assert_eq!(r, Err(PipelineError::VersionResolutionError));
}

#[test]
fn resolution_with_no_tags_fails() {
    let tags: Vec<ToolchainVersion> = Vec::new();
    let r = resolve_target(v(1, 74, 0), &tags);
    assert_eq!(r, Err(PipelineError::VersionResolutionError));
}

#[test]
fn exact_tag_match_takes_precedence_over_prerelease_rule() {
    // 1.75.0 is both tagged and one past minor 74.
    let tags = vec![v(1, 74, 0), v(1, 75, 0)];
    let r = resolve_target(v(1, 75, 0), &tags);
    assert_eq!(r, Ok(TargetRevision::StableTag(v(1, 75, 0))));
}

#[test]
fn tag_match_requires_all_three_components() {
    let tags = vec![v(1, 74, 1)];
    // 1.74.0 is not tagged, and 74 is not one past the max minor 74.
    let r = resolve_target(v(1, 74, 0), &tags);
    assert_eq!(r, Err(PipelineError::VersionResolutionError));
}

#[test]
fn decrementing_minor_zero_fails() {
    assert_eq!(
        decrement_minor(v(1, 0, 0)),
        Err(PipelineError::VersionResolutionError)
    );
    assert_eq!(decrement_minor(v(1, 75, 0)), Ok(v(1, 74, 0)));
}

#[test]
fn dotted_version_parses_exactly() {
    assert_eq!(parse_dotted(&b"1.74.0".to_vec()), Ok(v(1, 74, 0)));
    assert_eq!(parse_dotted(&b"10.2.33".to_vec()), Ok(v(10, 2, 33)));
}

#[test]
fn dotted_version_rejects_malformed_names() {
    assert_eq!(
        parse_dotted(&b"1.74".to_vec()),
        Err(PipelineError::ToolchainParseError)
    );
    assert_eq!(
        parse_dotted(&b"1.74.0x".to_vec()),
        Err(PipelineError::ToolchainParseError)
    );
    assert_eq!(
        parse_dotted(&b"v1.74.0".to_vec()),
        Err(PipelineError::ToolchainParseError)
    );
    assert_eq!(
        parse_dotted(&b"1..0".to_vec()),
        Err(PipelineError::ToolchainParseError)
    );
    assert_eq!(
        parse_dotted(&b"".to_vec()),
        Err(PipelineError::ToolchainParseError)
    );
}

#[test]
fn dotted_version_rejects_leading_zeros() {
    // A version component is written canonically, so a tag name parses
    // exactly when it is the version's own rendering: matching parsed
    // versions is matching names.
    assert_eq!(
        parse_dotted(&b"1.074.0".to_vec()),
        Err(PipelineError::ToolchainParseError)
    );
    assert_eq!(
        parse_dotted(&b"01.74.0".to_vec()),
        Err(PipelineError::ToolchainParseError)
    );
    assert_eq!(
        parse_dotted(&b"1.74.00".to_vec()),
        Err(PipelineError::ToolchainParseError)
    );
    // A component that is exactly zero is canonical.
    assert_eq!(parse_dotted(&b"0.1.0".to_vec()), Ok(v(0, 1, 0)));
}

#[test]
fn stable_tags_with_leading_zeros_are_passed_over() {
    let names = vec![b"1.074.0".to_vec(), b"1.74.0".to_vec()];
    assert_eq!(parse_stable_tags(&names), vec![v(1, 74, 0)]);
}

#[test]
fn dotted_version_rejects_components_too_large_for_u64() {
    let r = parse_dotted(&b"1.99999999999999999999.0".to_vec());
    assert_eq!(r, Err(PipelineError::ToolchainParseError));
}

#[test]
fn tool_output_version_is_read_after_the_label() {
    let out = b"info: syncing channel updates\nrustc 1.75.0-nightly (abcd1234 2023-11-01)\n".to_vec();
    assert_eq!(parse_tool_output(&out), Ok(v(1, 75, 0)));
}

#[test]
fn tool_output_version_allows_a_missing_suffix() {
    assert_eq!(parse_tool_output(&b"rustc 1.74.1".to_vec()), Ok(v(1, 74, 1)));
}

#[test]
fn tool_output_without_label_fails() {
    assert_eq!(
        parse_tool_output(&b"no version here".to_vec()),
        Err(PipelineError::ToolchainParseError)
    );
}

#[test]
fn tool_output_scans_past_labels_without_a_version_token() {
    // The first occurrence of the label is not followed by a version
    // token; the pattern is still present at a later occurrence, and
    // parsing recovers that version.
    let out = b"rustc unknown\nrustc 1.75.0-nightly".to_vec();
    assert_eq!(parse_tool_output(&out), Ok(v(1, 75, 0)));
}

#[test]
fn channel_is_the_first_quoted_fragment() {
    let file = b"[toolchain]\nchannel = \"nightly-2023-11-01\"\ncomponents = [\"rustc-dev\"]\n"
        .to_vec();
    assert_eq!(
        channel_of_toolchain_file(&file),
        Ok(b"nightly-2023-11-01".to_vec())
    );
}

#[test]
fn toolchain_file_without_quotes_fails() {
    assert_eq!(
        channel_of_toolchain_file(&b"channel = nightly".to_vec()),
        Err(PipelineError::ToolchainParseError)
    );
    assert_eq!(
        channel_of_toolchain_file(&b"channel = \"nightly".to_vec()),
        Err(PipelineError::ToolchainParseError)
    );
}

#[test]
fn stable_tags_parse_to_versions_passing_over_other_names() {
    let names = vec![
        b"1.74.0".to_vec(),
        b"release-notes".to_vec(),
        b"1.75.1".to_vec(),
    ];
    let parsed = parse_stable_tags(&names);
    assert_eq!(parsed, vec![v(1, 74, 0), v(1, 75, 1)]);
}
