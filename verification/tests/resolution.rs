use fonda::dependency::{excluded_by_markers, filter_commented, normalize_entry, Section};
use fonda::manifest::{scan_manifest, Manifest};
use fonda::platform::{platform_for_os, PlatformTag};
use fonda::requirements::{render_requirements, resolve_entries, resolve_text};

fn strings(items: &[&str]) -> Vec<String> {
    items.iter().map(|s| s.to_string()).collect()
}

#[test]
fn scenario_plain_and_pip_group_on_linux() {
    let text = "name: demo\ndependencies:\n  - numpy>=1.24.0\n  - pip:flask,requests\n";
    let specs = resolve_text(text, PlatformTag::Linux);
    assert_eq!(specs, strings(&["numpy>=1.24.0", "flask", "requests"]));
    assert_eq!(render_requirements(&specs), "numpy>=1.24.0\nflask\nrequests\n");
}

#[test]
fn scenario_plain_and_pip_group_from_manifest_value() {
    let manifest = Manifest {
        name: "demo".to_string(),
        python_version: None,
        channels: None,
        dependencies: strings(&["numpy>=1.24.0", "pip:flask,requests"]),
        pip: None,
    };
    assert_eq!(
        manifest.requirements(PlatformTag::Linux),
        strings(&["numpy>=1.24.0", "flask", "requests"])
    );
}

#[test]
fn scenario_foreign_markers_leave_nothing_on_macos() {
    let text = "name: demo\ndependencies:\n  - pywin32  # [win]\n  - uvloop  # [linux]\n";
    let specs = resolve_text(text, PlatformTag::MacOS);
    assert_eq!(specs, Vec::<String>::new());
    assert_eq!(render_requirements(&specs), "");
}

#[test]
fn absent_and_empty_pip_list_are_alike() {
    let mut manifest = Manifest {
        name: "demo".to_string(),
        python_version: Some("3.11".to_string()),
        channels: Some(strings(&["conda-forge"])),
        dependencies: strings(&["numpy"]),
        pip: None,
    };
    let absent = manifest.requirements(PlatformTag::Windows);
    manifest.pip = Some(Vec::new());
    let empty = manifest.requirements(PlatformTag::Windows);
    assert_eq!(absent, strings(&["numpy"]));
    assert_eq!(absent, empty);
}

#[test]
fn pip_group_members_are_trimmed_and_empty_pieces_dropped() {
    let out = normalize_entry("pip: flask , ,requests,", Section::Dependencies, PlatformTag::Linux);
    assert_eq!(out, strings(&["flask", "requests"]));
}

#[test]
fn pip_group_with_nothing_after_prefix_gives_nothing() {
    let out = normalize_entry("pip:", Section::Dependencies, PlatformTag::Linux);
    assert_eq!(out, Vec::<String>::new());
}

#[test]
fn pip_group_removes_its_prefix_once() {
    let out = normalize_entry("pip:pip:flask", Section::Dependencies, PlatformTag::Linux);
    assert_eq!(out, strings(&["pip:flask"]));
}

#[test]
fn pip_group_ignores_markers() {
    for tag in [PlatformTag::Windows, PlatformTag::Linux, PlatformTag::MacOS] {
        let out = normalize_entry("pip:pywin32 # [win],six", Section::Dependencies, tag);
        assert_eq!(out, strings(&["pywin32 # [win]", "six"]));
    }
}

#[test]
fn pip_prefix_means_nothing_in_pip_list() {
    let out = normalize_entry("pip:a,b", Section::Pip, PlatformTag::Linux);
    assert_eq!(out, strings(&["pip:a,b"]));
}

#[test]
fn marker_keeps_entry_only_on_its_platform() {
    let cases = [
        ("pywin32  # [win]", PlatformTag::Windows),
        ("uvloop  # [linux]", PlatformTag::Linux),
        ("appnope # [osx]", PlatformTag::MacOS),
        ("appnope # [darwin]", PlatformTag::MacOS),
    ];
    for (entry, home) in cases {
        for tag in [PlatformTag::Windows, PlatformTag::Linux, PlatformTag::MacOS] {
            let out = normalize_entry(entry, Section::Dependencies, tag);
            let name = entry.split('#').next().unwrap().trim().to_string();
            if tag == home {
                assert_eq!(out, vec![name]);
            } else {
                assert_eq!(out, Vec::<String>::new());
            }
        }
    }
}

#[test]
fn marker_is_matched_in_any_letter_case() {
    let out = normalize_entry("pywin32 # [WIN]", Section::Dependencies, PlatformTag::Linux);
    assert_eq!(out, Vec::<String>::new());
    let out = normalize_entry("pywin32 # [Win]", Section::Dependencies, PlatformTag::Windows);
    assert_eq!(out, strings(&["pywin32"]));
    let out = normalize_entry("uvloop # only [LiNuX]", Section::Pip, PlatformTag::MacOS);
    assert_eq!(out, Vec::<String>::new());
}

#[test]
fn markers_for_two_platforms_exclude_everywhere() {
    for tag in [PlatformTag::Windows, PlatformTag::Linux, PlatformTag::MacOS] {
        let out = normalize_entry("pkg # [win] [linux]", Section::Dependencies, tag);
        assert_eq!(out, Vec::<String>::new());
    }
}

#[test]
fn osx_and_darwin_together_name_one_platform() {
    let out = normalize_entry("pkg # [osx] [darwin]", Section::Dependencies, PlatformTag::MacOS);
    assert_eq!(out, strings(&["pkg"]));
}

#[test]
fn plain_comment_is_cut_off_and_entry_kept() {
    for tag in [PlatformTag::Windows, PlatformTag::Linux, PlatformTag::MacOS] {
        let out = normalize_entry("numpy>=1.24.0  # fast arrays", Section::Dependencies, tag);
        assert_eq!(out, strings(&["numpy>=1.24.0"]));
    }
}

#[test]
fn entry_with_nothing_before_comment_is_dropped() {
    let out = normalize_entry("  # [linux]", Section::Dependencies, PlatformTag::Linux);
    assert_eq!(out, Vec::<String>::new());
}

#[test]
fn entry_without_comment_is_trimmed() {
    let out = normalize_entry("\tnumpy \u{3000}", Section::Dependencies, PlatformTag::Linux);
    assert_eq!(out, strings(&["numpy"]));
    let out = normalize_entry(" \t ", Section::Dependencies, PlatformTag::Linux);
    assert_eq!(out, Vec::<String>::new());
    let out = normalize_entry("", Section::Pip, PlatformTag::Linux);
    assert_eq!(out, Vec::<String>::new());
}

#[test]
fn special_schemes_pass_unchanged() {
    let entries = [
        "git+https://github.com/psf/requests.git@main",
        "http://example.org/pkg-1.0.tar.gz",
        "https://example.org/pkg-1.0-py3-none-any.whl",
        "-e ./local/pkg",
    ];
    for entry in entries {
        for section in [Section::Dependencies, Section::Pip] {
            for tag in [PlatformTag::Windows, PlatformTag::Linux, PlatformTag::MacOS] {
                assert_eq!(normalize_entry(entry, section, tag), strings(&[entry]));
            }
        }
    }
}

#[test]
fn hash_in_special_scheme_still_starts_a_comment() {
    let out = normalize_entry(
        "git+https://example.org/r.git#egg=pkg",
        Section::Dependencies,
        PlatformTag::Linux,
    );
    assert_eq!(out, strings(&["git+https://example.org/r.git"]));
}

#[test]
fn excluded_by_markers_reads_lower_case_only() {
    assert!(excluded_by_markers("# [win]", PlatformTag::Linux));
    assert!(!excluded_by_markers("# [win]", PlatformTag::Windows));
    assert!(!excluded_by_markers("# [WIN]", PlatformTag::Linux));
    assert!(excluded_by_markers("# [osx]", PlatformTag::Linux));
    assert!(excluded_by_markers("# [darwin]", PlatformTag::Windows));
    assert!(!excluded_by_markers("# [darwin]", PlatformTag::MacOS));
    assert!(!excluded_by_markers("# win linux", PlatformTag::MacOS));
    assert!(!excluded_by_markers("", PlatformTag::MacOS));
}

#[test]
fn filter_commented_keeps_or_drops_the_spec_part() {
    let kept = filter_commented("pkg".to_string(), "# [linux]", PlatformTag::Linux);
    assert_eq!(kept, strings(&["pkg"]));
    let dropped = filter_commented("pkg".to_string(), "# [linux]", PlatformTag::Windows);
    assert_eq!(dropped, Vec::<String>::new());
    let empty = filter_commented(String::new(), "# note", PlatformTag::Windows);
    assert_eq!(empty, Vec::<String>::new());
}

#[test]
fn dependencies_come_before_pip_whatever_the_file_order() {
    let text = "pip:\n  - zeta\ndependencies:\n  - alpha\n  - beta\n";
    let specs = resolve_text(text, PlatformTag::Linux);
    assert_eq!(specs, strings(&["alpha", "beta", "zeta"]));
}

#[test]
fn nothing_is_sorted_or_merged() {
    let deps = strings(&["b", "a", "b", "pip:a,a"]);
    let pip = strings(&["b", "a"]);
    let specs = resolve_entries(&deps, &pip, PlatformTag::Linux);
    assert_eq!(specs, strings(&["b", "a", "b", "a", "a", "b", "a"]));
}

#[test]
fn resolving_two_runs_is_resolving_each() {
    let first = strings(&["a # [win]", "pip:x, y"]);
    let second = strings(&["b", "c # [linux]"]);
    let mut both = first.clone();
    both.extend(second.clone());
    let none: Vec<String> = Vec::new();
    let mut expected = resolve_entries(&first, &none, PlatformTag::Linux);
    expected.extend(resolve_entries(&second, &none, PlatformTag::Linux));
    assert_eq!(resolve_entries(&both, &none, PlatformTag::Linux), expected);
    assert_eq!(expected, strings(&["x", "y", "b", "c"]));
}

#[test]
fn scanner_reads_both_lists_with_comments() {
    let text = "name: demo\nchannels:\n  - conda-forge\ndependencies:\n  - numpy>=1.24.0  # [linux]\n  # a note\n\n  - pip:flask,requests\npip:\n  - black # dev\n";
    let raw = scan_manifest(text);
    assert_eq!(raw.dependencies, strings(&["numpy>=1.24.0  # [linux]", "pip:flask,requests"]));
    assert_eq!(raw.pip, strings(&["black # dev"]));
}

#[test]
fn scanner_ignores_items_outside_lists() {
    let raw = scan_manifest("- stray\nchannels:\n  - conda-forge\n");
    assert_eq!(raw.dependencies, Vec::<String>::new());
    assert_eq!(raw.pip, Vec::<String>::new());
}

#[test]
fn scanner_ends_list_at_dedent() {
    let raw = scan_manifest("dependencies:\n  - a\nother:\n  - b\n");
    assert_eq!(raw.dependencies, strings(&["a"]));
}

#[test]
fn scanner_keeps_list_open_over_indented_lines() {
    let raw = scan_manifest("dependencies:\n  - a\n  note: x\n  - b\n");
    assert_eq!(raw.dependencies, strings(&["a", "b"]));
}

#[test]
fn scanner_accepts_items_at_the_margin_and_indented_headers() {
    let raw = scan_manifest("  dependencies:\n- a\n-b\n   pip:\n- c\n");
    assert_eq!(raw.dependencies, strings(&["a", "b"]));
    assert_eq!(raw.pip, strings(&["c"]));
}

#[test]
fn scanner_strips_one_dash_and_drops_empty_entries() {
    let raw = scan_manifest("dependencies:\n  - -e ./pkg\n  -\n  --  double\n  - \t \n");
    assert_eq!(raw.dependencies, strings(&["-e ./pkg", "-  double"]));
}

#[test]
fn scanner_reads_lines_that_end_in_carriage_return() {
    let text = "dependencies:\r\n  - a\r\n  - b # [win]\r\n";
    assert_eq!(scan_manifest(text).dependencies, strings(&["a", "b # [win]"]));
    assert_eq!(resolve_text(text, PlatformTag::Windows), strings(&["a", "b"]));
    assert_eq!(resolve_text(text, PlatformTag::Linux), strings(&["a"]));
}

#[test]
fn scanner_reads_last_line_without_line_feed() {
    assert_eq!(scan_manifest("dependencies:\n  - a").dependencies, strings(&["a"]));
    assert_eq!(scan_manifest("").dependencies, Vec::<String>::new());
}

#[test]
fn scanner_reopens_a_list_named_twice() {
    let raw = scan_manifest("dependencies:\n  - a\nname: x\ndependencies:\n  - b\n");
    assert_eq!(raw.dependencies, strings(&["a", "b"]));
}

#[test]
fn rendering_puts_one_specifier_on_each_line() {
    assert_eq!(render_requirements(&strings(&["a", "b==1.0"])), "a\nb==1.0\n");
    assert_eq!(render_requirements(&strings(&["a", "a"])), "a\na\n");
    assert_eq!(render_requirements(&Vec::new()), "");
}

#[test]
fn platform_names_map_to_tags() {
    assert_eq!(platform_for_os("windows"), Some(PlatformTag::Windows));
    assert_eq!(platform_for_os("linux"), Some(PlatformTag::Linux));
    assert_eq!(platform_for_os("macos"), Some(PlatformTag::MacOS));
    assert_eq!(platform_for_os("freebsd"), None);
    assert_eq!(platform_for_os("Linux"), None);
    assert_eq!(platform_for_os(""), None);
}
