use docker_build::GeneratedArtifacts;
use docker_build::MemberInput;
use docker_build::PackageMeta;
use docker_build::build_script_content;
use docker_build::docker_image_section;
use docker_build::dockerfile_content;
use docker_build::generate_artifacts;
use docker_build::member_descriptor_paths;
use docker_build::parse_package;
use docker_build::process_members;
use docker_build::render_section;
use docker_build::tag_command;
use docker_build::trim;
use docker_build::validate_package_meta;

const DOCKERFILE_PREAMBLE: &str = "# This file is generated by docker-build\n\
# DO NOT EDIT BY HAND;\n\
# Edit docker-build instead.\n\
FROM rust:slim AS builder\n\
WORKDIR /usr/src/myapp\n\
# maybe use --link\n\
COPY . .\n\
LABEL stage=\"builder\"\n\
RUN cargo build --release\n";

const SCRIPT_PREAMBLE: &str = "#!/usr/bin/env bash\n\
# This file is generated by docker-build\n\
# DO NOT EDIT BY HAND;\n\
# Edit docker-build instead.\n\
\n\
set -e\n\
\n\
eval $(minikube docker-env)\n\
\n\
docker build .\n";

const SCRIPT_TRAILER: &str = "\ndocker image prune --filter label=stage=builder -f\n";

fn svc_a() -> PackageMeta {
    PackageMeta {
        name: "svc-a".to_string(),
        version: "0.1.0".to_string(),
        authors: vec!["Jane Doe".to_string()],
        description: "A service".to_string(),
        repository: "git@example.com".to_string(),
    }
}

const SVC_A_SECTION: &str = "### svc-a\nFROM debian:bullseye-slim\nCOPY --from=builder /usr/src/myapp/target/release/svc-a /usr/local/bin/svc-a\nMAINTAINER Jane Doe\nLABEL maintainer=\"Jane Doe\" \\\n  version=\"0.1.0\" \\\n  tag=\"svc-a:v0.1.0\" \\\n  description=\"A service\" \\\n  repository=\"git@example.com\" \\\n  name=\"svc-a\"\\\n  app=\"svc-a\"\n\n#ENTRYPOINT [\"/usr/local/bin/svc-a\"]\nEXPOSE 8080/tcp 8081/tcp\n\nCMD [\"svc-a\"]\n\n";

const SVC_A_TAG_LINE: &str =
    "\ndocker tag $(docker image ls --filter \"label=tag=svc-a:v0.1.0\" -q) svc-a:v0.1.0\n";

const SVC_A_TOML: &str = "[package]\n\
name = \"svc-a\"\n\
version = \"0.1.0\"\n\
authors = [\"Jane Doe\"]\n\
description = \"A service\"\n\
repository = \"git@example.com\"\n";

#[test]
fn trim_strips_surrounding_whitespace() {
    assert_eq!(trim("  hi  "), "hi");
}

#[test]
fn trim_keeps_inner_whitespace() {
    assert_eq!(trim("\t a b \n"), "a b");
}

#[test]
fn trim_of_all_whitespace_is_empty() {
    assert_eq!(trim(" \t\r\n "), "");
    assert_eq!(trim(""), "");
}

#[test]
fn trim_handles_unicode_whitespace() {
    assert_eq!(trim("\u{3000}\u{00A0}x\u{2003}"), "x");
}

#[test]
fn member_paths_follow_member_order() {
    let ws = "[workspace]\nmembers = [\"svc-a\", \"svc-b\", \"tool\"]\n";
    let paths = member_descriptor_paths(ws);
    assert_eq!(paths, vec!["svc-a/Cargo.toml", "svc-b/Cargo.toml", "tool/Cargo.toml"]);
}

#[test]
fn member_paths_exclude_library_members() {
    let ws = "[workspace]\nmembers = [\"lib-core\", \"svc-a\", \"library\", \"liberty\"]\n";
    let paths = member_descriptor_paths(ws);
    assert_eq!(paths, vec!["svc-a/Cargo.toml"]);
}

#[test]
fn member_paths_keep_short_names() {
    let ws = "[workspace]\nmembers = [\"li\", \"lib\"]\n";
    let paths = member_descriptor_paths(ws);
    assert_eq!(paths, vec!["li/Cargo.toml"]);
}

#[test]
fn member_paths_keep_duplicates() {
    let ws = "[workspace]\nmembers = [\"svc-a\", \"svc-a\"]\n";
    let paths = member_descriptor_paths(ws);
    assert_eq!(paths, vec!["svc-a/Cargo.toml", "svc-a/Cargo.toml"]);
}

#[test]
fn non_workspace_manifest_falls_back_to_root() {
    let paths = member_descriptor_paths("[package]\nname = \"solo\"\n");
    assert_eq!(paths, vec!["Cargo.toml"]);
}

#[test]
fn unparsable_manifest_falls_back_to_root() {
    let paths = member_descriptor_paths("this is not = = toml");
    assert_eq!(paths, vec!["Cargo.toml"]);
}

#[test]
fn parse_package_reads_every_field() {
    let p = parse_package(SVC_A_TOML).expect("package should parse");
    assert_eq!(p.name, "svc-a");
    assert_eq!(p.version, "0.1.0");
    assert_eq!(p.authors, vec!["Jane Doe".to_string()]);
    assert_eq!(p.description, "A service");
    assert_eq!(p.repository, "git@example.com");
}

#[test]
fn parse_package_rejects_missing_field() {
    let no_repo = "[package]\n\
name = \"svc-a\"\n\
version = \"0.1.0\"\n\
authors = [\"Jane Doe\"]\n\
description = \"A service\"\n";
    assert!(parse_package(no_repo).is_none());
}

#[test]
fn parse_package_rejects_malformed_text() {
    assert!(parse_package("not toml at all = =").is_none());
}

#[test]
fn parse_package_accepts_empty_author_list() {
    let p = parse_package(
        "[package]\n\
name = \"x\"\n\
version = \"1\"\n\
authors = []\n\
description = \"d\"\n\
repository = \"r\"\n",
    )
    .expect("shape is valid; validation is separate");
    assert!(p.authors.is_empty());
}

#[test]
fn validation_rejects_empty_author_list() {
    let mut p = svc_a();
    p.authors.clear();
    let err = validate_package_meta(&p, "svc-a/Cargo.toml").unwrap_err();
    assert_eq!(err, "Error: At least one author is needed, in 「svc-a/Cargo.toml」");
}

#[test]
fn validation_accepts_one_author() {
    assert!(validate_package_meta(&svc_a(), "svc-a/Cargo.toml").is_ok());
}

#[test]
fn section_renders_exact_text() {
    assert_eq!(render_section(&svc_a()), SVC_A_SECTION);
}

#[test]
fn section_trims_description() {
    let mut p = svc_a();
    p.description = "  hi  ".to_string();
    let section = render_section(&p);
    assert!(section.contains("description=\"hi\" \\"));
    assert!(!section.contains("  hi  "));
}

#[test]
fn docker_image_section_returns_section_or_rejection() {
    let ok = docker_image_section(&svc_a(), "svc-a/Cargo.toml").unwrap();
    assert_eq!(ok, SVC_A_SECTION);
    let mut p = svc_a();
    p.authors.clear();
    let err = docker_image_section(&p, "svc-a/Cargo.toml").unwrap_err();
    assert_eq!(err, "Error: At least one author is needed, in 「svc-a/Cargo.toml」");
}

#[test]
fn section_uses_only_the_first_author() {
    let mut p = svc_a();
    p.authors.push("Other One".to_string());
    let section = render_section(&p);
    assert!(section.contains("MAINTAINER Jane Doe\n"));
    assert!(!section.contains("Other One"));
}

#[test]
fn tag_command_matches_section_label() {
    let line = tag_command(&svc_a());
    assert_eq!(line, SVC_A_TAG_LINE);
    let section = render_section(&svc_a());
    assert!(section.contains("tag=\"svc-a:v0.1.0\""));
    assert!(line.contains("svc-a:v0.1.0"));
}

#[test]
fn dockerfile_holds_one_section_per_package_in_order() {
    let mut b = svc_a();
    b.name = "svc-b".to_string();
    let packages = vec![svc_a(), b.clone()];
    let out = dockerfile_content(&packages);
    let expected =
        format!("{}{}{}", DOCKERFILE_PREAMBLE, render_section(&svc_a()), render_section(&b));
    assert_eq!(out, expected);
}

#[test]
fn build_script_holds_one_tag_line_per_package() {
    let mut b = svc_a();
    b.name = "svc-b".to_string();
    let packages = vec![svc_a(), b.clone()];
    let out = build_script_content(&packages);
    let expected = format!(
        "{}{}{}{}",
        SCRIPT_PREAMBLE,
        tag_command(&svc_a()),
        tag_command(&b),
        SCRIPT_TRAILER
    );
    assert_eq!(out, expected);
}

#[test]
fn empty_package_list_yields_bare_artifacts() {
    let packages: Vec<PackageMeta> = Vec::new();
    assert_eq!(dockerfile_content(&packages), DOCKERFILE_PREAMBLE);
    assert_eq!(
        build_script_content(&packages),
        format!("{}{}", SCRIPT_PREAMBLE, SCRIPT_TRAILER)
    );
}

#[test]
fn pipeline_collects_packages_and_diagnostics() {
    let entries = vec![
        MemberInput {
            path: "svc-a/Cargo.toml".to_string(),
            content: Ok(SVC_A_TOML.to_string()),
        },
        MemberInput {
            path: "gone/Cargo.toml".to_string(),
            content: Err("No such file or directory (os error 2)".to_string()),
        },
        MemberInput {
            path: "junk/Cargo.toml".to_string(),
            content: Ok("not toml = =".to_string()),
        },
        MemberInput {
            path: "anon/Cargo.toml".to_string(),
            content: Ok("[package]\n\
name = \"anon\"\n\
version = \"1\"\n\
authors = []\n\
description = \"d\"\n\
repository = \"r\"\n"
                .to_string()),
        },
    ];
    let (packages, diags) = process_members(&entries);
    assert_eq!(packages.len(), 1);
    assert_eq!(packages[0].name, "svc-a");
    assert_eq!(
        diags,
        vec![
            "Error reading the config file: No such file or directory (os error 2) 「gone/Cargo.toml」"
                .to_string(),
            "Can not parse toml file: 「junk/Cargo.toml」".to_string(),
            "Error: At least one author is needed, in 「anon/Cargo.toml」".to_string(),
        ]
    );
}

#[test]
fn rejected_package_appears_in_neither_artifact() {
    let entries = vec![
        MemberInput {
            path: "anon/Cargo.toml".to_string(),
            content: Ok("[package]\n\
name = \"anon\"\n\
version = \"1\"\n\
authors = []\n\
description = \"d\"\n\
repository = \"r\"\n"
                .to_string()),
        },
        MemberInput {
            path: "svc-a/Cargo.toml".to_string(),
            content: Ok(SVC_A_TOML.to_string()),
        },
    ];
    let out: GeneratedArtifacts = generate_artifacts(&entries);
    assert!(!out.dockerfile.contains("anon"));
    assert!(!out.build_script.contains("anon"));
    assert!(out.dockerfile.contains("### svc-a\n"));
    assert!(out.build_script.contains("svc-a:v0.1.0"));
    assert_eq!(
        out.diagnostics,
        vec!["Error: At least one author is needed, in 「anon/Cargo.toml」".to_string()]
    );
}

#[test]
fn generation_is_deterministic() {
    let entries = vec![MemberInput {
        path: "svc-a/Cargo.toml".to_string(),
        content: Ok(SVC_A_TOML.to_string()),
    }];
    let first = generate_artifacts(&entries);
    let second = generate_artifacts(&entries);
    assert_eq!(first.dockerfile, second.dockerfile);
    assert_eq!(first.build_script, second.build_script);
    assert_eq!(first.diagnostics, second.diagnostics);
}

#[test]
fn end_to_end_workspace_scenario() {
    let ws = "[workspace]\nmembers = [\"lib-core\", \"svc-a\"]\n";
    let paths = member_descriptor_paths(ws);
    assert_eq!(paths, vec!["svc-a/Cargo.toml"]);

    let entries = vec![MemberInput {
        path: paths[0].clone(),
        content: Ok(SVC_A_TOML.to_string()),
    }];
    let out = generate_artifacts(&entries);

    assert_eq!(out.dockerfile, format!("{}{}", DOCKERFILE_PREAMBLE, SVC_A_SECTION));
    assert_eq!(
        out.build_script,
        format!("{}{}{}", SCRIPT_PREAMBLE, SVC_A_TAG_LINE, SCRIPT_TRAILER)
    );
    assert!(out.dockerfile.contains("tag=\"svc-a:v0.1.0\""));
    assert!(out.dockerfile.contains("MAINTAINER Jane Doe\n"));
    assert!(out.dockerfile.contains("EXPOSE 8080/tcp 8081/tcp\n"));
    assert!(out.build_script.contains(" svc-a:v0.1.0\n"));
    assert!(out.diagnostics.is_empty());
}
