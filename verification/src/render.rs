//! Rendering the two generated artifacts: the image build definition and
//! the post-build tag/prune script.
//!
//! Every piece of generated text is pinned down by a spec function; the
//! executable renderers are proved to produce exactly that text.

use vstd::prelude::*;
use vstd::string::StringExecFns;

use crate::meta::PackageMeta;
use crate::meta::PackageView;
use crate::meta::valid_package;
use crate::text::trim;
use crate::text::trim_spec;

verus! {

/// The image tag derived from a package: `{name}:v{version}`.
pub open spec fn image_tag(name: Seq<char>, version: Seq<char>) -> Seq<char> {
    name + ":v"@ + version
}

/// The part of a package's section that precedes its tag label.
pub open spec fn section_head(p: PackageView) -> Seq<char> {
    "### "@ + p.name
        + "\nFROM debian:bullseye-slim\nCOPY --from=builder /usr/src/myapp/target/release/"@
        + p.name + " /usr/local/bin/"@ + p.name + "\nMAINTAINER "@ + p.authors[0]
        + "\nLABEL maintainer=\""@ + p.authors[0] + "\" \\\n  version=\""@ + p.version
        + "\" \\\n  "@
}

/// The tag label of a package's section: the same `{name}:v{version}` value
/// that the post-build script looks up.
pub open spec fn tag_label(p: PackageView) -> Seq<char> {
    "tag=\""@ + image_tag(p.name, p.version) + "\""@
}

/// The part of a package's section that follows its tag label.
pub open spec fn section_tail(p: PackageView) -> Seq<char> {
    " \\\n  description=\""@ + trim_spec(p.description) + "\" \\\n  repository=\""@ + p.repository
        + "\" \\\n  name=\""@ + p.name + "\"\\\n  app=\""@ + p.name
        + "\"\n\n#ENTRYPOINT [\"/usr/local/bin/"@ + p.name
        + "\"]\nEXPOSE 8080/tcp 8081/tcp\n\nCMD [\""@ + p.name + "\"]\n\n"@
}

/// One self-contained image section for a validated package.
pub open spec fn section_spec(p: PackageView) -> Seq<char> {
    section_head(p) + tag_label(p) + section_tail(p)
}

/// The fixed head of the build definition: base build stage, source copy,
/// builder stage label, and the monolithic build step.
pub open spec fn dockerfile_preamble() -> Seq<char> {
    "# This file is generated by docker-build\n# DO NOT EDIT BY HAND;\n# Edit docker-build instead.\nFROM rust:slim AS builder\nWORKDIR /usr/src/myapp\n# maybe use --link\nCOPY . .\nLABEL stage=\"builder\"\nRUN cargo build --release\n"@
}

/// The sections of the given packages, concatenated in order.
pub open spec fn spec_sections(ps: Seq<PackageView>) -> Seq<char>
    decreases ps.len(),
{
    if ps.len() == 0 {
        Seq::empty()
    } else {
        section_spec(ps[0]) + spec_sections(ps.drop_first())
    }
}

/// The whole build definition: the fixed preamble, then one section per
/// package in order.
pub open spec fn spec_dockerfile(ps: Seq<PackageView>) -> Seq<char> {
    dockerfile_preamble() + spec_sections(ps)
}

/// The fixed head of the post-build script: strict mode, environment setup,
/// and the build invocation.
pub open spec fn script_preamble() -> Seq<char> {
    "#!/usr/bin/env bash\n# This file is generated by docker-build\n# DO NOT EDIT BY HAND;\n# Edit docker-build instead.\n\nset -e\n\neval $(minikube docker-env)\n\ndocker build .\n"@
}

/// The tag command of one package: looks the image up by the tag label and
/// re-tags it under the same `{name}:v{version}` value.
pub open spec fn tag_line(p: PackageView) -> Seq<char> {
    "\ndocker tag $(docker image ls --filter \"label=tag="@ + image_tag(p.name, p.version)
        + "\" -q) "@ + image_tag(p.name, p.version) + "\n"@
}

/// The tag commands of the given packages, concatenated in order.
pub open spec fn spec_tag_lines(ps: Seq<PackageView>) -> Seq<char>
    decreases ps.len(),
{
    if ps.len() == 0 {
        Seq::empty()
    } else {
        tag_line(ps[0]) + spec_tag_lines(ps.drop_first())
    }
}

/// The fixed tail of the post-build script: prune every image still carrying
/// the builder stage label.
pub open spec fn script_trailer() -> Seq<char> {
    "\ndocker image prune --filter label=stage=builder -f\n"@
}

/// The whole post-build script: preamble, one tag command per package in
/// order, then the prune trailer.
pub open spec fn spec_build_script(ps: Seq<PackageView>) -> Seq<char> {
    script_preamble() + spec_tag_lines(ps) + script_trailer()
}

/// The rejection produced for a package without authors, naming its
/// descriptor path.
pub open spec fn authors_err_msg(file: Seq<char>) -> Seq<char> {
    "Error: At least one author is needed, in 「"@ + file + "」"@
}

/// Checks the per-package invariant: the author list must be non-empty.
/// The rejection names the descriptor the package came from.
pub fn validate_package_meta(package: &PackageMeta, file_name: &str) -> (r: Result<(), String>)
    ensures
        r is Ok <==> valid_package(package@),
        r matches Err(e) ==> e@ == authors_err_msg(file_name@),
{
    if package.authors.len() == 0 {
        let mut e = String::from_str("Error: At least one author is needed, in 「");
        e.append(file_name);
        e.append("」");
        Err(e)
    } else {
        Ok(())
    }
}

/// Renders the image section of one validated package.
#[verifier::rlimit(50)]
pub fn render_section(package: &PackageMeta) -> (r: String)
    requires
        valid_package(package@),
    ensures
        r@ == section_spec(package@),
{
    let author = &package.authors[0];
    let description = trim(package.description.as_str());
    let mut s = String::from_str("### ");
    s.append(package.name.as_str());
    s.append("\nFROM debian:bullseye-slim\nCOPY --from=builder /usr/src/myapp/target/release/");
    s.append(package.name.as_str());
    s.append(" /usr/local/bin/");
    s.append(package.name.as_str());
    s.append("\nMAINTAINER ");
    s.append(author.as_str());
    s.append("\nLABEL maintainer=\"");
    s.append(author.as_str());
    s.append("\" \\\n  version=\"");
    s.append(package.version.as_str());
    s.append("\" \\\n  ");
    s.append("tag=\"");
    s.append(package.name.as_str());
    s.append(":v");
    s.append(package.version.as_str());
    s.append("\"");
    s.append(" \\\n  description=\"");
    s.append(description.as_str());
    s.append("\" \\\n  repository=\"");
    s.append(package.repository.as_str());
    s.append("\" \\\n  name=\"");
    s.append(package.name.as_str());
    s.append("\"\\\n  app=\"");
    s.append(package.name.as_str());
    s.append("\"\n\n#ENTRYPOINT [\"/usr/local/bin/");
    s.append(package.name.as_str());
    s.append("\"]\nEXPOSE 8080/tcp 8081/tcp\n\nCMD [\"");
    s.append(package.name.as_str());
    s.append("\"]\n\n");
    proof {
        assert(s@ =~= section_spec(package@));
    }
    s
}

/// Validates one package and renders its image section: the section for a
/// package with authors, the author rejection for one without.
pub fn docker_image_section(package: &PackageMeta, file_name: &str) -> (r: Result<String, String>)
    ensures
        valid_package(package@) ==> (r matches Ok(s) && s@ == section_spec(package@)),
        !valid_package(package@) ==> (r matches Err(e) && e@ == authors_err_msg(file_name@)),
{
    match validate_package_meta(package, file_name) {
        Ok(()) => Ok(render_section(package)),
        Err(e) => Err(e),
    }
}

/// Renders the tag command of one package.
pub fn tag_command(package: &PackageMeta) -> (r: String)
    ensures
        r@ == tag_line(package@),
{
    let mut s = String::from_str("\ndocker tag $(docker image ls --filter \"label=tag=");
    s.append(package.name.as_str());
    s.append(":v");
    s.append(package.version.as_str());
    s.append("\" -q) ");
    s.append(package.name.as_str());
    s.append(":v");
    s.append(package.version.as_str());
    s.append("\n");
    proof {
        assert(s@ =~= tag_line(package@));
    }
    s
}

proof fn lemma_spec_sections_snoc(ps: Seq<PackageView>, p: PackageView)
    ensures
        spec_sections(ps.push(p)) == spec_sections(ps) + section_spec(p),
    decreases ps.len(),
{
    if ps.len() == 0 {
        assert(ps.push(p).drop_first() =~= Seq::<PackageView>::empty());
        assert(section_spec(p) + spec_sections(Seq::<PackageView>::empty()) =~= spec_sections(ps)
            + section_spec(p));
    } else {
        assert(ps.push(p).drop_first() =~= ps.drop_first().push(p));
        lemma_spec_sections_snoc(ps.drop_first(), p);
        assert(section_spec(ps[0]) + (spec_sections(ps.drop_first()) + section_spec(p)) =~= (
        section_spec(ps[0]) + spec_sections(ps.drop_first())) + section_spec(p));
    }
}

proof fn lemma_spec_tag_lines_snoc(ps: Seq<PackageView>, p: PackageView)
    ensures
        spec_tag_lines(ps.push(p)) == spec_tag_lines(ps) + tag_line(p),
    decreases ps.len(),
{
    if ps.len() == 0 {
        assert(ps.push(p).drop_first() =~= Seq::<PackageView>::empty());
        assert(tag_line(p) + spec_tag_lines(Seq::<PackageView>::empty()) =~= spec_tag_lines(ps)
            + tag_line(p));
    } else {
        assert(ps.push(p).drop_first() =~= ps.drop_first().push(p));
        lemma_spec_tag_lines_snoc(ps.drop_first(), p);
        assert(tag_line(ps[0]) + (spec_tag_lines(ps.drop_first()) + tag_line(p)) =~= (tag_line(
            ps[0],
        ) + spec_tag_lines(ps.drop_first())) + tag_line(p));
    }
}

/// Holds when `needle` occurs verbatim somewhere inside `hay`.
pub open spec fn contains_seq(hay: Seq<char>, needle: Seq<char>) -> bool {
    exists|k: int|
        0 <= k && k + needle.len() <= hay.len() && #[trigger] hay.subrange(k, k + needle.len())
            == needle
}

/// Round-trip consistency between the two artifacts: the `{name}:v{version}`
/// value embedded as the `tag` label in a package's build-definition section
/// is the identical value that the package's tag command in the post-build
/// script looks up and re-tags with.
pub proof fn lemma_tag_round_trip(p: PackageView)
    ensures
        contains_seq(section_spec(p), "tag=\""@ + image_tag(p.name, p.version) + "\""@),
        contains_seq(tag_line(p), image_tag(p.name, p.version)),
{
    let t = image_tag(p.name, p.version);
    let label = "tag=\""@ + t + "\""@;
    let h = section_head(p);
    assert(section_spec(p).subrange(h.len() as int, h.len() as int + label.len() as int)
        =~= label);
    let pre = "\ndocker tag $(docker image ls --filter \"label=tag="@;
    assert(tag_line(p).subrange(pre.len() as int, pre.len() as int + t.len() as int) =~= t);
}

/// The character offset at which the section of the package at position `i`
/// begins within the concatenated sections.
pub open spec fn section_offset(ps: Seq<PackageView>, i: int) -> int
    decreases i,
{
    if i <= 0 {
        0
    } else {
        section_spec(ps[0]).len() + section_offset(ps.drop_first(), i - 1)
    }
}

/// One section per package, in package order: the section of the package at
/// position `i` occurs verbatim at its own offset within the concatenated
/// sections, so the build definition holds exactly one section per package,
/// in member order, after the fixed preamble.
pub proof fn lemma_sections_in_order(ps: Seq<PackageView>, i: int)
    requires
        0 <= i < ps.len(),
    ensures
        0 <= section_offset(ps, i),
        section_offset(ps, i) + section_spec(ps[i]).len() <= spec_sections(ps).len(),
        spec_sections(ps).subrange(
            section_offset(ps, i),
            section_offset(ps, i) + section_spec(ps[i]).len(),
        ) == section_spec(ps[i]),
    decreases i,
{
    if i == 0 {
        assert(spec_sections(ps).subrange(0, section_spec(ps[0]).len() as int) =~= section_spec(
            ps[0],
        ));
    } else {
        lemma_sections_in_order(ps.drop_first(), i - 1);
        let off = section_offset(ps.drop_first(), i - 1);
        let head = section_spec(ps[0]);
        let len = section_spec(ps[i]).len() as int;
        assert(ps.drop_first()[i - 1] == ps[i]);
        assert(spec_sections(ps).subrange(head.len() + off, head.len() + off + len)
            =~= spec_sections(ps.drop_first()).subrange(off, off + len));
    }
}

/// The character offset at which the tag command of the package at position
/// `i` begins within the concatenated tag commands.
pub open spec fn tag_line_offset(ps: Seq<PackageView>, i: int) -> int
    decreases i,
{
    if i <= 0 {
        0
    } else {
        tag_line(ps[0]).len() + tag_line_offset(ps.drop_first(), i - 1)
    }
}

/// One tag command per package, in package order: the tag command of the
/// package at position `i` occurs verbatim at its own offset within the
/// concatenated commands — the script orders its commands exactly as the
/// build definition orders its sections.
pub proof fn lemma_tag_lines_in_order(ps: Seq<PackageView>, i: int)
    requires
        0 <= i < ps.len(),
    ensures
        0 <= tag_line_offset(ps, i),
        tag_line_offset(ps, i) + tag_line(ps[i]).len() <= spec_tag_lines(ps).len(),
        spec_tag_lines(ps).subrange(
            tag_line_offset(ps, i),
            tag_line_offset(ps, i) + tag_line(ps[i]).len(),
        ) == tag_line(ps[i]),
    decreases i,
{
    if i == 0 {
        assert(spec_tag_lines(ps).subrange(0, tag_line(ps[0]).len() as int) =~= tag_line(ps[0]));
    } else {
        lemma_tag_lines_in_order(ps.drop_first(), i - 1);
        let off = tag_line_offset(ps.drop_first(), i - 1);
        let head = tag_line(ps[0]);
        let len = tag_line(ps[i]).len() as int;
        assert(ps.drop_first()[i - 1] == ps[i]);
        assert(spec_tag_lines(ps).subrange(head.len() + off, head.len() + off + len)
            =~= spec_tag_lines(ps.drop_first()).subrange(off, off + len));
    }
}

/// Assembles the whole build definition for the given validated packages:
/// the fixed preamble followed by one section per package, in order.
pub fn dockerfile_content(packages: &Vec<PackageMeta>) -> (r: String)
    requires
        forall|i: int|
            0 <= i < packages.deep_view().len() ==> valid_package(#[trigger] packages.deep_view()[i]),
    ensures
        r@ == spec_dockerfile(packages.deep_view()),
{
    let mut s = String::from_str(
        "# This file is generated by docker-build\n# DO NOT EDIT BY HAND;\n# Edit docker-build instead.\nFROM rust:slim AS builder\nWORKDIR /usr/src/myapp\n# maybe use --link\nCOPY . .\nLABEL stage=\"builder\"\nRUN cargo build --release\n",
    );
    let ghost all = packages.deep_view();
    let mut i: usize = 0;
    proof {
        assert(all.take(0) =~= Seq::<PackageView>::empty());
        assert(s@ =~= dockerfile_preamble() + spec_sections(all.take(0)));
    }
    while i < packages.len()
        invariant
            0 <= i <= packages.len(),
            all == packages.deep_view(),
            all.len() == packages@.len(),
            forall|k: int| 0 <= k < all.len() ==> valid_package(#[trigger] all[k]),
            s@ == dockerfile_preamble() + spec_sections(all.take(i as int)),
        decreases packages.len() - i,
    {
        proof {
            assert(packages[i as int]@ == all[i as int]);
        }
        let section = render_section(&packages[i]);
        s.append(section.as_str());
        proof {
            lemma_spec_sections_snoc(all.take(i as int), all[i as int]);
            assert(all.take(i + 1) =~= all.take(i as int).push(all[i as int]));
            assert(packages[i as int]@ == all[i as int]);
            assert(s@ =~= dockerfile_preamble() + spec_sections(all.take(i + 1)));
        }
        i = i + 1;
    }
    proof {
        assert(all.take(all.len() as int) =~= all);
    }
    s
}

/// Assembles the whole post-build script for the given packages: the fixed
/// preamble, one tag command per package in order, then the prune trailer.
pub fn build_script_content(packages: &Vec<PackageMeta>) -> (r: String)
    ensures
        r@ == spec_build_script(packages.deep_view()),
{
    let mut s = String::from_str(
        "#!/usr/bin/env bash\n# This file is generated by docker-build\n# DO NOT EDIT BY HAND;\n# Edit docker-build instead.\n\nset -e\n\neval $(minikube docker-env)\n\ndocker build .\n",
    );
    let ghost all = packages.deep_view();
    let mut i: usize = 0;
    proof {
        assert(all.take(0) =~= Seq::<PackageView>::empty());
        assert(s@ =~= script_preamble() + spec_tag_lines(all.take(0)));
    }
    while i < packages.len()
        invariant
            0 <= i <= packages.len(),
            all == packages.deep_view(),
            all.len() == packages@.len(),
            s@ == script_preamble() + spec_tag_lines(all.take(i as int)),
        decreases packages.len() - i,
    {
        let line = tag_command(&packages[i]);
        s.append(line.as_str());
        proof {
            lemma_spec_tag_lines_snoc(all.take(i as int), all[i as int]);
            assert(all.take(i + 1) =~= all.take(i as int).push(all[i as int]));
            assert(packages[i as int]@ == all[i as int]);
            assert(s@ =~= script_preamble() + spec_tag_lines(all.take(i + 1)));
        }
        i = i + 1;
    }
    s.append("\ndocker image prune --filter label=stage=builder -f\n");
    proof {
        assert(all.take(all.len() as int) =~= all);
        assert(s@ =~= spec_build_script(all));
    }
    s
}

} // verus!
