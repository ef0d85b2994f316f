//! The workspace-to-artifact run: per-member reading outcomes in, the two
//! assembled artifacts and the diagnostics out.
//!
//! A member whose descriptor cannot be read, does not parse, or fails
//! validation is skipped with one diagnostic; the run continues with the
//! remaining members.

use vstd::prelude::*;
use vstd::string::StringExecFns;

use crate::manifest::parse_package;
use crate::manifest::spec_package;
use crate::meta::PackageMeta;
use crate::meta::PackageView;
use crate::meta::valid_package;
use crate::render::authors_err_msg;
use crate::render::build_script_content;
use crate::render::dockerfile_content;
use crate::render::spec_build_script;
use crate::render::spec_dockerfile;
use crate::render::validate_package_meta;

verus! {

/// One member descriptor handed to the run: its path, and the outcome of
/// reading its text (`Err` holds the reader's error text).
pub struct MemberInput {
    pub path: String,
    pub content: Result<String, String>,
}

/// The mathematical value of a `MemberInput`.
pub ghost struct MemberInputView {
    pub path: Seq<char>,
    pub content: Result<Seq<char>, Seq<char>>,
}

impl View for MemberInput {
    type V = MemberInputView;

    open spec fn view(&self) -> MemberInputView {
        MemberInputView {
            path: self.path@,
            content: match self.content {
                Ok(c) => Ok(c@),
                Err(e) => Err(e@),
            },
        }
    }
}

impl DeepView for MemberInput {
    type V = MemberInputView;

    open spec fn deep_view(&self) -> MemberInputView {
        self.view()
    }
}

/// The diagnostic for a member whose descriptor could not be read.
pub open spec fn read_err_msg(err: Seq<char>, file: Seq<char>) -> Seq<char> {
    "Error reading the config file: "@ + err + " 「"@ + file + "」"@
}

/// The diagnostic for a member whose descriptor text is not a package
/// manifest of the expected shape.
pub open spec fn parse_err_msg(file: Seq<char>) -> Seq<char> {
    "Can not parse toml file: 「"@ + file + "」"@
}

/// The package one member contributes: its metadata, when its text was
/// read, parses as a package manifest, and passes validation; nothing
/// otherwise.
pub open spec fn entry_package(e: MemberInputView) -> Option<PackageView> {
    match e.content {
        Ok(c) => match spec_package(c) {
            Some(p) => if valid_package(p) {
                Some(p)
            } else {
                None
            },
            None => None,
        },
        Err(_) => None,
    }
}

/// The diagnostic one member produces: reading, parsing and validation
/// failures each yield one message naming the member's descriptor path.
pub open spec fn entry_diag(e: MemberInputView) -> Option<Seq<char>> {
    match e.content {
        Ok(c) => match spec_package(c) {
            Some(p) => if valid_package(p) {
                None
            } else {
                Some(authors_err_msg(e.path))
            },
            None => Some(parse_err_msg(e.path)),
        },
        Err(err) => Some(read_err_msg(err, e.path)),
    }
}

/// The validated packages of a run, in member order.
pub open spec fn collected_packages(es: Seq<MemberInputView>) -> Seq<PackageView>
    decreases es.len(),
{
    if es.len() == 0 {
        Seq::empty()
    } else {
        match entry_package(es[0]) {
            Some(p) => seq![p] + collected_packages(es.drop_first()),
            None => collected_packages(es.drop_first()),
        }
    }
}

/// The diagnostics of a run, in member order.
pub open spec fn collected_diags(es: Seq<MemberInputView>) -> Seq<Seq<char>>
    decreases es.len(),
{
    if es.len() == 0 {
        Seq::empty()
    } else {
        match entry_diag(es[0]) {
            Some(d) => seq![d] + collected_diags(es.drop_first()),
            None => collected_diags(es.drop_first()),
        }
    }
}

proof fn lemma_collected_packages_snoc(es: Seq<MemberInputView>, e: MemberInputView)
    ensures
        collected_packages(es.push(e)) == match entry_package(e) {
            Some(p) => collected_packages(es) + seq![p],
            None => collected_packages(es),
        },
    decreases es.len(),
{
    if es.len() == 0 {
        assert(es.push(e).drop_first() =~= Seq::<MemberInputView>::empty());
        if entry_package(e) is Some {
            assert(seq![entry_package(e)->Some_0] + collected_packages(
                Seq::<MemberInputView>::empty(),
            ) =~= collected_packages(es) + seq![entry_package(e)->Some_0]);
        }
    } else {
        assert(es.push(e).drop_first() =~= es.drop_first().push(e));
        lemma_collected_packages_snoc(es.drop_first(), e);
        if entry_package(es[0]) is Some && entry_package(e) is Some {
            assert(seq![entry_package(es[0])->Some_0] + (collected_packages(es.drop_first())
                + seq![entry_package(e)->Some_0]) =~= (seq![entry_package(es[0])->Some_0]
                + collected_packages(es.drop_first())) + seq![entry_package(e)->Some_0]);
        }
    }
}

proof fn lemma_collected_diags_snoc(es: Seq<MemberInputView>, e: MemberInputView)
    ensures
        collected_diags(es.push(e)) == match entry_diag(e) {
            Some(d) => collected_diags(es) + seq![d],
            None => collected_diags(es),
        },
    decreases es.len(),
{
    if es.len() == 0 {
        assert(es.push(e).drop_first() =~= Seq::<MemberInputView>::empty());
        if entry_diag(e) is Some {
            assert(seq![entry_diag(e)->Some_0] + collected_diags(Seq::<MemberInputView>::empty())
                =~= collected_diags(es) + seq![entry_diag(e)->Some_0]);
        }
    } else {
        assert(es.push(e).drop_first() =~= es.drop_first().push(e));
        lemma_collected_diags_snoc(es.drop_first(), e);
        if entry_diag(es[0]) is Some && entry_diag(e) is Some {
            assert(seq![entry_diag(es[0])->Some_0] + (collected_diags(es.drop_first())
                + seq![entry_diag(e)->Some_0]) =~= (seq![entry_diag(es[0])->Some_0]
                + collected_diags(es.drop_first())) + seq![entry_diag(e)->Some_0]);
        }
    }
}

fn read_error_diag(err: &str, file: &str) -> (r: String)
    ensures
        r@ == read_err_msg(err@, file@),
{
    let mut m = String::from_str("Error reading the config file: ");
    m.append(err);
    m.append(" 「");
    m.append(file);
    m.append("」");
    proof {
        assert(m@ =~= read_err_msg(err@, file@));
    }
    m
}

fn parse_error_diag(file: &str) -> (r: String)
    ensures
        r@ == parse_err_msg(file@),
{
    let mut m = String::from_str("Can not parse toml file: 「");
    m.append(file);
    m.append("」");
    proof {
        assert(m@ =~= parse_err_msg(file@));
    }
    m
}

/// Reads every member's outcome once and splits it: the packages that were
/// read, parsed and validated, in member order, and one diagnostic for each
/// member that was skipped, in member order.
pub fn process_members(entries: &Vec<MemberInput>) -> (r: (Vec<PackageMeta>, Vec<String>))
    ensures
        r.0.deep_view() == collected_packages(entries.deep_view()),
        r.1.deep_view() == collected_diags(entries.deep_view()),
{
    let mut packages: Vec<PackageMeta> = Vec::new();
    let mut diags: Vec<String> = Vec::new();
    let ghost all = entries.deep_view();
    let mut i: usize = 0;
    proof {
        assert(all.take(0) =~= Seq::<MemberInputView>::empty());
        assert(packages.deep_view() =~= collected_packages(all.take(0)));
        assert(diags.deep_view() =~= collected_diags(all.take(0)));
    }
    while i < entries.len()
        invariant
            0 <= i <= entries.len(),
            all == entries.deep_view(),
            all.len() == entries@.len(),
            packages.deep_view() == collected_packages(all.take(i as int)),
            diags.deep_view() == collected_diags(all.take(i as int)),
        decreases entries.len() - i,
    {
        proof {
            lemma_collected_packages_snoc(all.take(i as int), all[i as int]);
            lemma_collected_diags_snoc(all.take(i as int), all[i as int]);
            assert(all.take(i + 1) =~= all.take(i as int).push(all[i as int]));
            assert(entries[i as int]@ == all[i as int]);
        }
        let entry = &entries[i];
        match &entry.content {
            Err(err) => {
                diags.push(read_error_diag(err.as_str(), entry.path.as_str()));
                proof {
                    assert(diags.deep_view() =~= collected_diags(all.take(i + 1)));
                }
            },
            Ok(content) => {
                match parse_package(content.as_str()) {
                    None => {
                        diags.push(parse_error_diag(entry.path.as_str()));
                        proof {
                            assert(diags.deep_view() =~= collected_diags(all.take(i + 1)));
                        }
                    },
                    Some(package) => {
                        match validate_package_meta(&package, entry.path.as_str()) {
                            Ok(()) => {
                                packages.push(package);
                                proof {
                                    assert(packages.deep_view() =~= collected_packages(
                                        all.take(i + 1),
                                    ));
                                }
                            },
                            Err(e) => {
                                diags.push(e);
                                proof {
                                    assert(diags.deep_view() =~= collected_diags(all.take(i + 1)));
                                }
                            },
                        }
                    },
                }
            },
        }
        i = i + 1;
    }
    proof {
        assert(all.take(all.len() as int) =~= all);
    }
    (packages, diags)
}

/// Every package a run collects has passed validation.
pub proof fn lemma_collected_valid(es: Seq<MemberInputView>)
    ensures
        forall|i: int|
            0 <= i < collected_packages(es).len() ==> valid_package(
                #[trigger] collected_packages(es)[i],
            ),
    decreases es.len(),
{
    if es.len() > 0 {
        lemma_collected_valid(es.drop_first());
        let rest = collected_packages(es.drop_first());
        if entry_package(es[0]) is Some {
            let p = entry_package(es[0])->Some_0;
            assert(valid_package(p));
            assert forall|i: int|
                0 <= i < collected_packages(es).len() implies valid_package(
                #[trigger] collected_packages(es)[i],
            ) by {
                if i == 0 {
                    assert(collected_packages(es)[0] == p);
                } else {
                    assert(collected_packages(es)[i] == rest[i - 1]);
                }
            }
        }
    }
}

/// When no member is skipped — every descriptor reads, parses, and passes
/// validation — the run yields exactly one package per member, in member
/// order, and no diagnostic: the build definition then holds exactly one
/// section per member and the script one tag command per member.
pub proof fn lemma_one_package_per_member(es: Seq<MemberInputView>)
    requires
        forall|i: int| 0 <= i < es.len() ==> entry_package(#[trigger] es[i]) is Some,
    ensures
        collected_packages(es).len() == es.len(),
        forall|i: int|
            0 <= i < es.len() ==> collected_packages(es)[i] == entry_package(
                #[trigger] es[i],
            )->Some_0,
        collected_diags(es).len() == 0,
    decreases es.len(),
{
    if es.len() > 0 {
        assert(entry_package(es[0]) is Some);
        assert forall|j: int| 0 <= j < es.drop_first().len() implies entry_package(
            #[trigger] es.drop_first()[j],
        ) is Some by {
            assert(es.drop_first()[j] == es[j + 1]);
        }
        lemma_one_package_per_member(es.drop_first());
        assert forall|i: int| 0 <= i < es.len() implies collected_packages(es)[i] == entry_package(
            #[trigger] es[i],
        )->Some_0 by {
            if i > 0 {
                assert(es.drop_first()[i - 1] == es[i]);
                assert(collected_packages(es)[i] == collected_packages(es.drop_first())[i - 1]);
            }
        }
    }
}

/// A member that is skipped — unreadable, unparsable, or with an empty
/// author list — contributes no package, so no section and no tag command
/// appear for it in either artifact, while the run's diagnostics hold its
/// message, which names its descriptor path.
pub proof fn lemma_skipped_member(es: Seq<MemberInputView>, i: int)
    requires
        0 <= i < es.len(),
        entry_package(es[i]) is None,
    ensures
        entry_diag(es[i]) is Some,
        collected_packages(es) == collected_packages(es.remove(i)),
        collected_diags(es).contains(entry_diag(es[i])->Some_0),
    decreases es.len(),
{
    if i == 0 {
        assert(es.remove(0) =~= es.drop_first());
        let d = entry_diag(es[0])->Some_0;
        assert(collected_diags(es)[0] == d);
    } else {
        lemma_skipped_member(es.drop_first(), i - 1);
        assert(es.drop_first()[i - 1] == es[i]);
        assert(es.remove(i).drop_first() =~= es.drop_first().remove(i - 1));
        assert(es.remove(i).len() > 0);
        assert(es.remove(i)[0] == es[0]);
        let d = entry_diag(es[i])->Some_0;
        let rest = collected_diags(es.drop_first());
        let k = choose|k: int| 0 <= k < rest.len() && rest[k] == d;
        if entry_diag(es[0]) is Some {
            let d0 = entry_diag(es[0])->Some_0;
            assert(collected_diags(es)[k + 1] == d);
        } else {
            assert(collected_diags(es)[k] == d);
        }
    }
}

/// Idempotence: two runs over identical member inputs produce byte-identical
/// artifacts and identical diagnostics — the whole run is a function of the
/// member inputs alone.
pub proof fn lemma_run_deterministic(a: Seq<MemberInputView>, b: Seq<MemberInputView>)
    requires
        a == b,
    ensures
        spec_dockerfile(collected_packages(a)) == spec_dockerfile(collected_packages(b)),
        spec_build_script(collected_packages(a)) == spec_build_script(collected_packages(b)),
        collected_diags(a) == collected_diags(b),
{
}

/// The two artifacts and the diagnostics of one full run.
pub struct GeneratedArtifacts {
    pub dockerfile: String,
    pub build_script: String,
    pub diagnostics: Vec<String>,
}

/// One full run over the member reading outcomes: both artifacts are
/// assembled in memory from the same validated package list, in member
/// order, together with the diagnostics of every skipped member.
pub fn generate_artifacts(entries: &Vec<MemberInput>) -> (r: GeneratedArtifacts)
    ensures
        r.dockerfile@ == spec_dockerfile(collected_packages(entries.deep_view())),
        r.build_script@ == spec_build_script(collected_packages(entries.deep_view())),
        r.diagnostics.deep_view() == collected_diags(entries.deep_view()),
{
    let (packages, diagnostics) = process_members(entries);
    proof {
        lemma_collected_valid(entries.deep_view());
    }
    let dockerfile = dockerfile_content(&packages);
    let build_script = build_script_content(&packages);
    GeneratedArtifacts { dockerfile, build_script, diagnostics }
}

} // verus!
