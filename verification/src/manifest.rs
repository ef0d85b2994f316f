//! Reading workspace and package descriptors out of manifest text.
//!
//! The TOML parse itself is done by the `toml` crate behind trusted
//! wrappers; everything around it — the fallback for a non-workspace root
//! manifest, the library-member filter, and the descriptor-path mapping —
//! is verified.

use vstd::prelude::*;
use vstd::string::StringExecFns;

use crate::meta::PackageMeta;
use crate::meta::PackageView;
use crate::text::has_lib_prefix;
use crate::text::starts_with_lib;

verus! {

/// What parsing a workspace descriptor yields: the `members` string array
/// under its `workspace` table, when the text is a TOML document of that
/// shape, and nothing otherwise. The parse is a function of the text alone.
pub uninterp spec fn spec_workspace_members(s: Seq<char>) -> Option<Seq<Seq<char>>>;

/// Relies on `toml::from_str` and the `toml::Value` accessors: parsing is
/// deterministic in the input text, and the result is the `workspace.members`
/// string array exactly when the text is a TOML document of that shape.
#[verifier::external_body]
fn parse_workspace_members(content: &str) -> (r: Option<Vec<String>>)
    ensures
        r.deep_view() == spec_workspace_members(content@),
{
    let table: toml::Table = toml::from_str(content).ok()?;
    let members = table.get("workspace")?.as_table()?.get("members")?.as_array()?;
    let mut out: Vec<String> = Vec::new();
    for m in members {
        out.push(m.as_str()?.to_string());
    }
    Some(out)
}

/// What parsing a package descriptor yields: the identity fields under its
/// `package` table, when the text is a TOML document with string fields
/// `name`, `version`, `description`, `repository` and a string array
/// `authors`, and nothing otherwise. The parse is a function of the text
/// alone.
pub uninterp spec fn spec_package(s: Seq<char>) -> Option<PackageView>;

/// Relies on `toml::from_str` and the `toml::Value` accessors: parsing is
/// deterministic in the input text, and the result holds the `package`
/// identity fields exactly when the text is a TOML document of that shape.
#[verifier::external_body]
pub fn parse_package(content: &str) -> (r: Option<PackageMeta>)
    ensures
        r is Some <==> spec_package(content@) is Some,
        r matches Some(p) ==> Some(p.deep_view()) == spec_package(content@),
{
    let t: toml::Table = toml::from_str(content).ok()?;
    let p = t.get("package")?.as_table()?;
    let mut authors: Vec<String> = Vec::new();
    for a in p.get("authors")?.as_array()? {
        authors.push(a.as_str()?.to_string());
    }
    Some(PackageMeta {
        name: p.get("name")?.as_str()?.to_string(),
        version: p.get("version")?.as_str()?.to_string(),
        authors,
        description: p.get("description")?.as_str()?.to_string(),
        repository: p.get("repository")?.as_str()?.to_string(),
    })
}

/// The conventional descriptor path of a member: `<member>/Cargo.toml`.
pub open spec fn descriptor_path(member: Seq<char>) -> Seq<char> {
    member + "/Cargo.toml"@
}

/// The descriptor paths of the members eligible for image generation:
/// members with the library prefix are dropped, the rest keep their order.
pub open spec fn spec_paths(ms: Seq<Seq<char>>) -> Seq<Seq<char>>
    decreases ms.len(),
{
    if ms.len() == 0 {
        Seq::empty()
    } else if has_lib_prefix(ms[0]) {
        spec_paths(ms.drop_first())
    } else {
        seq![descriptor_path(ms[0])] + spec_paths(ms.drop_first())
    }
}

/// The descriptor paths read for a whole run: when the root manifest is not
/// a workspace, the root manifest itself is the sole member.
pub open spec fn spec_member_paths(o: Option<Seq<Seq<char>>>) -> Seq<Seq<char>> {
    match o {
        Some(ms) => spec_paths(ms),
        None => seq!["Cargo.toml"@],
    }
}

proof fn lemma_spec_paths_snoc(ms: Seq<Seq<char>>, m: Seq<char>)
    ensures
        spec_paths(ms.push(m)) == if has_lib_prefix(m) {
            spec_paths(ms)
        } else {
            (spec_paths(ms) + seq![descriptor_path(m)])
        },
    decreases ms.len(),
{
    if ms.len() == 0 {
        assert(ms.push(m).drop_first() =~= Seq::<Seq<char>>::empty());
        if !has_lib_prefix(m) {
            assert(seq![descriptor_path(m)] + spec_paths(Seq::<Seq<char>>::empty())
                =~= spec_paths(ms) + seq![descriptor_path(m)]);
        }
    } else {
        assert(ms.push(m).drop_first() =~= ms.drop_first().push(m));
        lemma_spec_paths_snoc(ms.drop_first(), m);
        if !has_lib_prefix(m) {
            assert(seq![descriptor_path(ms[0])] + (spec_paths(ms.drop_first())
                + seq![descriptor_path(m)]) =~= (seq![descriptor_path(ms[0])] + spec_paths(
                ms.drop_first(),
            )) + seq![descriptor_path(m)]);
        }
    }
}

/// Returns the descriptor paths of every eligible member of the given
/// workspace manifest text, in member order; when the text does not have
/// the workspace shape, the root manifest path alone.
pub fn member_descriptor_paths(workspace_content: &str) -> (r: Vec<String>)
    ensures
        r.deep_view() == spec_member_paths(spec_workspace_members(workspace_content@)),
{
    match parse_workspace_members(workspace_content) {
        None => {
            let mut r: Vec<String> = Vec::new();
            r.push(String::from_str("Cargo.toml"));
            proof {
                assert(r.deep_view() =~= seq!["Cargo.toml"@]);
            }
            r
        },
        Some(members) => {
            let mut out: Vec<String> = Vec::new();
            let mut i: usize = 0;
            while i < members.len()
                invariant
                    0 <= i <= members.len(),
                    out.deep_view() == spec_paths(members.deep_view().take(i as int)),
                decreases members.len() - i,
            {
                proof {
                    lemma_spec_paths_snoc(members.deep_view().take(i as int), members[i as int]@);
                    assert(members.deep_view().take(i + 1) =~= members.deep_view().take(
                        i as int,
                    ).push(members[i as int]@));
                }
                if !starts_with_lib(members[i].as_str()) {
                    let mut p = members[i].clone();
                    p.append("/Cargo.toml");
                    out.push(p);
                }
                i = i + 1;
            }
            proof {
                assert(members.deep_view().take(members@.len() as int) =~= members.deep_view());
            }
            out
        },
    }
}

/// When no member carries the library prefix, every member is eligible:
/// the run reads exactly one descriptor per member, in member order, so
/// each artifact later holds exactly one unit per member.
pub proof fn lemma_all_members_eligible(ms: Seq<Seq<char>>)
    requires
        forall|i: int| 0 <= i < ms.len() ==> !has_lib_prefix(#[trigger] ms[i]),
    ensures
        spec_paths(ms).len() == ms.len(),
        forall|i: int| 0 <= i < ms.len() ==> spec_paths(ms)[i] == descriptor_path(#[trigger] ms[i]),
    decreases ms.len(),
{
    if ms.len() > 0 {
        assert forall|j: int| 0 <= j < ms.drop_first().len() implies !has_lib_prefix(
            #[trigger] ms.drop_first()[j],
        ) by {
            assert(ms.drop_first()[j] == ms[j + 1]);
        }
        lemma_all_members_eligible(ms.drop_first());
        assert forall|i: int| 0 <= i < ms.len() implies spec_paths(ms)[i] == descriptor_path(
            #[trigger] ms[i],
        ) by {
            if i > 0 {
                assert(spec_paths(ms)[i] == spec_paths(ms.drop_first())[i - 1]);
                assert(ms.drop_first()[i - 1] == ms[i]);
            }
        }
    }
}

proof fn lemma_descriptor_keeps_prefix(m: Seq<char>)
    requires
        !has_lib_prefix(m),
    ensures
        !has_lib_prefix(descriptor_path(m)),
{
    reveal_strlit("/Cargo.toml");
    let d = descriptor_path(m);
    if m.len() >= 3 {
        assert(d[0] == m[0] && d[1] == m[1] && d[2] == m[2]);
    } else if m.len() == 2 {
        assert(d[2] == '/');
    } else if m.len() == 1 {
        assert(d[1] == '/');
    } else {
        assert(d[0] == '/');
    }
}

/// No descriptor path is ever generated for a library member: every path in
/// the eligible list comes from a member without the library prefix, and no
/// listed path itself carries the library prefix — so no library member's
/// package descriptor is ever read.
pub proof fn lemma_library_members_excluded(ms: Seq<Seq<char>>)
    ensures
        forall|j: int|
            #![trigger spec_paths(ms)[j]]
            0 <= j < spec_paths(ms).len() ==> exists|i: int|
                #![trigger descriptor_path(ms[i])]
                0 <= i < ms.len() && !has_lib_prefix(ms[i]) && spec_paths(ms)[j]
                    == descriptor_path(ms[i]),
        forall|j: int| 0 <= j < spec_paths(ms).len() ==> !has_lib_prefix(#[trigger] spec_paths(ms)[j]),
    decreases ms.len(),
{
    if ms.len() > 0 {
        lemma_library_members_excluded(ms.drop_first());
        let rest = spec_paths(ms.drop_first());
        assert forall|j: int| #![trigger rest[j]] 0 <= j < rest.len() implies exists|i: int|
            #![trigger descriptor_path(ms[i])]
            0 <= i < ms.len() && !has_lib_prefix(ms[i]) && rest[j] == descriptor_path(ms[i]) by {
            let i0 = choose|i0: int|
                0 <= i0 < ms.drop_first().len() && !has_lib_prefix(ms.drop_first()[i0]) && rest[j]
                    == #[trigger] descriptor_path(ms.drop_first()[i0]);
            assert(ms.drop_first()[i0] == ms[i0 + 1]);
            assert(rest[j] == descriptor_path(ms[i0 + 1]));
        }
        if !has_lib_prefix(ms[0]) {
            lemma_descriptor_keeps_prefix(ms[0]);
            assert forall|j: int|
                #![trigger spec_paths(ms)[j]]
                0 <= j < spec_paths(ms).len() implies exists|i: int|
                #![trigger descriptor_path(ms[i])]
                0 <= i < ms.len() && !has_lib_prefix(ms[i]) && spec_paths(ms)[j]
                    == descriptor_path(ms[i]) by {
                if j == 0 {
                    assert(spec_paths(ms)[0] == descriptor_path(ms[0]));
                } else {
                    assert(spec_paths(ms)[j] == rest[j - 1]);
                }
            }
        }
    }
    assert forall|j: int| 0 <= j < spec_paths(ms).len() implies !has_lib_prefix(
        #[trigger] spec_paths(ms)[j],
    ) by {
        let i = choose|i: int|
            0 <= i < ms.len() && !has_lib_prefix(ms[i]) && spec_paths(ms)[j]
                == #[trigger] descriptor_path(ms[i]);
        lemma_descriptor_keeps_prefix(ms[i]);
    }
}

} // verus!
