//! Package identity metadata and its mathematical view.

use vstd::prelude::*;

verus! {

/// Identity metadata for one deployable package, as its manifest declares it.
#[derive(Clone, Debug)]
pub struct PackageMeta {
    pub name: String,
    pub version: String,
    pub authors: Vec<String>,
    pub description: String,
    pub repository: String,
}

/// The mathematical value of a `PackageMeta`: every field as a character
/// sequence.
pub ghost struct PackageView {
    pub name: Seq<char>,
    pub version: Seq<char>,
    pub authors: Seq<Seq<char>>,
    pub description: Seq<char>,
    pub repository: Seq<char>,
}

impl View for PackageMeta {
    type V = PackageView;

    open spec fn view(&self) -> PackageView {
        PackageView {
            name: self.name@,
            version: self.version@,
            authors: self.authors.deep_view(),
            description: self.description@,
            repository: self.repository@,
        }
    }
}

impl DeepView for PackageMeta {
    type V = PackageView;

    open spec fn deep_view(&self) -> PackageView {
        self.view()
    }
}

/// A package may be rendered only when its author list is non-empty.
pub open spec fn valid_package(p: PackageView) -> bool {
    p.authors.len() > 0
}

} // verus!
