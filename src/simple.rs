//! Reading a commit's parts as plain strings.

use vstd::prelude::*;
use vstd::string::StringSliceAdditionalSpecFns;

use crate::commit::{Commit, CommitView};
use crate::component::SimpleFooter;

verus! {

/// The weakly-typed reading of a commit: every part as a string slice.
pub trait Simple {
    /// What the commit holds.
    spec fn commit_view(&self) -> CommitView;

    /// The type of the commit.
    fn type_(&self) -> (r: &str)
        ensures
            r.spec_bytes() == self.commit_view().ty,
    ;

    /// The optional scope of the commit.
    fn scope(&self) -> (r: Option<&str>)
        ensures
            match r {
                Some(x) => self.commit_view().scope == Some(x.spec_bytes()),
                None => self.commit_view().scope is None,
            },
    ;

    /// The commit description.
    fn description(&self) -> (r: &str)
        ensures
            r.spec_bytes() == self.commit_view().description,
    ;

    /// The commit body, a more detailed explanation of the change.
    fn body(&self) -> (r: Option<&str>)
        ensures
            match r {
                Some(x) => self.commit_view().body == Some(x.spec_bytes()),
                None => self.commit_view().body is None,
            },
    ;

    /// Whether the commit is a breaking change: marked by `!` before the
    /// colon of the header, or by a `BREAKING CHANGE` footer.
    fn breaking(&self) -> (r: bool)
        ensures
            r == self.commit_view().breaking,
    ;

    /// The footers, in the order of the message.
    fn trailers(&self) -> (r: Vec<SimpleFooter<'_>>)
        ensures
            r@.map_values(|f: SimpleFooter<'_>| f@) == self.commit_view().trailers,
    ;
}

impl<'a> Simple for Commit<'a> {
    open spec fn commit_view(&self) -> CommitView {
        self@
    }

    fn type_(&self) -> (r: &str) {
        self.type_component().as_str()
    }

    fn scope(&self) -> (r: Option<&str>) {
        match self.scope_component() {
            Some(s) => Some(s.as_str()),
            None => None,
        }
    }

    fn description(&self) -> (r: &str) {
        self.description_component().as_str()
    }

    fn body(&self) -> (r: Option<&str>) {
        match self.body_component() {
            Some(b) => Some(b.as_str()),
            None => None,
        }
    }

    fn breaking(&self) -> (r: bool) {
        self.is_breaking()
    }

    fn trailers(&self) -> (r: Vec<SimpleFooter<'_>>) {
        let footers = self.footers();
        let mut out: Vec<SimpleFooter<'_>> = Vec::new();
        let mut i: usize = 0;
        while i < footers.len()
            invariant
                i <= footers@.len(),
                footers@.map_values(|f: crate::component::Footer<'a>| f@) == self@.trailers,
                out@.len() == i,
                forall|k: int| 0 <= k < i ==> #[trigger] out@[k]@ == footers@[k]@,
            decreases footers@.len() - i,
        {
            out.push(SimpleFooter::new(footers[i]));
            i = i + 1;
        }
        assert(out@.map_values(|f: SimpleFooter<'_>| f@) =~= self@.trailers);
        out
    }
}

} // verus!
