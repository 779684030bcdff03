//! The domain blocklist: an immutable set of lowercase domain
//! strings, and the NSFW matching policy applied to URLs and free
//! text alike.

use vstd::prelude::*;

verus! {

use crate::domain::extract_domain;
use crate::domain::spec_extract_domain;
use crate::text::lowercase;
use crate::text::spec_lines;
use crate::text::spec_lower;
use crate::text::split_lines;
use crate::text::trim_of;
use crate::text::trimmed;

/// The set of known-NSFW domains, loaded once per job run and
/// read-only afterwards.
pub struct Blocklist {
    domains: Vec<String>,
}

impl View for Blocklist {
    type V = Set<Seq<char>>;

    /// The set of domain strings the blocklist holds.
    closed spec fn view(&self) -> Set<Seq<char>> {
        Set::new(
            |d: Seq<char>|
                exists|i: int| 0 <= i < self.domains@.len() && self.domains@[i]@ == d,
        )
    }
}

impl Blocklist {
    /// The empty blocklist: the degraded mode when the blocklist
    /// resource is missing or unreadable, under which no document is
    /// ever flagged NSFW.
    pub fn new() -> (b: Blocklist)
        ensures
            b@ == Set::<Seq<char>>::empty(),
    {
        let b = Blocklist { domains: Vec::new() };
        proof {
            assert(b@ =~= Set::<Seq<char>>::empty());
        }
        b
    }

    /// Builds the blocklist from the text of the resource: every line
    /// of it, trimmed and lowercased, is a blocked domain.
    pub fn from_text(text: &str) -> (b: Blocklist)
        ensures
            forall|d: Seq<char>|
                b@.contains(d) <==> (exists|i: int|
                    0 <= i < spec_lines(text@).len() && d == spec_lower(
                        trim_of(#[trigger] spec_lines(text@)[i]),
                    )),
    {
        let lines = split_lines(text);
        let mut domains: Vec<String> = Vec::new();
        let mut i: usize = 0;
        while i < lines.len()
            invariant
                0 <= i <= lines.len(),
                lines.deep_view() == spec_lines(text@),
                domains@.len() == i,
                forall|j: int|
                    0 <= j < i ==> domains@[j]@ == spec_lower(
                        trim_of(#[trigger] lines.deep_view()[j]),
                    ),
            decreases lines.len() - i,
        {
            let t = trimmed(lines[i].as_str());
            domains.push(lowercase(t.as_str()));
            i += 1;
        }
        let b = Blocklist { domains };
        proof {
            assert forall|d: Seq<char>| b@.contains(d) implies (exists|i: int|
                0 <= i < spec_lines(text@).len() && d == spec_lower(
                    trim_of(#[trigger] spec_lines(text@)[i]),
                )) by {
                let j = choose|j: int|
                    0 <= j < b.domains@.len() && b.domains@[j]@ == d;
                assert(d == spec_lower(trim_of(spec_lines(text@)[j])));
            }
        }
        b
    }

    /// Whether the given string is one of the blocked domains.
    pub fn contains_domain(&self, domain: &String) -> (r: bool)
        ensures
            r == self@.contains(domain@),
    {
        let mut i: usize = 0;
        while i < self.domains.len()
            invariant
                0 <= i <= self.domains@.len(),
                forall|j: int| 0 <= j < i ==> self.domains@[j]@ != domain@,
            decreases self.domains@.len() - i,
        {
            if *domain == self.domains[i] {
                return true;
            }
            i += 1;
        }
        false
    }
}

/// Whether the domain a text stands for is a blocked one.
pub open spec fn spec_is_nsfw_domain(u: Seq<char>, blocked: Set<Seq<char>>) -> bool {
    match spec_extract_domain(u) {
        Some(d) => blocked.contains(d),
        None => false,
    }
}

/// Flags a URL whose extracted host is a blocked domain.
pub fn is_nsfw_domain(url: &str, nsfw_domains: &Blocklist) -> (r: bool)
    ensures
        r == spec_is_nsfw_domain(url@, nsfw_domains@),
{
    match extract_domain(url) {
        Some(domain) => nsfw_domains.contains_domain(&domain),
        None => false,
    }
}

/// Flags free text by the same policy: the text is treated as if it
/// were a URL, and the "domain" so extracted is looked up in the
/// blocklist.
pub fn is_nsfw(text: &str, nsfw_domains: &Blocklist) -> (r: bool)
    ensures
        r == spec_is_nsfw_domain(text@, nsfw_domains@),
{
    is_nsfw_domain(text, nsfw_domains)
}

} // verus!
