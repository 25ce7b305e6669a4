//! The fleet list the dashboard pages through: which nodes a search keeps,
//! which slice a page shows, and the link to the next page.
use vstd::prelude::*;
use vstd::string::{StringExecFns, StringSliceAdditionalSpecFns};
use vstd::utf8::encode_utf8;

use crate::text::{
    lowercase, push_char, push_decimal, decimal, same_text, to_lowercase, trim, trimmed,
};

verus! {

/// Nodes on one page of the fleet list.
pub const FLEET_PAGE: usize = 200;

/// Bytes a query value keeps as they are: ASCII letters, digits, `-_.~`.
pub open spec fn unreserved(byte: u8) -> bool {
    (65 <= byte <= 90) || (97 <= byte <= 122) || (48 <= byte <= 57) || byte == 45 || byte == 95
        || byte == 46 || byte == 126
}

/// An uppercase hexadecimal digit.
pub open spec fn upper_hex(value: u8) -> char {
    if value < 10 {
        ((48 + value) as u8) as char
    } else {
        ((55 + value) as u8) as char
    }
}

/// How one byte of a query value is written.
pub open spec fn escaped(byte: u8) -> Seq<char> {
    if unreserved(byte) {
        seq![byte as char]
    } else {
        seq!['%', upper_hex(byte / 16), upper_hex(byte % 16)]
    }
}

/// A query value percent-encoded byte by byte.
pub open spec fn percent_encoded(bytes: Seq<u8>) -> Seq<char>
    decreases bytes.len(),
{
    if bytes.len() == 0 {
        Seq::empty()
    } else {
        percent_encoded(bytes.drop_last()) + escaped(bytes.last())
    }
}

fn hex_char(value: u8) -> (c: char)
    requires
        value < 16,
    ensures
        c == upper_hex(value),
{
    if value < 10 {
        ((48 + value) as u8) as char
    } else {
        ((55 + value) as u8) as char
    }
}

/// Percent-encode a query value over its UTF-8 bytes.
pub fn urlencode(value: &str) -> (encoded: String)
    ensures
        encoded@ == percent_encoded(value.spec_bytes()),
{
    let bytes = value.as_bytes();
    let mut encoded = String::new();
    let mut i: usize = 0;
    while i < bytes.len()
        invariant
            i <= bytes@.len(),
            encoded@ == percent_encoded(bytes@.take(i as int)),
        decreases bytes@.len() - i,
    {
        let byte = bytes[i];
        let keep = (65 <= byte && byte <= 90) || (97 <= byte && byte <= 122) || (48 <= byte
            && byte <= 57) || byte == 45 || byte == 95 || byte == 46 || byte == 126;
        if keep {
            push_char(&mut encoded, byte as char);
        } else {
            push_char(&mut encoded, '%');
            push_char(&mut encoded, hex_char(byte / 16));
            push_char(&mut encoded, hex_char(byte % 16));
        }
        proof {
            assert(bytes@.take(i + 1).drop_last() =~= bytes@.take(i as int));
            assert(encoded@ =~= percent_encoded(bytes@.take(i + 1)));
        }
        i = i + 1;
    }
    assert(bytes@.take(i as int) =~= bytes@);
    encoded
}

/// What the fleet list is asked for.
#[derive(Debug, Clone, Default)]
pub struct FleetQuery {
    pub q: Option<String>,
    pub state: Option<String>,
    pub offset: Option<usize>,
}

/// A query parameter's value when it is given and not empty.
pub open spec fn given(value: Option<String>) -> Option<Seq<char>> {
    match value {
        Some(v) => if v@.len() > 0 {
            Some(v@)
        } else {
            None
        },
        None => None,
    }
}

/// `needle` occurs in `haystack`.
pub open spec fn occurs_in(needle: Seq<char>, haystack: Seq<char>) -> bool {
    exists|i: int|
        0 <= i <= haystack.len() - needle.len() && #[trigger] haystack.subrange(
            i,
            i + needle.len(),
        ) == needle
}

/// Text found anywhere inside a longer text occurs in it: at its start,
/// in its middle or at its end.
pub proof fn lemma_occurs_anywhere(before: Seq<char>, needle: Seq<char>, after: Seq<char>)
    ensures
        occurs_in(needle, before + needle + after),
{
    let haystack = before + needle + after;
    assert(haystack.subrange(before.len() as int, (before.len() + needle.len()) as int) =~= needle);
}

fn contains_text(haystack: &str, needle: &str) -> (found: bool)
    ensures
        found == occurs_in(needle@, haystack@),
{
    let h = haystack.unicode_len();
    let n = needle.unicode_len();
    if n > h {
        return false;
    }
    let mut i: usize = 0;
    loop
        invariant
            h == haystack@.len(),
            n == needle@.len(),
            n <= h,
            i <= h - n,
            forall|k: int| 0 <= k < i ==> #[trigger] haystack@.subrange(k, k + n) != needle@,
        decreases h - n - i,
    {
        if same_text(haystack.substring_char(i, i + n), needle) {
            return true;
        }
        if i == h - n {
            return false;
        }
        i = i + 1;
    }
}

impl FleetQuery {
    /// The query string of the fleet page starting at `offset`, keeping the
    /// search term and the state filter when they are given.
    pub open spec fn link_at(&self, offset: usize) -> Seq<char> {
        let base = "?offset="@ + decimal(offset as nat);
        let with_term = match given(self.q) {
            Some(term) => base + "&q="@ + percent_encoded(encode_utf8(term)),
            None => base,
        };
        match given(self.state) {
            Some(state) => with_term + "&state="@ + percent_encoded(encode_utf8(state)),
            None => with_term,
        }
    }

    /// The link to the fleet page starting at `offset`.
    pub fn at(&self, offset: usize) -> (link: String)
        ensures
            link@ == self.link_at(offset),
    {
        proof {
            reveal_strlit("?offset=");
            reveal_strlit("&q=");
            reveal_strlit("&state=");
        }
        let mut link = String::from_str("?offset=");
        push_decimal(&mut link, offset as u64);
        match &self.q {
            Some(term) => if term.as_str().unicode_len() > 0 {
                link.append("&q=");
                let encoded = urlencode(term.as_str());
                link.append(encoded.as_str());
            },
            None => {},
        }
        match &self.state {
            Some(state) => if state.as_str().unicode_len() > 0 {
                link.append("&state=");
                let encoded = urlencode(state.as_str());
                link.append(encoded.as_str());
            },
            None => {},
        }
        link
    }

    /// Whether a node with this name and state is listed: the search term,
    /// trimmed and lowercased, occurs in the lowercased name, and the state
    /// is the one asked for; an empty term or state keeps everything.
    pub open spec fn keeps(&self, name: Seq<char>, state: Seq<char>) -> bool {
        let term = lowercase(trimmed(match self.q {
            Some(q) => q@,
            None => Seq::empty(),
        }));
        let wanted = match self.state {
            Some(s) => s@,
            None => Seq::empty(),
        };
        (term.len() == 0 || occurs_in(term, lowercase(name))) && (wanted.len() == 0 || state
            == wanted)
    }

    /// The search term as the fleet search uses it: trimmed and lowercased.
    pub open spec fn search_term(&self) -> Seq<char> {
        lowercase(trimmed(match self.q {
            Some(q) => q@,
            None => Seq::empty(),
        }))
    }

    /// Search is by substring: when no state is asked for, a node is listed
    /// exactly when the search term occurs somewhere in its lowercased name,
    /// at its start, in its middle or at its end; and a blank search lists
    /// every node.
    pub proof fn lemma_search_finds_inner_text(
        &self,
        name: Seq<char>,
        state: Seq<char>,
        before: Seq<char>,
        after: Seq<char>,
    )
        requires
            self.state is None,
        ensures
            lowercase(name) == before + self.search_term() + after ==> self.keeps(name, state),
            self.search_term().len() == 0 ==> self.keeps(name, state),
            self.search_term().len() > 0 ==> (self.keeps(name, state) <==> exists|at: int|
                0 <= at && at + self.search_term().len() <= lowercase(name).len()
                    && #[trigger] lowercase(name).subrange(at, at + self.search_term().len())
                    == self.search_term()),
    {
        let term = self.search_term();
        lemma_occurs_anywhere(before, term, after);
        let shown = lowercase(name);
        if term.len() > 0 {
            assert(self.keeps(name, state) == occurs_in(term, shown));
            if occurs_in(term, shown) {
                let i = choose|i: int|
                    0 <= i <= shown.len() - term.len() && #[trigger] shown.subrange(
                        i,
                        i + term.len(),
                    ) == term;
                assert(shown.subrange(i, i + term.len()) == term);
            }
            if exists|at: int|
                0 <= at && at + term.len() <= shown.len() && #[trigger] shown.subrange(
                    at,
                    at + term.len(),
                ) == term {
                let at = choose|at: int|
                    0 <= at && at + term.len() <= shown.len() && #[trigger] shown.subrange(
                        at,
                        at + term.len(),
                    ) == term;
                assert(shown.subrange(at, at + term.len()) == term);
            }
        }
    }

    /// Whether the node with this name and state is listed.
    pub fn matches(&self, name: &str, state: &str) -> (kept: bool)
        ensures
            kept == self.keeps(name@, state@),
    {
        let raw: &str = match &self.q {
            Some(q) => q.as_str(),
            None => "",
        };
        proof {
            reveal_strlit("");
        }
        let term = to_lowercase(trim(raw));
        let wanted: &str = match &self.state {
            Some(s) => s.as_str(),
            None => "",
        };
        let term_ok = term.as_str().unicode_len() == 0 || contains_text(
            to_lowercase(name).as_str(),
            term.as_str(),
        );
        let state_ok = wanted.unicode_len() == 0 || same_text(state, wanted);
        term_ok && state_ok
    }
}

/// Where the page asked for starts, where it ends, and whether there is a
/// page after it, for a list of `total` matching nodes.
pub fn page_bounds(offset: Option<usize>, total: usize) -> (bounds: (usize, usize, bool))
    ensures
        ({
            let start = match offset {
                Some(o) => if o < total { o } else { total },
                None => 0,
            };
            let end = if start + FLEET_PAGE < total { start + FLEET_PAGE } else { total as int };
            bounds.0 == start && bounds.1 == end && bounds.2 == (end < total)
        }),
{
    let asked = match offset {
        Some(o) => o,
        None => 0,
    };
    let start = if asked < total { asked } else { total };
    let end = if total - start > FLEET_PAGE { start + FLEET_PAGE } else { total };
    (start, end, end < total)
}

} // verus!
