//! Domain extraction: turning a URL (or any text treated as one) into
//! the lowercased host that the blocklist is matched against.

use vstd::prelude::*;

verus! {

use vstd::string::StrSliceExecFns;
use vstd::utf8::is_ascii_chars;
use crate::text::ascii_lower;
use crate::text::ascii_lower_char;
use crate::text::lowercase;
use crate::text::spec_lower;

/// Whether `s` begins with the prefix `p`.
pub open spec fn starts_with(s: Seq<char>, p: Seq<char>) -> bool {
    p.len() <= s.len() && s.take(p.len() as int) == p
}

/// The position of the first occurrence of `c` in `s`, or `s.len()`
/// when `c` does not occur.
pub open spec fn first_index_of(s: Seq<char>, c: char) -> int
    decreases s.len(),
{
    if s.len() == 0 {
        0
    } else if s[0] == c {
        0
    } else {
        1 + first_index_of(s.drop_first(), c)
    }
}

/// `first_index_of` points at the first occurrence: nothing before it
/// is `c`, and it is `c` itself unless `c` is absent.
pub proof fn lemma_first_index_of(s: Seq<char>, c: char)
    ensures
        0 <= first_index_of(s, c) <= s.len(),
        forall|j: int| 0 <= j < first_index_of(s, c) ==> s[j] != c,
        first_index_of(s, c) < s.len() ==> s[first_index_of(s, c)] == c,
    decreases s.len(),
{
    if s.len() == 0 {
    } else if s[0] == c {
    } else {
        lemma_first_index_of(s.drop_first(), c);
        assert forall|j: int| 0 <= j < first_index_of(s, c) implies s[j] != c by {
            if j > 0 {
                assert(s.drop_first()[j - 1] != c);
            }
        }
    }
}

/// Any position with the properties of `first_index_of` is
/// `first_index_of`.
pub proof fn lemma_first_index_of_unique(s: Seq<char>, c: char, i: int)
    requires
        0 <= i <= s.len(),
        forall|j: int| 0 <= j < i ==> s[j] != c,
        i < s.len() ==> s[i] == c,
    ensures
        i == first_index_of(s, c),
{
    lemma_first_index_of(s, c);
    let f = first_index_of(s, c);
    if i < f {
        assert(s[i] == c);
    } else if f < i {
        assert(s[f] == c);
    }
}

/// The URL without its scheme: a single leading `http://` or
/// `https://` prefix removed.
pub open spec fn strip_scheme(u: Seq<char>) -> Seq<char> {
    if starts_with(u, "http://"@) {
        u.skip(7)
    } else if starts_with(u, "https://"@) {
        u.skip(8)
    } else {
        u
    }
}

/// The text without a single leading `www.` prefix.
pub open spec fn strip_www(u: Seq<char>) -> Seq<char> {
    if starts_with(u, "www."@) {
        u.skip(4)
    } else {
        u
    }
}

/// The part of the text before its first `/`, the whole text when
/// there is none.
pub open spec fn host_part(u: Seq<char>) -> Seq<char> {
    u.take(first_index_of(u, '/'))
}

/// The domain a text stands for: strip one scheme prefix, then one
/// `www.` prefix, take what stands before the first `/`, and
/// lowercase it. An empty remainder is no domain at all.
pub open spec fn spec_extract_domain(u: Seq<char>) -> Option<Seq<char>> {
    let d = host_part(strip_www(strip_scheme(u)));
    if d.len() == 0 {
        None
    } else {
        Some(spec_lower(d))
    }
}

/// Whether `s` begins with the prefix `p`, by characters.
fn str_starts_with(s: &str, p: &str) -> (b: bool)
    ensures
        b == starts_with(s@, p@),
{
    let sl = s.unicode_len();
    let pl = p.unicode_len();
    if pl > sl {
        return false;
    }
    let mut i: usize = 0;
    while i < pl
        invariant
            0 <= i <= pl <= sl,
            pl == p@.len(),
            sl == s@.len(),
            forall|j: int| 0 <= j < i ==> s@[j] == p@[j],
        decreases pl - i,
    {
        if s.get_char(i) != p.get_char(i) {
            proof {
                assert(s@.take(pl as int)[i as int] != p@[i as int]);
            }
            return false;
        }
        i += 1;
    }
    proof {
        assert(s@.take(pl as int) =~= p@);
    }
    true
}

/// The position of the first occurrence of `c` in `s`, or the length
/// of `s` when `c` does not occur.
fn find_char(s: &str, c: char) -> (i: usize)
    ensures
        i == first_index_of(s@, c),
        i <= s@.len(),
{
    let n = s.unicode_len();
    let mut i: usize = 0;
    while i < n
        invariant
            0 <= i <= n,
            n == s@.len(),
            forall|j: int| 0 <= j < i ==> s@[j] != c,
        decreases n - i,
    {
        if s.get_char(i) == c {
            proof {
                lemma_first_index_of_unique(s@, c, i as int);
            }
            return i;
        }
        i += 1;
    }
    proof {
        lemma_first_index_of_unique(s@, c, n as int);
    }
    n
}

/// Extracts the lowercased host of a URL, or of any text treated as
/// one; `None` when nothing stands before the first `/` after the
/// prefixes are stripped.
pub fn extract_domain(url: &str) -> (r: Option<String>)
    ensures
        match r {
            Some(d) => spec_extract_domain(url@) == Some(d@),
            None => spec_extract_domain(url@) is None,
        },
{
    proof {
        reveal_strlit("http://");
        reveal_strlit("https://");
        reveal_strlit("www.");
    }
    let n = url.unicode_len();
    let unschemed = if str_starts_with(url, "http://") {
        url.substring_char(7, n)
    } else if str_starts_with(url, "https://") {
        url.substring_char(8, n)
    } else {
        url
    };
    proof {
        assert(unschemed@ =~= strip_scheme(url@));
    }
    let m = unschemed.unicode_len();
    let rest = if str_starts_with(unschemed, "www.") {
        unschemed.substring_char(4, m)
    } else {
        unschemed
    };
    proof {
        assert(rest@ =~= strip_www(strip_scheme(url@)));
    }
    let k = find_char(rest, '/');
    if k == 0 {
        proof {
            assert(host_part(rest@) =~= rest@.take(0));
        }
        None
    } else {
        let host = rest.substring_char(0, k);
        proof {
            lemma_first_index_of(rest@, '/');
            assert(host@ =~= host_part(rest@));
        }
        Some(lowercase(host))
    }
}

/// A sequence of ASCII characters lowercases to ASCII characters, and
/// lowercasing it again changes nothing.
pub proof fn lemma_ascii_lower_idempotent(s: Seq<char>)
    requires
        is_ascii_chars(s),
    ensures
        is_ascii_chars(ascii_lower(s)),
        ascii_lower(ascii_lower(s)) == ascii_lower(s),
{
    assert forall|i: int| 0 <= i < ascii_lower(s).len() implies '\0'
        <= #[trigger] ascii_lower(s)[i] <= '\u{7f}' by {
        assert('\0' <= s[i] <= '\u{7f}');
    }
    assert(ascii_lower(ascii_lower(s)) =~= ascii_lower(s)) by {
        assert forall|i: int| 0 <= i < s.len() implies #[trigger] ascii_lower(ascii_lower(s))[i]
            == ascii_lower(s)[i] by {
            assert(ascii_lower_char(ascii_lower_char(s[i])) == ascii_lower_char(s[i]));
        }
    }
}

/// Lowercasing ASCII characters introduces no occurrence of a
/// character that is not a letter.
proof fn lemma_ascii_lower_keeps_absent(s: Seq<char>, c: char)
    requires
        c < 'A' || c > 'z',
        forall|j: int| 0 <= j < s.len() ==> s[j] != c,
    ensures
        forall|j: int| 0 <= j < ascii_lower(s).len() ==> ascii_lower(s)[j] != c,
{
    assert forall|j: int| 0 <= j < ascii_lower(s).len() implies ascii_lower(s)[j] != c by {
        assert(ascii_lower(s)[j] == ascii_lower_char(s[j]));
    }
}

/// Idempotence of domain extraction: applying `extract_domain` to a
/// domain it extracted returns that domain unchanged, provided the
/// domain does not itself begin with a `www.` prefix. Stated for
/// ASCII input, where the effect of lowercasing is pinned down.
pub proof fn lemma_extract_domain_idempotent(u: Seq<char>, d: Seq<char>)
    requires
        is_ascii_chars(u),
        spec_extract_domain(u) == Some(d),
        !starts_with(d, "www."@),
    ensures
        spec_extract_domain(d) == Some(d),
{
    reveal_strlit("http://");
    reveal_strlit("https://");
    reveal_strlit("www.");
    let h = host_part(strip_www(strip_scheme(u)));
    assert(h.len() > 0);
    let t1 = strip_scheme(u);
    let t2 = strip_www(t1);
    assert(is_ascii_chars(t1)) by {
        assert forall|i: int| 0 <= i < t1.len() implies '\0' <= #[trigger] t1[i] <= '\u{7f}' by {
            if starts_with(u, "http://"@) {
                assert(t1[i] == u[7 + i]);
            } else if starts_with(u, "https://"@) {
                assert(t1[i] == u[8 + i]);
            }
        }
    }
    assert(is_ascii_chars(t2)) by {
        assert forall|i: int| 0 <= i < t2.len() implies '\0' <= #[trigger] t2[i] <= '\u{7f}' by {
            if starts_with(t1, "www."@) {
                assert(t2[i] == t1[4 + i]);
            }
        }
    }
    lemma_first_index_of(t2, '/');
    assert(is_ascii_chars(h)) by {
        assert forall|i: int| 0 <= i < h.len() implies '\0' <= #[trigger] h[i] <= '\u{7f}' by {
            assert(h[i] == t2[i]);
        }
    }
    assert(d == ascii_lower(h));
    lemma_ascii_lower_idempotent(h);
    assert(d.len() == h.len());
    lemma_first_index_of(strip_www(strip_scheme(u)), '/');
    assert(forall|j: int| 0 <= j < h.len() ==> h[j] != '/');
    lemma_ascii_lower_keeps_absent(h, '/');
    assert(!starts_with(d, "http://"@)) by {
        if starts_with(d, "http://"@) {
            assert(d.take(7)[5] == '/');
        }
    }
    assert(!starts_with(d, "https://"@)) by {
        if starts_with(d, "https://"@) {
            assert(d.take(8)[6] == '/');
        }
    }
    assert(strip_scheme(d) == d);
    assert(strip_www(d) == d);
    lemma_first_index_of_unique(d, '/', d.len() as int);
    assert(host_part(d) =~= d);
    assert(spec_lower(d) == ascii_lower(d));
    assert(ascii_lower(d) == d);
}

} // verus!
