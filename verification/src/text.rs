//! Text derivation: trimming, lowercasing, the content preview and
//! line splitting of the blocklist resource.

use vstd::prelude::*;

verus! {

use vstd::string::StrSliceExecFns;
use vstd::string::StringExecFns;
use vstd::utf8::is_ascii_chars;

/// What `str::trim` returns: the input without its leading and
/// trailing whitespace.
pub uninterp spec fn trim_of(s: Seq<char>) -> Seq<char>;

/// What `str::to_lowercase` returns on a string holding some
/// non-ASCII character; a function of the characters alone.
pub uninterp spec fn lower_of(s: Seq<char>) -> Seq<char>;

/// The lowercase of one ASCII character: `A`..`Z` map to `a`..`z`,
/// every other character stays.
pub open spec fn ascii_lower_char(c: char) -> char {
    if 'A' <= c && c <= 'Z' {
        (((c as u32) + 32) as char)
    } else {
        c
    }
}

/// The lowercase of an ASCII character sequence, character by
/// character.
pub open spec fn ascii_lower(s: Seq<char>) -> Seq<char> {
    s.map_values(|c: char| ascii_lower_char(c))
}

/// The lowercase of a character sequence: spelled out for ASCII
/// input, `lower_of` beyond it.
pub open spec fn spec_lower(s: Seq<char>) -> Seq<char> {
    if is_ascii_chars(s) {
        ascii_lower(s)
    } else {
        lower_of(s)
    }
}

/// Relies on `str::trim`: the input without leading and trailing
/// whitespace, hence never longer than the input and empty when the
/// input is empty.
#[verifier::external_body]
pub(crate) fn trimmed(s: &str) -> (r: String)
    ensures
        r@ == trim_of(s@),
        r@.len() <= s@.len(),
        s@.len() == 0 ==> r@.len() == 0,
{
    s.trim().to_owned()
}

/// Relies on `str::to_lowercase`: the result depends on the
/// characters alone; an ASCII input maps `A`..`Z` to `a`..`z` and
/// keeps every other character.
#[verifier::external_body]
pub(crate) fn lowercase(s: &str) -> (r: String)
    ensures
        r@ == spec_lower(s@),
        !is_ascii_chars(s@) ==> r@ == lower_of(s@),
{
    s.to_lowercase()
}

/// The derived preview of raw content: the trimmed content when it
/// has at most `max` characters, else its first `max` characters
/// followed by the three-dot truncation marker.
pub open spec fn spec_preview(s: Seq<char>, max: nat) -> Seq<char> {
    if trim_of(s).len() <= max {
        trim_of(s)
    } else {
        trim_of(s).take(max as int) + "..."@
    }
}

/// Derives the display preview of a record's content.
pub fn generate_preview(text: &str, max_len: usize) -> (r: String)
    ensures
        r@ == spec_preview(text@, max_len as nat),
{
    let t = trimmed(text);
    let n = t.as_str().unicode_len();
    if n <= max_len {
        t
    } else {
        let mut p = t.as_str().substring_char(0, max_len).to_owned();
        p.append("...");
        proof {
            assert(p@ == trim_of(text@).take(max_len as int) + "..."@);
        }
        p
    }
}

/// Short content is previewed exactly: when the trimmed content has
/// at most `max` characters, the preview is the trimmed content
/// itself, with no truncation marker appended.
pub proof fn lemma_preview_short(s: Seq<char>, max: nat)
    requires
        trim_of(s).len() <= max,
    ensures
        spec_preview(s, max) == trim_of(s),
{
}

/// Long content is truncated exactly: when the trimmed content has
/// more than `max` characters, the preview is `max` characters long
/// plus the three-character marker, and those `max` characters are
/// the first `max` characters of the trimmed content.
pub proof fn lemma_preview_truncated(s: Seq<char>, max: nat)
    requires
        trim_of(s).len() > max,
    ensures
        spec_preview(s, max).len() == max + 3,
        spec_preview(s, max).take(max as int) == trim_of(s).take(max as int),
        spec_preview(s, max).skip(max as int) == "..."@,
{
    reveal_strlit("...");
    let t = trim_of(s).take(max as int);
    let p = t + "..."@;
    assert(p.take(max as int) =~= t);
    assert(p.skip(max as int) =~= "..."@);
}

/// The lines of a text, splitting on `'\n'`: `cur` is the part of the
/// current line already read.
pub open spec fn lines_from(s: Seq<char>, cur: Seq<char>) -> Seq<Seq<char>>
    decreases s.len(),
{
    if s.len() == 0 {
        if cur.len() == 0 {
            Seq::empty()
        } else {
            seq![cur]
        }
    } else if s[0] == '\n' {
        seq![cur] + lines_from(s.skip(1), Seq::empty())
    } else {
        lines_from(s.skip(1), cur.push(s[0]))
    }
}

/// The lines of a text: split on `'\n'`, a final newline producing no
/// empty last line.
pub open spec fn spec_lines(s: Seq<char>) -> Seq<Seq<char>> {
    lines_from(s, Seq::empty())
}

/// Splitting a text whose first newline stands at `k` yields the part
/// before it, then the lines of the part after it.
proof fn lemma_lines_from_step(t: Seq<char>, cur: Seq<char>, k: int)
    requires
        0 <= k < t.len(),
        t[k] == '\n',
        forall|j: int| 0 <= j < k ==> t[j] != '\n',
    ensures
        lines_from(t, cur) == seq![cur + t.take(k)] + spec_lines(t.skip(k + 1)),
    decreases k,
{
    if k == 0 {
        assert(cur + t.take(0) =~= cur);
        assert(lines_from(t, cur) == seq![cur] + spec_lines(t.skip(1)));
        assert(seq![cur] =~= seq![cur + t.take(0)]);
    } else {
        assert(t[0] != '\n');
        lemma_lines_from_step(t.skip(1), cur.push(t[0]), k - 1);
        assert(cur.push(t[0]) + t.skip(1).take(k - 1) =~= cur + t.take(k));
        assert(t.skip(1).skip(k) =~= t.skip(k + 1));
        assert(seq![cur.push(t[0]) + t.skip(1).take(k - 1)] =~= seq![cur + t.take(k)]);
    }
}

/// A text without a newline is a single line, or no line at all when
/// it is empty.
proof fn lemma_lines_from_flat(t: Seq<char>, cur: Seq<char>)
    requires
        forall|j: int| 0 <= j < t.len() ==> t[j] != '\n',
    ensures
        lines_from(t, cur) == if cur.len() + t.len() == 0 {
            Seq::<Seq<char>>::empty()
        } else {
            seq![cur + t]
        },
    decreases t.len(),
{
    if t.len() == 0 {
        if cur.len() > 0 {
            assert(cur + t =~= cur);
        }
    } else {
        lemma_lines_from_flat(t.skip(1), cur.push(t[0]));
        assert(cur.push(t[0]).len() + t.skip(1).len() > 0);
        assert(cur.push(t[0]) + t.skip(1) =~= cur + t);
    }
}

/// Splits a text into its lines.
pub fn split_lines(s: &str) -> (r: Vec<String>)
    ensures
        r.deep_view() == spec_lines(s@),
{
    let n = s.unicode_len();
    let mut r: Vec<String> = Vec::new();
    let mut start: usize = 0;
    let mut i: usize = 0;
    proof {
        assert(s@.skip(0) =~= s@);
        assert(r.deep_view() + spec_lines(s@) =~= spec_lines(s@));
    }
    while i < n
        invariant
            start <= i <= n,
            n == s@.len(),
            forall|j: int| start <= j < i ==> s@[j] != '\n',
            spec_lines(s@) == r.deep_view() + lines_from(
                s@.skip(start as int),
                Seq::empty(),
            ),
        decreases n - i,
    {
        if s.get_char(i) == '\n' {
            let line = s.substring_char(start, i).to_owned();
            proof {
                let rest = s@.skip(start as int);
                lemma_lines_from_step(rest, Seq::empty(), i - start);
                assert(Seq::<char>::empty() + rest.take(i - start) =~= s@.subrange(
                    start as int,
                    i as int,
                ));
                assert(rest.skip(i - start + 1) =~= s@.skip(i + 1));
            }
            r.push(line);
            proof {
                assert(spec_lines(s@) == r.deep_view() + lines_from(
                    s@.skip(i + 1),
                    Seq::empty(),
                ));
            }
            start = i + 1;
        }
        i += 1;
    }
    if start < n {
        let line = s.substring_char(start, n).to_owned();
        proof {
            let rest = s@.skip(start as int);
            lemma_lines_from_flat(rest, Seq::empty());
            assert(Seq::<char>::empty() + rest =~= s@.subrange(start as int, n as int));
        }
        r.push(line);
    } else {
        proof {
            lemma_lines_from_flat(s@.skip(start as int), Seq::empty());
        }
    }
    proof {
        assert(r.deep_view() =~= spec_lines(s@));
    }
    r
}

} // verus!
