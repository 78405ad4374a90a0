//! Verified string helpers: trimming, filename sanitizing, comparison.
//!
//! Sentence text flows into WAV filenames, so the library needs character
//! level string work with exact contracts: trim whitespace, replace spaces
//! with underscores, append an extension, compare paths and timestamps.

use vstd::prelude::*;
use vstd::string::{StrSliceExecFns, StringExecFns};

verus! {

/// Relies on `String::push` of std: appends exactly the given character.
#[verifier::external_body]
pub fn push_char(s: &mut String, c: char)
    ensures
        final(s)@ == old(s)@.push(c),
{
    s.push(c);
}

/// The characters `char::is_whitespace` accepts: ASCII whitespace and the
/// Unicode `White_Space` code points.
pub open spec fn spec_is_whitespace(c: char) -> bool {
    ||| c == ' '
    ||| c == '\t'
    ||| c == '\n'
    ||| c == '\r'
    ||| c == '\u{000B}'
    ||| c == '\u{000C}'
    ||| c == '\u{0085}'
    ||| c == '\u{00A0}'
    ||| c == '\u{1680}'
    ||| c == '\u{2000}'
    ||| c == '\u{2001}'
    ||| c == '\u{2002}'
    ||| c == '\u{2003}'
    ||| c == '\u{2004}'
    ||| c == '\u{2005}'
    ||| c == '\u{2006}'
    ||| c == '\u{2007}'
    ||| c == '\u{2008}'
    ||| c == '\u{2009}'
    ||| c == '\u{200A}'
    ||| c == '\u{2028}'
    ||| c == '\u{2029}'
    ||| c == '\u{202F}'
    ||| c == '\u{205F}'
    ||| c == '\u{3000}'
}

/// Whitespace test over the same character set as `spec_is_whitespace`.
pub fn is_whitespace_char(c: char) -> (r: bool)
    ensures
        r == spec_is_whitespace(c),
{
    c == ' ' || c == '\t' || c == '\n' || c == '\r' || c == '\u{000B}' || c == '\u{000C}'
        || c == '\u{0085}' || c == '\u{00A0}' || c == '\u{1680}' || c == '\u{2000}'
        || c == '\u{2001}' || c == '\u{2002}' || c == '\u{2003}' || c == '\u{2004}'
        || c == '\u{2005}' || c == '\u{2006}' || c == '\u{2007}' || c == '\u{2008}'
        || c == '\u{2009}' || c == '\u{200A}' || c == '\u{2028}' || c == '\u{2029}'
        || c == '\u{202F}' || c == '\u{205F}' || c == '\u{3000}'
}

/// The string with leading and trailing whitespace removed.
pub open spec fn spec_trim(s: Seq<char>) -> Seq<char>
    decreases s.len(),
{
    if s.len() == 0 {
        s
    } else if spec_is_whitespace(s[0]) {
        spec_trim(s.drop_first())
    } else if spec_is_whitespace(s.last()) {
        spec_trim(s.drop_last())
    } else {
        s
    }
}

/// `spec_trim` equals the subrange between the first and one past the last
/// non-whitespace character.
proof fn lemma_trim_range(s: Seq<char>, start: int, end: int)
    requires
        0 <= start <= end <= s.len(),
        forall|j: int| 0 <= j < start ==> spec_is_whitespace(#[trigger] s[j]),
        forall|j: int| end <= j < s.len() ==> spec_is_whitespace(#[trigger] s[j]),
        start < end ==> !spec_is_whitespace(s[start]) && !spec_is_whitespace(s[end - 1]),
    ensures
        spec_trim(s) == s.subrange(start, end),
    decreases s.len(),
{
    if s.len() == 0 {
        assert(spec_trim(s) =~= s.subrange(start, end));
    } else if spec_is_whitespace(s[0]) {
        let rest = s.drop_first();
        if start == end {
            assert(forall|j: int| 0 <= j < rest.len() ==> spec_is_whitespace(#[trigger] rest[j])
                && rest[j] == s[j + 1]);
            lemma_trim_range(rest, 0, 0);
            assert(spec_trim(s) =~= s.subrange(start, end));
        } else {
            assert(start >= 1);
            assert(forall|j: int| 0 <= j < rest.len() ==> rest[j] == s[j + 1]);
            lemma_trim_range(rest, start - 1, end - 1);
            assert(rest.subrange(start - 1, end - 1) =~= s.subrange(start, end));
        }
    } else if spec_is_whitespace(s.last()) {
        let rest = s.drop_last();
        assert(start < end);
        assert(end < s.len());
        assert(forall|j: int| 0 <= j < rest.len() ==> rest[j] == s[j]);
        lemma_trim_range(rest, start, end);
        assert(rest.subrange(start, end) =~= s.subrange(start, end));
    } else {
        assert(start == 0);
        assert(end == s.len());
        assert(spec_trim(s) =~= s.subrange(start, end));
    }
}

/// A copy of `s` with leading and trailing whitespace removed.
pub fn trim_str(s: &str) -> (r: String)
    ensures
        r@ == spec_trim(s@),
{
    let len = s.unicode_len();
    let mut start: usize = 0;
    while start < len && is_whitespace_char(s.get_char(start))
        invariant
            start <= len,
            len == s@.len(),
            forall|j: int| 0 <= j < start ==> spec_is_whitespace(#[trigger] s@[j]),
        decreases len - start,
    {
        start += 1;
    }
    let mut end: usize = len;
    while end > start && is_whitespace_char(s.get_char(end - 1))
        invariant
            start <= end <= len,
            len == s@.len(),
            forall|j: int| end <= j < len ==> spec_is_whitespace(#[trigger] s@[j]),
        decreases end,
    {
        end -= 1;
    }
    proof {
        lemma_trim_range(s@, start as int, end as int);
    }
    let sub = s.substring_char(start, end);
    String::from_str(sub)
}

/// Character-for-character string equality.
pub fn str_eq(a: &str, b: &str) -> (r: bool)
    ensures
        r == (a@ == b@),
{
    let alen = a.unicode_len();
    let blen = b.unicode_len();
    if alen != blen {
        proof {
            assert(a@ != b@);
        }
        return false;
    }
    let mut i: usize = 0;
    while i < alen
        invariant
            i <= alen,
            alen == a@.len() && alen == b@.len(),
            forall|j: int| 0 <= j < i ==> a@[j] == b@[j],
        decreases alen - i,
    {
        if a.get_char(i) != b.get_char(i) {
            return false;
        }
        i += 1;
    }
    proof {
        assert(a@ =~= b@);
    }
    true
}

/// Lexicographic order on character sequences, by code point.
pub open spec fn spec_str_le(a: Seq<char>, b: Seq<char>) -> bool
    decreases a.len(),
{
    if a.len() == 0 {
        true
    } else if b.len() == 0 {
        false
    } else if a[0] == b[0] {
        spec_str_le(a.drop_first(), b.drop_first())
    } else {
        a[0] < b[0]
    }
}

/// After a common prefix of length `i`, the lexicographic order is decided by
/// position `i`.
proof fn lemma_str_le_common_prefix(a: Seq<char>, b: Seq<char>, i: int)
    requires
        0 <= i <= a.len(),
        i <= b.len(),
        forall|j: int| 0 <= j < i ==> a[j] == #[trigger] b[j],
        i < a.len() && i < b.len() ==> a[i] != b[i],
    ensures
        spec_str_le(a, b) == (if i == a.len() {
            true
        } else if i == b.len() {
            false
        } else {
            a[i] < b[i]
        }),
    decreases i,
{
    if i == 0 {
    } else {
        let ar = a.drop_first();
        let br = b.drop_first();
        assert(forall|j: int| 0 <= j < i - 1 ==> ar[j] == #[trigger] br[j] && ar[j] == a[j + 1]);
        assert(a[0] == b[0]);
        lemma_str_le_common_prefix(ar, br, i - 1);
    }
}

/// The lexicographic order is reflexive.
pub proof fn lemma_str_le_refl(a: Seq<char>)
    ensures
        spec_str_le(a, a),
    decreases a.len(),
{
    if a.len() > 0 {
        lemma_str_le_refl(a.drop_first());
    }
}

/// The lexicographic order is total.
pub proof fn lemma_str_le_total(a: Seq<char>, b: Seq<char>)
    ensures
        spec_str_le(a, b) || spec_str_le(b, a),
    decreases a.len(),
{
    if a.len() == 0 || b.len() == 0 {
    } else if a[0] == b[0] {
        lemma_str_le_total(a.drop_first(), b.drop_first());
    }
}

/// The lexicographic order is transitive.
pub proof fn lemma_str_le_trans(a: Seq<char>, b: Seq<char>, c: Seq<char>)
    requires
        spec_str_le(a, b),
        spec_str_le(b, c),
    ensures
        spec_str_le(a, c),
    decreases a.len(),
{
    if a.len() == 0 {
    } else {
        assert(b.len() > 0);
        assert(c.len() > 0);
        if a[0] == b[0] && b[0] == c[0] {
            lemma_str_le_trans(a.drop_first(), b.drop_first(), c.drop_first());
        }
    }
}

/// Lexicographic comparison by code point: `a <= b`. Agrees with std's string
/// ordering, which compares UTF-8 bytes, because UTF-8 byte order equals code
/// point order.
pub fn str_le(a: &str, b: &str) -> (r: bool)
    ensures
        r == spec_str_le(a@, b@),
{
    let alen = a.unicode_len();
    let blen = b.unicode_len();
    let mut i: usize = 0;
    while i < alen && i < blen
        invariant
            i <= alen,
            i <= blen,
            alen == a@.len() && blen == b@.len(),
            forall|j: int| 0 <= j < i ==> a@[j] == #[trigger] b@[j],
        decreases alen - i,
    {
        let ca = a.get_char(i);
        let cb = b.get_char(i);
        if ca != cb {
            proof {
                lemma_str_le_common_prefix(a@, b@, i as int);
            }
            return ca < cb;
        }
        i += 1;
    }
    proof {
        lemma_str_le_common_prefix(a@, b@, i as int);
    }
    alen <= blen
}

/// Whether the string holds two consecutive dots — the parent-directory
/// reference that filenames taken from outside must not contain.
pub fn contains_parent_dir(s: &str) -> (r: bool)
    ensures
        r == exists|i: int| 0 <= i && i + 1 < s@.len() && (#[trigger] s@[i]) == '.' && s@[i + 1]
            == '.',
{
    let len = s.unicode_len();
    if len < 2 {
        return false;
    }
    let mut i: usize = 0;
    while i < len - 1
        invariant
            2 <= len,
            i <= len,
            len == s@.len(),
            forall|j: int| 0 <= j && j + 1 < i + 1 ==> !((#[trigger] s@[j]) == '.' && s@[j + 1]
                == '.'),
        decreases len - i,
    {
        if s.get_char(i) == '.' && s.get_char(i + 1) == '.' {
            return true;
        }
        i += 1;
    }
    false
}

/// Every space replaced by an underscore.
pub open spec fn spec_underscored(s: Seq<char>) -> Seq<char> {
    s.map_values(|c: char| if c == ' ' {
        '_'
    } else {
        c
    })
}

/// The output filename for a sentence: its text, trimmed, spaces replaced
/// with underscores, with `.wav` appended.
pub open spec fn spec_wav_file_name(text: Seq<char>) -> Seq<char> {
    spec_underscored(spec_trim(text)) + ".wav"@
}

/// Sanitizes sentence text into its WAV filename.
pub fn wav_file_name(text: &str) -> (r: String)
    ensures
        r@ == spec_wav_file_name(text@),
{
    let trimmed = trim_str(text);
    let tlen = trimmed.as_str().unicode_len();
    let mut out = String::new();
    let mut i: usize = 0;
    proof {
        assert(out@ =~= spec_underscored(trimmed@.subrange(0, 0)));
    }
    while i < tlen
        invariant
            i <= tlen,
            tlen == trimmed@.len(),
            trimmed@ == spec_trim(text@),
            out@ == spec_underscored(trimmed@.subrange(0, i as int)),
        decreases tlen - i,
    {
        let c = trimmed.as_str().get_char(i);
        let mapped: char = if c == ' ' {
            '_'
        } else {
            c
        };
        push_char(&mut out, mapped);
        proof {
            assert(trimmed@.subrange(0, i + 1) =~= trimmed@.subrange(0, i as int).push(
                trimmed@[i as int]));
            assert(out@ =~= spec_underscored(trimmed@.subrange(0, i + 1)));
        }
        i += 1;
    }
    proof {
        assert(trimmed@.subrange(0, tlen as int) =~= trimmed@);
    }
    out.append(".wav");
    out
}

/// `dir` and `file` joined with a single separator.
pub fn join_path(dir: &str, file: &str) -> (r: String)
    ensures
        r@ == dir@ + "/"@ + file@,
{
    let mut out = String::from_str(dir);
    out.append("/");
    out.append(file);
    out
}

} // verus!
