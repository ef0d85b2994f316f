//! Character-level string helpers: whitespace trimming and prefix tests.

use vstd::prelude::*;
use vstd::string::StrSliceExecFns;
use vstd::string::StringExecFns;

verus! {

/// The characters with the Unicode `White_Space` property, the set that
/// `str::trim` strips from both ends of a string.
pub open spec fn is_whitespace_char(c: char) -> bool {
    ||| c == '\u{0009}'
    ||| c == '\u{000A}'
    ||| c == '\u{000B}'
    ||| c == '\u{000C}'
    ||| c == '\u{000D}'
    ||| c == '\u{0020}'
    ||| c == '\u{0085}'
    ||| c == '\u{00A0}'
    ||| c == '\u{1680}'
    ||| c == '\u{2000}'
    ||| c == '\u{2001}'
    ||| c == '\u{2002}'
    ||| c == '\u{2003}'
    ||| c == '\u{2004}'
    ||| c == '\u{2005}'
    ||| c == '\u{2006}'
    ||| c == '\u{2007}'
    ||| c == '\u{2008}'
    ||| c == '\u{2009}'
    ||| c == '\u{200A}'
    ||| c == '\u{2028}'
    ||| c == '\u{2029}'
    ||| c == '\u{202F}'
    ||| c == '\u{205F}'
    ||| c == '\u{3000}'
}

/// `s` with every leading whitespace character removed.
pub open spec fn trim_start_spec(s: Seq<char>) -> Seq<char>
    decreases s.len(),
{
    if s.len() > 0 && is_whitespace_char(s[0]) {
        trim_start_spec(s.drop_first())
    } else {
        s
    }
}

/// `s` with every trailing whitespace character removed.
pub open spec fn trim_end_spec(s: Seq<char>) -> Seq<char>
    decreases s.len(),
{
    if s.len() > 0 && is_whitespace_char(s.last()) {
        trim_end_spec(s.drop_last())
    } else {
        s
    }
}

/// `s` with leading and trailing whitespace removed, as `str::trim` leaves it.
pub open spec fn trim_spec(s: Seq<char>) -> Seq<char> {
    trim_end_spec(trim_start_spec(s))
}

fn is_whitespace(c: char) -> (r: bool)
    ensures
        r == is_whitespace_char(c),
{
    c == '\u{0009}' || c == '\u{000A}' || c == '\u{000B}' || c == '\u{000C}' || c == '\u{000D}'
        || c == '\u{0020}' || c == '\u{0085}' || c == '\u{00A0}' || c == '\u{1680}'
        || c == '\u{2000}' || c == '\u{2001}' || c == '\u{2002}' || c == '\u{2003}'
        || c == '\u{2004}' || c == '\u{2005}' || c == '\u{2006}' || c == '\u{2007}'
        || c == '\u{2008}' || c == '\u{2009}' || c == '\u{200A}' || c == '\u{2028}'
        || c == '\u{2029}' || c == '\u{202F}' || c == '\u{205F}' || c == '\u{3000}'
}

proof fn lemma_trim_start_prefix(s: Seq<char>, start: int)
    requires
        0 <= start <= s.len(),
        forall|k: int| 0 <= k < start ==> is_whitespace_char(s[k]),
    ensures
        trim_start_spec(s) == trim_start_spec(s.subrange(start, s.len() as int)),
    decreases start,
{
    if start > 0 {
        let t = s.subrange(1, s.len() as int);
        assert(s.drop_first() =~= t);
        assert(t.subrange(start - 1, t.len() as int) =~= s.subrange(start, s.len() as int));
        lemma_trim_start_prefix(t, start - 1);
    } else {
        assert(s.subrange(0, s.len() as int) =~= s);
    }
}

proof fn lemma_trim_end_suffix(s: Seq<char>, end: int)
    requires
        0 <= end <= s.len(),
        forall|k: int| end <= k < s.len() ==> is_whitespace_char(s[k]),
    ensures
        trim_end_spec(s) == trim_end_spec(s.subrange(0, end)),
    decreases s.len() - end,
{
    if end < s.len() {
        let t = s.subrange(0, s.len() - 1);
        assert(s.drop_last() =~= t);
        assert(t.subrange(0, end) =~= s.subrange(0, end));
        lemma_trim_end_suffix(t, end);
    } else {
        assert(s.subrange(0, s.len() as int) =~= s);
    }
}

/// Returns `s` with leading and trailing whitespace removed, as `str::trim`
/// would.
pub fn trim(s: &str) -> (r: String)
    ensures
        r@ == trim_spec(s@),
{
    let n = s.unicode_len();
    let mut start: usize = 0;
    while start < n && is_whitespace(s.get_char(start))
        invariant
            0 <= start <= n,
            n == s@.len(),
            forall|k: int| 0 <= k < start ==> is_whitespace_char(s@[k]),
        decreases n - start,
    {
        start = start + 1;
    }
    let mut end: usize = n;
    while end > start && is_whitespace(s.get_char(end - 1))
        invariant
            start <= end <= n,
            n == s@.len(),
            forall|k: int| end <= k < n ==> is_whitespace_char(s@[k]),
        decreases end,
    {
        end = end - 1;
    }
    let r = String::from_str(s.substring_char(start, end));
    proof {
        lemma_trim_start_prefix(s@, start as int);
        let tail = s@.subrange(start as int, s@.len() as int);
        if start < n {
            assert(!is_whitespace_char(tail[0]));
        }
        assert(trim_start_spec(s@) == tail);
        lemma_trim_end_suffix(tail, end - start);
        assert(tail.subrange(0, end - start) =~= s@.subrange(start as int, end as int));
        if end > start {
            assert(s@.subrange(start as int, end as int).last() == s@[end - 1]);
        }
        assert(trim_end_spec(tail) == s@.subrange(start as int, end as int));
    }
    r
}

/// Holds when `s` begins with the reserved library-path prefix `"lib"`.
pub open spec fn has_lib_prefix(s: Seq<char>) -> bool {
    s.len() >= 3 && s[0] == 'l' && s[1] == 'i' && s[2] == 'b'
}

/// Tests whether a member path begins with the reserved library-path prefix.
pub fn starts_with_lib(s: &str) -> (r: bool)
    ensures
        r == has_lib_prefix(s@),
{
    s.unicode_len() >= 3 && s.get_char(0) == 'l' && s.get_char(1) == 'i' && s.get_char(2) == 'b'
}

} // verus!
