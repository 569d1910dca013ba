//! Path safety for names taken out of archives and asset indexes. Archive
//! contents are untrusted input: a name may try to escape the extraction
//! root or collide with a reserved device name. `check_path` accepts a name
//! only if every `/`-separated component is a plain, portable file name.

use vstd::prelude::*;
use vstd::string::StrSliceExecFns;

use crate::strutil::{push_char, spec_lower, strs, to_lower};

verus! {

/// Splitting a string at `sep`: the concatenation of the result, with `sep`
/// between neighbours, is the input; no piece contains `sep`.
pub open spec fn spec_split(s: Seq<char>, sep: char) -> Seq<Seq<char>>
    decreases s.len(),
{
    if s.len() == 0 {
        seq![Seq::<char>::empty()]
    } else {
        let rest = spec_split(s.drop_first(), sep);
        if s[0] == sep {
            seq![Seq::<char>::empty()] + rest
        } else {
            seq![seq![s[0]] + rest[0]] + rest.drop_first()
        }
    }
}

proof fn lemma_split_nonempty(s: Seq<char>, sep: char)
    ensures
        spec_split(s, sep).len() >= 1,
    decreases s.len(),
{
    if s.len() > 0 {
        lemma_split_nonempty(s.drop_first(), sep);
    }
}

/// Splits `s@.skip(i)` at `sep`.
fn split_char_from(s: &str, i: usize, sep: char) -> (r: Vec<String>)
    requires
        i <= s@.len(),
    ensures
        strs(r@) =~= spec_split(s@.skip(i as int), sep),
        r@.len() >= 1,
    decreases s@.len() - i,
{
    let n = s.unicode_len();
    if i == n {
        assert(s@.skip(i as int) =~= Seq::<char>::empty());
        let r = vec![String::new()];
        assert(strs(r@) =~= seq![Seq::<char>::empty()]);
        r
    } else {
        let c = s.get_char(i);
        let mut rest = split_char_from(s, i + 1, sep);
        proof {
            assert(s@.skip(i as int).drop_first() =~= s@.skip(i as int + 1));
            lemma_split_nonempty(s@.skip(i as int + 1), sep);
        }
        if c == sep {
            rest.insert(0, String::new());
            assert(strs(rest@) =~= spec_split(s@.skip(i as int), sep));
            rest
        } else {
            let first = rest.remove(0);
            let mut glued = String::new();
            push_char(&mut glued, c);
            glued.append(first.as_str());
            assert(glued@ =~= seq![s@.skip(i as int)[0]] + spec_split(
                s@.skip(i as int + 1),
                sep,
            )[0]);
            rest.insert(0, glued);
            assert(strs(rest@) =~= spec_split(s@.skip(i as int), sep));
            rest
        }
    }
}

/// Splits `s` at every occurrence of `sep`.
pub fn split_str(s: &str, sep: char) -> (r: Vec<String>)
    ensures
        strs(r@) =~= spec_split(s@, sep),
        r@.len() >= 1,
{
    let r = split_char_from(s, 0, sep);
    assert(s@.skip(0) =~= s@);
    r
}

/// The prefix of `s` before its first `.`, or all of `s` if it has none.
pub open spec fn spec_stem(s: Seq<char>) -> Seq<char>
    decreases s.len(),
{
    if s.len() == 0 || s[0] == '.' {
        Seq::<char>::empty()
    } else {
        seq![s[0]] + spec_stem(s.drop_first())
    }
}

fn stem_from(s: &str, i: usize) -> (r: String)
    requires
        i <= s@.len(),
    ensures
        r@ =~= spec_stem(s@.skip(i as int)),
    decreases s@.len() - i,
{
    let n = s.unicode_len();
    if i == n {
        assert(s@.skip(i as int) =~= Seq::<char>::empty());
        String::new()
    } else {
        let c = s.get_char(i);
        if c == '.' {
            String::new()
        } else {
            let rest = stem_from(s, i + 1);
            let mut r = String::new();
            push_char(&mut r, c);
            r.append(rest.as_str());
            assert(s@.skip(i as int).drop_first() =~= s@.skip(i as int + 1));
            r
        }
    }
}

/// Reserved device stems, compared after ASCII lowering: `aux`, `con`,
/// `nul`, `prn`, `com0`..`com9` and `lpt0`..`lpt9`.
pub open spec fn spec_reserved(t: Seq<char>) -> bool {
    ||| t == seq!['a', 'u', 'x']
    ||| t == seq!['c', 'o', 'n']
    ||| t == seq!['n', 'u', 'l']
    ||| t == seq!['p', 'r', 'n']
    ||| (t.len() == 4 && t[0] == 'c' && t[1] == 'o' && t[2] == 'm' && 48 <= t[3] as u32 && t[3]
        as u32 <= 57)
    ||| (t.len() == 4 && t[0] == 'l' && t[1] == 'p' && t[2] == 't' && 48 <= t[3] as u32 && t[3]
        as u32 <= 57)
}

fn is_reserved(t: &str) -> (r: bool)
    ensures
        r == spec_reserved(t@),
{
    let n = t.unicode_len();
    if n == 3 {
        let a = t.get_char(0);
        let b = t.get_char(1);
        let c = t.get_char(2);
        let hit = (a == 'a' && b == 'u' && c == 'x') || (a == 'c' && b == 'o' && c == 'n') || (a
            == 'n' && b == 'u' && c == 'l') || (a == 'p' && b == 'r' && c == 'n');
        proof {
            if hit {
                assert(t@ =~= seq![t@[0], t@[1], t@[2]]);
            } else {
                assert(t@ != seq!['a', 'u', 'x'] && t@ != seq!['c', 'o', 'n'] && t@ != seq![
                    'n',
                    'u',
                    'l',
                ] && t@ != seq!['p', 'r', 'n']) by {
                    assert(t@ =~= seq![t@[0], t@[1], t@[2]]);
                }
            }
        }
        hit
    } else if n == 4 {
        let a = t.get_char(0);
        let b = t.get_char(1);
        let c = t.get_char(2);
        let d = t.get_char(3) as u32;
        ((a == 'c' && b == 'o' && c == 'm') || (a == 'l' && b == 'p' && c == 't')) && 48 <= d && d
            <= 57
    } else {
        false
    }
}

/// A character allowed inside a path component: no control characters, no
/// `$` or `:`, and no separator smuggled in as literal text.
pub open spec fn spec_char_allowed(c: char) -> bool {
    c as u32 > 31 && c != '$' && c != ':' && c != '\\'
}

/// One acceptable path component: nonempty, not `.` or `..`, every
/// character allowed, and its stem not a reserved device name.
pub open spec fn spec_segment_ok(seg: Seq<char>) -> bool {
    &&& seg.len() > 0
    &&& seg != seq!['.']
    &&& seg != seq!['.', '.']
    &&& forall|i: int| 0 <= i < seg.len() ==> spec_char_allowed(#[trigger] seg[i])
    &&& !spec_reserved(spec_lower(spec_stem(seg)))
}

fn segment_ok(seg: &str) -> (r: bool)
    ensures
        r == spec_segment_ok(seg@),
{
    let n = seg.unicode_len();
    if n == 0 {
        return false;
    }
    if n == 1 && seg.get_char(0) == '.' {
        assert(seg@ =~= seq!['.']);
        return false;
    }
    if n == 2 && seg.get_char(0) == '.' && seg.get_char(1) == '.' {
        assert(seg@ =~= seq!['.', '.']);
        return false;
    }
    assert(seg@ != seq!['.'] && seg@ != seq!['.', '.']);
    let mut i: usize = 0;
    while i < n
        invariant
            n == seg@.len(),
            i <= n,
            forall|j: int| 0 <= j < i ==> spec_char_allowed(#[trigger] seg@[j]),
        decreases n - i,
    {
        let c = seg.get_char(i);
        let u = c as u32;
        if u <= 31 || c == '$' || c == ':' || c == '\\' {
            return false;
        }
        i = i + 1;
    }
    let stem = stem_from(seg, 0);
    assert(seg@.skip(0) =~= seg@);
    let lowered = to_lower(stem.as_str());
    !is_reserved(lowered.as_str())
}

/// Whether every `/`-separated component of `path` is acceptable. The
/// empty name and absolute names (a leading `/`) are rejected; empty
/// components from collapsed or trailing separators are skipped, as path
/// normalization would; every remaining component must be acceptable.
/// A `.` component is rejected like `..` — deliberately stricter than
/// plain normalization, which would drop it.
pub open spec fn spec_path_ok(path: Seq<char>) -> bool {
    &&& path.len() > 0
    &&& path[0] != '/'
    &&& forall|k: int|
        0 <= k < spec_split(path, '/').len() ==> ((#[trigger] spec_split(path, '/')[k]).len() == 0
            || spec_segment_ok(spec_split(path, '/')[k]))
}

/// This is not an exhaustive check on being a _valid_ path, but is one on
/// being a _dangerous_ path.
pub fn check_path(path: &str) -> (r: bool)
    ensures
        r == spec_path_ok(path@),
{
    if path.unicode_len() == 0 {
        return false;
    }
    if path.get_char(0) == '/' {
        return false;
    }
    let segs = split_char_from(path, 0, '/');
    assert(path@.skip(0) =~= path@);
    let count = segs.len();
    let mut k: usize = 0;
    while k < count
        invariant
            count == segs@.len(),
            k <= count,
            strs(segs@) =~= spec_split(path@, '/'),
            forall|j: int|
                0 <= j < k ==> ((#[trigger] spec_split(path@, '/')[j]).len() == 0
                    || spec_segment_ok(spec_split(path@, '/')[j])),
        decreases count - k,
    {
        if segs[k].as_str().unicode_len() > 0 && !segment_ok(segs[k].as_str()) {
            assert(spec_split(path@, '/')[k as int].len() > 0 && !spec_segment_ok(
                spec_split(path@, '/')[k as int],
            ));
            return false;
        }
        k = k + 1;
    }
    true
}

} // verus!
