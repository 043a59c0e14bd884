//! Text helpers: Unicode white space, trimming, and the last segment of a
//! slash-separated path.
use vstd::prelude::*;
use vstd::string::StrSliceExecFns;

verus! {

/// Whether `c` has the Unicode `White_Space` property (what
/// `char::is_whitespace` tests).
pub open spec fn is_white_space(c: char) -> bool {
    let u = c as u32;
    ||| 0x09 <= u <= 0x0D
    ||| u == 0x20
    ||| u == 0x85
    ||| u == 0xA0
    ||| u == 0x1680
    ||| 0x2000 <= u <= 0x200A
    ||| u == 0x2028
    ||| u == 0x2029
    ||| u == 0x202F
    ||| u == 0x205F
    ||| u == 0x3000
}

/// `s` without its leading white space.
pub open spec fn trim_start_chars(s: Seq<char>) -> Seq<char>
    decreases s.len(),
{
    if s.len() > 0 && is_white_space(s[0]) {
        trim_start_chars(s.drop_first())
    } else {
        s
    }
}

/// `s` without its trailing white space.
pub open spec fn trim_end_chars(s: Seq<char>) -> Seq<char>
    decreases s.len(),
{
    if s.len() > 0 && is_white_space(s.last()) {
        trim_end_chars(s.drop_last())
    } else {
        s
    }
}

/// `s` without leading and trailing white space (what `str::trim` gives).
pub open spec fn trimmed(s: Seq<char>) -> Seq<char> {
    trim_end_chars(trim_start_chars(s))
}

/// The part of `s` after its last `'/'`, or all of `s` where it holds none
/// (what `s.split('/').last()` gives).
pub open spec fn last_segment(s: Seq<char>) -> Seq<char>
    decreases s.len(),
{
    if s.len() == 0 || s.last() == '/' {
        Seq::empty()
    } else {
        last_segment(s.drop_last()).push(s.last())
    }
}

proof fn lemma_trim_start_is_skip(s: Seq<char>, i: int)
    requires
        0 <= i <= s.len(),
        forall|k: int| 0 <= k < i ==> is_white_space(#[trigger] s[k]),
        i == s.len() || !is_white_space(s[i]),
    ensures
        trim_start_chars(s) == s.skip(i),
    decreases i,
{
    if i == 0 {
        assert(s.skip(0) =~= s);
    } else {
        assert(is_white_space(s[0]));
        let t = s.drop_first();
        assert forall|k: int| 0 <= k < i - 1 implies is_white_space(#[trigger] t[k]) by {
            assert(t[k] == s[k + 1]);
        }
        lemma_trim_start_is_skip(t, i - 1);
        assert(t.skip(i - 1) =~= s.skip(i));
    }
}

proof fn lemma_trim_end_is_take(s: Seq<char>, j: int)
    requires
        0 <= j <= s.len(),
        forall|k: int| j <= k < s.len() ==> is_white_space(#[trigger] s[k]),
        j == 0 || !is_white_space(s[j - 1]),
    ensures
        trim_end_chars(s) == s.take(j),
    decreases s.len() - j,
{
    if j == s.len() {
        assert(s.take(j) =~= s);
    } else {
        assert(is_white_space(s.last()));
        let t = s.drop_last();
        assert forall|k: int| j <= k < t.len() implies is_white_space(#[trigger] t[k]) by {
            assert(t[k] == s[k]);
        }
        lemma_trim_end_is_take(t, j);
        assert(t.take(j) =~= s.take(j));
    }
}

/// Where `s[k - 1]` is the last `'/'` of `s` (or `k` is 0 and `s` holds
/// none), the last segment of `s` is what follows position `k`.
pub proof fn lemma_last_segment_is_skip(s: Seq<char>, k: int)
    requires
        0 <= k <= s.len(),
        forall|m: int| k <= m < s.len() ==> #[trigger] s[m] != '/',
        k == 0 || s[k - 1] == '/',
    ensures
        last_segment(s) == s.skip(k),
    decreases s.len() - k,
{
    if k == s.len() {
        assert(s.skip(k) =~= Seq::<char>::empty());
    } else {
        let t = s.drop_last();
        assert forall|m: int| k <= m < t.len() implies #[trigger] t[m] != '/' by {
            assert(t[m] == s[m]);
        }
        lemma_last_segment_is_skip(t, k);
        assert(t.skip(k).push(s.last()) =~= s.skip(k));
    }
}

/// Whether `c` is white space, as `char::is_whitespace` decides it.
pub fn is_white_space_char(c: char) -> (res: bool)
    ensures
        res == is_white_space(c),
{
    let u: u32 = c as u32;
    (0x09 <= u && u <= 0x0D) || u == 0x20 || u == 0x85 || u == 0xA0 || u == 0x1680 || (0x2000
        <= u && u <= 0x200A) || u == 0x2028 || u == 0x2029 || u == 0x202F || u == 0x205F || u
        == 0x3000
}

/// `s` without its leading and trailing white space.
pub fn trim(s: &str) -> (res: &str)
    ensures
        res@ == trimmed(s@),
{
    let n = s.unicode_len();
    let mut i: usize = 0;
    while i < n
        invariant
            i <= n,
            n == s@.len(),
            forall|k: int| 0 <= k < i ==> is_white_space(#[trigger] s@[k]),
        ensures
            i <= n,
            forall|k: int| 0 <= k < i ==> is_white_space(#[trigger] s@[k]),
            i == n || !is_white_space(s@[i as int]),
        decreases n - i,
    {
        if !is_white_space_char(s.get_char(i)) {
            break;
        }
        i = i + 1;
    }
    let mut j: usize = n;
    while j > i
        invariant
            i <= j <= n,
            n == s@.len(),
            forall|k: int| j <= k < n ==> is_white_space(#[trigger] s@[k]),
        ensures
            i <= j <= n,
            forall|k: int| j <= k < n ==> is_white_space(#[trigger] s@[k]),
            j == i || !is_white_space(s@[j - 1]),
        decreases j,
    {
        if !is_white_space_char(s.get_char(j - 1)) {
            break;
        }
        j = j - 1;
    }
    proof {
        lemma_trim_start_is_skip(s@, i as int);
        let t = s@.skip(i as int);
        assert forall|k: int| j - i <= k < t.len() implies is_white_space(#[trigger] t[k]) by {
            assert(t[k] == s@[k + i]);
        }
        if j > i {
            assert(t[j - i - 1] == s@[j - 1]);
        }
        lemma_trim_end_is_take(t, j - i);
        assert(t.take(j - i) =~= s@.subrange(i as int, j as int));
    }
    s.substring_char(i, j)
}

/// The part of `path` after its last `'/'` (all of it where it has none).
pub fn last_segment_of(path: &str) -> (res: &str)
    ensures
        res@ == last_segment(path@),
{
    let n = path.unicode_len();
    let mut k: usize = n;
    while k > 0
        invariant
            k <= n,
            n == path@.len(),
            forall|m: int| k <= m < n ==> #[trigger] path@[m] != '/',
        ensures
            k <= n,
            forall|m: int| k <= m < n ==> #[trigger] path@[m] != '/',
            k == 0 || path@[k - 1] == '/',
        decreases k,
    {
        if path.get_char(k - 1) == '/' {
            break;
        }
        k = k - 1;
    }
    proof {
        lemma_last_segment_is_skip(path@, k as int);
        assert(path@.skip(k as int) =~= path@.subrange(k as int, n as int));
    }
    path.substring_char(k, n)
}

/// Whether `a` and `b` hold the same characters.
pub fn same_chars(a: &str, b: &str) -> (res: bool)
    ensures
        res == (a@ == b@),
{
    let n = a.unicode_len();
    if n != b.unicode_len() {
        return false;
    }
    let mut i: usize = 0;
    while i < n
        invariant
            i <= n,
            n == a@.len(),
            n == b@.len(),
            forall|k: int| 0 <= k < i ==> #[trigger] a@[k] == b@[k],
        decreases n - i,
    {
        if a.get_char(i) != b.get_char(i) {
            return false;
        }
        i = i + 1;
    }
    assert(a@ =~= b@);
    true
}

proof fn lemma_trim_start_shape(s: Seq<char>)
    ensures
        trim_start_chars(s).len() <= s.len(),
        trim_start_chars(s) == s.skip(s.len() - trim_start_chars(s).len()),
        forall|k: int|
            0 <= k < s.len() - trim_start_chars(s).len() ==> is_white_space(#[trigger] s[k]),
        trim_start_chars(s).len() == 0 || !is_white_space(trim_start_chars(s)[0]),
    decreases s.len(),
{
    if s.len() > 0 && is_white_space(s[0]) {
        let t = s.drop_first();
        lemma_trim_start_shape(t);
        let u = trim_start_chars(t);
        assert forall|k: int| 0 <= k < s.len() - u.len() implies is_white_space(#[trigger] s[k]) by {
            if k > 0 {
                assert(s[k] == t[k - 1]);
            }
        }
        assert(t.skip(t.len() - u.len()) =~= s.skip(s.len() - u.len()));
    } else {
        assert(s.skip(0) =~= s);
    }
}

proof fn lemma_trim_end_shape(s: Seq<char>)
    ensures
        trim_end_chars(s).len() <= s.len(),
        trim_end_chars(s) == s.take(trim_end_chars(s).len() as int),
        forall|k: int| trim_end_chars(s).len() <= k < s.len() ==> is_white_space(#[trigger] s[k]),
        trim_end_chars(s).len() == 0 || !is_white_space(trim_end_chars(s).last()),
    decreases s.len(),
{
    if s.len() > 0 && is_white_space(s.last()) {
        let t = s.drop_last();
        lemma_trim_end_shape(t);
        let u = trim_end_chars(t);
        assert forall|k: int| u.len() <= k < s.len() implies is_white_space(#[trigger] s[k]) by {
            if k < s.len() - 1 {
                assert(s[k] == t[k]);
            }
        }
        assert(t.take(u.len() as int) =~= s.take(u.len() as int));
    } else {
        assert(s.take(s.len() as int) =~= s);
    }
}

/// Trimming keeps a contiguous part of the text and removes only white
/// space around it; what it keeps neither starts nor ends with white space.
pub proof fn lemma_trimmed_shape(s: Seq<char>)
    ensures
        ({
            let t = trimmed(s);
            &&& t.len() == 0 || (!is_white_space(t[0]) && !is_white_space(t.last()))
            &&& exists|i: int|
                #![trigger s.subrange(i, i + t.len())]
                0 <= i && i + t.len() <= s.len() && t == s.subrange(i, i + t.len()) && (forall|
                    k: int,
                | 0 <= k < i ==> is_white_space(#[trigger] s[k])) && (forall|k: int|
                    i + t.len() <= k < s.len() ==> is_white_space(#[trigger] s[k]))
        }),
{
    lemma_trim_start_shape(s);
    let u = trim_start_chars(s);
    lemma_trim_end_shape(u);
    let t = trim_end_chars(u);
    let i = s.len() - u.len();
    assert forall|k: int| i + t.len() <= k < s.len() implies is_white_space(#[trigger] s[k]) by {
        assert(s[k] == u[k - i]);
    }
    if t.len() > 0 {
        assert(t[0] == u[0]);
    }
    // The witness of the existential: `t` starts at `i`.
    assert(0 <= i && i + t.len() <= s.len() && t == s.subrange(i, i + t.len()) && (forall|
        k: int,
    | 0 <= k < i ==> is_white_space(#[trigger] s[k])) && (forall|k: int|
        i + t.len() <= k < s.len() ==> is_white_space(#[trigger] s[k])));
}

/// Trimming a trimmed text changes nothing.
pub proof fn lemma_trim_idempotent(s: Seq<char>)
    ensures
        trimmed(trimmed(s)) == trimmed(s),
{
    lemma_trimmed_shape(s);
    let t = trimmed(s);
    assert(trim_start_chars(t) == t);
    assert(trim_end_chars(t) == t);
}

/// The last segment of a path holds no `'/'` and ends the path, right after
/// its last `'/'` where it has one.
pub proof fn lemma_last_segment_shape(s: Seq<char>)
    ensures
        ({
            let seg = last_segment(s);
            &&& seg.len() <= s.len()
            &&& seg == s.skip(s.len() - seg.len())
            &&& forall|k: int| 0 <= k < seg.len() ==> #[trigger] seg[k] != '/'
            &&& seg.len() == s.len() || s[s.len() - seg.len() - 1] == '/'
        }),
    decreases s.len(),
{
    if s.len() == 0 || s.last() == '/' {
        assert(s.skip(s.len() as int) =~= Seq::<char>::empty());
    } else {
        let t = s.drop_last();
        lemma_last_segment_shape(t);
        let seg = last_segment(t);
        assert(t.skip(t.len() - seg.len()).push(s.last()) =~= s.skip(s.len() - seg.len() - 1));
        assert forall|k: int| 0 <= k < seg.len() + 1 implies #[trigger] seg.push(s.last())[k]
            != '/' by {
            if k < seg.len() {
                assert(seg.push(s.last())[k] == seg[k]);
            }
        }
        if seg.len() < t.len() {
            assert(s[s.len() - seg.len() - 2] == t[t.len() - seg.len() - 1]);
        }
    }
}

} // verus!
