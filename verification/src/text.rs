use vstd::prelude::*;

verus! {

/// Unicode `White_Space` characters, the set that `char::is_whitespace` and `str::trim` use.
pub open spec fn is_white_space(c: char) -> bool {
    ||| ('\u{9}' <= c && c <= '\u{d}')
    ||| c == ' '
    ||| c == '\u{85}'
    ||| c == '\u{a0}'
    ||| c == '\u{1680}'
    ||| ('\u{2000}' <= c && c <= '\u{200a}')
    ||| c == '\u{2028}'
    ||| c == '\u{2029}'
    ||| c == '\u{202f}'
    ||| c == '\u{205f}'
    ||| c == '\u{3000}'
}

/// Whether `c` is a Unicode white-space character.
pub fn white_space(c: char) -> (b: bool)
    ensures
        b == is_white_space(c),
        b ==> (c as u32) <= 0x3000,
        b <==> (0x9 <= (c as u32) <= 0xd || (c as u32) == 0x20 || (c as u32) == 0x85
            || (c as u32) == 0xa0 || (c as u32) == 0x1680 || 0x2000 <= (c as u32) <= 0x200a
            || (c as u32) == 0x2028 || (c as u32) == 0x2029 || (c as u32) == 0x202f
            || (c as u32) == 0x205f || (c as u32) == 0x3000),
{
    proof {
        law_white_space_code_points(c);
    }
    ('\u{9}' <= c && c <= '\u{d}') || c == ' ' || c == '\u{85}' || c == '\u{a0}' || c == '\u{1680}'
        || ('\u{2000}' <= c && c <= '\u{200a}') || c == '\u{2028}' || c == '\u{2029}'
        || c == '\u{202f}' || c == '\u{205f}' || c == '\u{3000}'
}

/// The characters of `s`, in order.
pub fn chars_of(s: &str) -> (v: Vec<char>)
    ensures
        v@ == s@,
{
    let mut v: Vec<char> = Vec::new();
    for c in it: s.chars()
        invariant
            v@ == it.seq().take(it.index() as int),
            it.seq() == s@,
    {
        v.push(c);
    }
    v
}


/// `String::push`: appends one character at the end.
#[verifier::external_body]
fn push_char(s: &mut String, c: char)
    ensures
        final(s)@ == old(s)@.push(c),
{
    s.push(c);
}

/// The string made of the characters `v[from..to]`.
pub fn string_of_chars(v: &Vec<char>, from: usize, to: usize) -> (r: String)
    requires
        from <= to <= v@.len(),
    ensures
        r@ == v@.subrange(from as int, to as int),
{
    let mut r = String::new();
    let mut i = from;
    while i < to
        invariant
            from <= i <= to <= v@.len(),
            r@ == v@.subrange(from as int, i as int),
        decreases to - i,
    {
        push_char(&mut r, v[i]);
        assert(v@.subrange(from as int, i + 1) =~= v@.subrange(from as int, i as int).push(v@[i as int]));
        i = i + 1;
    }
    r
}

/// `s` without its leading white space.
pub open spec fn trim_start_seq(s: Seq<char>) -> Seq<char>
    decreases s.len(),
{
    if s.len() > 0 && is_white_space(s[0]) {
        trim_start_seq(s.drop_first())
    } else {
        s
    }
}

/// `s` without its trailing white space.
pub open spec fn trim_end_seq(s: Seq<char>) -> Seq<char>
    decreases s.len(),
{
    if s.len() > 0 && is_white_space(s.last()) {
        trim_end_seq(s.drop_last())
    } else {
        s
    }
}

/// `s` without leading and trailing white space, as `str::trim` gives it.
pub open spec fn trimmed(s: Seq<char>) -> Seq<char> {
    trim_end_seq(trim_start_seq(s))
}

/// Whether every character of `s` is white space.
pub open spec fn all_white_space(s: Seq<char>) -> bool {
    forall|k: int| 0 <= k < s.len() ==> is_white_space(#[trigger] s[k])
}

proof fn lemma_trim_start_skip(s: Seq<char>, i: int)
    requires
        0 <= i <= s.len(),
        forall|k: int| 0 <= k < i ==> is_white_space(#[trigger] s[k]),
        i == s.len() || !is_white_space(s[i]),
    ensures
        trim_start_seq(s) == s.skip(i),
    decreases i,
{
    if i == 0 {
        assert(s.skip(0) =~= s);
    } else {
        let t = s.drop_first();
        assert forall|k: int| 0 <= k < i - 1 implies is_white_space(#[trigger] t[k]) by {
            assert(t[k] == s[k + 1]);
        }
        if i - 1 < t.len() {
            assert(t[i - 1] == s[i]);
        }
        lemma_trim_start_skip(t, i - 1);
        assert(t.skip(i - 1) =~= s.skip(i));
    }
}

proof fn lemma_trim_end_take(s: Seq<char>, j: int)
    requires
        0 <= j <= s.len(),
        forall|k: int| j <= k < s.len() ==> is_white_space(#[trigger] s[k]),
        j == 0 || !is_white_space(s[j - 1]),
    ensures
        trim_end_seq(s) == s.take(j),
    decreases s.len() - j,
{
    if j == s.len() {
        assert(s.take(j) =~= s);
    } else {
        let t = s.drop_last();
        assert forall|k: int| j <= k < t.len() implies is_white_space(#[trigger] t[k]) by {
            assert(t[k] == s[k]);
        }
        if j > 0 {
            assert(t[j - 1] == s[j - 1]);
        }
        assert(is_white_space(s[s.len() - 1]));
        lemma_trim_end_take(t, j);
        assert(t.take(j) =~= s.take(j));
    }
}

/// Trimming twice gives what trimming once gives.
pub proof fn law_trim_idempotent(s: Seq<char>)
    ensures
        trimmed(trimmed(s)) == trimmed(s),
{
    let t = trimmed(s);
    lemma_trimmed_shape(s);
    if t.len() == 0 {
        assert(trim_start_seq(t) == t);
        assert(trim_end_seq(t) == t);
    } else {
        lemma_trim_start_skip(t, 0);
        assert(t.skip(0) =~= t);
        lemma_trim_end_take(t, t.len() as int);
        assert(t.take(t.len() as int) =~= t);
    }
}

proof fn trim_start_index(s: Seq<char>) -> (a: int)
    ensures
        0 <= a <= s.len(),
        trim_start_seq(s) == s.skip(a),
        forall|k: int| 0 <= k < a ==> is_white_space(#[trigger] s[k]),
        a == s.len() || !is_white_space(s[a]),
    decreases s.len(),
{
    if s.len() > 0 && is_white_space(s[0]) {
        let t = s.drop_first();
        let a0 = trim_start_index(t);
        assert(t.skip(a0) =~= s.skip(a0 + 1));
        assert forall|k: int| 0 <= k < a0 + 1 implies is_white_space(#[trigger] s[k]) by {
            if k > 0 {
                assert(s[k] == t[k - 1]);
            }
        }
        if a0 + 1 < s.len() {
            assert(s[a0 + 1] == t[a0]);
        }
        a0 + 1
    } else {
        assert(s.skip(0) =~= s);
        0
    }
}

proof fn trim_end_index(s: Seq<char>) -> (b: int)
    ensures
        0 <= b <= s.len(),
        trim_end_seq(s) == s.take(b),
        forall|k: int| b <= k < s.len() ==> is_white_space(#[trigger] s[k]),
        b == 0 || !is_white_space(s[b - 1]),
    decreases s.len(),
{
    if s.len() > 0 && is_white_space(s.last()) {
        let t = s.drop_last();
        let b0 = trim_end_index(t);
        assert(t.take(b0) =~= s.take(b0));
        assert forall|k: int| b0 <= k < s.len() implies is_white_space(#[trigger] s[k]) by {
            if k < t.len() {
                assert(s[k] == t[k]);
            }
        }
        if b0 > 0 {
            assert(s[b0 - 1] == t[b0 - 1]);
        }
        b0
    } else {
        assert(s.take(s.len() as int) =~= s);
        s.len() as int
    }
}

/// A trimmed sequence is a piece of the untrimmed one, and it neither starts nor ends with white space.
pub proof fn lemma_trimmed_shape(s: Seq<char>)
    ensures
        exists|a: int, b: int| 0 <= a <= b <= s.len() && trimmed(s) == #[trigger] s.subrange(a, b),
        trimmed(s).len() > 0 ==> !is_white_space(trimmed(s)[0]) && !is_white_space(
            trimmed(s).last(),
        ),
        trimmed(s).len() == 0 <==> all_white_space(s),
{
    let a = trim_start_index(s);
    let t = s.skip(a);
    let b = trim_end_index(t);
    assert(t.take(b) =~= s.subrange(a, a + b));
    if b == 0 {
        assert forall|k: int| 0 <= k < s.len() implies is_white_space(#[trigger] s[k]) by {
            if k >= a {
                assert(t[k - a] == s[k]);
            }
        }
    } else {
        assert(t[0] == s[a]);
        assert(trimmed(s)[0] == s[a]);
        assert(!all_white_space(s)) by {
            assert(!is_white_space(s[a]));
        }
    }
}

/// `str::trim`: the string without leading and trailing white space.
pub fn trim(s: &str) -> (r: String)
    ensures
        r@ == trimmed(s@),
{
    let v = chars_of(s);
    let n = v.len();
    let mut start: usize = 0;
    while start < n && white_space(v[start])
        invariant
            n == v@.len(),
            start <= n,
            forall|k: int| 0 <= k < start ==> is_white_space(#[trigger] v@[k]),
        decreases n - start,
    {
        start = start + 1;
    }
    let mut end: usize = n;
    while end > start && white_space(v[end - 1])
        invariant
            n == v@.len(),
            start <= end <= n,
            forall|k: int| end <= k < n ==> is_white_space(#[trigger] v@[k]),
        decreases end,
    {
        end = end - 1;
    }
    proof {
        lemma_trim_start_skip(v@, start as int);
        let t = v@.skip(start as int);
        assert forall|k: int| end - start <= k < t.len() implies is_white_space(#[trigger] t[k]) by {
            assert(t[k] == v@[k + start]);
        }
        if end > start {
            assert(t[end - start - 1] == v@[end - 1]);
        }
        lemma_trim_end_take(t, end - start);
        assert(t.take(end - start) =~= v@.subrange(start as int, end as int));
    }
    string_of_chars(&v, start, end)
}

/// Whether `s` holds nothing but white space: `s.trim().is_empty()`.
pub fn is_blank(s: &str) -> (b: bool)
    ensures
        b == (trimmed(s@).len() == 0),
        b == all_white_space(s@),
{
    proof {
        lemma_trimmed_shape(s@);
    }
    let t = trim(s);
    t.as_str().is_empty()
}


/// `s` with every non-overlapping occurrence of `pat`, found from left to right, replaced by `to`,
/// as `str::replace` does it for a non-empty pattern.
pub open spec fn replaced(s: Seq<char>, pat: Seq<char>, to: Seq<char>) -> Seq<char>
    decreases s.len(),
{
    if s.len() == 0 {
        s
    } else if 0 < pat.len() <= s.len() && s.take(pat.len() as int) == pat {
        to + replaced(s.skip(pat.len() as int), pat, to)
    } else {
        seq![s[0]] + replaced(s.skip(1), pat, to)
    }
}

/// Whether `pat` occurs in `v` at position `i`.
fn occurs_at(v: &Vec<char>, i: usize, pat: &Vec<char>) -> (b: bool)
    requires
        i <= v@.len(),
    ensures
        b == (i + pat@.len() <= v@.len() && v@.skip(i as int).take(pat@.len() as int) == pat@),
{
    if pat.len() > v.len() - i {
        return false;
    }
    let n = v.len();
    let mut k: usize = 0;
    while k < pat.len()
        invariant
            n == v@.len(),
            i + pat@.len() <= v@.len(),
            k <= pat@.len(),
            forall|j: int| 0 <= j < k ==> v@[i + j] == pat@[j],
        decreases pat@.len() - k,
    {
        if v[i + k] != pat[k] {
            assert(v@.skip(i as int).take(pat@.len() as int)[k as int] != pat@[k as int]);
            return false;
        }
        k = k + 1;
    }
    assert(v@.skip(i as int).take(pat@.len() as int) =~= pat@);
    true
}

/// `str::replace` for a non-empty pattern.
pub(crate) fn replace_all(s: &str, pat: &str, to: &str) -> (r: String)
    requires
        pat@.len() > 0,
    ensures
        r@ == replaced(s@, pat@, to@),
{
    let sv = chars_of(s);
    let pv = chars_of(pat);
    let tv = chars_of(to);
    let n = sv.len();
    let mut out: Vec<char> = Vec::new();
    let mut i: usize = 0;
    assert(sv@.skip(0) =~= sv@);
    while i < n
        invariant
            n == sv@.len(),
            i <= n,
            pv@ == pat@,
            pv@.len() > 0,
            tv@ == to@,
            replaced(sv@, pv@, tv@) == out@ + replaced(sv@.skip(i as int), pv@, tv@),
        decreases n - i,
    {
        let ghost rest = sv@.skip(i as int);
        if occurs_at(&sv, i, &pv) {
            let ghost before = out@;
            let mut k: usize = 0;
            while k < tv.len()
                invariant
                    k <= tv@.len(),
                    out@ == before + tv@.take(k as int),
                decreases tv@.len() - k,
            {
                out.push(tv[k]);
                assert(tv@.take(k + 1) =~= tv@.take(k as int).push(tv@[k as int]));
                k = k + 1;
            }
            assert(tv@.take(tv@.len() as int) =~= tv@);
            assert(rest.skip(pv@.len() as int) =~= sv@.skip(i + pv@.len()));
            assert(out@ + replaced(sv@.skip(i + pv@.len()), pv@, tv@) =~= before + (tv@
                + replaced(rest.skip(pv@.len() as int), pv@, tv@)));
            i = i + pv.len();
        } else {
            let ghost before = out@;
            out.push(sv[i]);
            assert(rest.skip(1) =~= sv@.skip(i + 1));
            assert(rest[0] == sv@[i as int]);
            assert(out@ + replaced(sv@.skip(i + 1), pv@, tv@) =~= before + (seq![rest[0]]
                + replaced(rest.skip(1), pv@, tv@)));
            i = i + 1;
        }
    }
    assert(sv@.skip(n as int).len() == 0);
    assert(out@ + replaced(sv@.skip(n as int), pv@, tv@) =~= out@);
    assert(sv@ == s@);
    string_of_chars(&out, 0, out.len())
}


/// Whether two strings hold the same characters.
pub fn same_text(a: &str, b: &str) -> (r: bool)
    ensures
        r == (a@ == b@),
{
    let av = chars_of(a);
    let bv = chars_of(b);
    if av.len() != bv.len() {
        return false;
    }
    let mut i: usize = 0;
    while i < av.len()
        invariant
            av@ == a@,
            bv@ == b@,
            av@.len() == bv@.len(),
            i <= av@.len(),
            forall|j: int| 0 <= j < i ==> av@[j] == bv@[j],
        decreases av@.len() - i,
    {
        if av[i] != bv[i] {
            assert(av@[i as int] != bv@[i as int]);
            return false;
        }
        i = i + 1;
    }
    assert(av@ =~= bv@);
    true
}


/// A character is white space exactly when its code point is one of the 25 code points of
/// Unicode's `White_Space` property (UCD PropList.txt), which `char::is_whitespace` tests:
/// U+0009 to U+000D, U+0020, U+0085, U+00A0, U+1680, U+2000 to U+200A, U+2028, U+2029,
/// U+202F, U+205F and U+3000; none lies above U+3000.
pub proof fn law_white_space_code_points(c: char)
    ensures
        is_white_space(c) <==> (0x9 <= (c as u32) <= 0xd || (c as u32) == 0x20 || (c as u32) == 0x85
            || (c as u32) == 0xa0 || (c as u32) == 0x1680 || 0x2000 <= (c as u32) <= 0x200a
            || (c as u32) == 0x2028 || (c as u32) == 0x2029 || (c as u32) == 0x202f
            || (c as u32) == 0x205f || (c as u32) == 0x3000),
        is_white_space(c) ==> (c as u32) <= 0x3000,
        (c as u32) > 0x3000 ==> !is_white_space(c),
{
}

/// Trimming removes white space only: what is cut off in front and behind is white space,
/// and what is kept is the piece of `s` between.
pub proof fn law_trim_removes_only_white_space(s: Seq<char>)
    ensures
        exists|a: int, b: int|
            #![trigger s.subrange(a, b)]
            0 <= a <= b <= s.len() && trimmed(s) == s.subrange(a, b) && (forall|k: int|
                0 <= k < a ==> is_white_space(#[trigger] s[k])) && (forall|k: int|
                b <= k < s.len() ==> is_white_space(#[trigger] s[k])),
{
    let a = trim_start_index(s);
    let t = s.skip(a);
    let b = trim_end_index(t);
    assert(t.take(b) =~= s.subrange(a, a + b));
    assert forall|k: int| a + b <= k < s.len() implies is_white_space(#[trigger] s[k]) by {
        assert(t[k - a] == s[k]);
    }
    assert(trimmed(s) == s.subrange(a, a + b));
}

} // verus!
