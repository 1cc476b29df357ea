//! Character-level string operations with exact specifications.
//!
//! Every function here is stated over the `Seq<char>` view of its strings.
use vstd::prelude::*;

verus! {

/// `sub` occurs in `s` starting at position `i`.
pub open spec fn occurs_at(s: Seq<char>, sub: Seq<char>, i: int) -> bool {
    0 <= i && i + sub.len() <= s.len() && s.subrange(i, i + sub.len()) == sub
}

/// `sub` occurs somewhere in `s` (the empty sequence occurs everywhere).
pub open spec fn contains_seq(s: Seq<char>, sub: Seq<char>) -> bool {
    exists|i: int| occurs_at(s, sub, i)
}

/// `p` is a prefix of `s`.
pub open spec fn starts_with_seq(s: Seq<char>, p: Seq<char>) -> bool {
    occurs_at(s, p, 0)
}

/// The parts joined with `sep` between consecutive parts.
pub open spec fn seq_join(parts: Seq<Seq<char>>, sep: Seq<char>) -> Seq<char>
    decreases parts.len(),
{
    if parts.len() == 0 {
        Seq::empty()
    } else if parts.len() == 1 {
        parts[0]
    } else {
        seq_join(parts.drop_last(), sep) + sep + parts.last()
    }
}

/// The views of a list of strings.
pub open spec fn views(v: Seq<String>) -> Seq<Seq<char>> {
    v.map_values(|s: String| s@)
}

/// Left-to-right, non-overlapping replacement of every occurrence of `pat`
/// by `rep` (for a non-empty `pat`).
pub open spec fn replace_seq(s: Seq<char>, pat: Seq<char>, rep: Seq<char>) -> Seq<char>
    decreases s.len(),
{
    if s.len() == 0 {
        Seq::empty()
    } else if pat.len() > 0 && occurs_at(s, pat, 0) {
        rep + replace_seq(s.skip(pat.len() as int), pat, rep)
    } else {
        seq![s[0]] + replace_seq(s.skip(1), pat, rep)
    }
}

/// Joining two path strings: an absolute `part` replaces the base, an empty
/// base gives `part`, otherwise a single `/` separates them.
pub open spec fn path_join_seq(base: Seq<char>, part: Seq<char>) -> Seq<char> {
    if part.len() > 0 && part[0] == '/' {
        part
    } else if base.len() == 0 {
        part
    } else if base.last() == '/' {
        base + part
    } else {
        base + seq!['/'] + part
    }
}

/// The characters of `s`, in order.
pub fn chars_of(s: &str) -> (r: Vec<char>)
    ensures
        r@ == s@,
{
    let n: usize = s.unicode_len();
    let mut r: Vec<char> = Vec::new();
    let mut i: usize = 0;
    while i < n
        invariant
            n == s@.len(),
            i <= n,
            r@ == s@.subrange(0, i as int),
        decreases n - i,
    {
        let c = s.get_char(i);
        r.push(c);
        i = i + 1;
        assert(r@ =~= s@.subrange(0, i as int));
    }
    assert(r@ =~= s@);
    r
}

/// Whether `sub` occurs in `s` at character position `i` (on character vectors).
pub fn occurs_at_vec(s: &Vec<char>, sub: &Vec<char>, i: usize) -> (r: bool)
    ensures
        r == occurs_at(s@, sub@, i as int),
{
    if i > s.len() || sub.len() > s.len() - i {
        return false;
    }
    let mut k: usize = 0;
    while k < sub.len()
        invariant
            i + sub.len() <= s.len(),
            k <= sub.len(),
            forall|j: int| 0 <= j < k ==> s@[i + j] == sub@[j],
        decreases sub.len() - k,
    {
        if s[i + k] != sub[k] {
            assert(s@.subrange(i as int, i + sub.len())[k as int] != sub@[k as int]);
            return false;
        }
        k = k + 1;
    }
    assert(s@.subrange(i as int, i + sub@.len()) =~= sub@);
    true
}

/// Equality of two strings.
pub fn str_eq(a: &str, b: &str) -> (r: bool)
    ensures
        r == (a@ == b@),
{
    let av = chars_of(a);
    let bv = chars_of(b);
    if av.len() != bv.len() {
        return false;
    }
    let r = occurs_at_vec(&av, &bv, 0);
    assert(av@.subrange(0, bv@.len() as int) =~= av@);
    r
}

/// Whether `s` starts with `p`.
pub fn str_starts_with(s: &str, p: &str) -> (r: bool)
    ensures
        r == starts_with_seq(s@, p@),
{
    let sv = chars_of(s);
    let pv = chars_of(p);
    occurs_at_vec(&sv, &pv, 0)
}

/// Whether `sub` occurs in `s`.
pub fn str_contains(s: &str, sub: &str) -> (r: bool)
    ensures
        r == contains_seq(s@, sub@),
{
    let sv = chars_of(s);
    let pv = chars_of(sub);
    if pv.len() > sv.len() {
        proof {
            assert forall|i: int| !occurs_at(s@, sub@, i) by {}
        }
        return false;
    }
    let limit: usize = sv.len() - pv.len();
    let mut i: usize = 0;
    while i < limit
        invariant
            sv@ == s@,
            pv@ == sub@,
            limit == sv.len() - pv.len(),
            i <= limit,
            forall|j: int| 0 <= j < i ==> !occurs_at(s@, sub@, j),
        decreases limit - i,
    {
        if occurs_at_vec(&sv, &pv, i) {
            return true;
        }
        i = i + 1;
    }
    if occurs_at_vec(&sv, &pv, limit) {
        return true;
    }
    proof {
        assert forall|j: int| !occurs_at(s@, sub@, j) by {
            if 0 <= j < i {
            }
        }
    }
    false
}

/// A fresh string holding the characters of `s`.
pub fn to_string(s: &str) -> (r: String)
    ensures
        r@ == s@,
{
    String::from_str(s)
}

/// `a` followed by `b`.
pub fn concat(a: &str, b: &str) -> (r: String)
    ensures
        r@ == a@ + b@,
{
    let mut r = String::from_str(a);
    r.append(b);
    r
}

/// The characters of `s` from position `from` (inclusive) to `to` (exclusive).
pub fn substring(s: &str, from: usize, to: usize) -> (r: String)
    requires
        from <= to <= s@.len(),
    ensures
        r@ == s@.subrange(from as int, to as int),
{
    String::from_str(s.substring_char(from, to))
}

/// Joins two path strings as `PathBuf::join` does on Unix.
pub fn path_join(base: &str, part: &str) -> (r: String)
    ensures
        r@ == path_join_seq(base@, part@),
{
    let pn: usize = part.unicode_len();
    let bn: usize = base.unicode_len();
    if pn > 0 && part.get_char(0) == '/' {
        to_string(part)
    } else if bn == 0 {
        to_string(part)
    } else if base.get_char(bn - 1) == '/' {
        concat(base, part)
    } else {
        let mut r = String::from_str(base);
        r.append("/");
        r.append(part);
        proof {
            reveal_strlit("/");
        }
        assert(r@ =~= base@ + seq!['/'] + part@);
        r
    }
}

/// Joins the strings of `parts` with `sep` between consecutive ones.
pub fn join(parts: &Vec<String>, sep: &str) -> (r: String)
    ensures
        r@ == seq_join(views(parts@), sep@),
{
    let mut r = String::new();
    let ghost vs = views(parts@);
    let mut i: usize = 0;
    while i < parts.len()
        invariant
            vs == views(parts@),
            vs.len() == parts@.len(),
            i <= parts.len(),
            r@ == seq_join(vs.take(i as int), sep@),
        decreases parts.len() - i,
    {
        assert(vs.take(i + 1).drop_last() =~= vs.take(i as int));
        assert(vs[i as int] == parts@[i as int]@);
        if i != 0 {
            r.append(sep);
        }
        r.append(parts[i].as_str());
        i = i + 1;
    }
    assert(vs.take(parts.len() as int) =~= vs);
    r
}

/// Replaces every non-overlapping occurrence of `pat` (scanned left to right)
/// by `rep`, as `str::replace` does.
pub fn replace_all(s: &str, pat: &str, rep: &str) -> (r: String)
    requires
        pat@.len() > 0,
    ensures
        r@ == replace_seq(s@, pat@, rep@),
{
    let sv = chars_of(s);
    let pv = chars_of(pat);
    let n: usize = sv.len();
    let mut out = String::new();
    let mut last: usize = 0;
    let mut i: usize = 0;
    assert(s@.skip(0) =~= s@);
    assert(s@.subrange(0, 0) =~= Seq::<char>::empty());
    assert(out@ + s@.subrange(0, 0) + replace_seq(s@.skip(0), pat@, rep@) =~= replace_seq(s@, pat@, rep@));
    while i < n
        invariant
            sv@ == s@,
            pv@ == pat@,
            n == s@.len(),
            pat@.len() > 0,
            last <= i <= n,
            out@ + s@.subrange(last as int, i as int) + replace_seq(s@.skip(i as int), pat@, rep@)
                == replace_seq(s@, pat@, rep@),
        decreases n - i,
    {
        let ghost rest = s@.skip(i as int);
        if occurs_at_vec(&sv, &pv, i) {
            assert(rest.subrange(0, pat@.len() as int) =~= s@.subrange(i as int, i + pat@.len()));
            assert(occurs_at(rest, pat@, 0));
            assert(rest.skip(pat@.len() as int) =~= s@.skip(i + pat@.len()));
            assert(replace_seq(rest, pat@, rep@) == rep@ + replace_seq(rest.skip(pat@.len() as int), pat@, rep@));
            let piece = s.substring_char(last, i);
            let ghost before = out@;
            let ghost mid = s@.subrange(last as int, i as int);
            out.append(piece);
            out.append(rep);
            assert(out@ =~= before + mid + rep@);
            i = i + pv.len();
            last = i;
            assert(s@.subrange(last as int, i as int) =~= Seq::<char>::empty());
            assert(out@ + s@.subrange(last as int, i as int) + replace_seq(s@.skip(i as int), pat@, rep@)
                =~= before + mid + (rep@ + replace_seq(rest.skip(pat@.len() as int), pat@, rep@)));
        } else {
            assert(!occurs_at(rest, pat@, 0)) by {
                if occurs_at(rest, pat@, 0) {
                    assert(rest.subrange(0, pat@.len() as int) =~= s@.subrange(i as int, i + pat@.len()));
                }
            }
            assert(rest.skip(1) =~= s@.skip(i + 1));
            assert(rest[0] == s@[i as int]);
            assert(s@.subrange(last as int, i + 1) =~= s@.subrange(last as int, i as int) + seq![s@[i as int]]);
            i = i + 1;
        }
    }
    assert(s@.skip(n as int) =~= Seq::<char>::empty());
    let tail = s.substring_char(last, n);
    out.append(tail);
    assert(out@ =~= replace_seq(s@, pat@, rep@));
    out
}

} // verus!

verus! {

/// A copy of a list of strings.
pub fn clone_strings(v: &Vec<String>) -> (r: Vec<String>)
    ensures
        views(r@) == views(v@),
{
    let mut r: Vec<String> = Vec::new();
    let mut i: usize = 0;
    while i < v.len()
        invariant
            i <= v.len(),
            r@.len() == i,
            forall|k: int| 0 <= k < i ==> #[trigger] r@[k]@ == v@[k]@,
        decreases v.len() - i,
    {
        r.push(v[i].clone());
        i = i + 1;
    }
    assert(views(r@) =~= views(v@));
    r
}

} // verus!

verus! {

/// The view of an optional string.
pub open spec fn opt_view(o: Option<String>) -> Option<Seq<char>> {
    match o {
        Some(s) => Some(s@),
        None => None,
    }
}

/// The position of the first `c` in `s`, or -1 when there is none.
pub open spec fn find_char(s: Seq<char>, c: char) -> int
    decreases s.len(),
{
    if s.len() == 0 {
        -1
    } else if s[0] == c {
        0
    } else {
        let r = find_char(s.skip(1), c);
        if r < 0 {
            -1
        } else {
            r + 1
        }
    }
}

/// `find_char` gives the first position of `c`, or -1 when `c` is absent.
pub proof fn lemma_find_char(s: Seq<char>, c: char)
    ensures
        -1 <= find_char(s, c) < s.len(),
        find_char(s, c) >= 0 ==> s[find_char(s, c)] == c,
        forall|j: int| 0 <= j < s.len() && (find_char(s, c) < 0 || j < find_char(s, c)) ==> s[j] != c,
    decreases s.len(),
{
    if s.len() > 0 && s[0] != c {
        lemma_find_char(s.skip(1), c);
        assert forall|j: int| 0 <= j < s.len() && (find_char(s, c) < 0 || j < find_char(s, c)) implies s[j] != c by {
            if j > 0 {
                assert(s[j] == s.skip(1)[j - 1]);
            }
        }
    }
}

/// The pieces of `s` between occurrences of `c` (as `str::split`).
pub open spec fn split_on(s: Seq<char>, c: char) -> Seq<Seq<char>>
    decreases s.len(),
{
    let i = find_char(s, c);
    if i < 0 {
        seq![s]
    } else {
        proof {
            lemma_find_char(s, c);
        }
        seq![s.take(i)] + split_on(s.skip(i + 1), c)
    }
}

/// Splitting at the first separator.
pub proof fn lemma_split_first(s: Seq<char>, c: char, i: int)
    requires
        0 <= i < s.len(),
        s[i] == c,
        forall|j: int| 0 <= j < i ==> s[j] != c,
    ensures
        split_on(s, c) == seq![s.take(i)] + split_on(s.skip(i + 1), c),
{
    lemma_find_char(s, c);
    let k = find_char(s, c);
    if k < 0 {
        assert(s[i] != c);
    } else if k < i {
    } else if k > i {
        assert(s[i] != c);
    }
}

/// Splitting a string without the separator gives the string itself.
pub proof fn lemma_split_none(s: Seq<char>, c: char)
    requires
        forall|j: int| 0 <= j < s.len() ==> s[j] != c,
    ensures
        split_on(s, c) == seq![s],
{
    lemma_find_char(s, c);
    if find_char(s, c) >= 0 {
        assert(s[find_char(s, c)] == c);
    }
}

/// Splits `s` at every `c` (as `str::split(c)`).
pub fn split_char(s: &str, c: char) -> (r: Vec<String>)
    ensures
        crate::utils::text::views(r@) == split_on(s@, c),
{
    let chars = crate::utils::text::chars_of(s);
    let n: usize = chars.len();
    let mut parts: Vec<String> = Vec::new();
    let mut start: usize = 0;
    let mut i: usize = 0;
    assert(s@.skip(0) =~= s@);
    assert(crate::utils::text::views(parts@) =~= Seq::<Seq<char>>::empty());
    assert(crate::utils::text::views(parts@) + split_on(s@.skip(0), c) =~= split_on(s@, c));
    while i < n
        invariant
            chars@ == s@,
            n == s@.len(),
            start <= i <= n,
            forall|j: int| start <= j < i ==> s@[j] != c,
            crate::utils::text::views(parts@) + split_on(s@.skip(start as int), c) == split_on(s@, c),
        decreases n - i,
    {
        if chars[i] == c {
            let ghost t = s@.skip(start as int);
            proof {
                lemma_split_first(t, c, i - start);
                assert(t.take(i - start) =~= s@.subrange(start as int, i as int));
                assert(t.skip(i - start + 1) =~= s@.skip(i + 1));
            }
            let ghost before = crate::utils::text::views(parts@);
            parts.push(crate::utils::text::substring(s, start, i));
            assert(crate::utils::text::views(parts@) =~= before + seq![s@.subrange(start as int, i as int)]);
            start = i + 1;
        }
        i = i + 1;
    }
    let ghost t = s@.skip(start as int);
    proof {
        assert forall|j: int| 0 <= j < t.len() implies t[j] != c by {
            assert(t[j] == s@[start + j]);
        }
        lemma_split_none(t, c);
    }
    assert(t =~= s@.subrange(start as int, n as int));
    let ghost before = crate::utils::text::views(parts@);
    parts.push(crate::utils::text::substring(s, start, n));
    assert(crate::utils::text::views(parts@) =~= before + seq![t]);
    parts
}

/// Splits `s` at every `.` (as `str::split('.')`).
pub fn split_dots(s: &str) -> (r: Vec<String>)
    ensures
        crate::utils::text::views(r@) == split_on(s@, '.'),
{
    split_char(s, '.')
}

/// Splitting always gives at least one piece.
pub proof fn lemma_split_nonempty(s: Seq<char>, c: char)
    ensures
        split_on(s, c).len() >= 1,
    decreases s.len(),
{
    lemma_find_char(s, c);
    if find_char(s, c) >= 0 {
        lemma_split_nonempty(s.skip(find_char(s, c) + 1), c);
    }
}



/// `c` is white space in the sense of the Unicode property `White_Space`
/// (as `char::is_whitespace`).
pub open spec fn is_white_space(c: char) -> bool {
    let u = c as u32;
    ||| 0x09 <= u <= 0x0D
    ||| u == 0x20
    ||| u == 0x85
    ||| u == 0xA0
    ||| u == 0x1680
    ||| 0x2000 <= u <= 0x200A
    ||| u == 0x2028
    ||| u == 0x2029
    ||| u == 0x202F
    ||| u == 0x205F
    ||| u == 0x3000
}

/// `s` without its leading white space.
pub open spec fn trim_start_seq(s: Seq<char>) -> Seq<char>
    decreases s.len(),
{
    if s.len() > 0 && is_white_space(s[0]) {
        trim_start_seq(s.skip(1))
    } else {
        s
    }
}

/// `s` without its trailing white space.
pub open spec fn trim_end_seq(s: Seq<char>) -> Seq<char>
    decreases s.len(),
{
    if s.len() > 0 && is_white_space(s.last()) {
        trim_end_seq(s.drop_last())
    } else {
        s
    }
}

/// `s` without leading and trailing white space (as `str::trim`).
pub open spec fn trim_seq(s: Seq<char>) -> Seq<char> {
    trim_end_seq(trim_start_seq(s))
}

/// Whether `c` is white space.
pub fn char_is_white_space(c: char) -> (r: bool)
    ensures
        r == is_white_space(c),
{
    let u = c as u32;
    (0x09 <= u && u <= 0x0D) || u == 0x20 || u == 0x85 || u == 0xA0 || u == 0x1680
        || (0x2000 <= u && u <= 0x200A) || u == 0x2028 || u == 0x2029 || u == 0x202F
        || u == 0x205F || u == 0x3000
}

/// `s` without leading and trailing white space.
pub fn trim(s: &str) -> (r: String)
    ensures
        r@ == trim_seq(s@),
{
    let chars = chars_of(s);
    let n: usize = chars.len();
    let mut i: usize = 0;
    assert(s@.skip(0) =~= s@);
    while i < n && char_is_white_space(chars[i])
        invariant
            chars@ == s@,
            n == s@.len(),
            i <= n,
            trim_start_seq(s@.skip(i as int)) == trim_start_seq(s@),
        decreases n - i,
    {
        assert(s@.skip(i as int).skip(1) =~= s@.skip(i + 1));
        i = i + 1;
    }
    assert(trim_start_seq(s@) == s@.skip(i as int)) by {
        if i == n {
            assert(s@.skip(i as int) =~= Seq::<char>::empty());
        }
    }
    let mut j: usize = n;
    assert(s@.subrange(i as int, n as int) =~= s@.skip(i as int));
    while j > i && char_is_white_space(chars[j - 1])
        invariant
            chars@ == s@,
            n == s@.len(),
            i <= j <= n,
            trim_end_seq(s@.subrange(i as int, j as int)) == trim_seq(s@),
        decreases j,
    {
        assert(s@.subrange(i as int, j as int).drop_last() =~= s@.subrange(i as int, j - 1));
        j = j - 1;
    }
    assert(trim_end_seq(s@.subrange(i as int, j as int)) == s@.subrange(i as int, j as int));
    substring(s, i, j)
}

/// Each string of `parts`, trimmed.
pub fn trim_all(parts: &Vec<String>) -> (r: Vec<String>)
    ensures
        views(r@) == views(parts@).map_values(|p: Seq<char>| trim_seq(p)),
{
    let mut r: Vec<String> = Vec::new();
    let mut k: usize = 0;
    while k < parts.len()
        invariant
            k <= parts.len(),
            views(r@) == views(parts@).take(k as int).map_values(|p: Seq<char>| trim_seq(p)),
        decreases parts.len() - k,
    {
        let ghost before = views(r@);
        r.push(trim(parts[k].as_str()));
        assert(views(r@) =~= before.push(trim_seq(parts@[k as int]@)));
        assert(views(parts@).take(k + 1) =~= views(parts@).take(k as int).push(parts@[k as int]@));
        k = k + 1;
    }
    assert(views(parts@).take(k as int) =~= views(parts@));
    r
}


/// `p` without a final carriage return.
pub open spec fn strip_cr(p: Seq<char>) -> Seq<char> {
    if p.len() > 0 && p.last() == '\r' {
        p.drop_last()
    } else {
        p
    }
}

/// The lines of `s` as `str::lines` gives them: the pieces between line
/// feeds, a carriage return before a line feed dropped, and no empty piece
/// after a final line feed.
pub open spec fn lines_seq(s: Seq<char>) -> Seq<Seq<char>> {
    let parts = split_on(s, '\n');
    let body = parts.take(parts.len() - 1).map_values(|p: Seq<char>| strip_cr(p));
    if parts.len() > 0 && parts.last().len() > 0 {
        body.push(parts.last())
    } else {
        body
    }
}

/// `p` without a final carriage return.
fn without_cr(p: &str) -> (r: String)
    ensures
        r@ == strip_cr(p@),
{
    let n: usize = p.unicode_len();
    if n > 0 && p.get_char(n - 1) == '\r' {
        substring(p, 0, n - 1)
    } else {
        to_string(p)
    }
}

/// The lines of `s`, as `str::lines` gives them.
pub fn lines(s: &str) -> (r: Vec<String>)
    ensures
        views(r@) == lines_seq(s@),
{
    let parts = split_char(s, '\n');
    proof {
        lemma_split_nonempty(s@, '\n');
    }
    let ghost pv = views(parts@);
    let n: usize = parts.len();
    let mut r: Vec<String> = Vec::new();
    let mut k: usize = 0;
    while k + 1 < n
        invariant
            pv == views(parts@),
            pv == split_on(s@, '\n'),
            n == parts@.len(),
            n >= 1,
            k + 1 <= n,
            views(r@) == pv.take(k as int).map_values(|p: Seq<char>| strip_cr(p)),
        decreases n - k,
    {
        let ghost before = views(r@);
        r.push(without_cr(parts[k].as_str()));
        assert(pv[k as int] == parts@[k as int]@);
        assert(views(r@) =~= before.push(strip_cr(pv[k as int])));
        assert(pv.take(k + 1).map_values(|p: Seq<char>| strip_cr(p))
            =~= pv.take(k as int).map_values(|p: Seq<char>| strip_cr(p)).push(strip_cr(pv[k as int])));
        k = k + 1;
    }
    assert(pv.last() == parts@[n - 1]@);
    if parts[n - 1].as_str().unicode_len() > 0 {
        let ghost before = views(r@);
        r.push(parts[n - 1].clone());
        assert(views(r@) =~= before.push(pv.last()));
    }
    r
}

/// The position of the first occurrence of `pat` in `s`, or -1 when there
/// is none.
pub open spec fn first_occurrence(s: Seq<char>, pat: Seq<char>) -> int
    decreases s.len(),
{
    if occurs_at(s, pat, 0) {
        0
    } else if s.len() == 0 {
        -1
    } else {
        let r = first_occurrence(s.skip(1), pat);
        if r < 0 {
            -1
        } else {
            r + 1
        }
    }
}

/// `first_occurrence` gives the first occurrence, or -1 when there is none.
pub proof fn lemma_first_occurrence(s: Seq<char>, pat: Seq<char>)
    ensures
        first_occurrence(s, pat) >= 0 ==> occurs_at(s, pat, first_occurrence(s, pat)),
        forall|j: int| 0 <= j && (first_occurrence(s, pat) < 0 || j < first_occurrence(s, pat)) ==> !occurs_at(s, pat, j),
    decreases s.len(),
{
    if !occurs_at(s, pat, 0) && s.len() > 0 {
        let t = s.skip(1);
        lemma_first_occurrence(t, pat);
        assert forall|j: int| 1 <= j implies occurs_at(s, pat, j) == occurs_at(t, pat, j - 1) by {
            if j + pat.len() <= s.len() {
                assert(s.subrange(j, j + pat.len()) =~= t.subrange(j - 1, j - 1 + pat.len()));
            }
        }
        let r = first_occurrence(t, pat);
        if r >= 0 {
            assert(occurs_at(s, pat, r + 1) == occurs_at(t, pat, r));
        }
        assert forall|j: int| 0 <= j && (first_occurrence(s, pat) < 0 || j < first_occurrence(s, pat)) implies !occurs_at(s, pat, j) by {
            if j >= 1 {
                assert(occurs_at(s, pat, j) == occurs_at(t, pat, j - 1));
            }
        }
    }
}

/// The pieces of `s` between non-overlapping occurrences of `pat`, found
/// from left to right (as `str::split` with a non-empty pattern).
pub open spec fn split_str_seq(s: Seq<char>, pat: Seq<char>) -> Seq<Seq<char>>
    decreases s.len(),
{
    if pat.len() == 0 || first_occurrence(s, pat) < 0 {
        seq![s]
    } else {
        proof {
            lemma_first_occurrence(s, pat);
        }
        seq![s.take(first_occurrence(s, pat))] + split_str_seq(s.skip(first_occurrence(s, pat) + pat.len()), pat)
    }
}

/// Splitting at the first occurrence.
pub proof fn lemma_split_str_first(t: Seq<char>, pat: Seq<char>, k: int)
    requires
        pat.len() > 0,
        occurs_at(t, pat, k),
        forall|j: int| 0 <= j < k ==> !occurs_at(t, pat, j),
    ensures
        split_str_seq(t, pat) == seq![t.take(k)] + split_str_seq(t.skip(k + pat.len()), pat),
{
    lemma_first_occurrence(t, pat);
    let r = first_occurrence(t, pat);
    if r < 0 {
        assert(!occurs_at(t, pat, k));
    } else if r > k {
        assert(!occurs_at(t, pat, k));
    } else if r < k {
        assert(!occurs_at(t, pat, r));
    }
}

/// Splits `s` at every occurrence of the non-empty `pat`.
pub fn split_str(s: &str, pat: &str) -> (r: Vec<String>)
    requires
        pat@.len() > 0,
    ensures
        views(r@) == split_str_seq(s@, pat@),
{
    let sv = chars_of(s);
    let pv = chars_of(pat);
    let n: usize = sv.len();
    let m: usize = pv.len();
    let mut parts: Vec<String> = Vec::new();
    let mut start: usize = 0;
    let mut i: usize = 0;
    assert(s@.skip(0) =~= s@);
    assert(views(parts@) + split_str_seq(s@.skip(0), pat@) =~= split_str_seq(s@, pat@));
    while m <= n && i <= n - m
        invariant
            i <= n,
            sv@ == s@,
            pv@ == pat@,
            n == s@.len(),
            m == pat@.len(),
            m > 0,
            start <= i,
            start <= n,
            forall|j: int| start <= j < i ==> !occurs_at(s@, pat@, j),
            views(parts@) + split_str_seq(s@.skip(start as int), pat@) == split_str_seq(s@, pat@),
        decreases n + 1 - i,
    {
        if occurs_at_vec(&sv, &pv, i) {
            let ghost t = s@.skip(start as int);
            proof {
                assert forall|j: int| 0 <= j < i - start implies !occurs_at(t, pat@, j) by {
                    assert(!occurs_at(s@, pat@, start + j));
                    if j + m <= t.len() {
                        assert(t.subrange(j, j + m) =~= s@.subrange(start + j, start + j + m));
                    }
                }
                assert(t.subrange(i - start, i - start + m) =~= s@.subrange(i as int, i + m));
                lemma_split_str_first(t, pat@, i - start);
                assert(t.take(i - start) =~= s@.subrange(start as int, i as int));
                assert(t.skip(i - start + m) =~= s@.skip(i + m));
            }
            let ghost before = views(parts@);
            parts.push(substring(s, start, i));
            assert(views(parts@) =~= before + seq![s@.subrange(start as int, i as int)]);
            start = i + m;
            i = i + m;
        } else {
            i = i + 1;
        }
    }
    let ghost t = s@.skip(start as int);
    proof {
        lemma_first_occurrence(t, pat@);
        if first_occurrence(t, pat@) >= 0 {
            let j = first_occurrence(t, pat@);
            assert(t.subrange(j, j + m) =~= s@.subrange(start + j, start + j + m));
            assert(occurs_at(s@, pat@, start + j));
        }
    }
    assert(t =~= s@.subrange(start as int, n as int));
    let ghost before = views(parts@);
    parts.push(substring(s, start, n));
    assert(views(parts@) =~= before + seq![t]);
    parts
}

/// `s` without the leading repetitions of `p` (as
/// `str::trim_start_matches` with a text pattern).
pub open spec fn trim_start_matches_seq(s: Seq<char>, p: Seq<char>) -> Seq<char>
    decreases s.len(),
{
    if p.len() > 0 && starts_with_seq(s, p) {
        trim_start_matches_seq(s.skip(p.len() as int), p)
    } else {
        s
    }
}

/// `s` without the leading repetitions of `p`.
pub fn trim_start_matches(s: &str, p: &str) -> (r: String)
    ensures
        r@ == trim_start_matches_seq(s@, p@),
{
    let sv = chars_of(s);
    let pv = chars_of(p);
    let n: usize = sv.len();
    let m: usize = pv.len();
    if m == 0 {
        return to_string(s);
    }
    let mut i: usize = 0;
    assert(s@.skip(0) =~= s@);
    while m <= n && i <= n - m && occurs_at_vec(&sv, &pv, i)
        invariant
            sv@ == s@,
            pv@ == p@,
            n == s@.len(),
            m == p@.len(),
            m > 0,
            i <= n,
            trim_start_matches_seq(s@.skip(i as int), p@) == trim_start_matches_seq(s@, p@),
        decreases n - i,
    {
        assert(s@.skip(i as int).subrange(0, m as int) =~= s@.subrange(i as int, i + m));
        assert(s@.skip(i as int).skip(m as int) =~= s@.skip(i + m));
        i = i + m;
    }
    proof {
        let t = s@.skip(i as int);
        if m <= t.len() {
            assert(t.subrange(0, m as int) =~= s@.subrange(i as int, i + m));
        }
    }
    assert(s@.skip(i as int) =~= s@.subrange(i as int, n as int));
    substring(s, i, n)
}


/// Replacing a pattern that does not occur changes nothing.
pub proof fn lemma_replace_absent(s: Seq<char>, pat: Seq<char>, rep: Seq<char>)
    requires
        !contains_seq(s, pat),
    ensures
        replace_seq(s, pat, rep) == s,
    decreases s.len(),
{
    if s.len() > 0 {
        assert(!occurs_at(s, pat, 0));
        let t = s.skip(1);
        assert(!contains_seq(t, pat)) by {
            if contains_seq(t, pat) {
                let i = choose|i: int| occurs_at(t, pat, i);
                assert(s.subrange(i + 1, i + 1 + pat.len()) =~= t.subrange(i, i + pat.len()));
                assert(occurs_at(s, pat, i + 1));
            }
        }
        lemma_replace_absent(t, pat, rep);
        assert(seq![s[0]] + t =~= s);
    }
}

} // verus!
