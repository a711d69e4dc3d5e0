//! Text primitives over the character view of strings.
//!
//! Every operation here is stated over `Seq<char>`: searching, splitting,
//! joining, trimming and replacing behave as the corresponding `str` methods.
use vstd::prelude::*;
use vstd::string::*;

verus! {

/// The views of a sequence of strings.
pub open spec fn views(v: Seq<String>) -> Seq<Seq<char>> {
    v.map_values(|x: String| x@)
}

/// `pat` occurs in `s` starting at position `i`.
pub open spec fn occurs_at(s: Seq<char>, i: int, pat: Seq<char>) -> bool {
    0 <= i && i + pat.len() <= s.len() && s.subrange(i, i + pat.len()) == pat
}

/// The first position at or after `k` where `pat` occurs.
pub open spec fn find_from(s: Seq<char>, pat: Seq<char>, k: int) -> Option<int>
    decreases s.len() + 1 - k,
{
    if k < 0 || k + pat.len() > s.len() {
        None
    } else if occurs_at(s, k, pat) {
        Some(k)
    } else {
        find_from(s, pat, k + 1)
    }
}

pub open spec fn opt_views(o: Option<Vec<String>>) -> Option<Seq<Seq<char>>> {
    match o {
        Some(v) => Some(views(v@)),
        None => None,
    }
}

/// The first position where `pat` occurs.
pub open spec fn spec_find(s: Seq<char>, pat: Seq<char>) -> Option<int> {
    find_from(s, pat, 0)
}

/// The last position below `n` where `pat` occurs.
pub open spec fn rfind_below(s: Seq<char>, pat: Seq<char>, n: nat) -> Option<int>
    decreases n,
{
    if n == 0 {
        None
    } else if occurs_at(s, n - 1, pat) {
        Some(n - 1)
    } else {
        rfind_below(s, pat, (n - 1) as nat)
    }
}

/// The last position where `pat` occurs.
pub open spec fn spec_rfind(s: Seq<char>, pat: Seq<char>) -> Option<int> {
    rfind_below(s, pat, s.len() + 1)
}

pub open spec fn spec_contains(s: Seq<char>, pat: Seq<char>) -> bool {
    spec_find(s, pat) is Some
}

pub open spec fn spec_starts_with(s: Seq<char>, p: Seq<char>) -> bool {
    p.len() <= s.len() && s.subrange(0, p.len() as int) == p
}

pub open spec fn spec_ends_with(s: Seq<char>, p: Seq<char>) -> bool {
    p.len() <= s.len() && s.subrange(s.len() - p.len(), s.len() as int) == p
}

/// `str::split_once`: the text before and after the first occurrence of `sep`.
pub open spec fn spec_split_once(s: Seq<char>, sep: Seq<char>) -> Option<(Seq<char>, Seq<char>)> {
    match spec_find(s, sep) {
        Some(i) => Some((s.subrange(0, i), s.subrange(i + sep.len(), s.len() as int))),
        None => None,
    }
}

/// `str::rsplit_once`: the text before and after the last occurrence of `sep`.
pub open spec fn spec_rsplit_once(s: Seq<char>, sep: Seq<char>) -> Option<(Seq<char>, Seq<char>)> {
    match spec_rfind(s, sep) {
        Some(i) => Some((s.subrange(0, i), s.subrange(i + sep.len(), s.len() as int))),
        None => None,
    }
}

/// `str::splitn(n, sep)`: at most `n` pieces, the last one holding the rest.
pub open spec fn spec_splitn(s: Seq<char>, sep: Seq<char>, n: nat) -> Seq<Seq<char>>
    decreases s.len(),
    via splitn_decreases
{
    if n <= 1 || sep.len() == 0 {
        seq![s]
    } else {
        match spec_find(s, sep) {
            Some(i) => seq![s.subrange(0, i)] + spec_splitn(
                s.subrange(i + sep.len(), s.len() as int),
                sep,
                (n - 1) as nat,
            ),
            None => seq![s],
        }
    }
}

#[via_fn]
proof fn splitn_decreases(s: Seq<char>, sep: Seq<char>, n: nat) {
    lemma_find_from(s, sep, 0);
}

/// `str::split(sep)`: the pieces between the occurrences of `sep`.
pub open spec fn spec_split(s: Seq<char>, sep: Seq<char>) -> Seq<Seq<char>>
    decreases s.len(),
    via split_decreases
{
    if sep.len() == 0 {
        seq![s]
    } else {
        match spec_find(s, sep) {
            Some(i) => seq![s.subrange(0, i)] + spec_split(
                s.subrange(i + sep.len(), s.len() as int),
                sep,
            ),
            None => seq![s],
        }
    }
}

#[via_fn]
proof fn split_decreases(s: Seq<char>, sep: Seq<char>) {
    lemma_find_from(s, sep, 0);
}

/// The pieces joined, with `sep` between neighbours.
pub open spec fn spec_join(parts: Seq<Seq<char>>, sep: Seq<char>) -> Seq<char>
    decreases parts.len(),
{
    if parts.len() == 0 {
        Seq::empty()
    } else if parts.len() == 1 {
        parts[0]
    } else {
        spec_join(parts.drop_last(), sep) + sep + parts.last()
    }
}

/// `str::replace`: every occurrence of `from` replaced by `to`.
pub open spec fn spec_replace(s: Seq<char>, from: Seq<char>, to: Seq<char>) -> Seq<char> {
    spec_join(spec_split(s, from), to)
}

/// `str::replacen`: the first `n` occurrences of `from` replaced by `to`.
pub open spec fn spec_replacen(s: Seq<char>, from: Seq<char>, to: Seq<char>, n: nat) -> Seq<char> {
    spec_join(spec_splitn(s, from, n + 1), to)
}

/// `char::is_whitespace`: the characters with Unicode's `White_Space` property.
pub open spec fn is_ws(c: char) -> bool {
    ('\u{9}' <= c && c <= '\u{d}') || c == ' ' || c == '\u{85}' || c == '\u{a0}' || c
        == '\u{1680}' || ('\u{2000}' <= c && c <= '\u{200a}') || c == '\u{2028}' || c
        == '\u{2029}' || c == '\u{202f}' || c == '\u{205f}' || c == '\u{3000}'
}

pub open spec fn spec_trim_start(s: Seq<char>) -> Seq<char>
    decreases s.len(),
{
    if s.len() > 0 && is_ws(s[0]) {
        spec_trim_start(s.drop_first())
    } else {
        s
    }
}

pub open spec fn spec_trim_end(s: Seq<char>) -> Seq<char>
    decreases s.len(),
{
    if s.len() > 0 && is_ws(s.last()) {
        spec_trim_end(s.drop_last())
    } else {
        s
    }
}

/// `str::trim`: leading and trailing white space removed.
pub open spec fn spec_trim(s: Seq<char>) -> Seq<char> {
    spec_trim_end(spec_trim_start(s))
}

/// What `str::to_lowercase` returns for a text.
pub uninterp spec fn lower_of(s: Seq<char>) -> Seq<char>;

/// Relies on `str::to_lowercase`: the lower-case mapping of each character,
/// which depends on the characters alone.
#[verifier::external_body]
pub(crate) fn lowercase(s: &str) -> (r: String)
    ensures
        r@ == lower_of(s@),
{
    s.to_lowercase()
}

/// A character that a text does not hold is not found in it.
pub proof fn lemma_find_absent(s: Seq<char>, c: char)
    requires
        forall|j: int| 0 <= j < s.len() ==> s[j] != c,
    ensures
        spec_find(s, seq![c]) is None,
{
    lemma_find_from(s, seq![c], 0);
    if let Some(i) = spec_find(s, seq![c]) {
        assert(s.subrange(i, i + 1)[0] == s[i]);
    }
}

/// A character is found right after a prefix that does not hold it.
pub proof fn lemma_find_after(a: Seq<char>, c: char, b: Seq<char>)
    requires
        forall|j: int| 0 <= j < a.len() ==> a[j] != c,
    ensures
        spec_find(a + seq![c] + b, seq![c]) == Some(a.len() as int),
{
    let s = a + seq![c] + b;
    lemma_find_from(s, seq![c], 0);
    assert(s.subrange(a.len() as int, a.len() + 1 as int) =~= seq![c]);
    assert(occurs_at(s, a.len() as int, seq![c]));
    if let Some(i) = spec_find(s, seq![c]) {
        if i < a.len() {
            assert(s.subrange(i, i + 1)[0] == s[i]);
            assert(s[i] == a[i]);
        }
    }
}

pub proof fn lemma_splitn_len(s: Seq<char>, sep: Seq<char>, n: nat)
    ensures
        1 <= spec_splitn(s, sep, n).len(),
        n >= 1 ==> spec_splitn(s, sep, n).len() <= n,
    decreases s.len(),
{
    if n > 1 && sep.len() > 0 {
        lemma_find_from(s, sep, 0);
        if let Some(i) = spec_find(s, sep) {
            lemma_splitn_len(s.subrange(i + sep.len(), s.len() as int), sep, (n - 1) as nat);
        }
    }
}

pub proof fn lemma_split_len(s: Seq<char>, sep: Seq<char>)
    ensures
        1 <= spec_split(s, sep).len(),
{
}

pub proof fn lemma_find_from(s: Seq<char>, pat: Seq<char>, k: int)
    requires
        0 <= k,
    ensures
        match find_from(s, pat, k) {
            Some(i) => k <= i && occurs_at(s, i, pat) && (forall|j: int|
                k <= j < i ==> !occurs_at(s, j, pat)),
            None => forall|j: int| k <= j ==> !occurs_at(s, j, pat),
        },
    decreases s.len() + 1 - k,
{
    if k + pat.len() > s.len() {
    } else if occurs_at(s, k, pat) {
    } else {
        lemma_find_from(s, pat, k + 1);
    }
}

pub open spec fn as_int(o: Option<usize>) -> Option<int> {
    match o {
        Some(i) => Some(i as int),
        None => None,
    }
}

pub proof fn lemma_find_shift(s: Seq<char>, pat: Seq<char>, a: int, k: int)
    requires
        0 <= a <= s.len(),
        0 <= k,
    ensures
        find_from(s, pat, a + k) == match find_from(s.subrange(a, s.len() as int), pat, k) {
            Some(i) => Some(i + a),
            None => None,
        },
    decreases s.len() + 1 - (a + k),
{
    let t = s.subrange(a, s.len() as int);
    if a + k + pat.len() <= s.len() {
        assert(s.subrange(a + k, a + k + pat.len()) =~= t.subrange(k, k + pat.len()));
        if !occurs_at(s, a + k, pat) {
            lemma_find_shift(s, pat, a, k + 1);
        }
    }
}

/// The characters of a text, one by one.
pub fn chars_of(s: &str) -> (r: Vec<char>)
    ensures
        r@ == s@,
{
    let n = s.unicode_len();
    let mut r: Vec<char> = Vec::new();
    let mut i: usize = 0;
    while i < n
        invariant
            n == s@.len(),
            i <= n,
            r@ == s@.subrange(0, i as int),
        decreases n - i,
    {
        r.push(s.get_char(i));
        i += 1;
    }
    assert(r@ =~= s@);
    r
}

/// The characters from `a` up to `b`, as a new string.
pub fn substr(s: &str, a: usize, b: usize) -> (r: String)
    requires
        a <= b <= s@.len(),
    ensures
        r@ == s@.subrange(a as int, b as int),
{
    s.substring_char(a, b).to_owned()
}

pub fn eq_str(a: &str, b: &str) -> (r: bool)
    ensures
        r == (a@ == b@),
{
    let x = chars_of(a);
    let y = chars_of(b);
    if x.len() != y.len() {
        return false;
    }
    let mut i: usize = 0;
    while i < x.len()
        invariant
            x@ == a@,
            y@ == b@,
            x.len() == y.len(),
            i <= x.len(),
            forall|j: int| 0 <= j < i ==> x@[j] == y@[j],
        decreases x.len() - i,
    {
        if x[i] != y[i] {
            return false;
        }
        i += 1;
    }
    assert(x@ =~= y@);
    true
}

fn occurs_at_exec(s: &Vec<char>, i: usize, pat: &Vec<char>) -> (r: bool)
    requires
        i <= s.len(),
    ensures
        r == occurs_at(s@, i as int, pat@),
{
    if pat.len() > s.len() - i {
        return false;
    }
    let mut j: usize = 0;
    while j < pat.len()
        invariant
            i + pat.len() <= s.len(),
            j <= pat.len(),
            forall|t: int| 0 <= t < j ==> s@[i + t] == pat@[t],
        decreases pat.len() - j,
    {
        if s[i + j] != pat[j] {
            assert(s@.subrange(i as int, i + pat.len())[j as int] != pat@[j as int]);
            return false;
        }
        j += 1;
    }
    assert(s@.subrange(i as int, i + pat.len()) =~= pat@);
    true
}

/// The first position at or after `from` where `pat` occurs.
pub fn find_in(s: &Vec<char>, pat: &Vec<char>, from: usize) -> (r: Option<usize>)
    requires
        from <= s.len(),
    ensures
        as_int(r) == find_from(s@, pat@, from as int),
{
    if pat.len() > s.len() {
        return None;
    }
    if pat.len() == 0 {
        assert(s@.subrange(from as int, from as int) =~= pat@);
        return Some(from);
    }
    let last = s.len() - pat.len();
    if from > last {
        return None;
    }
    let mut k = from;
    while k <= last
        invariant
            from <= k,
            last == s.len() - pat.len(),
            pat.len() > 0,
            k <= last + 1,
            find_from(s@, pat@, from as int) == find_from(s@, pat@, k as int),
        decreases last + 1 - k,
    {
        if occurs_at_exec(s, k, pat) {
            return Some(k);
        }
        k += 1;
    }
    None
}

/// The last position where `pat` occurs.
pub fn rfind_in(s: &Vec<char>, pat: &Vec<char>) -> (r: Option<usize>)
    ensures
        as_int(r) == spec_rfind(s@, pat@),
{
    if pat.len() == 0 {
        assert(occurs_at(s@, s.len() as int, pat@)) by {
            assert(s@.subrange(s.len() as int, s.len() as int) =~= pat@);
        }
        return Some(s.len());
    }
    assert(!occurs_at(s@, s.len() as int, pat@));
    let mut n = s.len();
    while n > 0
        invariant
            n <= s.len(),
            pat.len() > 0,
            spec_rfind(s@, pat@) == rfind_below(s@, pat@, n as nat),
        decreases n,
    {
        if occurs_at_exec(s, n - 1, pat) {
            return Some(n - 1);
        }
        n -= 1;
    }
    None
}

pub fn find(s: &str, pat: &str) -> (r: Option<usize>)
    ensures
        as_int(r) == spec_find(s@, pat@),
{
    let cs = chars_of(s);
    let ps = chars_of(pat);
    find_in(&cs, &ps, 0)
}

pub fn contains(s: &str, pat: &str) -> (r: bool)
    ensures
        r == spec_contains(s@, pat@),
{
    find(s, pat).is_some()
}

pub fn starts_with(s: &str, p: &str) -> (r: bool)
    ensures
        r == spec_starts_with(s@, p@),
{
    let cs = chars_of(s);
    let ps = chars_of(p);
    if ps.len() > cs.len() {
        return false;
    }
    let r = occurs_at_exec(&cs, 0, &ps);
    r
}

pub fn ends_with(s: &str, p: &str) -> (r: bool)
    ensures
        r == spec_ends_with(s@, p@),
{
    let cs = chars_of(s);
    let ps = chars_of(p);
    if ps.len() > cs.len() {
        return false;
    }
    occurs_at_exec(&cs, cs.len() - ps.len(), &ps)
}

/// `str::strip_prefix`.
pub fn strip_prefix(s: &str, p: &str) -> (r: Option<String>)
    ensures
        match r {
            Some(t) => spec_starts_with(s@, p@) && t@ == s@.subrange(p@.len() as int, s@.len() as int),
            None => !spec_starts_with(s@, p@),
        },
{
    if starts_with(s, p) {
        let n = s.unicode_len();
        let k = p.unicode_len();
        Some(substr(s, k, n))
    } else {
        None
    }
}

/// `str::strip_suffix`.
pub fn strip_suffix(s: &str, p: &str) -> (r: Option<String>)
    ensures
        match r {
            Some(t) => spec_ends_with(s@, p@) && t@ == s@.subrange(0, s@.len() - p@.len()),
            None => !spec_ends_with(s@, p@),
        },
{
    if ends_with(s, p) {
        let n = s.unicode_len();
        let k = p.unicode_len();
        Some(substr(s, 0, n - k))
    } else {
        None
    }
}

/// `str::split_once`.
pub fn split_once(s: &str, sep: &str) -> (r: Option<(String, String)>)
    ensures
        match r {
            Some((a, b)) => spec_split_once(s@, sep@) == Some((a@, b@)),
            None => spec_split_once(s@, sep@) is None,
        },
{
    let cs = chars_of(s);
    let ps = chars_of(sep);
    let n = cs.len();
    match find_in(&cs, &ps, 0) {
        Some(i) => {
            proof {
                lemma_find_from(s@, sep@, 0);
                assert(find_from(s@, sep@, 0) == Some(i as int));
                assert(i + sep@.len() <= s@.len());
                assert(i + ps@.len() <= cs@.len());
            }
            let after = i + ps.len();
            Some((substr(s, 0, i), substr(s, after, n)))
        },
        None => None,
    }
}

pub proof fn lemma_rfind_below(s: Seq<char>, pat: Seq<char>, n: nat)
    ensures
        match rfind_below(s, pat, n) {
            Some(i) => i < n && occurs_at(s, i, pat),
            None => forall|j: int| 0 <= j < n ==> !occurs_at(s, j, pat),
        },
    decreases n,
{
    if n > 0 && !occurs_at(s, n - 1, pat) {
        lemma_rfind_below(s, pat, (n - 1) as nat);
    }
}

/// `str::rsplit_once`.
pub fn rsplit_once(s: &str, sep: &str) -> (r: Option<(String, String)>)
    ensures
        match r {
            Some((a, b)) => spec_rsplit_once(s@, sep@) == Some((a@, b@)),
            None => spec_rsplit_once(s@, sep@) is None,
        },
{
    let cs = chars_of(s);
    let ps = chars_of(sep);
    let n = cs.len();
    match rfind_in(&cs, &ps) {
        Some(i) => {
            proof {
                lemma_rfind_below(s@, sep@, s@.len() + 1);
                assert(spec_rfind(s@, sep@) == Some(i as int));
                assert(i + sep@.len() <= s@.len());
                assert(i + ps@.len() <= cs@.len());
            }
            let after = i + ps.len();
            Some((substr(s, 0, i), substr(s, after, n)))
        },
        None => None,
    }
}

proof fn lemma_views_push(v: Seq<String>, x: String)
    ensures
        views(v.push(x)) == views(v).push(x@),
{
    assert(views(v.push(x)) =~= views(v).push(x@));
}

/// `str::split`, for a non-empty separator.
pub fn split(s: &str, sep: &str) -> (r: Vec<String>)
    requires
        sep@.len() > 0,
    ensures
        views(r@) == spec_split(s@, sep@),
{
    let cs = chars_of(s);
    let ps = chars_of(sep);
    let n = cs.len();
    let mut pieces: Vec<String> = Vec::new();
    let mut start: usize = 0;
    assert(s@.subrange(0, n as int) =~= s@);
    loop
        invariant
            start <= n,
            n == cs.len(),
            cs@ == s@,
            ps@ == sep@,
            ps.len() > 0,
            views(pieces@) + spec_split(s@.subrange(start as int, n as int), sep@) == spec_split(
                s@,
                sep@,
            ),
        decreases n - start,
    {
        let ghost rest = s@.subrange(start as int, n as int);
        proof {
            lemma_find_shift(s@, sep@, start as int, 0);
            lemma_find_from(s@, sep@, start as int);
        }
        match find_in(&cs, &ps, start) {
            Some(i) => {
                let piece = substr(s, start, i);
                proof {
                    assert(rest.subrange(0, i - start) =~= piece@);
                    assert(rest.subrange(i - start + sep@.len(), rest.len() as int) =~= s@.subrange(
                        i + sep@.len(),
                        n as int,
                    ));
                    lemma_views_push(pieces@, piece);
                    assert(views(pieces@) + spec_split(rest, sep@) =~= views(pieces@).push(piece@)
                        + spec_split(s@.subrange(i + sep@.len(), n as int), sep@));
                }
                pieces.push(piece);
                start = i + ps.len();
            },
            None => {
                let piece = substr(s, start, n);
                proof {
                    lemma_views_push(pieces@, piece);
                    assert(views(pieces@) + spec_split(rest, sep@) =~= views(pieces@).push(piece@));
                }
                pieces.push(piece);
                return pieces;
            },
        }
    }
}

/// `str::splitn`, for a non-empty separator.
pub fn splitn(s: &str, sep: &str, count: usize) -> (r: Vec<String>)
    requires
        sep@.len() > 0,
    ensures
        views(r@) == spec_splitn(s@, sep@, count as nat),
{
    let cs = chars_of(s);
    let ps = chars_of(sep);
    let n = cs.len();
    let mut pieces: Vec<String> = Vec::new();
    let mut start: usize = 0;
    let mut m = count;
    assert(s@.subrange(0, n as int) =~= s@);
    loop
        invariant
            start <= n,
            n == cs.len(),
            cs@ == s@,
            ps@ == sep@,
            ps.len() > 0,
            views(pieces@) + spec_splitn(s@.subrange(start as int, n as int), sep@, m as nat)
                == spec_splitn(s@, sep@, count as nat),
        decreases n - start,
    {
        let ghost rest = s@.subrange(start as int, n as int);
        if m <= 1 {
            let piece = substr(s, start, n);
            proof {
                lemma_views_push(pieces@, piece);
                assert(views(pieces@) + spec_splitn(rest, sep@, m as nat) =~= views(pieces@).push(
                    piece@,
                ));
            }
            pieces.push(piece);
            return pieces;
        }
        proof {
            lemma_find_shift(s@, sep@, start as int, 0);
            lemma_find_from(s@, sep@, start as int);
        }
        match find_in(&cs, &ps, start) {
            Some(i) => {
                let piece = substr(s, start, i);
                proof {
                    assert(rest.subrange(0, i - start) =~= piece@);
                    assert(rest.subrange(i - start + sep@.len(), rest.len() as int) =~= s@.subrange(
                        i + sep@.len(),
                        n as int,
                    ));
                    lemma_views_push(pieces@, piece);
                    assert(views(pieces@) + spec_splitn(rest, sep@, m as nat) =~= views(
                        pieces@,
                    ).push(piece@) + spec_splitn(
                        s@.subrange(i + sep@.len(), n as int),
                        sep@,
                        (m - 1) as nat,
                    ));
                }
                pieces.push(piece);
                start = i + ps.len();
                m = m - 1;
            },
            None => {
                let piece = substr(s, start, n);
                proof {
                    lemma_views_push(pieces@, piece);
                    assert(views(pieces@) + spec_splitn(rest, sep@, m as nat) =~= views(
                        pieces@,
                    ).push(piece@));
                }
                pieces.push(piece);
                return pieces;
            },
        }
    }
}

/// The pieces joined, with `sep` between neighbours.
pub fn join(parts: &Vec<String>, sep: &str) -> (r: String)
    ensures
        r@ == spec_join(views(parts@), sep@),
{
    if parts.len() == 0 {
        return String::new();
    }
    let mut acc = parts[0].clone();
    let mut i: usize = 1;
    proof {
        assert(views(parts@).take(1) =~= seq![parts@[0]@]);
    }
    while i < parts.len()
        invariant
            1 <= i <= parts.len(),
            acc@ == spec_join(views(parts@).take(i as int), sep@),
        decreases parts.len() - i,
    {
        proof {
            assert(views(parts@).take(i + 1).drop_last() =~= views(parts@).take(i as int));
        }
        acc.append(sep);
        acc.append(parts[i].as_str());
        i += 1;
    }
    proof {
        assert(views(parts@).take(i as int) =~= views(parts@));
    }
    acc
}

/// `str::replace`, for a non-empty pattern.
pub fn replace(s: &str, from: &str, to: &str) -> (r: String)
    requires
        from@.len() > 0,
    ensures
        r@ == spec_replace(s@, from@, to@),
{
    let pieces = split(s, from);
    join(&pieces, to)
}

/// `str::replacen`, for a non-empty pattern.
pub fn replacen(s: &str, from: &str, to: &str, count: usize) -> (r: String)
    requires
        from@.len() > 0,
        count < usize::MAX,
    ensures
        r@ == spec_replacen(s@, from@, to@, count as nat),
{
    let pieces = splitn(s, from, count + 1);
    join(&pieces, to)
}

pub fn is_ws_exec(c: char) -> (r: bool)
    ensures
        r == is_ws(c),
{
    ('\u{9}' <= c && c <= '\u{d}') || c == ' ' || c == '\u{85}' || c == '\u{a0}' || c
        == '\u{1680}' || ('\u{2000}' <= c && c <= '\u{200a}') || c == '\u{2028}' || c
        == '\u{2029}' || c == '\u{202f}' || c == '\u{205f}' || c == '\u{3000}'
}

/// `str::trim`.
pub fn trim(s: &str) -> (r: String)
    ensures
        r@ == spec_trim(s@),
{
    let cs = chars_of(s);
    let n = cs.len();
    let mut a: usize = 0;
    assert(s@.subrange(0, n as int) =~= s@);
    while a < n && is_ws_exec(cs[a])
        invariant
            a <= n,
            n == cs.len(),
            cs@ == s@,
            spec_trim_start(s@) == spec_trim_start(s@.subrange(a as int, n as int)),
        decreases n - a,
    {
        proof {
            assert(s@.subrange(a as int, n as int).drop_first() =~= s@.subrange(a + 1, n as int));
        }
        a += 1;
    }
    let mut b: usize = n;
    while b > a && is_ws_exec(cs[b - 1])
        invariant
            a <= b <= n,
            n == cs.len(),
            cs@ == s@,
            spec_trim_start(s@) == s@.subrange(a as int, n as int),
            spec_trim(s@) == spec_trim_end(s@.subrange(a as int, b as int)),
        decreases b - a,
    {
        proof {
            assert(s@.subrange(a as int, b as int).drop_last() =~= s@.subrange(a as int, b - 1));
        }
        b -= 1;
    }
    substr(s, a, b)
}

} // verus!
