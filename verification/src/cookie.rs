use vstd::prelude::*;
use vstd::string::StrSliceExecFns;

verus! {

/// The blanks stripped around a cookie pair: the spaces and tabs that
/// separate `k1=v1; k2=v2` pairs in a `Cookie` header.
pub open spec fn is_cookie_space(c: char) -> bool {
    c == ' ' || c == '\t'
}

/// `s` without its leading blanks.
pub open spec fn trim_start(s: Seq<char>) -> Seq<char>
    decreases s.len(),
{
    if s.len() > 0 && is_cookie_space(s.first()) {
        trim_start(s.drop_first())
    } else {
        s
    }
}

/// `s` without its trailing blanks.
pub open spec fn trim_end(s: Seq<char>) -> Seq<char>
    decreases s.len(),
{
    if s.len() > 0 && is_cookie_space(s.last()) {
        trim_end(s.drop_last())
    } else {
        s
    }
}

/// `s` without its leading and trailing blanks.
pub open spec fn trimmed(s: Seq<char>) -> Seq<char> {
    trim_end(trim_start(s))
}

/// The position of the first `;` in `s`, or `s.len()` if there is none.
pub open spec fn first_semi(s: Seq<char>) -> int
    decreases s.len(),
{
    if s.len() == 0 {
        0
    } else if s.first() == ';' {
        0
    } else {
        1 + first_semi(s.drop_first())
    }
}

/// Splits one `key=value` pair at its first `=`: the key is everything
/// before it, the value everything after it — which may itself contain `=`.
/// A pair without `=` is no pair at all.
pub open spec fn key_value(p: Seq<char>) -> Option<(Seq<char>, Seq<char>)>
    decreases p.len(),
{
    if p.len() == 0 {
        None
    } else if p.first() == '=' {
        Some((Seq::<char>::empty(), p.drop_first()))
    } else {
        match key_value(p.drop_first()) {
            None => None,
            Some(kv) => Some((seq![p.first()] + kv.0, kv.1)),
        }
    }
}

/// What one `;`-delimited piece of the header contributes for `name`: its
/// value, if the piece — once stripped of surrounding blanks — is a
/// `key=value` pair whose key is exactly `name`.
pub open spec fn entry_value(piece: Seq<char>, name: Seq<char>) -> Option<Seq<char>> {
    match key_value(trimmed(piece)) {
        Some(kv) => if kv.0 == name {
            Some(kv.1)
        } else {
            None
        },
        None => None,
    }
}

/// The value bound to `name` in a `Cookie` header: the pieces between `;`
/// are read as `key=value` pairs, and where several carry the same key the
/// last one wins.
pub open spec fn cookie_lookup(s: Seq<char>, name: Seq<char>) -> Option<Seq<char>>
    decreases s.len(),
    via cookie_lookup_decreases
{
    let k = first_semi(s);
    let piece = s.subrange(0, k);
    if k == s.len() {
        entry_value(piece, name)
    } else {
        let rest = s.subrange(k + 1, s.len() as int);
        match cookie_lookup(rest, name) {
            Some(v) => Some(v),
            None => entry_value(piece, name),
        }
    }
}

#[via_fn]
proof fn cookie_lookup_decreases(s: Seq<char>, name: Seq<char>) {
    lemma_first_semi_bounds(s);
}

/// Where the first `;` stands: within bounds, on a `;`, and past none.
pub proof fn lemma_first_semi_bounds(s: Seq<char>)
    ensures
        0 <= first_semi(s) <= s.len(),
        first_semi(s) < s.len() ==> s[first_semi(s)] == ';',
        forall|j: int| 0 <= j < first_semi(s) ==> s[j] != ';',
    decreases s.len(),
{
    if s.len() == 0 {
    } else if s.first() == ';' {
    } else {
        lemma_first_semi_bounds(s.drop_first());
        assert forall|j: int| 0 <= j < first_semi(s) implies s[j] != ';' by {
            if j > 0 {
                assert(s.drop_first()[j - 1] == s[j]);
            }
        }
    }
}

/// An index with the first-`;` properties is the first `;`.
pub proof fn lemma_first_semi_is(s: Seq<char>, k: int)
    requires
        0 <= k <= s.len(),
        forall|j: int| 0 <= j < k ==> s[j] != ';',
        k < s.len() ==> s[k] == ';',
    ensures
        first_semi(s) == k,
    decreases s.len(),
{
    if s.len() == 0 {
    } else if s.first() == ';' {
        assert(k == 0);
    } else {
        assert(k >= 1) by {
            assert(s[0] != ';');
        }
        assert forall|j: int| 0 <= j < k - 1 implies s.drop_first()[j] != ';' by {
            assert(s.drop_first()[j] == s[j + 1]);
        }
        assert(k - 1 < s.drop_first().len() ==> s.drop_first()[k - 1] == ';');
        lemma_first_semi_is(s.drop_first(), k - 1);
    }
}

/// Dropping `a` leading blanks, down to a non-blank, is what `trim_start`
/// does.
pub proof fn lemma_trim_start_is(s: Seq<char>, a: int)
    requires
        0 <= a <= s.len(),
        forall|j: int| 0 <= j < a ==> is_cookie_space(s[j]),
        a < s.len() ==> !is_cookie_space(s[a]),
    ensures
        trim_start(s) == s.subrange(a, s.len() as int),
    decreases s.len(),
{
    if a == 0 {
        assert(s.subrange(0, s.len() as int) =~= s);
    } else {
        assert(is_cookie_space(s.first()));
        assert forall|j: int| 0 <= j < a - 1 implies is_cookie_space(s.drop_first()[j]) by {
            assert(s.drop_first()[j] == s[j + 1]);
        }
        assert(a - 1 < s.drop_first().len() ==> !is_cookie_space(s.drop_first()[a - 1]));
        lemma_trim_start_is(s.drop_first(), a - 1);
        assert(s.drop_first().subrange(a - 1, s.drop_first().len() as int) =~= s.subrange(
            a,
            s.len() as int,
        ));
    }
}

/// Dropping the trailing blanks after position `b` is what `trim_end` does.
pub proof fn lemma_trim_end_is(s: Seq<char>, b: int)
    requires
        0 <= b <= s.len(),
        forall|j: int| b <= j < s.len() ==> is_cookie_space(s[j]),
        b > 0 ==> !is_cookie_space(s[b - 1]),
    ensures
        trim_end(s) == s.subrange(0, b),
    decreases s.len(),
{
    if b == s.len() {
        if s.len() > 0 && is_cookie_space(s.last()) {
            assert(false);
        }
        assert(s.subrange(0, b) =~= s);
    } else {
        assert(is_cookie_space(s.last()));
        assert forall|j: int| b <= j < s.drop_last().len() implies is_cookie_space(
            s.drop_last()[j],
        ) by {
            assert(s.drop_last()[j] == s[j]);
        }
        lemma_trim_end_is(s.drop_last(), b);
        assert(s.drop_last().subrange(0, b) =~= s.subrange(0, b));
    }
}

/// A pair whose first `=` stands at `e` splits into the key before it and
/// the value after it.
pub proof fn lemma_key_value_at(p: Seq<char>, e: int)
    requires
        0 <= e < p.len(),
        p[e] == '=',
        forall|j: int| 0 <= j < e ==> p[j] != '=',
    ensures
        key_value(p) == Some((p.subrange(0, e), p.subrange(e + 1, p.len() as int))),
    decreases p.len(),
{
    if e == 0 {
        assert(p.first() == '=');
        assert(p.drop_first() =~= p.subrange(1, p.len() as int));
        assert(Seq::<char>::empty() =~= p.subrange(0, 0));
    } else {
        assert(p[0] != '=');
        assert forall|j: int| 0 <= j < e - 1 implies p.drop_first()[j] != '=' by {
            assert(p.drop_first()[j] == p[j + 1]);
        }
        assert(p.drop_first()[e - 1] == p[e]);
        lemma_key_value_at(p.drop_first(), e - 1);
        assert(seq![p.first()] + p.drop_first().subrange(0, e - 1) =~= p.subrange(0, e));
        assert(p.drop_first().subrange(e, p.drop_first().len() as int) =~= p.subrange(
            e + 1,
            p.len() as int,
        ));
    }
}

/// A pair without `=` yields nothing.
pub proof fn lemma_key_value_none(p: Seq<char>)
    requires
        forall|j: int| 0 <= j < p.len() ==> p[j] != '=',
    ensures
        key_value(p) is None,
    decreases p.len(),
{
    if p.len() > 0 {
        assert(p.first() != '=');
        assert forall|j: int| 0 <= j < p.drop_first().len() implies p.drop_first()[j] != '=' by {
            assert(p.drop_first()[j] == p[j + 1]);
        }
        lemma_key_value_none(p.drop_first());
    }
}

/// The first option, or the second where the first is empty.
spec fn or_else(a: Option<Seq<char>>, b: Option<Seq<char>>) -> Option<Seq<char>> {
    match a {
        Some(v) => Some(v),
        None => b,
    }
}

/// The view of an optional owned string.
spec fn view_opt(o: Option<String>) -> Option<Seq<char>> {
    match o {
        Some(v) => Some(v@),
        None => None,
    }
}

/// The position of the first `;` at or after `from`, or `n` if there is none.
fn find_semi(s: &str, from: usize, n: usize) -> (j: usize)
    requires
        from <= n,
        n == s@.len(),
    ensures
        from <= j <= n,
        forall|idx: int| from <= idx < j ==> s@[idx] != ';',
        j < n ==> s@[j as int] == ';',
{
    let mut j = from;
    while j < n
        invariant
            from <= j <= n,
            n == s@.len(),
            forall|idx: int| from <= idx < j ==> s@[idx] != ';',
        decreases n - j,
    {
        if s.get_char(j) == ';' {
            return j;
        }
        j += 1;
    }
    j
}

/// The position of the first `=` in `[from, to)`, or `to` if there is none.
fn find_eq(s: &str, from: usize, to: usize) -> (e: usize)
    requires
        from <= to <= s@.len(),
    ensures
        from <= e <= to,
        forall|idx: int| from <= idx < e ==> s@[idx] != '=',
        e < to ==> s@[e as int] == '=',
{
    let mut e = from;
    while e < to
        invariant
            from <= e <= to,
            to <= s@.len(),
            forall|idx: int| from <= idx < e ==> s@[idx] != '=',
        decreases to - e,
    {
        if s.get_char(e) == '=' {
            return e;
        }
        e += 1;
    }
    e
}

/// The position of the first non-blank in `[from, to)`, or `to`.
fn scan_blanks_forward(s: &str, from: usize, to: usize) -> (a: usize)
    requires
        from <= to <= s@.len(),
    ensures
        from <= a <= to,
        forall|idx: int| from <= idx < a ==> is_cookie_space(s@[idx]),
        a < to ==> !is_cookie_space(s@[a as int]),
{
    let mut a = from;
    while a < to
        invariant
            from <= a <= to,
            to <= s@.len(),
            forall|idx: int| from <= idx < a ==> is_cookie_space(s@[idx]),
        decreases to - a,
    {
        let c = s.get_char(a);
        if c != ' ' && c != '\t' {
            return a;
        }
        a += 1;
    }
    a
}

/// The position just past the last non-blank in `[from, to)`, or `from`.
fn scan_blanks_backward(s: &str, from: usize, to: usize) -> (b: usize)
    requires
        from <= to <= s@.len(),
    ensures
        from <= b <= to,
        forall|idx: int| b <= idx < to ==> is_cookie_space(s@[idx]),
        b > from ==> !is_cookie_space(s@[b - 1]),
{
    let mut b = to;
    while b > from
        invariant
            from <= b <= to,
            to <= s@.len(),
            forall|idx: int| b <= idx < to ==> is_cookie_space(s@[idx]),
        decreases b,
    {
        let c = s.get_char(b - 1);
        if c != ' ' && c != '\t' {
            return b;
        }
        b -= 1;
    }
    b
}

/// Whether the characters of `s` in `[from, to)` are exactly `other`.
fn str_range_equals(s: &str, from: usize, to: usize, other: &str) -> (r: bool)
    requires
        from <= to <= s@.len(),
    ensures
        r == (s@.subrange(from as int, to as int) == other@),
{
    let m = other.unicode_len();
    if to - from != m {
        proof {
            assert(s@.subrange(from as int, to as int).len() == to - from);
        }
        return false;
    }
    let mut k: usize = 0;
    while k < m
        invariant
            from <= to <= s@.len(),
            m == other@.len(),
            to - from == m,
            k <= m,
            forall|i: int| 0 <= i < k ==> s@[from + i] == other@[i],
        decreases m - k,
    {
        if s.get_char(from + k) != other.get_char(k) {
            proof {
                assert(s@.subrange(from as int, to as int)[k as int] == s@[from + k]);
            }
            return false;
        }
        k += 1;
    }
    proof {
        assert(s@.subrange(from as int, to as int) =~= other@);
    }
    true
}

/// What one piece of the header, `[pos, j)` of `s`, contributes for `name`.
fn piece_entry(s: &str, pos: usize, j: usize, name: &str) -> (r: Option<String>)
    requires
        pos <= j <= s@.len(),
    ensures
        view_opt(r) == entry_value(s@.subrange(pos as int, j as int), name@),
{
    let ghost piece = s@.subrange(pos as int, j as int);
    let a = scan_blanks_forward(s, pos, j);
    let b = scan_blanks_backward(s, a, j);
    proof {
        assert forall|idx: int| 0 <= idx < a - pos implies is_cookie_space(piece[idx]) by {
            assert(piece[idx] == s@[pos + idx]);
        }
        lemma_trim_start_is(piece, a - pos);
        let q = piece.subrange(a - pos, piece.len() as int);
        assert(q =~= s@.subrange(a as int, j as int));
        assert forall|idx: int| b - a <= idx < q.len() implies is_cookie_space(q[idx]) by {
            assert(q[idx] == s@[a + idx]);
        }
        lemma_trim_end_is(q, b - a);
        assert(trimmed(piece) =~= s@.subrange(a as int, b as int));
    }
    let ghost t = trimmed(piece);
    let e = find_eq(s, a, b);
    if e == b {
        proof {
            assert forall|idx: int| 0 <= idx < t.len() implies t[idx] != '=' by {
                assert(t[idx] == s@[a + idx]);
            }
            lemma_key_value_none(t);
        }
        None
    } else {
        proof {
            assert forall|idx: int| 0 <= idx < e - a implies t[idx] != '=' by {
                assert(t[idx] == s@[a + idx]);
            }
            assert(t[e - a] == s@[e as int]);
            lemma_key_value_at(t, e - a);
            assert(t.subrange(0, e - a) =~= s@.subrange(a as int, e as int));
            assert(t.subrange(e - a + 1, t.len() as int) =~= s@.subrange(e + 1, b as int));
        }
        if str_range_equals(s, a, e, name) {
            let v = s.substring_char(e + 1, b).to_owned();
            Some(v)
        } else {
            None
        }
    }
}

/// Reads a `Cookie` header — `k1=v1; k2=v2; ...` — and returns the value
/// bound to `name`, the last one where several pieces carry the same key,
/// or nothing where no piece does. Any text is accepted; a malformed piece
/// simply binds nothing.
pub fn cookie_value(header: &str, name: &str) -> (r: Option<String>)
    ensures
        match r {
            Some(v) => cookie_lookup(header@, name@) == Some(v@),
            None => cookie_lookup(header@, name@) is None,
        },
{
    let n = header.unicode_len();
    let mut pos: usize = 0;
    let mut best: Option<String> = None;
    proof {
        assert(header@.subrange(0, n as int) =~= header@);
    }
    loop
        invariant
            n == header@.len(),
            pos <= n,
            cookie_lookup(header@, name@) == or_else(
                cookie_lookup(header@.subrange(pos as int, n as int), name@),
                view_opt(best),
            ),
        decreases n - pos,
    {
        let ghost suffix = header@.subrange(pos as int, n as int);
        let j = find_semi(header, pos, n);
        proof {
            assert forall|idx: int| 0 <= idx < j - pos implies suffix[idx] != ';' by {
                assert(suffix[idx] == header@[pos + idx]);
            }
            if j < n {
                assert(suffix[j - pos] == header@[j as int]);
            }
            lemma_first_semi_is(suffix, j - pos);
            assert(suffix.subrange(0, j - pos) =~= header@.subrange(pos as int, j as int));
        }
        let entry = piece_entry(header, pos, j, name);
        if j == n {
            proof {
                assert(cookie_lookup(suffix, name@) == entry_value(
                    header@.subrange(pos as int, j as int),
                    name@,
                ));
            }
            if entry.is_some() {
                return entry;
            }
            return best;
        }
        proof {
            let rest = suffix.subrange(j - pos + 1, suffix.len() as int);
            assert(rest =~= header@.subrange(j + 1, n as int));
            assert(cookie_lookup(suffix, name@) == or_else(
                cookie_lookup(rest, name@),
                entry_value(header@.subrange(pos as int, j as int), name@),
            ));
        }
        if entry.is_some() {
            best = entry;
        }
        pos = j + 1;
    }
}

} // verus!
