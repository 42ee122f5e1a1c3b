use vstd::prelude::*;
use vstd::string::StrSliceExecFns;
use vstd::string::StringExecFns;

verus! {

/// The whitespace characters that tag normalization strips: the ASCII
/// whitespace set.
pub open spec fn is_space_char(c: char) -> bool {
    c == ' ' || c == '\t' || c == '\n' || c == '\r' || c == '\u{b}' || c == '\u{c}'
}

/// Lower-cases one ASCII letter; every other character is unchanged.
pub open spec fn lower_char(c: char) -> char {
    if 'A' <= c && c <= 'Z' {
        ((c as u32 + 32) as char)
    } else {
        c
    }
}

/// Lower-cases every ASCII letter of a character sequence.
pub open spec fn lower_spec(s: Seq<char>) -> Seq<char> {
    s.map_values(|c: char| lower_char(c))
}

/// The sequence with its leading whitespace removed.
pub open spec fn trim_start_spec(s: Seq<char>) -> Seq<char>
    decreases s.len(),
{
    if s.len() > 0 && is_space_char(s[0]) {
        trim_start_spec(s.drop_first())
    } else {
        s
    }
}

/// The sequence with its trailing whitespace removed.
pub open spec fn trim_end_spec(s: Seq<char>) -> Seq<char>
    decreases s.len(),
{
    if s.len() > 0 && is_space_char(s[s.len() - 1]) {
        trim_end_spec(s.drop_last())
    } else {
        s
    }
}

/// The sequence with leading and trailing whitespace removed.
pub open spec fn trim_spec(s: Seq<char>) -> Seq<char> {
    trim_end_spec(trim_start_spec(s))
}

/// True when every character of `s` is whitespace.
pub open spec fn all_spaces(s: Seq<char>) -> bool {
    forall|i: int| 0 <= i < s.len() ==> is_space_char(s[i])
}

proof fn lemma_trim_start_prepend_spaces(sp: Seq<char>, x: Seq<char>)
    requires
        all_spaces(sp),
    ensures
        trim_start_spec(sp + x) == trim_start_spec(x),
    decreases sp.len(),
{
    if sp.len() == 0 {
        assert(sp + x =~= x);
    } else {
        assert((sp + x)[0] == sp[0]);
        assert((sp + x).drop_first() =~= sp.drop_first() + x);
        assert forall|i: int| 0 <= i < sp.drop_first().len() implies is_space_char(
            sp.drop_first()[i],
        ) by {
            assert(sp.drop_first()[i] == sp[i + 1]);
        }
        lemma_trim_start_prepend_spaces(sp.drop_first(), x);
    }
}

proof fn lemma_trim_end_append_spaces(x: Seq<char>, sp: Seq<char>)
    requires
        all_spaces(sp),
    ensures
        trim_end_spec(x + sp) == trim_end_spec(x),
    decreases sp.len(),
{
    if sp.len() == 0 {
        assert(x + sp =~= x);
    } else {
        let y = x + sp;
        assert(y[y.len() - 1] == sp[sp.len() - 1]);
        assert(y.drop_last() =~= x + sp.drop_last());
        assert forall|i: int| 0 <= i < sp.drop_last().len() implies is_space_char(
            sp.drop_last()[i],
        ) by {
            assert(sp.drop_last()[i] == sp[i]);
        }
        lemma_trim_end_append_spaces(x, sp.drop_last());
    }
}

proof fn lemma_trim_start_absorb(u: Seq<char>, b: Seq<char>)
    ensures
        trim_start_spec(u + b) == trim_start_spec(trim_start_spec(u) + b),
    decreases u.len(),
{
    if u.len() > 0 && is_space_char(u[0]) {
        assert((u + b)[0] == u[0]);
        assert((u + b).drop_first() =~= u.drop_first() + b);
        lemma_trim_start_absorb(u.drop_first(), b);
    }
}

proof fn lemma_trim_start_head(s: Seq<char>)
    ensures
        trim_start_spec(s).len() == 0 || !is_space_char(trim_start_spec(s)[0]),
    decreases s.len(),
{
    if s.len() > 0 && is_space_char(s[0]) {
        lemma_trim_start_head(s.drop_first());
    }
}

proof fn lemma_trim_start_all_spaces(s: Seq<char>)
    requires
        all_spaces(s),
    ensures
        trim_start_spec(s) == Seq::<char>::empty(),
    decreases s.len(),
{
    if s.len() == 0 {
        assert(s =~= Seq::<char>::empty());
    } else {
        assert forall|i: int| 0 <= i < s.drop_first().len() implies is_space_char(
            s.drop_first()[i],
        ) by {
            assert(s.drop_first()[i] == s[i + 1]);
        }
        lemma_trim_start_all_spaces(s.drop_first());
    }
}

/// Trimming ignores surrounding whitespace entirely: padding a sequence
/// with whitespace on either side does not change what trimming yields.
pub proof fn lemma_trim_ignores_padding(pad_left: Seq<char>, s: Seq<char>, pad_right: Seq<char>)
    requires
        all_spaces(pad_left),
        all_spaces(pad_right),
    ensures
        trim_spec(pad_left + s + pad_right) == trim_spec(s),
{
    assert((pad_left + s) + pad_right =~= pad_left + (s + pad_right));
    lemma_trim_start_prepend_spaces(pad_left, s + pad_right);
    lemma_trim_start_absorb(s, pad_right);
    let v = trim_start_spec(s);
    lemma_trim_start_head(s);
    if v.len() == 0 {
        assert(v + pad_right =~= pad_right);
        lemma_trim_start_all_spaces(pad_right);
    } else {
        assert((v + pad_right)[0] == v[0]);
        assert(trim_start_spec(v + pad_right) == v + pad_right);
        lemma_trim_end_append_spaces(v, pad_right);
    }
}

/// Lower-casing distributes over concatenation.
pub proof fn lemma_lower_concat(a: Seq<char>, b: Seq<char>)
    ensures
        lower_spec(a + b) == lower_spec(a) + lower_spec(b),
{
    assert(lower_spec(a + b) =~= lower_spec(a) + lower_spec(b)) by {
        assert forall|i: int| 0 <= i < a.len() + b.len() implies lower_spec(a + b)[i] == (
        lower_spec(a) + lower_spec(b))[i] by {
            if i < a.len() {
                assert((a + b)[i] == a[i]);
            } else {
                assert((a + b)[i] == b[i - a.len()]);
            }
        }
    }
}

/// Lower-casing sends whitespace to itself.
pub proof fn lemma_lower_keeps_spaces(s: Seq<char>)
    requires
        all_spaces(s),
    ensures
        all_spaces(lower_spec(s)),
{
    assert forall|i: int| 0 <= i < lower_spec(s).len() implies is_space_char(
        lower_spec(s)[i],
    ) by {
        assert(is_space_char(s[i]));
    }
}

/// True when `pat` occurs in `s` starting at index `i`.
pub open spec fn occurs_at(s: Seq<char>, pat: Seq<char>, i: int) -> bool {
    0 <= i && i + pat.len() <= s.len() && s.subrange(i, i + pat.len()) == pat
}

/// True when `pat` occurs somewhere in `s`.
pub open spec fn occurs(s: Seq<char>, pat: Seq<char>) -> bool {
    exists|i: int| occurs_at(s, pat, i)
}

/// An occurrence of `pat` in a concatenation lies within one of the two
/// parts, or straddles the seam: a nonempty proper prefix of `pat` ends the
/// left part and the rest of `pat` starts the right part.
pub proof fn lemma_occurs_concat(a: Seq<char>, b: Seq<char>, pat: Seq<char>)
    requires
        pat.len() > 0,
        occurs(a + b, pat),
    ensures
        occurs(a, pat) || occurs(b, pat) || (exists|k: int|
            1 <= k < pat.len() && k <= a.len() && pat.len() - k <= b.len() && a.subrange(
                a.len() - k,
                a.len() as int,
            ) == pat.take(k) && b.take(pat.len() - k) == pat.skip(k)),
{
    let i = choose|i: int| occurs_at(a + b, pat, i);
    let plen = pat.len() as int;
    if i + plen <= a.len() {
        assert(a.subrange(i, i + plen) =~= (a + b).subrange(i, i + plen));
        assert(occurs_at(a, pat, i));
    } else if i >= a.len() {
        let i2 = i - a.len();
        assert(b.subrange(i2, i2 + plen) =~= (a + b).subrange(i, i + plen));
        assert(occurs_at(b, pat, i2));
    } else {
        let k = a.len() - i;
        assert(a.subrange(a.len() - k, a.len() as int) =~= pat.take(k)) by {
            assert forall|m: int| 0 <= m < k implies a.subrange(a.len() - k, a.len() as int)[m]
                == pat.take(k)[m] by {
                assert((a + b).subrange(i, i + plen)[m] == a[i + m]);
            }
        }
        assert(b.take(plen - k) =~= pat.skip(k)) by {
            assert forall|m: int| 0 <= m < plen - k implies b.take(plen - k)[m] == pat.skip(k)[m] by {
                assert((a + b).subrange(i, i + plen)[k + m] == b[m]);
            }
        }
        assert(1 <= k < plen && k <= a.len() && plen - k <= b.len() && a.subrange(
            a.len() - k,
            a.len() as int,
        ) == pat.take(k) && b.take(plen - k) == pat.skip(k));
    }
}

/// Left-to-right, non-overlapping replacement of every occurrence of `pat`
/// by `rep`; a replaced stretch is not scanned again.
pub open spec fn replace_spec(s: Seq<char>, pat: Seq<char>, rep: Seq<char>) -> Seq<char>
    decreases s.len(),
{
    if pat.len() == 0 || s.len() < pat.len() {
        s
    } else if s.take(pat.len() as int) == pat {
        rep + replace_spec(s.skip(pat.len() as int), pat, rep)
    } else {
        seq![s[0]] + replace_spec(s.drop_first(), pat, rep)
    }
}

/// Replacement touches only the pattern: a sequence in which the pattern
/// does not occur is left exactly as it is.
pub proof fn lemma_replace_no_occurrence(s: Seq<char>, pat: Seq<char>, rep: Seq<char>)
    requires
        pat.len() > 0,
        !occurs(s, pat),
    ensures
        replace_spec(s, pat, rep) == s,
    decreases s.len(),
{
    if s.len() >= pat.len() {
        let plen = pat.len() as int;
        assert(s.take(plen) =~= s.subrange(0, plen));
        assert(!occurs_at(s, pat, 0));
        if occurs(s.drop_first(), pat) {
            let i = choose|i: int| occurs_at(s.drop_first(), pat, i);
            assert(s.subrange(i + 1, i + 1 + plen) =~= s.drop_first().subrange(i, i + plen));
            assert(occurs_at(s, pat, i + 1));
        }
        lemma_replace_no_occurrence(s.drop_first(), pat, rep);
        assert(seq![s[0]] + s.drop_first() =~= s);
    }
}

/// Replacement by at least as long a sequence never shortens.
pub proof fn lemma_replace_len(s: Seq<char>, pat: Seq<char>, rep: Seq<char>)
    requires
        rep.len() >= pat.len(),
    ensures
        replace_spec(s, pat, rep).len() >= s.len(),
    decreases s.len(),
{
    if pat.len() == 0 || s.len() < pat.len() {
    } else if s.take(pat.len() as int) == pat {
        lemma_replace_len(s.skip(pat.len() as int), pat, rep);
    } else {
        lemma_replace_len(s.drop_first(), pat, rep);
    }
}

/// The segments of `s` between occurrences of the separator `c`; splitting
/// never yields fewer than one segment, and each separator starts a new one.
pub open spec fn split_char_spec(s: Seq<char>, c: char) -> Seq<Seq<char>>
    decreases s.len(),
{
    if s.len() == 0 {
        seq![Seq::<char>::empty()]
    } else if s[0] == c {
        seq![Seq::<char>::empty()] + split_char_spec(s.drop_first(), c)
    } else {
        let rest = split_char_spec(s.drop_first(), c);
        seq![seq![s[0]] + rest[0]] + rest.drop_first()
    }
}

/// The views of a sequence of strings.
pub open spec fn views_of(ss: Seq<String>) -> Seq<Seq<char>> {
    ss.map_values(|t: String| t@)
}

/// Splitting yields at least one segment, whatever the input.
pub proof fn lemma_split_char_len(s: Seq<char>, c: char)
    ensures
        split_char_spec(s, c).len() >= 1,
    decreases s.len(),
{
    if s.len() > 0 {
        lemma_split_char_len(s.drop_first(), c);
    }
}

/// Relies on std's `String::push`: appends the given character to the end of
/// the string.
#[verifier::external_body]
pub(crate) fn push_char(s: &mut String, c: char)
    ensures
        final(s)@ == old(s)@.push(c),
{
    s.push(c);
}

/// Character-for-character string equality.
pub fn str_eq(a: &str, b: &str) -> (r: bool)
    ensures
        r == (a@ == b@),
{
    let alen = a.unicode_len();
    let blen = b.unicode_len();
    if alen != blen {
        return false;
    }
    let mut i: usize = 0;
    while i < alen
        invariant
            alen == a@.len(),
            alen == b@.len(),
            i <= alen,
            forall|j: int| 0 <= j < i ==> a@[j] == b@[j],
        decreases alen - i,
    {
        if a.get_char(i) != b.get_char(i) {
            return false;
        }
        i = i + 1;
    }
    proof {
        assert(a@ =~= b@);
    }
    true
}

fn lower_char_exec(c: char) -> (r: char)
    ensures
        r == lower_char(c),
{
    if 'A' <= c && c <= 'Z' {
        let u: u32 = c as u32;
        let b: u8 = (u + 32) as u8;
        b as char
    } else {
        c
    }
}

/// Lower-cases every ASCII letter of a string.
pub fn to_lower(s: &str) -> (r: String)
    ensures
        r@ == lower_spec(s@),
{
    let len = s.unicode_len();
    let mut out = String::new();
    let mut i: usize = 0;
    while i < len
        invariant
            len == s@.len(),
            i <= len,
            out@ == lower_spec(s@.take(i as int)),
        decreases len - i,
    {
        let c = s.get_char(i);
        push_char(&mut out, lower_char_exec(c));
        proof {
            assert(lower_spec(s@.take(i + 1)) =~= lower_spec(s@.take(i as int)).push(
                lower_char(s@[i as int]),
            ));
        }
        i = i + 1;
    }
    proof {
        assert(s@.take(len as int) =~= s@);
    }
    out
}

fn is_space_exec(c: char) -> (r: bool)
    ensures
        r == is_space_char(c),
{
    c == ' ' || c == '\t' || c == '\n' || c == '\r' || c == '\u{b}' || c == '\u{c}'
}

proof fn lemma_trim_start_skip(s: Seq<char>, k: int)
    requires
        0 <= k <= s.len(),
        forall|j: int| 0 <= j < k ==> is_space_char(s[j]),
        k == s.len() || !is_space_char(s[k]),
    ensures
        trim_start_spec(s) == s.skip(k),
    decreases k,
{
    if k == 0 {
        assert(s.skip(0) =~= s);
    } else {
        lemma_trim_start_skip(s.drop_first(), k - 1);
        assert(s.drop_first().skip(k - 1) =~= s.skip(k));
    }
}

proof fn lemma_trim_end_take(s: Seq<char>, k: int)
    requires
        0 <= k <= s.len(),
        forall|j: int| k <= j < s.len() ==> is_space_char(s[j]),
        k == 0 || !is_space_char(s[k - 1]),
    ensures
        trim_end_spec(s) == s.take(k),
    decreases s.len(),
{
    if k == s.len() {
        assert(s.take(k) =~= s);
    } else {
        lemma_trim_end_take(s.drop_last(), k);
        assert(s.drop_last().take(k) =~= s.take(k));
    }
}

/// The string with leading and trailing whitespace removed.
pub fn trim(s: &str) -> (r: String)
    ensures
        r@ == trim_spec(s@),
{
    let len = s.unicode_len();
    let mut start: usize = 0;
    while start < len && is_space_exec(s.get_char(start))
        invariant
            len == s@.len(),
            start <= len,
            forall|j: int| 0 <= j < start ==> is_space_char(s@[j]),
        decreases len - start,
    {
        start = start + 1;
    }
    let mut end: usize = len;
    while end > start && is_space_exec(s.get_char(end - 1))
        invariant
            len == s@.len(),
            start <= end <= len,
            forall|j: int| end <= j < len ==> is_space_char(s@[j]),
        decreases end,
    {
        end = end - 1;
    }
    let t = s.substring_char(start, end);
    proof {
        lemma_trim_start_skip(s@, start as int);
        let u = s@.skip(start as int);
        assert forall|j: int| end - start <= j < u.len() implies is_space_char(u[j]) by {
            assert(u[j] == s@[j + start]);
        }
        if end > start {
            assert(u[end - start - 1] == s@[end - 1]);
        }
        lemma_trim_end_take(u, end - start);
        assert(u.take(end - start) =~= s@.subrange(start as int, end as int));
    }
    String::from_str(t)
}

/// True when `pat` occurs in `s` starting at index `i`.
pub fn starts_with_at(s: &str, pat: &str, i: usize) -> (r: bool)
    requires
        i <= s@.len(),
    ensures
        r == occurs_at(s@, pat@, i as int),
{
    let slen = s.unicode_len();
    let plen = pat.unicode_len();
    if plen > slen - i {
        return false;
    }
    let mut j: usize = 0;
    while j < plen
        invariant
            slen == s@.len(),
            plen == pat@.len(),
            i + plen <= slen,
            j <= plen,
            forall|k: int| 0 <= k < j ==> s@[i + k] == pat@[k],
        decreases plen - j,
    {
        if s.get_char(i + j) != pat.get_char(j) {
            proof {
                assert(s@.subrange(i as int, i + pat@.len())[j as int] == s@[i + j]);
            }
            return false;
        }
        j = j + 1;
    }
    proof {
        assert(s@.subrange(i as int, i + pat@.len()) =~= pat@);
    }
    true
}

/// Left-to-right, non-overlapping replacement of every occurrence of `pat`
/// by `rep`.
pub fn replace_all(s: &str, pat: &str, rep: &str) -> (r: String)
    requires
        pat@.len() > 0,
    ensures
        r@ == replace_spec(s@, pat@, rep@),
{
    let slen = s.unicode_len();
    let plen = pat.unicode_len();
    let mut out = String::new();
    let mut i: usize = 0;
    proof {
        assert(s@.skip(0) =~= s@);
        assert(out@ + replace_spec(s@, pat@, rep@) =~= replace_spec(s@, pat@, rep@));
    }
    while i < slen
        invariant
            slen == s@.len(),
            plen == pat@.len(),
            plen > 0,
            i <= slen,
            replace_spec(s@, pat@, rep@) == out@ + replace_spec(s@.skip(i as int), pat@, rep@),
        decreases slen - i,
    {
        let ghost suffix = s@.skip(i as int);
        let ghost old_out = out@;
        if starts_with_at(s, pat, i) {
            out.append(rep);
            proof {
                assert(suffix.take(plen as int) =~= s@.subrange(i as int, i + plen));
                assert(suffix.skip(plen as int) =~= s@.skip(i + plen));
                assert(replace_spec(suffix, pat@, rep@) == rep@ + replace_spec(
                    s@.skip(i + plen),
                    pat@,
                    rep@,
                ));
                assert(old_out + (rep@ + replace_spec(s@.skip(i + plen), pat@, rep@)) =~= (old_out
                    + rep@) + replace_spec(s@.skip(i + plen), pat@, rep@));
            }
            i = i + plen;
        } else {
            let c = s.get_char(i);
            push_char(&mut out, c);
            proof {
                assert(suffix.drop_first() =~= s@.skip(i + 1));
                if suffix.len() >= plen {
                    assert(suffix.take(plen as int) =~= s@.subrange(i as int, i + plen));
                    assert(suffix.take(plen as int) != pat@);
                    assert(replace_spec(suffix, pat@, rep@) == seq![suffix[0]] + replace_spec(
                        s@.skip(i + 1),
                        pat@,
                        rep@,
                    ));
                    assert(old_out + (seq![suffix[0]] + replace_spec(s@.skip(i + 1), pat@, rep@))
                        =~= out@ + replace_spec(s@.skip(i + 1), pat@, rep@));
                } else {
                    assert(replace_spec(suffix, pat@, rep@) == suffix);
                    assert(replace_spec(s@.skip(i + 1), pat@, rep@) == s@.skip(i + 1));
                    assert(old_out + suffix =~= out@ + s@.skip(i + 1));
                }
            }
            i = i + 1;
        }
    }
    proof {
        assert(s@.skip(slen as int) =~= Seq::<char>::empty());
        assert(out@ + replace_spec(Seq::<char>::empty(), pat@, rep@) =~= out@);
    }
    out
}

/// The segments of `s` between occurrences of the separator `c`.
pub fn split_char(s: &str, sep: char) -> (r: Vec<String>)
    ensures
        views_of(r@) == split_char_spec(s@, sep),
{
    let len = s.unicode_len();
    let mut parts: Vec<String> = Vec::new();
    let mut cur: String = String::new();
    let mut i: usize = 0;
    proof {
        assert(s@.skip(0) =~= s@);
        lemma_split_char_len(s@, sep);
        assert(views_of(parts@) =~= Seq::<Seq<char>>::empty());
        assert(cur@ + split_char_spec(s@, sep)[0] =~= split_char_spec(s@, sep)[0]);
        assert(views_of(parts@) + seq![cur@ + split_char_spec(s@, sep)[0]] + split_char_spec(
            s@,
            sep,
        ).drop_first() =~= split_char_spec(s@, sep));
    }
    while i < len
        invariant
            len == s@.len(),
            i <= len,
            split_char_spec(s@.skip(i as int), sep).len() >= 1,
            split_char_spec(s@, sep) == views_of(parts@) + seq![
                cur@ + split_char_spec(s@.skip(i as int), sep)[0],
            ] + split_char_spec(s@.skip(i as int), sep).drop_first(),
        decreases len - i,
    {
        let ghost suffix = s@.skip(i as int);
        let ghost old_parts = views_of(parts@);
        let ghost old_cur = cur@;
        let c = s.get_char(i);
        proof {
            assert(suffix.drop_first() =~= s@.skip(i + 1));
            lemma_split_char_len(s@.skip(i + 1), sep);
        }
        if c == sep {
            parts.push(cur);
            cur = String::new();
            proof {
                let rest = split_char_spec(s@.skip(i + 1), sep);
                assert(split_char_spec(suffix, sep) == seq![Seq::<char>::empty()] + rest);
                assert(views_of(parts@) =~= old_parts.push(old_cur));
                assert(old_cur + (seq![Seq::<char>::empty()] + rest)[0] =~= old_cur);
                assert((seq![Seq::<char>::empty()] + rest).drop_first() =~= rest);
                assert(old_parts + seq![old_cur] + rest =~= old_parts.push(old_cur) + seq![
                    cur@ + rest[0],
                ] + rest.drop_first());
            }
        } else {
            push_char(&mut cur, c);
            proof {
                let rest = split_char_spec(s@.skip(i + 1), sep);
                assert(split_char_spec(suffix, sep) == seq![seq![suffix[0]] + rest[0]]
                    + rest.drop_first());
                assert(cur@ + rest[0] =~= old_cur + (seq![seq![suffix[0]] + rest[0]]
                    + rest.drop_first())[0]);
                assert(old_parts + seq![cur@ + rest[0]] + rest.drop_first() =~= old_parts + seq![
                    old_cur + split_char_spec(suffix, sep)[0],
                ] + split_char_spec(suffix, sep).drop_first());
            }
        }
        i = i + 1;
    }
    let ghost old_parts = views_of(parts@);
    let ghost old_cur = cur@;
    parts.push(cur);
    proof {
        assert(s@.skip(len as int) =~= Seq::<char>::empty());
        assert(split_char_spec(Seq::<char>::empty(), sep) == seq![Seq::<char>::empty()]);
        assert(views_of(parts@) =~= old_parts.push(old_cur));
        assert(old_cur + Seq::<char>::empty() =~= old_cur);
        assert(old_parts + seq![old_cur] + seq![Seq::<char>::empty()].drop_first() =~= old_parts.push(
            old_cur,
        ));
        assert(views_of(parts@) =~= split_char_spec(s@, sep));
    }
    parts
}

} // verus!
