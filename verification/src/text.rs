//! Character-level text processing: trimming, tag stripping, substring
//! replacement, decimal rendering and comparisons, all over `Seq<char>`.
use vstd::prelude::*;
use vstd::string::StringExecFns;

verus! {

/// Appends one character to a string (`String::push`).
#[verifier::external_body]
pub(crate) fn push_char(s: &mut String, c: char)
    ensures
        final(s)@ == old(s)@.push(c),
{
    s.push(c);
}

/// The characters of `s`, in order.
pub fn chars_of(s: &str) -> (v: Vec<char>)
    ensures
        v@ == s@,
{
    let mut v: Vec<char> = Vec::new();
    for c in it: s.chars()
        invariant
            v@ == it.seq().take(it.index() as int),
            it.seq() == s@,
    {
        v.push(c);
    }
    v
}

/// Characters `from..to` of `v` as a new string.
fn string_of_range(v: &Vec<char>, from: usize, to: usize) -> (r: String)
    requires
        from <= to <= v@.len(),
    ensures
        r@ == v@.subrange(from as int, to as int),
{
    let mut r = String::new();
    let mut i = from;
    while i < to
        invariant
            from <= i <= to <= v@.len(),
            r@ == v@.subrange(from as int, i as int),
        decreases to - i,
    {
        push_char(&mut r, v[i]);
        i = i + 1;
        assert(r@ =~= v@.subrange(from as int, i as int));
    }
    r
}

/// Whether two texts are the same sequence of characters.
pub fn same_text(a: &str, b: &str) -> (r: bool)
    ensures
        r == (a@ == b@),
{
    let va = chars_of(a);
    let vb = chars_of(b);
    if va.len() != vb.len() {
        return false;
    }
    let mut i: usize = 0;
    while i < va.len()
        invariant
            va@ == a@,
            vb@ == b@,
            va@.len() == vb@.len(),
            i <= va@.len(),
            forall|k: int| 0 <= k < i ==> va@[k] == vb@[k],
        decreases va@.len() - i,
    {
        if va[i] != vb[i] {
            return false;
        }
        i = i + 1;
    }
    assert(va@ =~= vb@);
    true
}

// ---------------------------------------------------------------- whitespace

/// The Unicode `White_Space` property, which `char::is_whitespace` tests.
pub open spec fn is_white_space(c: char) -> bool {
    ||| ('\u{9}' <= c && c <= '\u{d}')
    ||| c == ' '
    ||| c == '\u{85}'
    ||| c == '\u{a0}'
    ||| c == '\u{1680}'
    ||| ('\u{2000}' <= c && c <= '\u{200a}')
    ||| c == '\u{2028}'
    ||| c == '\u{2029}'
    ||| c == '\u{202f}'
    ||| c == '\u{205f}'
    ||| c == '\u{3000}'
}

/// Whether `c` is white space in the sense of [`is_white_space`].
pub fn white_space(c: char) -> (r: bool)
    ensures
        r == is_white_space(c),
{
    ('\u{9}' <= c && c <= '\u{d}') || c == ' ' || c == '\u{85}' || c == '\u{a0}' || c
        == '\u{1680}' || ('\u{2000}' <= c && c <= '\u{200a}') || c == '\u{2028}' || c
        == '\u{2029}' || c == '\u{202f}' || c == '\u{205f}' || c == '\u{3000}'
}

/// `s` without its leading white space.
pub open spec fn trim_start_spec(s: Seq<char>) -> Seq<char>
    decreases s.len(),
{
    if s.len() > 0 && is_white_space(s[0]) {
        trim_start_spec(s.drop_first())
    } else {
        s
    }
}

/// `s` without its trailing white space.
pub open spec fn trim_end_spec(s: Seq<char>) -> Seq<char>
    decreases s.len(),
{
    if s.len() > 0 && is_white_space(s.last()) {
        trim_end_spec(s.drop_last())
    } else {
        s
    }
}

/// `s` without leading and trailing white space (`str::trim`).
pub open spec fn trim_spec(s: Seq<char>) -> Seq<char> {
    trim_end_spec(trim_start_spec(s))
}

proof fn lemma_trim_start_skip(s: Seq<char>, i: int)
    requires
        0 <= i < s.len(),
        is_white_space(s[i]),
    ensures
        trim_start_spec(s.skip(i)) == trim_start_spec(s.skip(i + 1)),
{
    assert(s.skip(i).drop_first() =~= s.skip(i + 1));
}

proof fn lemma_trim_end_take(s: Seq<char>, j: int)
    requires
        0 < j <= s.len(),
        is_white_space(s[j - 1]),
    ensures
        trim_end_spec(s.take(j)) == trim_end_spec(s.take(j - 1)),
{
    assert(s.take(j).drop_last() =~= s.take(j - 1));
}

/// `s` without leading and trailing white space.
pub fn trim(s: &str) -> (r: String)
    ensures
        r@ == trim_spec(s@),
{
    let v = chars_of(s);
    let n = v.len();
    let mut i: usize = 0;
    proof {
        assert(v@.skip(0) =~= v@);
    }
    while i < n && white_space(v[i])
        invariant
            v@ == s@,
            n == v@.len(),
            i <= n,
            trim_start_spec(s@) == trim_start_spec(v@.skip(i as int)),
        decreases n - i,
    {
        proof {
            lemma_trim_start_skip(v@, i as int);
        }
        i = i + 1;
    }
    let ghost rest = v@.skip(i as int);
    assert(trim_start_spec(rest) == rest);
    let mut j: usize = n;
    proof {
        assert(rest.take(rest.len() as int) =~= rest);
    }
    while j > i && white_space(v[j - 1])
        invariant
            v@ == s@,
            n == v@.len(),
            i <= j <= n,
            rest == v@.skip(i as int),
            trim_end_spec(rest) == trim_end_spec(rest.take(j - i)),
        decreases j,
    {
        proof {
            lemma_trim_end_take(rest, (j - i) as int);
        }
        j = j - 1;
    }
    proof {
        assert(trim_end_spec(rest.take(j - i)) == rest.take(j - i));
        assert(rest.take(j - i) =~= v@.subrange(i as int, j as int));
    }
    string_of_range(&v, i, j)
}

proof fn lemma_trim_start_shape(s: Seq<char>)
    ensures
        trim_start_spec(s).len() > 0 ==> !is_white_space(trim_start_spec(s)[0]),
        trim_start_spec(trim_start_spec(s)) == trim_start_spec(s),
        exists|k: int|
            0 <= k <= s.len() && trim_start_spec(s) == s.skip(k) && forall|m: int|
                0 <= m < k ==> is_white_space(#[trigger] s[m]),
    decreases s.len(),
{
    if s.len() > 0 && is_white_space(s[0]) {
        lemma_trim_start_shape(s.drop_first());
        let t = s.drop_first();
        let k = choose|k: int|
            0 <= k <= t.len() && trim_start_spec(t) == t.skip(k) && forall|m: int|
                0 <= m < k ==> is_white_space(#[trigger] t[m]);
        assert(t.skip(k) =~= s.skip(k + 1));
        assert forall|m: int| 0 <= m < k + 1 implies is_white_space(#[trigger] s[m]) by {
            if m > 0 {
                assert(s[m] == t[m - 1]);
            }
        }
    } else {
        assert(s.skip(0) =~= s);
    }
}

proof fn lemma_trim_end_shape(s: Seq<char>)
    ensures
        trim_end_spec(s).len() > 0 ==> !is_white_space(trim_end_spec(s).last()),
        trim_end_spec(trim_end_spec(s)) == trim_end_spec(s),
        exists|k: int|
            0 <= k <= s.len() && trim_end_spec(s) == s.take(k) && forall|m: int|
                k <= m < s.len() ==> is_white_space(#[trigger] s[m]),
    decreases s.len(),
{
    if s.len() > 0 && is_white_space(s.last()) {
        lemma_trim_end_shape(s.drop_last());
        let t = s.drop_last();
        let k = choose|k: int|
            0 <= k <= t.len() && trim_end_spec(t) == t.take(k) && forall|m: int|
                k <= m < t.len() ==> is_white_space(#[trigger] t[m]);
        assert(t.take(k) =~= s.take(k));
        assert forall|m: int| k <= m < s.len() implies is_white_space(#[trigger] s[m]) by {
            if m < s.len() - 1 {
                assert(s[m] == t[m]);
            }
        }
    } else {
        assert(s.take(s.len() as int) =~= s);
    }
}

proof fn lemma_trim_end_keeps_start(s: Seq<char>)
    requires
        s.len() > 0 ==> !is_white_space(s[0]),
    ensures
        trim_end_spec(s).len() > 0 ==> trim_end_spec(s)[0] == s[0],
        trim_start_spec(trim_end_spec(s)) == trim_end_spec(s),
    decreases s.len(),
{
    if s.len() > 0 && is_white_space(s.last()) {
        if s.len() > 1 {
            assert(s.drop_last()[0] == s[0]);
        }
        lemma_trim_end_keeps_start(s.drop_last());
    }
}

/// A trimmed text neither starts nor ends with white space.
pub proof fn law_trim_leaves_no_outer_space(s: Seq<char>)
    ensures
        trim_spec(s).len() > 0 ==> !is_white_space(trim_spec(s)[0]) && !is_white_space(
            trim_spec(s).last(),
        ),
{
    lemma_trim_start_shape(s);
    lemma_trim_end_shape(trim_start_spec(s));
    lemma_trim_end_keeps_start(trim_start_spec(s));
}

/// Trimming twice is the same as trimming once.
pub proof fn law_trim_idempotent(s: Seq<char>)
    ensures
        trim_spec(trim_spec(s)) == trim_spec(s),
{
    let t = trim_start_spec(s);
    lemma_trim_start_shape(s);
    lemma_trim_end_keeps_start(t);
    lemma_trim_end_shape(t);
}

/// Trimming removes white space only, and only at the two ends: the result
/// is the piece of the text between a run of white space at its start and a
/// run of white space at its end.
pub proof fn law_trim_is_infix(s: Seq<char>)
    ensures
        exists|i: int, j: int|
            0 <= i <= j <= s.len() && trim_spec(s) == s.subrange(i, j) && (forall|m: int|
                0 <= m < i ==> is_white_space(#[trigger] s[m])) && (forall|m: int|
                j <= m < s.len() ==> is_white_space(#[trigger] s[m])),
{
    lemma_trim_start_shape(s);
    let i = choose|k: int|
        0 <= k <= s.len() && trim_start_spec(s) == s.skip(k) && forall|m: int|
            0 <= m < k ==> is_white_space(#[trigger] s[m]);
    let t = trim_start_spec(s);
    lemma_trim_end_shape(t);
    let k = choose|k: int|
        0 <= k <= t.len() && trim_end_spec(t) == t.take(k) && forall|m: int|
            k <= m < t.len() ==> is_white_space(#[trigger] t[m]);
    assert(t.take(k) =~= s.subrange(i, i + k));
    assert forall|m: int| i + k <= m < s.len() implies is_white_space(#[trigger] s[m]) by {
        assert(s[m] == t[m - i]);
    }
}

// ---------------------------------------------------------------- tags

/// What remains of `s` once everything between a `<` and the next `>` is
/// dropped, together with the brackets themselves; `in_tag` says whether the
/// text starts inside a tag.
pub open spec fn strip_tags_from(s: Seq<char>, in_tag: bool) -> Seq<char>
    decreases s.len(),
{
    if s.len() == 0 {
        Seq::empty()
    } else if s[0] == '<' {
        strip_tags_from(s.drop_first(), true)
    } else if s[0] == '>' {
        strip_tags_from(s.drop_first(), false)
    } else if !in_tag {
        seq![s[0]] + strip_tags_from(s.drop_first(), false)
    } else {
        strip_tags_from(s.drop_first(), true)
    }
}

/// The text of `s` with its markup tags removed.
pub open spec fn strip_tags_spec(s: Seq<char>) -> Seq<char> {
    strip_tags_from(s, false)
}

/// Removes every `<...>` tag from `s`, keeping the text between tags.
pub fn strip_tags(s: &str) -> (r: String)
    ensures
        r@ == strip_tags_spec(s@),
{
    let v = chars_of(s);
    let mut out = String::new();
    let mut in_tag = false;
    let mut i: usize = 0;
    proof {
        assert(v@.skip(0) =~= v@);
    }
    while i < v.len()
        invariant
            v@ == s@,
            i <= v@.len(),
            out@ + strip_tags_from(v@.skip(i as int), in_tag) == strip_tags_spec(s@),
        decreases v@.len() - i,
    {
        let c = v[i];
        proof {
            assert(v@.skip(i as int).drop_first() =~= v@.skip(i + 1));
        }
        if c == '<' {
            in_tag = true;
        } else if c == '>' {
            in_tag = false;
        } else if !in_tag {
            let ghost before = out@;
            push_char(&mut out, c);
            proof {
                assert(before + (seq![c] + strip_tags_from(v@.skip(i + 1), false)) =~= out@
                    + strip_tags_from(v@.skip(i + 1), false));
            }
        }
        i = i + 1;
    }
    proof {
        assert(v@.skip(i as int) =~= Seq::<char>::empty());
        assert(out@ + Seq::<char>::empty() =~= out@);
    }
    out
}

// ---------------------------------------------------------------- replacement

/// `s` with every occurrence of `pat` replaced by `rep`, scanning left to
/// right without overlaps (`str::replace`).
pub open spec fn replace_spec(s: Seq<char>, pat: Seq<char>, rep: Seq<char>) -> Seq<char>
    recommends
        pat.len() > 0,
    decreases s.len(),
{
    if s.len() == 0 || pat.len() == 0 {
        s
    } else if pat.is_prefix_of(s) {
        rep + replace_spec(s.skip(pat.len() as int), pat, rep)
    } else {
        seq![s[0]] + replace_spec(s.drop_first(), pat, rep)
    }
}

/// Whether `pat` occurs in `v` at position `i`.
fn occurs_at(v: &Vec<char>, i: usize, pat: &Vec<char>) -> (r: bool)
    requires
        i <= v@.len(),
    ensures
        r == pat@.is_prefix_of(v@.skip(i as int)),
{
    if pat.len() > v.len() - i {
        return false;
    }
    let mut k: usize = 0;
    while k < pat.len()
        invariant
            i <= v@.len(),
            i + pat@.len() <= v@.len(),
            v@.len() <= usize::MAX,
            k <= pat@.len(),
            forall|m: int| 0 <= m < k ==> v@[i + m] == pat@[m],
        decreases pat@.len() - k,
    {
        if v[i + k] != pat[k] {
            assert(v@.skip(i as int)[k as int] == v@[i + k]);
            return false;
        }
        k = k + 1;
    }
    assert(v@.skip(i as int).subrange(0, pat@.len() as int) =~= pat@);
    true
}

/// `s` with every occurrence of the non-empty `pat` replaced by `rep`.
pub fn replace_all(s: &str, pat: &str, rep: &str) -> (r: String)
    requires
        pat@.len() > 0,
    ensures
        r@ == replace_spec(s@, pat@, rep@),
{
    let v = chars_of(s);
    let p = chars_of(pat);
    let mut out = String::new();
    let mut i: usize = 0;
    proof {
        assert(v@.skip(0) =~= v@);
    }
    while i < v.len()
        invariant
            v@ == s@,
            p@ == pat@,
            p@.len() > 0,
            i <= v@.len(),
            out@ + replace_spec(v@.skip(i as int), pat@, rep@) == replace_spec(s@, pat@, rep@),
        decreases v@.len() - i,
    {
        let ghost before = out@;
        let ghost tail = v@.skip(i as int);
        if occurs_at(&v, i, &p) {
            out.append(rep);
            proof {
                assert(tail.skip(pat@.len() as int) =~= v@.skip(i + p@.len()));
                assert(before + (rep@ + replace_spec(v@.skip(i + p@.len()), pat@, rep@)) =~= out@
                    + replace_spec(v@.skip(i + p@.len()), pat@, rep@));
            }
            i = i + p.len();
        } else {
            push_char(&mut out, v[i]);
            proof {
                assert(tail.drop_first() =~= v@.skip(i + 1));
                assert(before + (seq![v@[i as int]] + replace_spec(v@.skip(i + 1), pat@, rep@))
                    =~= out@ + replace_spec(v@.skip(i + 1), pat@, rep@));
            }
            i = i + 1;
        }
    }
    proof {
        assert(v@.skip(i as int) =~= Seq::<char>::empty());
        assert(out@ + Seq::<char>::empty() =~= out@);
    }
    out
}


// ---------------------------------------------------------------- markup

/// The text of an HTML fragment: tags removed, then the entities `&amp;`,
/// `&lt;`, `&gt;`, `&nbsp;`, `&#39;` and `&quot;` decoded, in that order.
pub open spec fn strip_html_spec(s: Seq<char>) -> Seq<char> {
    let t0 = strip_tags_spec(s);
    let t1 = replace_spec(t0, "&amp;"@, "&"@);
    let t2 = replace_spec(t1, "&lt;"@, "<"@);
    let t3 = replace_spec(t2, "&gt;"@, ">"@);
    let t4 = replace_spec(t3, "&nbsp;"@, " "@);
    let t5 = replace_spec(t4, "&#39;"@, "'"@);
    replace_spec(t5, "&quot;"@, "\""@)
}

/// The plain text of an HTML fragment, as [`strip_html_spec`] describes it.
pub fn strip_html(s: &str) -> (r: String)
    ensures
        r@ == strip_html_spec(s@),
{
    proof {
        reveal_strlit("&amp;");
        reveal_strlit("&lt;");
        reveal_strlit("&gt;");
        reveal_strlit("&nbsp;");
        reveal_strlit("&#39;");
        reveal_strlit("&quot;");
    }
    let t0 = strip_tags(s);
    let t1 = replace_all(t0.as_str(), "&amp;", "&");
    let t2 = replace_all(t1.as_str(), "&lt;", "<");
    let t3 = replace_all(t2.as_str(), "&gt;", ">");
    let t4 = replace_all(t3.as_str(), "&nbsp;", " ");
    let t5 = replace_all(t4.as_str(), "&#39;", "'");
    replace_all(t5.as_str(), "&quot;", "\"")
}

/// Whether `s` holds no angle bracket.
pub open spec fn has_no_brackets(s: Seq<char>) -> bool {
    forall|i: int| 0 <= i < s.len() ==> s[i] != '<' && s[i] != '>'
}

proof fn lemma_strip_tags_from_no_brackets(s: Seq<char>, in_tag: bool)
    ensures
        has_no_brackets(strip_tags_from(s, in_tag)),
    decreases s.len(),
{
    if s.len() > 0 {
        lemma_strip_tags_from_no_brackets(s.drop_first(), true);
        lemma_strip_tags_from_no_brackets(s.drop_first(), false);
        let rest_t = strip_tags_from(s.drop_first(), true);
        let rest_f = strip_tags_from(s.drop_first(), false);
        if s[0] != '<' && s[0] != '>' && !in_tag {
            let r = seq![s[0]] + rest_f;
            assert forall|i: int| 0 <= i < r.len() implies r[i] != '<' && r[i] != '>' by {
                if i > 0 {
                    assert(r[i] == rest_f[i - 1]);
                }
            }
        }
    }
}

proof fn lemma_strip_tags_from_plain(s: Seq<char>)
    requires
        has_no_brackets(s),
    ensures
        strip_tags_from(s, false) == s,
    decreases s.len(),
{
    if s.len() > 0 {
        assert(has_no_brackets(s.drop_first()));
        lemma_strip_tags_from_plain(s.drop_first());
        assert(seq![s[0]] + s.drop_first() =~= s);
    }
}

/// Stripping tags leaves no angle bracket behind.
pub proof fn law_strip_tags_removes_brackets(s: Seq<char>)
    ensures
        has_no_brackets(strip_tags_spec(s)),
{
    lemma_strip_tags_from_no_brackets(s, false);
}

/// Text without angle brackets passes through tag stripping unchanged.
pub proof fn law_strip_tags_keeps_plain_text(s: Seq<char>)
    requires
        has_no_brackets(s),
    ensures
        strip_tags_spec(s) == s,
{
    lemma_strip_tags_from_plain(s);
}

/// Stripping tags twice is the same as stripping them once.
pub proof fn law_strip_tags_idempotent(s: Seq<char>)
    ensures
        strip_tags_spec(strip_tags_spec(s)) == strip_tags_spec(s),
{
    lemma_strip_tags_from_no_brackets(s, false);
    lemma_strip_tags_from_plain(strip_tags_spec(s));
}

proof fn lemma_replace_absent(s: Seq<char>, pat: Seq<char>, rep: Seq<char>)
    requires
        pat.len() > 0,
        forall|i: int| 0 <= i < s.len() ==> s[i] != pat[0],
    ensures
        replace_spec(s, pat, rep) == s,
    decreases s.len(),
{
    if s.len() > 0 {
        assert(!pat.is_prefix_of(s)) by {
            if pat.is_prefix_of(s) {
                assert(s.subrange(0, pat.len() as int)[0] == s[0]);
            }
        }
        assert(forall|i: int| 0 <= i < s.drop_first().len() ==> s.drop_first()[i] == s[i + 1]);
        lemma_replace_absent(s.drop_first(), pat, rep);
        assert(seq![s[0]] + s.drop_first() =~= s);
    }
}

/// Plain text, holding no `<`, `>` or `&`, passes through
/// [`strip_html`] unchanged.
pub proof fn law_strip_html_keeps_plain_text(s: Seq<char>)
    requires
        has_no_brackets(s),
        forall|i: int| 0 <= i < s.len() ==> s[i] != '&',
    ensures
        strip_html_spec(s) == s,
{
    reveal_strlit("&amp;");
    reveal_strlit("&lt;");
    reveal_strlit("&gt;");
    reveal_strlit("&nbsp;");
    reveal_strlit("&#39;");
    reveal_strlit("&quot;");
    lemma_strip_tags_from_plain(s);
    lemma_replace_absent(s, "&amp;"@, "&"@);
    lemma_replace_absent(s, "&lt;"@, "<"@);
    lemma_replace_absent(s, "&gt;"@, ">"@);
    lemma_replace_absent(s, "&nbsp;"@, " "@);
    lemma_replace_absent(s, "&#39;"@, "'"@);
    lemma_replace_absent(s, "&quot;"@, "\""@);
}

// ---------------------------------------------------------------- numbers

/// The decimal digit for `d < 10`.
pub open spec fn digit_char(d: nat) -> char {
    if d == 0 { '0' }
    else if d == 1 { '1' }
    else if d == 2 { '2' }
    else if d == 3 { '3' }
    else if d == 4 { '4' }
    else if d == 5 { '5' }
    else if d == 6 { '6' }
    else if d == 7 { '7' }
    else if d == 8 { '8' }
    else { '9' }
}

/// The decimal notation of `n`, without leading zeros.
pub open spec fn decimal_nat(n: nat) -> Seq<char>
    decreases n,
{
    if n < 10 {
        seq![digit_char(n)]
    } else {
        decimal_nat(n / 10) + seq![digit_char(n % 10)]
    }
}

/// The decimal notation of `n`, with a leading `-` when it is negative
/// (what `{}` writes for an integer).
pub open spec fn decimal_int(n: int) -> Seq<char> {
    if n < 0 {
        seq!['-'] + decimal_nat((-n) as nat)
    } else {
        decimal_nat(n as nat)
    }
}

fn digit(d: u64) -> (c: char)
    requires
        d < 10,
    ensures
        c == digit_char(d as nat),
{
    if d == 0 { '0' }
    else if d == 1 { '1' }
    else if d == 2 { '2' }
    else if d == 3 { '3' }
    else if d == 4 { '4' }
    else if d == 5 { '5' }
    else if d == 6 { '6' }
    else if d == 7 { '7' }
    else if d == 8 { '8' }
    else { '9' }
}

fn push_decimal(s: &mut String, n: u64)
    ensures
        final(s)@ == old(s)@ + decimal_nat(n as nat),
    decreases n,
{
    if n >= 10 {
        push_decimal(s, n / 10);
    }
    push_char(s, digit(n % 10));
    proof {
        if n >= 10 {
            assert(old(s)@ + decimal_nat((n / 10) as nat) + seq![digit_char((n % 10) as nat)]
                =~= old(s)@ + decimal_nat(n as nat));
        } else {
            assert(old(s)@.push(digit_char(n as nat)) =~= old(s)@ + decimal_nat(n as nat));
        }
    }
}

/// The decimal notation of `n`.
pub fn format_i64(n: i64) -> (r: String)
    ensures
        r@ == decimal_int(n as int),
{
    let mut r = String::new();
    if n < 0 {
        push_char(&mut r, '-');
        let m: u64 = ((-(n + 1)) as u64) + 1;
        push_decimal(&mut r, m);
    } else {
        push_decimal(&mut r, n as u64);
    }
    r
}


// ---------------------------------------------------------------- laws on reading back

/// Whether `c` is a decimal digit.
pub open spec fn is_digit(c: char) -> bool {
    '0' <= c && c <= '9'
}

/// The number that decimal digits `d` denote.
pub open spec fn digits_value(d: Seq<char>) -> int
    decreases d.len(),
{
    if d.len() == 0 {
        0
    } else {
        digits_value(d.drop_last()) * 10 + ((d.last() as int) - ('0' as int))
    }
}

proof fn lemma_digit_char_value(d: nat)
    requires
        d < 10,
    ensures
        is_digit(digit_char(d)),
        (digit_char(d) as int) - ('0' as int) == d,
{
}

/// The decimal notation of a number is made of digits, has no leading zero
/// unless it is `0`, and denotes that number.
pub proof fn law_decimal_reads_back(n: nat)
    ensures
        decimal_nat(n).len() > 0,
        forall|i: int| 0 <= i < decimal_nat(n).len() ==> is_digit(#[trigger] decimal_nat(n)[i]),
        decimal_nat(n)[0] == '0' ==> n == 0,
        digits_value(decimal_nat(n)) == n,
    decreases n,
{
    if n >= 10 {
        law_decimal_reads_back(n / 10);
        let d = decimal_nat(n);
        let high = decimal_nat(n / 10);
        assert(d =~= high + seq![digit_char(n % 10)]);
        assert(d.drop_last() =~= high);
        assert forall|i: int| 0 <= i < d.len() implies is_digit(#[trigger] d[i]) by {
            if i < high.len() {
                assert(d[i] == high[i]);
            }
        }
        assert(d[0] == high[0]);
        lemma_digit_char_value(n % 10);
        assert(d.last() == digit_char(n % 10));
        assert(digits_value(d) == digits_value(high) * 10 + (n % 10));
        assert((n / 10) * 10 + n % 10 == n);
    } else {
        lemma_digit_char_value(n);
        assert(decimal_nat(n) =~= seq![digit_char(n)]);
        assert(decimal_nat(n).drop_last() =~= Seq::<char>::empty());
        assert(decimal_nat(n).last() == digit_char(n));
        assert(digits_value(Seq::<char>::empty()) == 0);
        assert(digits_value(decimal_nat(n)) == digits_value(decimal_nat(n).drop_last()) * 10 + n);
    }
}

/// A number is written with a leading `-` exactly when it is negative,
/// followed by the notation of its magnitude.
pub proof fn law_decimal_sign(n: int)
    ensures
        n < 0 ==> decimal_int(n)[0] == '-' && decimal_int(n).drop_first() == decimal_nat((-n) as nat),
        n >= 0 ==> decimal_int(n) == decimal_nat(n as nat) && decimal_int(n)[0] != '-',
{
    if n < 0 {
        assert((seq!['-'] + decimal_nat((-n) as nat)).drop_first() =~= decimal_nat((-n) as nat));
    } else {
        law_decimal_reads_back(n as nat);
        assert(is_digit(decimal_nat(n as nat)[0]));
    }
}

/// Text without brackets at the front is kept as it is, and the rest is
/// stripped on its own.
pub proof fn law_strip_tags_keeps_plain_prefix(a: Seq<char>, b: Seq<char>)
    requires
        has_no_brackets(a),
    ensures
        strip_tags_spec(a + b) == a + strip_tags_spec(b),
    decreases a.len(),
{
    if a.len() == 0 {
        assert(a + b =~= b);
        assert(a + strip_tags_spec(b) =~= strip_tags_spec(b));
    } else {
        assert((a + b)[0] == a[0]);
        assert((a + b).drop_first() =~= a.drop_first() + b);
        assert(has_no_brackets(a.drop_first()));
        law_strip_tags_keeps_plain_prefix(a.drop_first(), b);
        assert(seq![a[0]] + (a.drop_first() + strip_tags_spec(b)) =~= a + strip_tags_spec(b));
    }
}

proof fn lemma_inside_tag(t: Seq<char>, rest: Seq<char>)
    requires
        forall|i: int| 0 <= i < t.len() ==> #[trigger] t[i] != '>',
    ensures
        strip_tags_from(t + rest, true) == strip_tags_from(rest, true),
    decreases t.len(),
{
    if t.len() == 0 {
        assert(t + rest =~= rest);
    } else {
        assert((t + rest)[0] == t[0]);
        assert((t + rest).drop_first() =~= t.drop_first() + rest);
        assert(forall|i: int| 0 <= i < t.drop_first().len() ==> t.drop_first()[i] == t[i + 1]);
        lemma_inside_tag(t.drop_first(), rest);
    }
}

/// A tag, from `<` to the first `>`, disappears with everything inside it.
pub proof fn law_strip_tags_drops_tag(inside: Seq<char>, b: Seq<char>)
    requires
        forall|i: int| 0 <= i < inside.len() ==> #[trigger] inside[i] != '>',
    ensures
        strip_tags_spec(seq!['<'] + inside + seq!['>'] + b) == strip_tags_spec(b),
{
    let whole = seq!['<'] + inside + seq!['>'] + b;
    assert(whole[0] == '<');
    assert(whole.drop_first() =~= inside + (seq!['>'] + b));
    lemma_inside_tag(inside, seq!['>'] + b);
    let close = seq!['>'] + b;
    assert(close[0] == '>');
    assert(close.drop_first() =~= b);
}

/// Text holding no first character of the pattern passes through replacement
/// unchanged, and the rest is replaced on its own.
pub proof fn law_replace_keeps_plain_prefix(a: Seq<char>, b: Seq<char>, pat: Seq<char>, rep: Seq<char>)
    requires
        pat.len() > 0,
        forall|i: int| 0 <= i < a.len() ==> #[trigger] a[i] != pat[0],
    ensures
        replace_spec(a + b, pat, rep) == a + replace_spec(b, pat, rep),
    decreases a.len(),
{
    if a.len() == 0 {
        assert(a + b =~= b);
        assert(a + replace_spec(b, pat, rep) =~= replace_spec(b, pat, rep));
    } else {
        let ab = a + b;
        assert(ab[0] == a[0]);
        assert(!pat.is_prefix_of(ab)) by {
            if pat.is_prefix_of(ab) {
                assert(ab.subrange(0, pat.len() as int)[0] == ab[0]);
            }
        }
        assert(ab.drop_first() =~= a.drop_first() + b);
        assert(forall|i: int| 0 <= i < a.drop_first().len() ==> a.drop_first()[i] == a[i + 1]);
        law_replace_keeps_plain_prefix(a.drop_first(), b, pat, rep);
        assert(seq![a[0]] + (a.drop_first() + replace_spec(b, pat, rep)) =~= a + replace_spec(
            b,
            pat,
            rep,
        ));
    }
}

/// An occurrence of the pattern at the front becomes the replacement, and the
/// rest is replaced on its own.
pub proof fn law_replace_at_occurrence(pat: Seq<char>, rep: Seq<char>, b: Seq<char>)
    requires
        pat.len() > 0,
    ensures
        replace_spec(pat + b, pat, rep) == rep + replace_spec(b, pat, rep),
{
    assert((pat + b).subrange(0, pat.len() as int) =~= pat);
    assert((pat + b).skip(pat.len() as int) =~= b);
}

} // verus!
