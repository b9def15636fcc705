//! Search expressions for the durable store's full-text predicates.
//!
//! A user phrase is reduced to words of ASCII letters and digits and the boolean
//! operators `&`, `|` and `!`, joined by `&`, with no operator doubled and none at either
//! end. For autocompletion the last word is marked for prefix matching with `:*`.
use vstd::prelude::*;
use crate::textutil::{whitespace_char, lower_of, is_whitespace, chars_of, string_of};
use crate::connect::prefix_terms;

verus! {

pub open spec fn is_operator(c: char) -> bool {
    c == '&' || c == '|' || c == '!'
}

pub open spec fn is_word_char(c: char) -> bool {
    ('a' <= c && c <= 'z') || ('A' <= c && c <= 'Z') || ('0' <= c && c <= '9')
}

pub open spec fn is_kept(c: char) -> bool {
    is_word_char(c) || is_operator(c)
}

/// Kept characters stay, each whitespace character becomes one space, and every other
/// character is dropped.
pub open spec fn cleaned(s: Seq<char>) -> Seq<char>
    decreases s.len(),
{
    if s.len() == 0 {
        Seq::empty()
    } else {
        let rest = cleaned(s.drop_last());
        let c = s.last();
        if is_kept(c) {
            rest.push(c)
        } else if whitespace_char(c) {
            rest.push(' ')
        } else {
            rest
        }
    }
}

/// The space-separated tokens of `s`, joined by `&`: spaces vanish, and a token that
/// follows an earlier one is preceded by a single `&`.
pub open spec fn joined(s: Seq<char>) -> Seq<char>
    decreases s.len(),
{
    if s.len() == 0 {
        Seq::empty()
    } else {
        let prev = s.drop_last();
        let rest = joined(prev);
        let c = s.last();
        if c == ' ' {
            rest
        } else if rest.len() > 0 && prev.last() == ' ' {
            rest.push('&').push(c)
        } else {
            rest.push(c)
        }
    }
}

/// Each run of one repeated operator shrinks to a single occurrence of it.
pub open spec fn collapsed(s: Seq<char>) -> Seq<char>
    decreases s.len(),
{
    if s.len() == 0 {
        Seq::empty()
    } else {
        let prev = s.drop_last();
        let c = s.last();
        if is_operator(c) && prev.len() > 0 && prev.last() == c {
            collapsed(prev)
        } else {
            collapsed(prev).push(c)
        }
    }
}

/// `s` without its leading operators.
pub open spec fn trim_leading(s: Seq<char>) -> Seq<char>
    decreases s.len(),
{
    if s.len() > 0 && is_operator(s[0]) {
        trim_leading(s.drop_first())
    } else {
        s
    }
}

/// `s` without its trailing operators.
pub open spec fn trim_trailing(s: Seq<char>) -> Seq<char>
    decreases s.len(),
{
    if s.len() > 0 && is_operator(s.last()) {
        trim_trailing(s.drop_last())
    } else {
        s
    }
}

/// The search expression for a phrase, before any prefix marker.
pub open spec fn expression_of(s: Seq<char>) -> Seq<char> {
    trim_trailing(trim_leading(collapsed(joined(cleaned(s)))))
}

/// The marker that asks for prefix matching of the last word.
pub open spec fn prefix_marker() -> Seq<char> {
    seq![':', '*']
}

pub open spec fn sanitized(s: Seq<char>, is_autocomp: bool) -> Seq<char> {
    if is_autocomp {
        expression_of(s) + prefix_marker()
    } else {
        expression_of(s)
    }
}

pub open spec fn all_kept(s: Seq<char>) -> bool {
    forall|i: int| 0 <= i < s.len() ==> is_kept(#[trigger] s[i])
}

pub open spec fn no_doubled_operator(s: Seq<char>) -> bool {
    forall|i: int| 0 <= i < s.len() - 1 ==> !(is_operator(#[trigger] s[i]) && s[i] == s[i + 1])
}

/// Neither end of `s` is an operator.
pub open spec fn operator_free_ends(s: Seq<char>) -> bool {
    s.len() > 0 ==> !is_operator(s[0]) && !is_operator(s.last())
}

proof fn lemma_cleaned_chars(s: Seq<char>)
    ensures
        forall|i: int|
            0 <= i < cleaned(s).len() ==> is_kept(#[trigger] cleaned(s)[i]) || cleaned(s)[i]
                == ' ',
    decreases s.len(),
{
    if s.len() > 0 {
        lemma_cleaned_chars(s.drop_last());
        let r = cleaned(s);
        let q = cleaned(s.drop_last());
        assert forall|i: int| 0 <= i < r.len() implies is_kept(#[trigger] r[i]) || r[i] == ' ' by {
            if i < q.len() {
                assert(r[i] == q[i]);
            }
        }
    }
}

proof fn lemma_joined_kept(s: Seq<char>)
    requires
        forall|i: int| 0 <= i < s.len() ==> is_kept(#[trigger] s[i]) || s[i] == ' ',
    ensures
        all_kept(joined(s)),
    decreases s.len(),
{
    if s.len() > 0 {
        let prev = s.drop_last();
        assert forall|i: int| 0 <= i < prev.len() implies is_kept(#[trigger] prev[i]) || prev[i]
            == ' ' by {
            assert(prev[i] == s[i]);
        }
        lemma_joined_kept(prev);
        assert(is_kept(s[s.len() - 1]) || s.last() == ' ');
    }
}

proof fn lemma_collapsed(s: Seq<char>)
    requires
        all_kept(s),
    ensures
        all_kept(collapsed(s)),
        no_doubled_operator(collapsed(s)),
        s.len() > 0 ==> collapsed(s).len() > 0 && collapsed(s).last() == s.last(),
    decreases s.len(),
{
    if s.len() > 0 {
        let prev = s.drop_last();
        assert(all_kept(prev)) by {
            assert forall|i: int| 0 <= i < prev.len() implies is_kept(#[trigger] prev[i]) by {
                assert(prev[i] == s[i]);
            }
        }
        lemma_collapsed(prev);
        let c = s.last();
        assert(is_kept(s[s.len() - 1]));
        let r = collapsed(s);
        let q = collapsed(prev);
        if !(is_operator(c) && prev.len() > 0 && prev.last() == c) {
            assert(r == q.push(c));
            assert forall|i: int| 0 <= i < r.len() - 1 implies !(is_operator(#[trigger] r[i])
                && r[i] == r[i + 1]) by {
                if i < q.len() - 1 {
                    assert(r[i] == q[i] && r[i + 1] == q[i + 1]);
                } else {
                    assert(r[i] == q.last() && r[i + 1] == c);
                }
            }
            assert forall|i: int| 0 <= i < r.len() implies is_kept(#[trigger] r[i]) by {
                if i < q.len() {
                    assert(r[i] == q[i]);
                }
            }
        }
    }
}

proof fn lemma_trim_leading(s: Seq<char>)
    requires
        all_kept(s),
        no_doubled_operator(s),
    ensures
        all_kept(trim_leading(s)),
        no_doubled_operator(trim_leading(s)),
        trim_leading(s).len() > 0 ==> !is_operator(trim_leading(s)[0]),
    decreases s.len(),
{
    if s.len() > 0 && is_operator(s[0]) {
        let t = s.drop_first();
        assert forall|i: int| 0 <= i < t.len() implies is_kept(#[trigger] t[i]) by {
            assert(t[i] == s[i + 1]);
        }
        assert forall|i: int| 0 <= i < t.len() - 1 implies !(is_operator(#[trigger] t[i]) && t[i]
            == t[i + 1]) by {
            assert(t[i] == s[i + 1] && t[i + 1] == s[i + 2]);
        }
        lemma_trim_leading(t);
    }
}

proof fn lemma_trim_trailing(s: Seq<char>)
    requires
        all_kept(s),
        no_doubled_operator(s),
        s.len() > 0 ==> !is_operator(s[0]),
    ensures
        all_kept(trim_trailing(s)),
        no_doubled_operator(trim_trailing(s)),
        operator_free_ends(trim_trailing(s)),
    decreases s.len(),
{
    if s.len() > 0 && is_operator(s.last()) {
        let t = s.drop_last();
        assert forall|i: int| 0 <= i < t.len() implies is_kept(#[trigger] t[i]) by {
            assert(t[i] == s[i]);
        }
        assert forall|i: int| 0 <= i < t.len() - 1 implies !(is_operator(#[trigger] t[i]) && t[i]
            == t[i + 1]) by {
            assert(t[i] == s[i] && t[i + 1] == s[i + 1]);
        }
        if t.len() > 0 {
            assert(t[0] == s[0]);
        }
        lemma_trim_trailing(t);
    }
}

/// Without the prefix marker, a search expression holds only ASCII letters, digits and the
/// operators `&`, `|`, `!`; no operator appears twice in a row; and it neither starts nor
/// ends with an operator.
pub proof fn lemma_sanitized_is_well_formed(p: Seq<char>)
    ensures
        all_kept(sanitized(p, false)),
        no_doubled_operator(sanitized(p, false)),
        operator_free_ends(sanitized(p, false)),
{
    lemma_cleaned_chars(p);
    lemma_joined_kept(cleaned(p));
    lemma_collapsed(joined(cleaned(p)));
    lemma_trim_leading(collapsed(joined(cleaned(p))));
    lemma_trim_trailing(trim_leading(collapsed(joined(cleaned(p)))));
}

fn clean_chars(v: &Vec<char>) -> (r: Vec<char>)
    ensures
        r@ == cleaned(v@),
{
    let mut r: Vec<char> = Vec::new();
    let mut i: usize = 0;
    while i < v.len()
        invariant
            i <= v@.len(),
            r@ == cleaned(v@.subrange(0, i as int)),
        decreases v.len() - i,
    {
        let c = v[i];
        assert(v@.subrange(0, i as int + 1).drop_last() =~= v@.subrange(0, i as int));
        if ('a' <= c && c <= 'z') || ('A' <= c && c <= 'Z') || ('0' <= c && c <= '9') || c == '&'
            || c == '|' || c == '!' {
            r.push(c);
        } else if is_whitespace(c) {
            r.push(' ');
        }
        i = i + 1;
    }
    assert(v@.subrange(0, v@.len() as int) =~= v@);
    r
}

fn join_tokens(v: &Vec<char>) -> (r: Vec<char>)
    ensures
        r@ == joined(v@),
{
    let mut r: Vec<char> = Vec::new();
    let mut i: usize = 0;
    while i < v.len()
        invariant
            i <= v@.len(),
            r@ == joined(v@.subrange(0, i as int)),
        decreases v.len() - i,
    {
        let c = v[i];
        assert(v@.subrange(0, i as int + 1).drop_last() =~= v@.subrange(0, i as int));
        if c != ' ' {
            if r.len() > 0 && v[i - 1] == ' ' {
                r.push('&');
            }
            r.push(c);
        }
        i = i + 1;
    }
    assert(v@.subrange(0, v@.len() as int) =~= v@);
    r
}

fn collapse_operators(v: &Vec<char>) -> (r: Vec<char>)
    ensures
        r@ == collapsed(v@),
{
    let mut r: Vec<char> = Vec::new();
    let mut i: usize = 0;
    while i < v.len()
        invariant
            i <= v@.len(),
            r@ == collapsed(v@.subrange(0, i as int)),
        decreases v.len() - i,
    {
        let c = v[i];
        assert(v@.subrange(0, i as int + 1).drop_last() =~= v@.subrange(0, i as int));
        if !((c == '&' || c == '|' || c == '!') && i > 0 && v[i - 1] == c) {
            r.push(c);
        }
        i = i + 1;
    }
    assert(v@.subrange(0, v@.len() as int) =~= v@);
    r
}

fn trim_operators(v: &Vec<char>) -> (r: Vec<char>)
    ensures
        r@ == trim_trailing(trim_leading(v@)),
{
    let n = v.len();
    let mut i: usize = 0;
    assert(v@.subrange(0, n as int) =~= v@);
    while i < n && (v[i] == '&' || v[i] == '|' || v[i] == '!')
        invariant
            n == v@.len(),
            i <= n,
            trim_leading(v@) == trim_leading(v@.subrange(i as int, n as int)),
        decreases n - i,
    {
        assert(v@.subrange(i as int, n as int).drop_first() =~= v@.subrange(i as int + 1, n as int));
        i = i + 1;
    }
    assert(trim_leading(v@) == v@.subrange(i as int, n as int));
    let mut j: usize = n;
    while j > i && (v[j - 1] == '&' || v[j - 1] == '|' || v[j - 1] == '!')
        invariant
            n == v@.len(),
            i <= j <= n,
            trim_trailing(v@.subrange(i as int, n as int)) == trim_trailing(
                v@.subrange(i as int, j as int),
            ),
        decreases j,
    {
        assert(v@.subrange(i as int, j as int).drop_last() =~= v@.subrange(i as int, j - 1));
        j = j - 1;
    }
    let mut r: Vec<char> = Vec::new();
    let mut k: usize = i;
    while k < j
        invariant
            n == v@.len(),
            i <= k <= j <= n,
            r@ == v@.subrange(i as int, k as int),
        decreases j - k,
    {
        r.push(v[k]);
        k = k + 1;
        assert(r@ =~= v@.subrange(i as int, k as int));
    }
    r
}

/// Turns a phrase into a search expression: see `sanitized`.
pub fn sanitize_tsquery(input: &str, is_autocomp: bool) -> (r: String)
    ensures
        r@ == sanitized(input@, is_autocomp),
{
    let v = chars_of(input);
    let v = clean_chars(&v);
    let v = join_tokens(&v);
    let v = collapse_operators(&v);
    let mut v = trim_operators(&v);
    if is_autocomp {
        v.push(':');
        v.push('*');
    }
    proof {
        if is_autocomp {
            assert(v@ =~= expression_of(input@) + prefix_marker());
        }
    }
    string_of(&v)
}

/// The search expression for autocompletion: the last word matches as a prefix.
pub fn ts_expression(phrase: &str) -> (r: String)
    ensures
        r@ == sanitized(phrase@, true),
{
    sanitize_tsquery(phrase, true)
}

/// The earlier search expression form: every lowercased word as a prefix term, the
/// terms joined by ` & `.
pub fn _ts_expression_old(phrase: &str) -> (r: String)
    ensures
        r@ == prefix_terms(lower_of(phrase@)),
{
    crate::connect::ts_expression(phrase)
}

} // verus!
