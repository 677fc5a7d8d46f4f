//! Line and token handling shared by every backend grammar.

use vstd::prelude::*;
use vstd::string::*;

verus! {

/// Whitespace as the backend line grammars know it: the ASCII blank
/// characters that the backends' tabular output uses.
pub open spec fn is_ws(c: char) -> bool {
    c == ' ' || c == '\t' || c == '\n' || c == '\r' || c == '\u{b}' || c == '\u{c}'
}

/// Executable test for the whitespace class.
pub fn is_ws_char(c: char) -> (r: bool)
    ensures
        r == is_ws(c),
{
    c == ' ' || c == '\t' || c == '\n' || c == '\r' || c == '\u{b}' || c == '\u{c}'
}

/// A string with every run of whitespace collapsed to a single space.
pub open spec fn norm(s: Seq<char>) -> Seq<char>
    decreases s.len(),
{
    if s.len() == 0 {
        Seq::empty()
    } else if is_ws(s[0]) && s.len() > 1 && is_ws(s[1]) {
        norm(s.drop_first())
    } else if is_ws(s[0]) {
        seq![' '] + norm(s.drop_first())
    } else {
        seq![s[0]] + norm(s.drop_first())
    }
}

/// Collapses every run of consecutive whitespace characters to a single
/// space, leaving all other characters as they are.
pub fn reduce_whitespace(s: &str) -> (r: String)
    ensures
        r@ == norm(s@),
{
    let ghost gs = s@;
    let n = s.unicode_len();
    let mut r = String::new();
    let mut i: usize = 0;
    proof {
        assert(gs.subrange(0, n as int) =~= gs);
        assert(r@ + norm(gs) =~= norm(gs));
    }
    while i < n
        invariant
            n == gs.len(),
            s@ == gs,
            i <= n,
            norm(gs) == r@ + norm(gs.subrange(i as int, n as int)),
        decreases n - i,
    {
        let c = s.get_char(i);
        if is_ws_char(c) {
            let mut j: usize = i;
            while j + 1 < n && is_ws_char(s.get_char(j + 1))
                invariant
                    n == gs.len(),
                    s@ == gs,
                    i <= j < n,
                    is_ws(gs[j as int]),
                    norm(gs.subrange(i as int, n as int)) == norm(
                        gs.subrange(j as int, n as int),
                    ),
                decreases n - j,
            {
                proof {
                    assert(gs.subrange(j as int, n as int).drop_first() =~= gs.subrange(
                        j + 1,
                        n as int,
                    ));
                }
                j = j + 1;
            }
            proof {
                assert(gs.subrange(j as int, n as int).drop_first() =~= gs.subrange(
                    j + 1,
                    n as int,
                ));
                reveal_strlit(" ");
                assert(" "@ =~= seq![' ']);
            }
            r.append(" ");
            proof {
                assert(r@ + norm(gs.subrange(j + 1, n as int)) =~= norm(gs));
            }
            i = j + 1;
        } else {
            proof {
                assert(gs.subrange(i as int, n as int).drop_first() =~= gs.subrange(
                    i + 1,
                    n as int,
                ));
                assert(seq![gs[i as int]] =~= gs.subrange(i as int, n as int).subrange(0, 1));
            }
            let sub = s.substring_char(i, i + 1);
            r.append(sub);
            proof {
                assert(r@ + norm(gs.subrange(i + 1, n as int)) =~= norm(gs));
            }
            i = i + 1;
        }
    }
    proof {
        assert(gs.subrange(n as int, n as int) =~= Seq::<char>::empty());
        assert(r@ =~= r@ + norm(gs.subrange(n as int, n as int)));
    }
    r
}

/// The whitespace class as a value, so that every mention of the
/// tokenizer's separator is one and the same function.
pub open spec fn ws_pred() -> spec_fn(char) -> bool {
    |c: char| is_ws(c)
}

/// The line separator as a value.
pub open spec fn nl_pred() -> spec_fn(char) -> bool {
    |c: char| c == '\n'
}

/// The maximal runs of non-separator characters of `s`, in order.  With
/// the newline as separator these are the non-empty lines of a captured
/// output; with whitespace they are the tokens of a line.
pub open spec fn segments(s: Seq<char>, sep: spec_fn(char) -> bool) -> Seq<Seq<char>>
    decreases s.len(),
{
    if s.len() == 0 {
        Seq::empty()
    } else if sep(s[0]) {
        segments(s.drop_first(), sep)
    } else {
        let rest = segments(s.drop_first(), sep);
        if s.len() > 1 && !sep(s[1]) {
            seq![seq![s[0]] + rest[0]] + rest.drop_first()
        } else {
            seq![seq![s[0]]] + rest
        }
    }
}

/// The whitespace-delimited tokens of a line.
pub open spec fn tokens(s: Seq<char>) -> Seq<Seq<char>> {
    segments(s, ws_pred())
}

/// The non-empty lines of a captured output.
pub open spec fn lines(s: Seq<char>) -> Seq<Seq<char>> {
    segments(s, nl_pred())
}

/// The first whitespace-delimited token of a line, or the empty string
/// when the line has none.
pub open spec fn first_token(s: Seq<char>) -> Seq<char> {
    if tokens(s).len() == 0 {
        Seq::empty()
    } else {
        tokens(s)[0]
    }
}

/// The views of a vector of strings, as one sequence of sequences.
pub open spec fn views(v: Seq<String>) -> Seq<Seq<char>> {
    v.map_values(|t: String| t@)
}

/// A leading separator contributes no segment.
pub proof fn lemma_segments_skip(s: Seq<char>, sep: spec_fn(char) -> bool, i: int)
    requires
        0 <= i < s.len(),
        sep(s[i]),
    ensures
        segments(s.subrange(i, s.len() as int), sep) == segments(
            s.subrange(i + 1, s.len() as int),
            sep,
        ),
{
    let n = s.len() as int;
    assert(s.subrange(i, n).drop_first() =~= s.subrange(i + 1, n));
}

/// A maximal run of non-separator characters is one whole segment.
pub proof fn lemma_segments_run(s: Seq<char>, sep: spec_fn(char) -> bool, i: int, j: int)
    requires
        0 <= i < j <= s.len(),
        forall|k: int| i <= k < j ==> !sep(s[k]),
        j == s.len() || sep(s[j]),
    ensures
        segments(s.subrange(i, s.len() as int), sep) == seq![s.subrange(i, j)] + segments(
            s.subrange(j, s.len() as int),
            sep,
        ),
    decreases j - i,
{
    let n = s.len() as int;
    let t = s.subrange(i, n);
    assert(t.drop_first() =~= s.subrange(i + 1, n));
    if i + 1 == j {
        assert(seq![t[0]] =~= s.subrange(i, j));
        if j == n {
            assert(segments(t, sep) =~~= seq![s.subrange(i, j)] + segments(
                s.subrange(j, n),
                sep,
            ));
        } else {
            assert(sep(t[1]));
            assert(segments(t, sep) =~~= seq![s.subrange(i, j)] + segments(
                s.subrange(j, n),
                sep,
            ));
        }
    } else {
        lemma_segments_run(s, sep, i + 1, j);
        let rest = segments(s.subrange(i + 1, n), sep);
        assert(rest == seq![s.subrange(i + 1, j)] + segments(s.subrange(j, n), sep));
        assert(rest[0] == s.subrange(i + 1, j));
        assert(rest.drop_first() =~= segments(s.subrange(j, n), sep));
        assert(seq![t[0]] + rest[0] =~= s.subrange(i, j));
        assert(!sep(t[1]));
        assert(segments(t, sep) =~~= seq![s.subrange(i, j)] + segments(s.subrange(j, n), sep));
    }
}

/// Splits a line into its whitespace-delimited tokens.
pub fn tokenize(s: &str) -> (r: Vec<String>)
    ensures
        views(r@) == tokens(s@),
{
    let ghost gs = s@;
    let n = s.unicode_len();
    let mut r: Vec<String> = Vec::new();
    let mut i: usize = 0;
    proof {
        assert(gs.subrange(0, n as int) =~= gs);
        assert(views(r@) + segments(gs, ws_pred()) =~= segments(gs, ws_pred()));
    }
    while i < n
        invariant
            n == gs.len(),
            s@ == gs,
            i <= n,
            segments(gs, ws_pred()) == views(r@) + segments(
                gs.subrange(i as int, n as int),
                ws_pred(),
            ),
        decreases n - i,
    {
        let c = s.get_char(i);
        if is_ws_char(c) {
            proof {
                let sep = ws_pred();
                assert(sep(gs[i as int]));
                lemma_segments_skip(gs, ws_pred(), i as int);
            }
            i = i + 1;
        } else {
            let mut j = i + 1;
            while j < n && !is_ws_char(s.get_char(j))
                invariant
                    n == gs.len(),
                    s@ == gs,
                    i < j <= n,
                    forall|k: int| i <= k < j ==> !is_ws(gs[k]),
                decreases n - j,
            {
                j = j + 1;
            }
            let tok = String::from_str(s.substring_char(i, j));
            proof {
                let sep = ws_pred();
                assert(forall|k: int| i <= k < j ==> !sep(gs[k]));
                assert(j == n || sep(gs[j as int]));
                lemma_segments_run(gs, ws_pred(), i as int, j as int);
            }
            let ghost r0 = r@;
            r.push(tok);
            proof {
                assert(views(r@) =~= views(r0) + seq![tok@]);
                assert(views(r@) + segments(gs.subrange(j as int, n as int), ws_pred())
                    =~= segments(gs, ws_pred()));
            }
            i = j;
        }
    }
    proof {
        assert(gs.subrange(n as int, n as int) =~= Seq::<char>::empty());
        assert(views(r@) =~= views(r@) + segments(gs.subrange(n as int, n as int), ws_pred()));
    }
    r
}

/// Reads a captured output: rejects empty output, and otherwise hands
/// back its non-empty lines.
pub fn check_output(raw: &str) -> (r: Option<Vec<String>>)
    ensures
        match r {
            Option::Some(v) => raw@.len() > 0 && views(v@) == lines(raw@),
            Option::None => raw@.len() == 0,
        },
{
    let ghost gs = raw@;
    let n = raw.unicode_len();
    if n == 0 {
        return Option::None;
    }
    let mut r: Vec<String> = Vec::new();
    let mut i: usize = 0;
    proof {
        assert(gs.subrange(0, n as int) =~= gs);
        assert(views(r@) + segments(gs, nl_pred()) =~= segments(gs, nl_pred()));
    }
    while i < n
        invariant
            n == gs.len(),
            raw@ == gs,
            i <= n,
            segments(gs, nl_pred()) == views(r@) + segments(
                gs.subrange(i as int, n as int),
                nl_pred(),
            ),
        decreases n - i,
    {
        let c = raw.get_char(i);
        if c == '\n' {
            proof {
                let sep = nl_pred();
                assert(sep(gs[i as int]));
                lemma_segments_skip(gs, nl_pred(), i as int);
            }
            i = i + 1;
        } else {
            let mut j = i + 1;
            while j < n && raw.get_char(j) != '\n'
                invariant
                    n == gs.len(),
                    raw@ == gs,
                    i < j <= n,
                    forall|k: int| i <= k < j ==> gs[k] != '\n',
                decreases n - j,
            {
                j = j + 1;
            }
            let line = String::from_str(raw.substring_char(i, j));
            proof {
                let sep = nl_pred();
                assert(forall|k: int| i <= k < j ==> !sep(gs[k]));
                assert(j == n || sep(gs[j as int]));
                lemma_segments_run(gs, nl_pred(), i as int, j as int);
            }
            let ghost r0 = r@;
            r.push(line);
            proof {
                assert(views(r@) =~= views(r0) + seq![line@]);
                assert(views(r@) + segments(gs.subrange(j as int, n as int), nl_pred())
                    =~= segments(gs, nl_pred()));
            }
            i = j;
        }
    }
    proof {
        assert(gs.subrange(n as int, n as int) =~= Seq::<char>::empty());
        assert(views(r@) =~= views(r@) + segments(gs.subrange(n as int, n as int), nl_pred()));
    }
    Option::Some(r)
}

proof fn lemma_norm_head(s: Seq<char>)
    requires
        s.len() > 0,
    ensures
        norm(s).len() > 0,
        is_ws(norm(s)[0]) == is_ws(s[0]),
    decreases s.len(),
{
    if is_ws(s[0]) && s.len() > 1 && is_ws(s[1]) {
        lemma_norm_head(s.drop_first());
    }
}

/// Collapsing runs of whitespace first changes no tokens: the
/// tokenizer reads the same columns from a line and from its
/// normalized form.
pub proof fn law_norm_preserves_tokens(s: Seq<char>)
    ensures
        tokens(norm(s)) == tokens(s),
    decreases s.len(),
{
    let sep = ws_pred();
    if s.len() == 0 {
        assert(norm(s) =~= s);
    } else {
        let d = s.drop_first();
        law_norm_preserves_tokens(d);
        if is_ws(s[0]) && s.len() > 1 && is_ws(s[1]) {
            assert(sep(s[0]));
        } else if is_ws(s[0]) {
            assert((seq![' '] + norm(d)).drop_first() =~= norm(d));
            assert(sep(' '));
            assert(sep(s[0]));
        } else {
            let nd = norm(d);
            if d.len() == 0 {
                assert(norm(s) =~= s);
            } else {
                lemma_norm_head(d);
                assert(norm(s)[0] == s[0]);
                assert(norm(s).drop_first() =~= nd);
                assert(norm(s).len() == 1 + nd.len());
                assert(norm(s)[1] == nd[0]);
                assert(d[0] == s[1]);
                assert(!sep(norm(s)[0]));
                assert(!sep(s[0]));
                assert(sep(norm(s)[1]) == sep(s[1]));
                assert(segments(norm(s), sep) =~~= segments(s, sep));
            }
        }
    }
}

/// Whether `nd` occurs as a contiguous substring of `h`.
pub open spec fn has_sub(h: Seq<char>, nd: Seq<char>) -> bool {
    exists|i: int|
        0 <= i && i + nd.len() <= h.len() && #[trigger] h.subrange(i, i + nd.len() as int) == nd
}

/// Substring search.
pub fn contains_sub(h: &str, nd: &str) -> (r: bool)
    ensures
        r == has_sub(h@, nd@),
{
    let hl = h.unicode_len();
    let nl = nd.unicode_len();
    if nl > hl {
        return false;
    }
    let mut i: usize = 0;
    while i <= hl - nl
        invariant
            nl <= hl,
            hl == h@.len(),
            nl == nd@.len(),
            i <= hl - nl + 1,
            forall|x: int|
                0 <= x < i ==> #[trigger] h@.subrange(x, x + nd@.len() as int) != nd@,
        decreases hl - nl - i + 1,
    {
        let mut k: usize = 0;
        while k < nl && h.get_char(i + k) == nd.get_char(k)
            invariant
                nl <= hl,
                hl == h@.len(),
                nl == nd@.len(),
                i + nl <= hl,
                k <= nl,
                forall|y: int| 0 <= y < k ==> h@[i + y] == nd@[y],
            decreases nl - k,
        {
            k = k + 1;
        }
        if k == nl {
            proof {
                assert(h@.subrange(i as int, i + nl as int) =~= nd@);
            }
            return true;
        }
        proof {
            assert(h@.subrange(i as int, i + nd@.len() as int) != nd@) by {
                assert(h@.subrange(i as int, i + nd@.len() as int)[k as int] != nd@[k as int]);
            }
        }
        i = i + 1;
    }
    false
}

/// Prefix test.
pub fn starts_with_str(s: &str, p: &str) -> (r: bool)
    ensures
        r == p@.is_prefix_of(s@),
{
    let sl = s.unicode_len();
    let pl = p.unicode_len();
    if pl > sl {
        return false;
    }
    let mut k: usize = 0;
    while k < pl
        invariant
            pl <= sl,
            sl == s@.len(),
            pl == p@.len(),
            k <= pl,
            forall|y: int| 0 <= y < k ==> s@[y] == p@[y],
        decreases pl - k,
    {
        if s.get_char(k) != p.get_char(k) {
            return false;
        }
        k = k + 1;
    }
    proof {
        assert(p@ =~= s@.subrange(0, p@.len() as int));
    }
    true
}

/// Character-for-character string equality.
pub fn str_eq(a: &str, b: &str) -> (r: bool)
    ensures
        r == (a@ == b@),
{
    let al = a.unicode_len();
    let bl = b.unicode_len();
    if al != bl {
        return false;
    }
    let mut k: usize = 0;
    while k < al
        invariant
            al == a@.len(),
            al == b@.len(),
            k <= al,
            forall|y: int| 0 <= y < k ==> a@[y] == b@[y],
        decreases al - k,
    {
        if a.get_char(k) != b.get_char(k) {
            return false;
        }
        k = k + 1;
    }
    proof {
        assert(a@ =~= b@);
    }
    true
}

/// Whether a line's first whitespace-delimited token is exactly `name`.
pub fn first_token_matches(line: &str, name: &str) -> (r: bool)
    ensures
        r == (tokens(line@).len() > 0 && tokens(line@)[0] == name@),
{
    let toks = tokenize(line);
    if toks.len() == 0 {
        false
    } else {
        let r = str_eq(toks[0].as_str(), name);
        proof {
            assert(views(toks@)[0] == toks@[0]@);
        }
        r
    }
}

/// Whether some line of `ls` has `nd` as a substring.
pub open spec fn any_line_has(ls: Seq<Seq<char>>, nd: Seq<char>) -> bool {
    exists|i: int| 0 <= i < ls.len() && has_sub(#[trigger] ls[i], nd)
}

/// Scans the lines for one that has `nd` as a substring.
pub fn some_line_contains(ls: &Vec<String>, nd: &str) -> (r: bool)
    ensures
        r == any_line_has(views(ls@), nd@),
{
    let mut i: usize = 0;
    while i < ls.len()
        invariant
            i <= ls@.len(),
            forall|k: int| 0 <= k < i ==> !has_sub(#[trigger] views(ls@)[k], nd@),
        decreases ls@.len() - i,
    {
        if contains_sub(ls[i].as_str(), nd) {
            proof {
                assert(views(ls@)[i as int] == ls@[i as int]@);
                assert(has_sub(views(ls@)[i as int], nd@));
            }
            return true;
        }
        proof {
            assert(views(ls@)[i as int] == ls@[i as int]@);
        }
        i = i + 1;
    }
    false
}

/// Whether some line's first whitespace-delimited token is exactly `name`.
pub open spec fn any_first_token(ls: Seq<Seq<char>>, name: Seq<char>) -> bool {
    exists|i: int| 0 <= i < ls.len() && first_token(#[trigger] ls[i]) == name
}

/// Scans the lines for one whose first token is exactly `name`.
pub fn some_line_first_token(ls: &Vec<String>, name: &str) -> (r: bool)
    requires
        name@.len() > 0,
    ensures
        r == any_first_token(views(ls@), name@),
{
    let mut i: usize = 0;
    while i < ls.len()
        invariant
            name@.len() > 0,
            i <= ls@.len(),
            forall|k: int| 0 <= k < i ==> first_token(#[trigger] views(ls@)[k]) != name@,
        decreases ls@.len() - i,
    {
        if first_token_matches(ls[i].as_str(), name) {
            proof {
                assert(views(ls@)[i as int] == ls@[i as int]@);
                assert(first_token(views(ls@)[i as int]) == name@);
            }
            return true;
        }
        proof {
            assert(views(ls@)[i as int] == ls@[i as int]@);
        }
        i = i + 1;
    }
    false
}

/// The part of `s` before the first `sep`, paired with the part after it;
/// nothing when `sep` does not occur.
pub open spec fn split_once_spec(s: Seq<char>, sep: char) -> Option<(Seq<char>, Seq<char>)>
    decreases s.len(),
{
    if s.len() == 0 {
        Option::None
    } else if s[0] == sep {
        Option::Some((Seq::empty(), s.drop_first()))
    } else {
        match split_once_spec(s.drop_first(), sep) {
            Option::None => Option::None,
            Option::Some(p) => Option::Some((seq![s[0]] + p.0, p.1)),
        }
    }
}

proof fn lemma_split_once_found(s: Seq<char>, sep: char, j: int)
    requires
        0 <= j < s.len(),
        s[j] == sep,
        forall|k: int| 0 <= k < j ==> s[k] != sep,
    ensures
        split_once_spec(s, sep) == Option::Some(
            (s.subrange(0, j), s.subrange(j + 1, s.len() as int)),
        ),
    decreases j,
{
    let n = s.len() as int;
    assert(s.drop_first() =~= s.subrange(1, n));
    if j == 0 {
        assert(s.subrange(0, 0) =~= Seq::<char>::empty());
        assert(s.drop_first() =~= s.subrange(1, n));
    } else {
        let d = s.subrange(1, n);
        lemma_split_once_found(d, sep, j - 1);
        assert(d.subrange(0, j - 1) =~= s.subrange(1, j));
        assert(d.subrange(j, d.len() as int) =~= s.subrange(j + 1, n));
        assert(seq![s[0]] + s.subrange(1, j) =~= s.subrange(0, j));
    }
}

proof fn lemma_split_once_none(s: Seq<char>, sep: char)
    requires
        forall|k: int| 0 <= k < s.len() ==> s[k] != sep,
    ensures
        split_once_spec(s, sep) is None,
    decreases s.len(),
{
    if s.len() > 0 {
        lemma_split_once_none(s.drop_first(), sep);
    }
}

/// Splits at the first occurrence of `sep`.
pub fn split_once_char(s: &str, sep: char) -> (r: Option<(String, String)>)
    ensures
        match r {
            Option::Some(p) => split_once_spec(s@, sep) == Option::Some((p.0@, p.1@)),
            Option::None => split_once_spec(s@, sep) is None,
        },
{
    let n = s.unicode_len();
    let mut j: usize = 0;
    while j < n && s.get_char(j) != sep
        invariant
            n == s@.len(),
            j <= n,
            forall|k: int| 0 <= k < j ==> s@[k] != sep,
        decreases n - j,
    {
        j = j + 1;
    }
    if j == n {
        proof {
            lemma_split_once_none(s@, sep);
        }
        Option::None
    } else {
        let a = String::from_str(s.substring_char(0, j));
        let b = String::from_str(s.substring_char(j + 1, n));
        proof {
            lemma_split_once_found(s@, sep, j as int);
        }
        Option::Some((a, b))
    }
}

/// Every `sep`-delimited field of `s`, empty fields included.
pub open spec fn split_all(s: Seq<char>, sep: char) -> Seq<Seq<char>>
    decreases s.len(),
{
    if s.len() == 0 {
        seq![Seq::empty()]
    } else if s[0] == sep {
        seq![Seq::empty()] + split_all(s.drop_first(), sep)
    } else {
        let rest = split_all(s.drop_first(), sep);
        seq![seq![s[0]] + rest[0]] + rest.drop_first()
    }
}

proof fn lemma_split_all_run(s: Seq<char>, sep: char, i: int, j: int)
    requires
        0 <= i <= j <= s.len(),
        forall|k: int| i <= k < j ==> s[k] != sep,
        j == s.len() || s[j] == sep,
    ensures
        j == s.len() ==> split_all(s.subrange(i, s.len() as int), sep) == seq![s.subrange(i, j)],
        j < s.len() ==> split_all(s.subrange(i, s.len() as int), sep) == seq![s.subrange(i, j)]
            + split_all(s.subrange(j + 1, s.len() as int), sep),
    decreases j - i,
{
    let n = s.len() as int;
    let t = s.subrange(i, n);
    if i == j {
        if j == n {
            assert(t =~= Seq::<char>::empty());
            assert(split_all(t, sep) =~~= seq![s.subrange(i, j)]);
        } else {
            assert(t.drop_first() =~= s.subrange(j + 1, n));
            assert(t[0] == sep);
            assert(split_all(t, sep) =~~= seq![s.subrange(i, j)] + split_all(
                s.subrange(j + 1, n),
                sep,
            ));
        }
    } else {
        assert(t.drop_first() =~= s.subrange(i + 1, n));
        lemma_split_all_run(s, sep, i + 1, j);
        let rest = split_all(s.subrange(i + 1, n), sep);
        if j == n {
            assert(rest == seq![s.subrange(i + 1, j)]);
            assert(seq![t[0]] + rest[0] =~= s.subrange(i, j));
            assert(rest.drop_first() =~= Seq::<Seq<char>>::empty());
            assert(split_all(t, sep) =~~= seq![s.subrange(i, j)]);
        } else {
            assert(rest == seq![s.subrange(i + 1, j)] + split_all(s.subrange(j + 1, n), sep));
            assert(rest[0] == s.subrange(i + 1, j));
            assert(seq![t[0]] + rest[0] =~= s.subrange(i, j));
            assert(rest.drop_first() =~= split_all(s.subrange(j + 1, n), sep));
            assert(split_all(t, sep) =~~= seq![s.subrange(i, j)] + split_all(
                s.subrange(j + 1, n),
                sep,
            ));
        }
    }
}

/// Splits on every occurrence of `sep`, keeping empty fields.
pub fn split_on_char(s: &str, sep: char) -> (r: Vec<String>)
    ensures
        views(r@) == split_all(s@, sep),
{
    let ghost gs = s@;
    let n = s.unicode_len();
    let mut r: Vec<String> = Vec::new();
    let mut i: usize = 0;
    proof {
        assert(gs.subrange(0, n as int) =~= gs);
    }
    loop
        invariant_except_break
            split_all(gs, sep) == views(r@) + split_all(gs.subrange(i as int, n as int), sep),
        invariant
            n == gs.len(),
            s@ == gs,
            i <= n,
        ensures
            views(r@) == split_all(gs, sep),
        decreases n - i,
    {
        let mut j = i;
        while j < n && s.get_char(j) != sep
            invariant
                n == gs.len(),
                s@ == gs,
                i <= j <= n,
                forall|k: int| i <= k < j ==> gs[k] != sep,
            decreases n - j,
        {
            j = j + 1;
        }
        let field = String::from_str(s.substring_char(i, j));
        proof {
            lemma_split_all_run(gs, sep, i as int, j as int);
        }
        let ghost r0 = r@;
        r.push(field);
        proof {
            assert(views(r@) =~= views(r0) + seq![field@]);
        }
        if j == n {
            proof {
                assert(views(r@) =~~= split_all(gs, sep));
            }
            break;
        }
        proof {
            assert(views(r@) + split_all(gs.subrange(j + 1, n as int), sep) =~~= split_all(
                gs,
                sep,
            ));
        }
        i = j + 1;
    }
    r
}

/// The fields of `ts` joined with `sep` between neighbours.
pub open spec fn join_sep(ts: Seq<Seq<char>>, sep: Seq<char>) -> Seq<char>
    decreases ts.len(),
{
    if ts.len() == 0 {
        Seq::empty()
    } else if ts.len() == 1 {
        ts[0]
    } else {
        ts[0] + sep + join_sep(ts.drop_first(), sep)
    }
}

proof fn lemma_join_push(ts: Seq<Seq<char>>, x: Seq<char>, sep: Seq<char>)
    requires
        ts.len() >= 1,
    ensures
        join_sep(ts.push(x), sep) == join_sep(ts, sep) + sep + x,
    decreases ts.len(),
{
    if ts.len() == 1 {
        assert(ts.push(x).drop_first() =~= seq![x]);
        assert(join_sep(seq![x], sep) == x);
        assert(join_sep(ts.push(x), sep) =~= join_sep(ts, sep) + sep + x);
    } else {
        lemma_join_push(ts.drop_first(), x, sep);
        assert(ts.push(x).drop_first() =~= ts.drop_first().push(x));
        assert(join_sep(ts.push(x), sep) =~= join_sep(ts, sep) + sep + x);
    }
}

/// Joins the fields of `v` from position `from` on, with `sep` between
/// neighbours.
pub fn join_from(v: &Vec<String>, from: usize, sep: &str) -> (r: String)
    requires
        from <= v@.len(),
    ensures
        r@ == join_sep(views(v@).skip(from as int), sep@),
{
    let n = v.len();
    if from == n {
        proof {
            assert(views(v@).skip(from as int) =~= Seq::<Seq<char>>::empty());
        }
        return String::new();
    }
    let mut r = String::from_str(v[from].as_str());
    let mut i = from + 1;
    proof {
        assert(views(v@).subrange(from as int, (from + 1) as int) =~= seq![v@[from as int]@]);
        assert(r@ == join_sep(views(v@).subrange(from as int, (from + 1) as int), sep@));
    }
    while i < n
        invariant
            n == v@.len(),
            from < i <= n,
            r@ == join_sep(views(v@).subrange(from as int, i as int), sep@),
        decreases n - i,
    {
        r.append(sep);
        r.append(v[i].as_str());
        proof {
            let vs = views(v@);
            lemma_join_push(vs.subrange(from as int, i as int), vs[i as int], sep@);
            assert(vs.subrange(from as int, i as int).push(vs[i as int]) =~= vs.subrange(
                from as int,
                i + 1,
            ));
        }
        i = i + 1;
    }
    proof {
        assert(views(v@).subrange(from as int, n as int) =~= views(v@).skip(from as int));
    }
    r
}

/// The version note of a report line: the locally installed version
/// alone when it equals the backend's latest, else `local -> latest`.
pub open spec fn version_note(local: Seq<char>, latest: Seq<char>) -> Seq<char> {
    if local == latest {
        local
    } else {
        local + " -> "@ + latest
    }
}

/// Builds the version note.
pub fn merged_version(local: &str, latest: &str) -> (r: String)
    ensures
        r@ == version_note(local@, latest@),
{
    if str_eq(local, latest) {
        String::from_str(local)
    } else {
        String::from_str(local).concat(" -> ").concat(latest)
    }
}

} // verus!
