//! Credential extraction: parsing the authorization header.
//!
//! The header grammar is `Bearer <token>`: split the header value on
//! whitespace; the result must be exactly two words, the first of which is
//! the literal scheme name `Bearer` (case-sensitively); the second word is
//! the candidate token.  Every other shape — empty value, a different
//! scheme, one word, three or more words — yields no credential at all,
//! which the authentication guard later treats as "unauthenticated", never
//! as an error.

use vstd::prelude::*;

verus! {

/// The code points with the Unicode `White_Space` property, the separators
/// that whitespace splitting recognises.
pub open spec fn is_space(c: char) -> bool {
    c == '\u{0009}' || c == '\u{000A}' || c == '\u{000B}' || c == '\u{000C}'
        || c == '\u{000D}' || c == ' ' || c == '\u{0085}' || c == '\u{00A0}'
        || c == '\u{1680}' || c == '\u{2000}' || c == '\u{2001}' || c == '\u{2002}'
        || c == '\u{2003}' || c == '\u{2004}' || c == '\u{2005}' || c == '\u{2006}'
        || c == '\u{2007}' || c == '\u{2008}' || c == '\u{2009}' || c == '\u{200A}'
        || c == '\u{2028}' || c == '\u{2029}' || c == '\u{202F}' || c == '\u{205F}'
        || c == '\u{3000}'
}

/// Runtime test for [`is_space`].
pub fn char_is_space(c: char) -> (r: bool)
    ensures
        r == is_space(c),
{
    c == '\u{0009}' || c == '\u{000A}' || c == '\u{000B}' || c == '\u{000C}'
        || c == '\u{000D}' || c == ' ' || c == '\u{0085}' || c == '\u{00A0}'
        || c == '\u{1680}' || c == '\u{2000}' || c == '\u{2001}' || c == '\u{2002}'
        || c == '\u{2003}' || c == '\u{2004}' || c == '\u{2005}' || c == '\u{2006}'
        || c == '\u{2007}' || c == '\u{2008}' || c == '\u{2009}' || c == '\u{200A}'
        || c == '\u{2028}' || c == '\u{2029}' || c == '\u{202F}' || c == '\u{205F}'
        || c == '\u{3000}'
}

/// The longest whitespace-free prefix of `s`.
pub open spec fn head_word(s: Seq<char>) -> Seq<char>
    decreases s.len(),
{
    if s.len() == 0 || is_space(s[0]) {
        Seq::empty()
    } else {
        seq![s[0]] + head_word(s.skip(1))
    }
}

proof fn lemma_head_word_len(s: Seq<char>)
    ensures
        head_word(s).len() <= s.len(),
        s.len() > 0 && !is_space(s[0]) ==> head_word(s).len() >= 1,
    decreases s.len(),
{
    if s.len() > 0 && !is_space(s[0]) {
        lemma_head_word_len(s.skip(1));
    }
}

/// The maximal whitespace-free words of `s`, in order: what splitting on
/// whitespace yields.
pub open spec fn words(s: Seq<char>) -> Seq<Seq<char>>
    decreases s.len(),
    via words_decreases
{
    if s.len() == 0 {
        Seq::empty()
    } else if is_space(s[0]) {
        words(s.skip(1))
    } else {
        seq![head_word(s)] + words(s.skip(head_word(s).len() as int))
    }
}

#[via_fn]
proof fn words_decreases(s: Seq<char>) {
    if s.len() > 0 && !is_space(s[0]) {
        lemma_head_word_len(s);
    }
}

/// The scheme name that the header must carry.
pub open spec fn bearer_scheme() -> Seq<char> {
    "Bearer"@
}

/// What credential a header value denotes: the second word, provided the
/// value splits into exactly two words and the first is the scheme name.
pub open spec fn spec_credential(header: Seq<char>) -> Option<Seq<char>> {
    if words(header).len() == 2 && words(header)[0] == bearer_scheme() {
        Some(words(header)[1])
    } else {
        None
    }
}

/// Splitting ignores a whitespace prefix.
proof fn lemma_words_skip_spaces(s: Seq<char>, k: int)
    requires
        0 <= k <= s.len(),
        forall|i: int| 0 <= i < k ==> is_space(s[i]),
    ensures
        words(s.skip(k)) == words(s),
    decreases k,
{
    if k > 0 {
        lemma_words_skip_spaces(s.skip(1), k - 1);
        assert(s.skip(1).skip(k - 1) =~= s.skip(k));
    } else {
        assert(s.skip(0) =~= s);
    }
}

/// A whitespace-free run that ends at the string's end or at a space is the
/// head word.
proof fn lemma_head_word_run(s: Seq<char>, k: int)
    requires
        0 <= k <= s.len(),
        forall|i: int| 0 <= i < k ==> !is_space(s[i]),
        k == s.len() || is_space(s[k]),
    ensures
        head_word(s) == s.subrange(0, k),
    decreases k,
{
    if k == 0 {
        assert(head_word(s) =~= s.subrange(0, 0));
    } else {
        assert(forall|i: int| 0 <= i < k - 1 ==> !is_space(s.skip(1)[i]));
        lemma_head_word_run(s.skip(1), k - 1);
        assert(seq![s[0]] + s.skip(1).subrange(0, k - 1) =~= s.subrange(0, k));
    }
}

/// Peeling one full word off the front of the split.
proof fn lemma_words_step(s: Seq<char>, k: int)
    requires
        0 < k <= s.len(),
        forall|i: int| 0 <= i < k ==> !is_space(s[i]),
        k == s.len() || is_space(s[k]),
    ensures
        words(s) == seq![s.subrange(0, k)] + words(s.skip(k)),
{
    lemma_head_word_run(s, k);
}

/// Scan from `from` to the first character that is not whitespace.
fn scan_spaces(s: &str, from: usize, n: usize) -> (j: usize)
    requires
        n == s@.len(),
        from <= n,
    ensures
        from <= j <= n,
        forall|k: int| from <= k < j ==> is_space(s@[k]),
        j < n ==> !is_space(s@[j as int]),
{
    let mut j: usize = from;
    while j < n
        invariant
            n == s@.len(),
            from <= j <= n,
            forall|k: int| from <= k < j ==> is_space(s@[k]),
        decreases n - j,
    {
        if !char_is_space(s.get_char(j)) {
            return j;
        }
        j = j + 1;
    }
    j
}

/// Scan from `from` to the first whitespace character.
fn scan_word(s: &str, from: usize, n: usize) -> (j: usize)
    requires
        n == s@.len(),
        from <= n,
    ensures
        from <= j <= n,
        forall|k: int| from <= k < j ==> !is_space(s@[k]),
        j < n ==> is_space(s@[j as int]),
{
    let mut j: usize = from;
    while j < n
        invariant
            n == s@.len(),
            from <= j <= n,
            forall|k: int| from <= k < j ==> !is_space(s@[k]),
        decreases n - j,
    {
        if char_is_space(s.get_char(j)) {
            return j;
        }
        j = j + 1;
    }
    j
}

/// Parse an authorization header value into the candidate token it carries,
/// if any: the value must be exactly the scheme word `Bearer` followed by
/// one further word, under any amount of surrounding whitespace.
pub fn extract_credential(header: &str) -> (r: Option<String>)
    ensures
        match r {
            Some(t) => spec_credential(header@) == Some(t@),
            None => spec_credential(header@) is None,
        },
{
    let n = header.unicode_len();
    let ghost s = header@;
    let i0 = scan_spaces(header, 0, n);
    proof {
        lemma_words_skip_spaces(s, i0 as int);
    }
    if i0 == n {
        proof {
            assert(s.skip(n as int) =~= Seq::empty());
        }
        return None;
    }
    let j0 = scan_word(header, i0, n);
    proof {
        assert(forall|i: int| 0 <= i < j0 - i0 ==> !is_space(s.skip(i0 as int)[i]));
        lemma_words_step(s.skip(i0 as int), j0 - i0);
        assert(s.skip(i0 as int).subrange(0, j0 - i0) =~= s.subrange(i0 as int, j0 as int));
        assert(s.skip(i0 as int).skip(j0 - i0) =~= s.skip(j0 as int));
    }
    let i1 = scan_spaces(header, j0, n);
    proof {
        assert(forall|i: int| 0 <= i < i1 - j0 ==> is_space(s.skip(j0 as int)[i]));
        lemma_words_skip_spaces(s.skip(j0 as int), i1 - j0);
        assert(s.skip(j0 as int).skip(i1 - j0) =~= s.skip(i1 as int));
    }
    if i1 == n {
        proof {
            assert(s.skip(n as int) =~= Seq::empty());
            assert(words(s).len() == 1);
        }
        return None;
    }
    let j1 = scan_word(header, i1, n);
    proof {
        assert(forall|i: int| 0 <= i < j1 - i1 ==> !is_space(s.skip(i1 as int)[i]));
        lemma_words_step(s.skip(i1 as int), j1 - i1);
        assert(s.skip(i1 as int).subrange(0, j1 - i1) =~= s.subrange(i1 as int, j1 as int));
        assert(s.skip(i1 as int).skip(j1 - i1) =~= s.skip(j1 as int));
    }
    let i2 = scan_spaces(header, j1, n);
    proof {
        assert(forall|i: int| 0 <= i < i2 - j1 ==> is_space(s.skip(j1 as int)[i]));
        lemma_words_skip_spaces(s.skip(j1 as int), i2 - j1);
        assert(s.skip(j1 as int).skip(i2 - j1) =~= s.skip(i2 as int));
    }
    if i2 != n {
        proof {
            let t = s.skip(i2 as int);
            assert(t.len() > 0 && !is_space(t[0]));
            assert(words(t).len() >= 1);
            assert(words(s).len() >= 3);
        }
        return None;
    }
    proof {
        assert(s.skip(n as int) =~= Seq::empty());
        assert(words(s) =~= seq![s.subrange(i0 as int, j0 as int), s.subrange(i1 as int, j1 as int)]);
    }
    let scheme = header.substring_char(i0, j0);
    let scheme_matches = String::from_str(scheme) == String::from_str("Bearer");
    if scheme_matches {
        Some(String::from_str(header.substring_char(i1, j1)))
    } else {
        None
    }
}

} // verus!
