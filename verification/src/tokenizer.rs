//! Splitting a document into tokens.
//!
//! A QFX document is cut into fragments at every `<` and `>` character; each
//! fragment is trimmed of surrounding ASCII whitespace and dropped when
//! nothing remains.  No escaping is recognized, so `<` or `>` inside a leaf
//! value is indistinguishable from a structural delimiter; this is an
//! accepted limitation of the format.  Tokenization itself never fails: an
//! exhausted stream is observed by the decoder as ordinary end of input.

use vstd::prelude::*;

verus! {

/// The two characters that delimit tags and values.
pub open spec fn is_tag_delim(c: char) -> bool {
    c == '<' || c == '>'
}

/// ASCII whitespace, stripped from both ends of every fragment.
pub open spec fn is_space(c: char) -> bool {
    c == ' ' || c == '\t' || c == '\n' || c == '\r' || c == '\u{b}' || c == '\u{c}'
}

fn is_space_char(c: char) -> (r: bool)
    ensures
        r == is_space(c),
{
    c == ' ' || c == '\t' || c == '\n' || c == '\r' || c == '\u{b}' || c == '\u{c}'
}

/// A fragment with its leading whitespace removed.
pub open spec fn spec_trim_start(s: Seq<char>) -> Seq<char>
    decreases s.len(),
{
    if s.len() > 0 && is_space(s[0]) {
        spec_trim_start(s.subrange(1, s.len() as int))
    } else {
        s
    }
}

/// A fragment with its trailing whitespace removed.
pub open spec fn spec_trim_end(s: Seq<char>) -> Seq<char>
    decreases s.len(),
{
    if s.len() > 0 && is_space(s[s.len() - 1]) {
        spec_trim_end(s.subrange(0, s.len() - 1))
    } else {
        s
    }
}

/// A fragment with whitespace removed from both ends.
pub open spec fn spec_trim(s: Seq<char>) -> Seq<char> {
    spec_trim_end(spec_trim_start(s))
}

/// The token a trimmed fragment contributes: itself when non-empty, nothing
/// otherwise.
pub open spec fn spec_fragment_tokens(frag: Seq<char>) -> Seq<Seq<char>> {
    let t = spec_trim(frag);
    if t.len() > 0 {
        seq![t]
    } else {
        Seq::<Seq<char>>::empty()
    }
}

/// The tokens of `s` from position `i` on, given that the characters of the
/// current fragment read so far are `frag`.  A delimiter finishes the
/// fragment; the end of the text flushes it.
pub open spec fn spec_tokenize_acc(s: Seq<char>, i: int, frag: Seq<char>) -> Seq<Seq<char>>
    decreases s.len() - i,
{
    if i < 0 || i >= s.len() {
        spec_fragment_tokens(frag)
    } else if is_tag_delim(s[i]) {
        spec_fragment_tokens(frag) + spec_tokenize_acc(s, i + 1, Seq::<char>::empty())
    } else {
        spec_tokenize_acc(s, i + 1, frag + seq![s[i]])
    }
}

/// The token sequence of a document: fragments split at `<` and `>`, each
/// trimmed, empty fragments dropped.
pub open spec fn spec_tokenize(s: Seq<char>) -> Seq<Seq<char>> {
    spec_tokenize_acc(s, 0, Seq::<char>::empty())
}

proof fn lemma_trim_start_subrange(s: Seq<char>, a: int, lo: int, b: int)
    requires
        0 <= a <= lo <= b <= s.len(),
        forall|j: int| a <= j < lo ==> is_space(s[j]),
        lo < b ==> !is_space(s[lo]),
    ensures
        spec_trim_start(s.subrange(a, b)) == s.subrange(lo, b),
    decreases lo - a,
{
    if a == lo {
        if a < b {
            assert(s.subrange(a, b)[0] == s[a]);
        }
    } else {
        assert(s.subrange(a, b)[0] == s[a]);
        assert(s.subrange(a, b).subrange(1, s.subrange(a, b).len() as int) =~= s.subrange(
            a + 1,
            b,
        ));
        lemma_trim_start_subrange(s, a + 1, lo, b);
    }
}

proof fn lemma_trim_end_subrange(s: Seq<char>, lo: int, hi: int, b: int)
    requires
        0 <= lo <= hi <= b <= s.len(),
        forall|j: int| hi <= j < b ==> is_space(s[j]),
        lo < hi ==> !is_space(s[hi - 1]),
    ensures
        spec_trim_end(s.subrange(lo, b)) == s.subrange(lo, hi),
    decreases b - hi,
{
    if hi == b {
        if lo < b {
            assert(s.subrange(lo, b)[b - lo - 1] == s[b - 1]);
        }
    } else {
        assert(s.subrange(lo, b)[b - lo - 1] == s[b - 1]);
        assert(s.subrange(lo, b).subrange(0, s.subrange(lo, b).len() - 1) =~= s.subrange(
            lo,
            b - 1,
        ));
        lemma_trim_end_subrange(s, lo, hi, b - 1);
    }
}

/// Character-for-character equality of two strings.
#[verifier::loop_isolation(false)]
pub(crate) fn str_eq(a: &str, b: &str) -> (r: bool)
    ensures
        r == (a@ == b@),
{
    let n = a.unicode_len();
    let m = b.unicode_len();
    if n != m {
        return false;
    }
    let mut i: usize = 0;
    while i < n
        invariant
            i <= n,
            forall|j: int| 0 <= j < i ==> a@[j] == b@[j],
        decreases n - i,
    {
        if a.get_char(i) != b.get_char(i) {
            proof {
                assert(a@[i as int] != b@[i as int]);
            }
            return false;
        }
        i = i + 1;
    }
    proof {
        assert(a@ =~= b@);
    }
    true
}

/// A stream of tokens read once, front to back, by the decoding routines.
///
/// `pos` is the index of the next unread token; a position at or past the end
/// of `toks` means the stream is exhausted.
pub struct TokenCursor {
    pub toks: Vec<String>,
    pub pos: usize,
}

/// Mathematical mirror of [`TokenCursor`]: the token sequence and the index
/// of the next unread token, never past the end of the sequence.
pub struct TokenCursorView {
    pub toks: Seq<Seq<char>>,
    pub pos: int,
}

impl View for TokenCursor {
    type V = TokenCursorView;

    open spec fn view(&self) -> TokenCursorView {
        TokenCursorView {
            toks: self.toks.deep_view(),
            pos: if self.pos as int <= self.toks@.len() {
                self.pos as int
            } else {
                self.toks@.len() as int
            },
        }
    }
}

impl TokenCursor {
    /// Takes the next token and advances the cursor; `None` once the stream
    /// is exhausted.
    pub fn next(&mut self) -> (t: Option<String>)
        ensures
            final(self)@.toks == old(self)@.toks,
            old(self)@.pos < old(self)@.toks.len() ==> {
                &&& final(self)@.pos == old(self)@.pos + 1
                &&& match t {
                    Some(s) => s@ == old(self)@.toks[old(self)@.pos],
                    None => false,
                }
            },
            old(self)@.pos >= old(self)@.toks.len() ==> final(self)@.pos == old(self)@.pos
                && t is None,
    {
        if self.pos < self.toks.len() {
            let s = self.toks[self.pos].clone();
            self.pos = self.pos + 1;
            Some(s)
        } else {
            None
        }
    }
}

/// Appends the trimmed fragment `s[a..b]` to `out` unless nothing remains of
/// it after trimming.
fn push_trimmed(out: &mut Vec<String>, s: &str, a: usize, b: usize)
    requires
        a <= b <= s@.len(),
    ensures
        final(out).deep_view() == old(out).deep_view() + spec_fragment_tokens(
            s@.subrange(a as int, b as int),
        ),
{
    let mut lo = a;
    while lo < b && is_space_char(s.get_char(lo))
        invariant
            a <= lo <= b <= s@.len(),
            forall|j: int| a <= j < lo ==> is_space(s@[j]),
        decreases b - lo,
    {
        lo = lo + 1;
    }
    let mut hi = b;
    while hi > lo && is_space_char(s.get_char(hi - 1))
        invariant
            lo <= hi <= b <= s@.len(),
            forall|j: int| hi <= j < b ==> is_space(s@[j]),
        decreases hi,
    {
        hi = hi - 1;
    }
    proof {
        lemma_trim_start_subrange(s@, a as int, lo as int, b as int);
        lemma_trim_end_subrange(s@, lo as int, hi as int, b as int);
        assert(spec_trim(s@.subrange(a as int, b as int)) == s@.subrange(lo as int, hi as int));
    }
    if lo < hi {
        let sub = s.substring_char(lo, hi);
        out.push(String::from_str(sub));
        proof {
            assert(out.deep_view() =~= old(out).deep_view() + spec_fragment_tokens(
                s@.subrange(a as int, b as int),
            ));
        }
    } else {
        proof {
            assert(spec_trim(s@.subrange(a as int, b as int)).len() == 0);
            assert(out.deep_view() =~= old(out).deep_view() + spec_fragment_tokens(
                s@.subrange(a as int, b as int),
            ));
        }
    }
}

/// Splits a document into its token stream: fragments cut at `<` and `>`,
/// trimmed of surrounding whitespace, empty fragments dropped.
pub fn tokenize(input: &str) -> (r: TokenCursor)
    ensures
        r@.toks == spec_tokenize(input@),
        r@.pos == 0,
{
    let n = input.unicode_len();
    let mut out: Vec<String> = Vec::new();
    let mut frag_start: usize = 0;
    let mut i: usize = 0;
    proof {
        assert(out.deep_view() =~= Seq::<Seq<char>>::empty());
        assert(input@.subrange(0, 0) =~= Seq::<char>::empty());
        assert(out.deep_view() + spec_tokenize_acc(input@, 0, input@.subrange(0, 0))
            =~= spec_tokenize(input@));
    }
    while i < n
        invariant
            n == input@.len(),
            frag_start <= i <= n,
            spec_tokenize(input@) == out.deep_view() + spec_tokenize_acc(
                input@,
                i as int,
                input@.subrange(frag_start as int, i as int),
            ),
        decreases n - i,
    {
        let c = input.get_char(i);
        if c == '<' || c == '>' {
            let ghost frag = input@.subrange(frag_start as int, i as int);
            let ghost old_out = out.deep_view();
            push_trimmed(&mut out, input, frag_start, i);
            proof {
                assert(input@.subrange((i + 1) as int, (i + 1) as int) =~= Seq::<char>::empty());
                assert(spec_tokenize_acc(input@, i as int, frag) == spec_fragment_tokens(frag)
                    + spec_tokenize_acc(input@, i + 1, Seq::<char>::empty()));
                assert(old_out + (spec_fragment_tokens(frag) + spec_tokenize_acc(
                    input@,
                    i + 1,
                    Seq::<char>::empty(),
                )) =~= (old_out + spec_fragment_tokens(frag)) + spec_tokenize_acc(
                    input@,
                    i + 1,
                    Seq::<char>::empty(),
                ));
            }
            frag_start = i + 1;
        } else {
            proof {
                assert(input@.subrange(frag_start as int, i as int) + seq![input@[i as int]]
                    =~= input@.subrange(frag_start as int, (i + 1) as int));
            }
        }
        i = i + 1;
    }
    let ghost frag = input@.subrange(frag_start as int, n as int);
    let ghost old_out = out.deep_view();
    push_trimmed(&mut out, input, frag_start, n);
    proof {
        assert(spec_tokenize_acc(input@, n as int, frag) == spec_fragment_tokens(frag));
    }
    TokenCursor { toks: out, pos: 0 }
}

/// Index of the last `[` in `s`, or `-1` when there is none.
pub open spec fn last_lbracket(s: Seq<char>) -> int
    decreases s.len(),
{
    if s.len() == 0 {
        -1
    } else if s[s.len() - 1] == '[' {
        s.len() - 1
    } else {
        last_lbracket(s.subrange(0, s.len() - 1))
    }
}

/// `s` cut before its last `[`, or `s` itself when it has none.
pub open spec fn spec_remove_last_bracketed(s: Seq<char>) -> Seq<char> {
    if last_lbracket(s) >= 0 {
        s.subrange(0, last_lbracket(s))
    } else {
        s
    }
}

proof fn lemma_last_lbracket_at(s: Seq<char>, j: int)
    requires
        0 <= j < s.len(),
        s[j] == '[',
        forall|k: int| j < k < s.len() ==> s[k] != '[',
    ensures
        last_lbracket(s) == j,
    decreases s.len(),
{
    if j < s.len() - 1 {
        let p = s.subrange(0, s.len() - 1);
        assert(forall|k: int| 0 <= k < p.len() ==> p[k] == s[k]);
        lemma_last_lbracket_at(p, j);
    }
}

proof fn lemma_last_lbracket_none(s: Seq<char>)
    requires
        forall|k: int| 0 <= k < s.len() ==> s[k] != '[',
    ensures
        last_lbracket(s) == -1,
    decreases s.len(),
{
    if s.len() > 0 {
        let p = s.subrange(0, s.len() - 1);
        assert(forall|k: int| 0 <= k < p.len() ==> p[k] == s[k]);
        lemma_last_lbracket_none(p);
    }
}

/// Removes a trailing bracketed annotation: everything from the last `[` on
/// is dropped, e.g. `20250725143000[+7:PDT]` becomes `20250725143000`.
pub fn remove_last_bracketed(s: &str) -> (r: &str)
    ensures
        r@ == spec_remove_last_bracketed(s@),
{
    let n = s.unicode_len();
    let mut i = n;
    while i > 0
        invariant
            i <= n,
            n == s@.len(),
            forall|k: int| i <= k < n ==> s@[k] != '[',
        decreases i,
    {
        if s.get_char(i - 1) == '[' {
            proof {
                lemma_last_lbracket_at(s@, (i - 1) as int);
            }
            return s.substring_char(0, i - 1);
        }
        i = i - 1;
    }
    proof {
        lemma_last_lbracket_none(s@);
    }
    s
}

} // verus!
