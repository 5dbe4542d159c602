//! Verified text utilities.
//!
//! Every string decision in this crate — trimming, case folding, token
//! splitting, substring search — is defined here over `Seq<char>` and
//! implemented against that definition.

use vstd::prelude::*;
use vstd::std_specs::iter::IteratorSpec;

verus! {

broadcast use
    vstd::std_specs::vec::group_vec_axioms,
    vstd::string::next_postcondition,
    vstd::string::axiom_spec_iter,
;

/// The characters of a string, in order.
pub fn str_to_chars(s: &str) -> (v: Vec<char>)
    ensures
        v@ == s@,
{
    let mut v: Vec<char> = Vec::new();
    for c in it: s.chars()
        invariant
            it.seq() == s@,
            v@ =~= it.seq().take(it.index() as int),
    {
        v.push(c);
    }
    proof {
        assert(v@ =~= s@);
    }
    v
}

/// Relies on `String: FromIterator<&char>`: the collected string holds
/// exactly the given characters in order.
#[verifier::external_body]
pub fn string_from_chars(v: &Vec<char>) -> (s: String)
    ensures
        s@ == v@,
{
    v.iter().collect()
}

/// ASCII whitespace, as this crate's trimming understands it.
pub open spec fn spec_is_ws(c: char) -> bool {
    c == ' ' || c == '\t' || c == '\n' || c == '\r'
}

pub fn is_ws_char(c: char) -> (r: bool)
    ensures
        r == spec_is_ws(c),
{
    c == ' ' || c == '\t' || c == '\n' || c == '\r'
}

pub open spec fn spec_trim_start(s: Seq<char>) -> Seq<char>
    decreases s.len(),
{
    if s.len() > 0 && spec_is_ws(s[0]) {
        spec_trim_start(s.drop_first())
    } else {
        s
    }
}

pub open spec fn spec_trim_end(s: Seq<char>) -> Seq<char>
    decreases s.len(),
{
    if s.len() > 0 && spec_is_ws(s.last()) {
        spec_trim_end(s.drop_last())
    } else {
        s
    }
}

/// The string without leading and trailing ASCII whitespace.
pub open spec fn spec_trim(s: Seq<char>) -> Seq<char> {
    spec_trim_end(spec_trim_start(s))
}

/// Nothing but whitespace survives trimming.
pub open spec fn spec_is_blank(s: Seq<char>) -> bool {
    spec_trim(s).len() == 0
}

proof fn lemma_trim_start_skip(s: Seq<char>, i: int)
    requires
        0 <= i <= s.len(),
        forall|j: int| 0 <= j < i ==> spec_is_ws(s[j]),
    ensures
        spec_trim_start(s) == spec_trim_start(s.skip(i)),
    decreases i,
{
    if i > 0 {
        lemma_trim_start_skip(s.drop_first(), i - 1);
        assert(s.drop_first().skip(i - 1) =~= s.skip(i));
    } else {
        assert(s.skip(0) =~= s);
    }
}

proof fn lemma_trim_end_take(s: Seq<char>, i: int)
    requires
        0 <= i <= s.len(),
        forall|j: int| i <= j < s.len() ==> spec_is_ws(s[j]),
    ensures
        spec_trim_end(s) == spec_trim_end(s.take(i)),
    decreases s.len() - i,
{
    if i < s.len() {
        lemma_trim_end_take(s.drop_last(), i);
        assert(s.drop_last().take(i) =~= s.take(i));
    } else {
        assert(s.take(i) =~= s);
    }
}

/// Trims ASCII whitespace from both ends.
#[verifier::loop_isolation(false)]
pub fn trim_chars(v: &Vec<char>) -> (r: Vec<char>)
    ensures
        r@ == spec_trim(v@),
{
    let mut lo: usize = 0;
    while lo < v.len() && is_ws_char(v[lo])
        invariant
            0 <= lo <= v@.len(),
            forall|j: int| 0 <= j < lo ==> spec_is_ws(v@[j]),
        decreases v@.len() - lo,
    {
        lo += 1;
    }
    proof {
        lemma_trim_start_skip(v@, lo as int);
        if lo < v@.len() {
            assert(spec_trim_start(v@.skip(lo as int)) == v@.skip(lo as int));
        } else {
            assert(v@.skip(lo as int) =~= Seq::<char>::empty());
        }
    }
    let ghost started = v@.skip(lo as int);
    let mut hi: usize = v.len();
    while hi > lo && is_ws_char(v[hi - 1])
        invariant
            lo <= hi <= v@.len(),
            forall|j: int| hi <= j < v@.len() ==> spec_is_ws(v@[j]),
        decreases hi,
    {
        hi -= 1;
    }
    proof {
        lemma_trim_end_take(started, hi - lo);
        assert(started.take(hi - lo) =~= v@.subrange(lo as int, hi as int));
        if hi > lo {
            assert(!spec_is_ws(started.take(hi - lo).last()));
            assert(spec_trim_end(started.take(hi - lo)) == started.take(hi - lo));
        } else {
            assert(started.take(hi - lo) =~= Seq::<char>::empty());
        }
    }
    let mut out: Vec<char> = Vec::new();
    let mut i: usize = lo;
    while i < hi
        invariant
            lo <= i <= hi,
            out@ =~= v@.subrange(lo as int, i as int),
        decreases hi - i,
    {
        out.push(v[i]);
        i += 1;
    }
    proof {
        assert(out@ =~= v@.subrange(lo as int, hi as int));
    }
    out
}

/// Trims a string.
pub fn trim_str(s: &str) -> (r: String)
    ensures
        r@ == spec_trim(s@),
{
    let chars = str_to_chars(s);
    let trimmed = trim_chars(&chars);
    string_from_chars(&trimmed)
}

/// Whether a string trims to nothing.
#[verifier::loop_isolation(false)]
pub fn is_blank_str(s: &str) -> (r: bool)
    ensures
        r == spec_is_blank(s@),
{
    let chars = str_to_chars(s);
    let trimmed = trim_chars(&chars);
    trimmed.len() == 0
}

/// ASCII lowercase of one character.
pub open spec fn spec_lower_char(c: char) -> char {
    if 'A' <= c && c <= 'Z' {
        (((c as u8) + 32) as char)
    } else {
        c
    }
}

/// ASCII lowercase, character by character.
pub open spec fn spec_to_lower(s: Seq<char>) -> Seq<char> {
    Seq::new(s.len(), |i: int| spec_lower_char(s[i]))
}

pub fn lower_char(c: char) -> (r: char)
    ensures
        r == spec_lower_char(c),
{
    if 'A' <= c && c <= 'Z' {
        ((c as u8) + 32) as char
    } else {
        c
    }
}

/// ASCII-lowercases a string.
#[verifier::loop_isolation(false)]
pub fn to_lower_str(s: &str) -> (r: String)
    ensures
        r@ == spec_to_lower(s@),
{
    let chars = str_to_chars(s);
    let mut out: Vec<char> = Vec::new();
    let mut i: usize = 0;
    while i < chars.len()
        invariant
            0 <= i <= chars@.len(),
            out@.len() == i,
            forall|j: int| 0 <= j < i ==> out@[j] == spec_lower_char(chars@[j]),
        decreases chars@.len() - i,
    {
        out.push(lower_char(chars[i]));
        i += 1;
    }
    proof {
        assert(out@ =~= spec_to_lower(s@));
    }
    string_from_chars(&out)
}

/// Case-insensitive ASCII comparison.
#[verifier::loop_isolation(false)]
pub fn eq_ignore_case(a: &str, b: &str) -> (r: bool)
    ensures
        r == (spec_to_lower(a@) == spec_to_lower(b@)),
{
    let ca = str_to_chars(a);
    let cb = str_to_chars(b);
    if ca.len() != cb.len() {
        proof {
            assert(spec_to_lower(a@).len() != spec_to_lower(b@).len());
        }
        return false;
    }
    let mut i: usize = 0;
    while i < ca.len()
        invariant
            0 <= i <= ca@.len(),
            ca@.len() == cb@.len(),
            forall|j: int| 0 <= j < i ==> spec_lower_char(ca@[j]) == spec_lower_char(cb@[j]),
        decreases ca@.len() - i,
    {
        if lower_char(ca[i]) != lower_char(cb[i]) {
            proof {
                assert(spec_to_lower(a@)[i as int] != spec_to_lower(b@)[i as int]);
            }
            return false;
        }
        i += 1;
    }
    proof {
        assert(spec_to_lower(a@) =~= spec_to_lower(b@));
    }
    true
}

/// View of a sequence of strings, string by string.
pub open spec fn strings_view(s: Seq<String>) -> Seq<Seq<char>> {
    Seq::new(s.len(), |i: int| s[i]@)
}

/// The separator classes that this crate splits on.
pub enum SepClass {
    Newline,
    Comma,
    /// The path separator.
    Slash,
    Semicolon,
    /// Either kind of path separator.
    SlashBackslash,
    /// ASCII whitespace.
    Ws,
    Nul,
}

pub open spec fn spec_is_sep(class: SepClass, c: char) -> bool {
    match class {
        SepClass::Newline => c == '\n',
        SepClass::Comma => c == ',',
        SepClass::Slash => c == '/',
        SepClass::Semicolon => c == ';',
        SepClass::SlashBackslash => c == '/' || c == '\\',
        SepClass::Ws => spec_is_ws(c),
        SepClass::Nul => c == '\u{0}',
    }
}

pub fn is_sep_char(class: &SepClass, c: char) -> (r: bool)
    ensures
        r == spec_is_sep(*class, c),
{
    match class {
        SepClass::Newline => c == '\n',
        SepClass::Comma => c == ',',
        SepClass::Slash => c == '/',
        SepClass::Semicolon => c == ';',
        SepClass::SlashBackslash => c == '/' || c == '\\',
        SepClass::Ws => is_ws_char(c),
        SepClass::Nul => c == '\u{0}',
    }
}

/// Index of the last separator in the string, if any.
pub open spec fn spec_rfind_sep(class: SepClass, s: Seq<char>) -> Option<int>
    decreases s.len(),
{
    if s.len() == 0 {
        None
    } else if spec_is_sep(class, s.last()) {
        Some(s.len() - 1)
    } else {
        spec_rfind_sep(class, s.drop_last())
    }
}

proof fn lemma_rfind_sep_range(class: SepClass, s: Seq<char>)
    ensures
        match spec_rfind_sep(class, s) {
            Some(j) => 0 <= j < s.len() && spec_is_sep(class, s[j]) && (forall|k: int|
                j < k < s.len() ==> !spec_is_sep(class, s[k])),
            None => forall|k: int| 0 <= k < s.len() ==> !spec_is_sep(class, s[k]),
        },
    decreases s.len(),
{
    if s.len() > 0 && !spec_is_sep(class, s.last()) {
        lemma_rfind_sep_range(class, s.drop_last());
        match spec_rfind_sep(class, s.drop_last()) {
            Some(j) => {
                assert forall|k: int| j < k < s.len() implies !spec_is_sep(class, s[k]) by {
                    if k < s.len() - 1 {
                        assert(!spec_is_sep(class, s.drop_last()[k]));
                    }
                }
            },
            None => {
                assert forall|k: int| 0 <= k < s.len() implies !spec_is_sep(class, s[k]) by {
                    if k < s.len() - 1 {
                        assert(!spec_is_sep(class, s.drop_last()[k]));
                    }
                }
            },
        }
    }
}

/// The pieces of the string between separators, in order; empty pieces are
/// kept, and the split of the empty string is one empty piece.
pub open spec fn spec_split_sep(class: SepClass, s: Seq<char>) -> Seq<Seq<char>>
    decreases s.len(),
    via spec_split_sep_decreases
{
    match spec_rfind_sep(class, s) {
        None => seq![s],
        Some(j) => spec_split_sep(class, s.take(j)).push(s.skip(j + 1)),
    }
}

#[via_fn]
proof fn spec_split_sep_decreases(class: SepClass, s: Seq<char>) {
    lemma_rfind_sep_range(class, s);
}

/// Appending a separator appends one empty piece.
proof fn lemma_split_push_sep(class: SepClass, s: Seq<char>, c: char)
    requires
        spec_is_sep(class, c),
    ensures
        spec_split_sep(class, s.push(c)) == spec_split_sep(class, s).push(Seq::<char>::empty()),
{
    let t = s.push(c);
    assert(spec_rfind_sep(class, t) == Some(s.len() as int));
    assert(t.take(s.len() as int) =~= s);
    assert(t.skip(s.len() as int + 1) =~= Seq::<char>::empty());
}

/// Appending an ordinary character extends the last piece.
proof fn lemma_split_push_plain(class: SepClass, s: Seq<char>, c: char)
    requires
        !spec_is_sep(class, c),
    ensures
        spec_split_sep(class, s.push(c)).len() == spec_split_sep(class, s).len(),
        spec_split_sep(class, s.push(c)).last() == spec_split_sep(class, s).last().push(c),
        spec_split_sep(class, s.push(c)).drop_last() == spec_split_sep(class, s).drop_last(),
        spec_split_sep(class, s).len() >= 1,
{
    let t = s.push(c);
    assert(t.drop_last() =~= s);
    assert(spec_rfind_sep(class, t) == spec_rfind_sep(class, s));
    lemma_rfind_sep_range(class, s);
    match spec_rfind_sep(class, s) {
        None => {
            assert(spec_split_sep(class, t) == seq![t]);
            assert(spec_split_sep(class, s) == seq![s]);
            assert(seq![t].drop_last() =~= seq![s].drop_last());
        },
        Some(j) => {
            assert(t.take(j) =~= s.take(j));
            assert(t.skip(j + 1) =~= s.skip(j + 1).push(c));
            let prefix = spec_split_sep(class, s.take(j));
            assert(spec_split_sep(class, t) == prefix.push(s.skip(j + 1).push(c)));
            assert(spec_split_sep(class, s) == prefix.push(s.skip(j + 1)));
            assert(prefix.push(s.skip(j + 1).push(c)).drop_last() =~= prefix.push(
                s.skip(j + 1),
            ).drop_last());
        },
    }
}

/// Splits a string on a separator class, keeping empty pieces.
#[verifier::loop_isolation(false)]
pub fn split_str(s: &str, class: &SepClass) -> (r: Vec<String>)
    ensures
        strings_view(r@) == spec_split_sep(*class, s@),
{
    let chars = str_to_chars(s);
    let mut out: Vec<String> = Vec::new();
    let mut cur: Vec<char> = Vec::new();
    proof {
        assert(chars@.take(0) =~= Seq::<char>::empty());
        assert(spec_rfind_sep(*class, Seq::<char>::empty()) is None);
    }
    let mut i: usize = 0;
    while i < chars.len()
        invariant
            0 <= i <= chars@.len(),
            spec_split_sep(*class, chars@.take(i as int)) == strings_view(out@).push(cur@),
        decreases chars@.len() - i,
    {
        let ghost prefix = chars@.take(i as int);
        let c = chars[i];
        proof {
            assert(chars@.take(i + 1) =~= prefix.push(c));
        }
        if is_sep_char(class, c) {
            proof {
                lemma_split_push_sep(*class, prefix, c);
            }
            let piece = string_from_chars(&cur);
            out.push(piece);
            cur = Vec::new();
            proof {
                assert(strings_view(out@).push(cur@) =~= spec_split_sep(
                    *class,
                    prefix,
                ).push(Seq::<char>::empty()));
            }
        } else {
            proof {
                lemma_split_push_plain(*class, prefix, c);
            }
            let ghost prev_cur = cur@;
            cur.push(c);
            proof {
                let sp = spec_split_sep(*class, prefix);
                let sp2 = spec_split_sep(*class, prefix.push(c));
                assert(sp == strings_view(out@).push(prev_cur));
                assert(sp.drop_last() =~= strings_view(out@));
                assert(sp.last() == prev_cur);
                assert(sp2.last() == cur@);
                assert(sp2.drop_last() == strings_view(out@));
                assert forall|j: int| 0 <= j < sp2.len() implies sp2[j] == strings_view(
                    out@,
                ).push(cur@)[j] by {
                    if j < sp2.len() - 1 {
                        assert(sp2.drop_last()[j] == sp2[j]);
                    }
                }
                assert(sp2 =~= strings_view(out@).push(cur@));
            }
        }
        i += 1;
    }
    proof {
        assert(chars@.take(chars@.len() as int) =~= s@);
    }
    let piece = string_from_chars(&cur);
    out.push(piece);
    proof {
        assert(strings_view(out@) =~= strings_view(out@.drop_last()).push(cur@));
    }
    out
}

/// The non-empty pieces, in order.
pub open spec fn spec_nonempty_pieces(pieces: Seq<Seq<char>>) -> Seq<Seq<char>> {
    pieces.filter(|t: Seq<char>| t.len() > 0)
}

/// Keeps the non-empty strings.
#[verifier::loop_isolation(false)]
pub fn filter_nonempty(v: Vec<String>) -> (r: Vec<String>)
    ensures
        strings_view(r@) == spec_nonempty_pieces(strings_view(v@)),
{
    let mut out: Vec<String> = Vec::new();
    let ghost all = strings_view(v@);
    proof {
        reveal(Seq::filter);
        assert(all.take(0) =~= Seq::<Seq<char>>::empty());
        assert(spec_nonempty_pieces(all.take(0)) =~= Seq::<Seq<char>>::empty());
    }
    let mut i: usize = 0;
    while i < v.len()
        invariant
            0 <= i <= v@.len(),
            all == strings_view(v@),
            all.len() == v@.len(),
            forall|j: int| 0 <= j < v@.len() ==> all[j] == v@[j]@,
            strings_view(out@) == spec_nonempty_pieces(all.take(i as int)),
        decreases v@.len() - i,
    {
        let ghost prefix = all.take(i as int);
        proof {
            reveal(Seq::filter);
            assert(all.take(i + 1).drop_last() =~= prefix);
            assert(all.take(i + 1).last() == all[i as int]);
            if all[i as int].len() > 0 {
                assert(spec_nonempty_pieces(all.take(i + 1)) == spec_nonempty_pieces(
                    prefix,
                ).push(all[i as int]));
            } else {
                assert(spec_nonempty_pieces(all.take(i + 1)) == spec_nonempty_pieces(prefix));
            }
        }
        if !v[i].as_str().is_empty() {
            let piece = v[i].clone();
            let ghost prev_out = out@;
            out.push(piece);
            proof {
                assert(out@.drop_last() =~= prev_out);
                assert(strings_view(out@) =~= strings_view(prev_out).push(v@[i as int]@));
            }
        }
        i += 1;
    }
    proof {
        assert(all.take(v@.len() as int) =~= all);
    }
    out
}

/// The whitespace-separated tokens of a string.
pub open spec fn spec_ws_tokens(s: Seq<char>) -> Seq<Seq<char>> {
    spec_nonempty_pieces(spec_split_sep(SepClass::Ws, s))
}

/// Splits into whitespace-separated tokens.
pub fn ws_tokens(s: &str) -> (r: Vec<String>)
    ensures
        strings_view(r@) == spec_ws_tokens(s@),
{
    let pieces = split_str(s, &SepClass::Ws);
    filter_nonempty(pieces)
}

/// Whether `p` occurs contiguously inside `s`.
pub open spec fn spec_contains_sub(s: Seq<char>, p: Seq<char>) -> bool {
    exists|i: int| 0 <= i <= s.len() - p.len() && #[trigger] s.subrange(i, i + p.len()) == p
}

/// Substring search.
#[verifier::loop_isolation(false)]
pub fn contains_sub(s: &str, p: &str) -> (r: bool)
    ensures
        r == spec_contains_sub(s@, p@),
{
    let sc = str_to_chars(s);
    let pc = str_to_chars(p);
    if pc.len() > sc.len() {
        proof {
            assert(s@.len() - p@.len() < 0);
        }
        return false;
    }
    if pc.len() == 0 {
        proof {
            assert(spec_contains_sub(s@, p@)) by {
                assert(s@.subrange(0, 0 + p@.len() as int) =~= p@);
            }
        }
        return true;
    }
    let mut i: usize = 0;
    while i <= sc.len() - pc.len()
        invariant
            0 <= i <= sc@.len() - pc@.len() + 1,
            1 <= pc@.len() <= sc@.len(),
            forall|ii: int|
                0 <= ii < i ==> #[trigger] s@.subrange(ii, ii + p@.len()) != p@,
        decreases sc@.len() - pc@.len() - i + 1,
    {
        let mut k: usize = 0;
        let mut hit = true;
        while k < pc.len() && hit
            invariant
                0 <= k <= pc@.len(),
                i + pc@.len() <= sc@.len(),
                hit ==> forall|j: int| 0 <= j < k ==> sc@[i + j] == pc@[j],
                !hit ==> s@.subrange(i as int, i + p@.len()) != p@,
            decreases pc@.len() - k + (if hit { 1int } else { 0int }),
        {
            if sc[i + k] != pc[k] {
                hit = false;
                proof {
                    assert(s@.subrange(i as int, i + p@.len())[k as int] != p@[k as int]);
                }
            } else {
                k += 1;
            }
        }
        if hit {
            proof {
                assert(s@.subrange(i as int, i as int + p@.len()) =~= p@);
                assert(0 <= i as int <= s@.len() - p@.len());
                assert(spec_contains_sub(s@, p@));
            }
            return true;
        }
        i += 1;
    }
    proof {
        assert forall|ii: int| 0 <= ii <= s@.len() - p@.len() implies #[trigger] s@.subrange(
            ii,
            ii + p@.len(),
        ) != p@ by {
            assert(ii < i);
        }
    }
    false
}

pub open spec fn spec_starts_with(s: Seq<char>, p: Seq<char>) -> bool {
    p.len() <= s.len() && s.take(p.len() as int) == p
}

#[verifier::loop_isolation(false)]
pub fn starts_with(s: &str, p: &str) -> (r: bool)
    ensures
        r == spec_starts_with(s@, p@),
{
    let sc = str_to_chars(s);
    let pc = str_to_chars(p);
    if pc.len() > sc.len() {
        return false;
    }
    let mut k: usize = 0;
    while k < pc.len()
        invariant
            0 <= k <= pc@.len(),
            pc@.len() <= sc@.len(),
            forall|j: int| 0 <= j < k ==> sc@[j] == pc@[j],
        decreases pc@.len() - k,
    {
        if sc[k] != pc[k] {
            proof {
                assert(s@.take(p@.len() as int)[k as int] != p@[k as int]);
            }
            return false;
        }
        k += 1;
    }
    proof {
        assert(s@.take(p@.len() as int) =~= p@);
    }
    true
}

pub open spec fn spec_ends_with(s: Seq<char>, p: Seq<char>) -> bool {
    p.len() <= s.len() && s.skip(s.len() - p.len()) == p
}

#[verifier::loop_isolation(false)]
pub fn ends_with(s: &str, p: &str) -> (r: bool)
    ensures
        r == spec_ends_with(s@, p@),
{
    let sc = str_to_chars(s);
    let pc = str_to_chars(p);
    if pc.len() > sc.len() {
        return false;
    }
    let off = sc.len() - pc.len();
    let mut k: usize = 0;
    while k < pc.len()
        invariant
            0 <= k <= pc@.len(),
            off == sc@.len() - pc@.len(),
            forall|j: int| 0 <= j < k ==> sc@[off + j] == pc@[j],
        decreases pc@.len() - k,
    {
        if sc[off + k] != pc[k] {
            proof {
                assert(s@.skip(s@.len() - p@.len())[k as int] != p@[k as int]);
            }
            return false;
        }
        k += 1;
    }
    proof {
        assert(s@.skip(s@.len() - p@.len()) =~= p@);
    }
    true
}

/// Concatenation of two strings.
pub fn concat_str(a: &str, b: &str) -> (r: String)
    ensures
        r@ == a@ + b@,
{
    let mut out = a.to_owned();
    out.append(b);
    out
}

/// Index of the first occurrence of `p` inside `s`.
pub open spec fn spec_find_sub(s: Seq<char>, p: Seq<char>) -> Option<int>
    decreases s.len(),
{
    if p.len() > s.len() {
        None
    } else if s.take(p.len() as int) == p {
        Some(0int)
    } else if s.len() == 0 {
        None
    } else {
        match spec_find_sub(s.drop_first(), p) {
            Some(i) => Some(i + 1),
            None => None,
        }
    }
}

/// Characterization of `spec_find_sub`.
pub proof fn lemma_find_sub(s: Seq<char>, p: Seq<char>)
    ensures
        match spec_find_sub(s, p) {
            Some(i) => 0 <= i && i + p.len() <= s.len() && s.subrange(i, i + p.len()) == p && (
            forall|j: int| 0 <= j < i ==> #[trigger] s.subrange(j, j + p.len()) != p),
            None => forall|j: int|
                0 <= j <= s.len() - p.len() ==> #[trigger] s.subrange(j, j + p.len()) != p,
        },
    decreases s.len(),
{
    if p.len() > s.len() {
    } else if s.take(p.len() as int) == p {
        assert(s.subrange(0, p.len() as int) =~= s.take(p.len() as int));
    } else if s.len() == 0 {
        assert(s.take(p.len() as int) =~= s);
    } else {
        lemma_find_sub(s.drop_first(), p);
        let rest = s.drop_first();
        assert(s.subrange(0, p.len() as int) =~= s.take(p.len() as int));
        assert forall|j: int| 1 <= j && j + p.len() <= s.len() implies #[trigger] s.subrange(
            j,
            j + p.len(),
        ) =~= rest.subrange(j - 1, j - 1 + p.len()) by {}
        match spec_find_sub(rest, p) {
            Some(i) => {
                assert(s.subrange(i + 1, i + 1 + p.len()) =~= rest.subrange(i, i + p.len()));
                assert forall|j: int| 0 <= j < i + 1 implies #[trigger] s.subrange(
                    j,
                    j + p.len(),
                ) != p by {
                    if j > 0 {
                        assert(rest.subrange(j - 1, j - 1 + p.len()) != p);
                    }
                }
            },
            None => {
                assert forall|j: int| 0 <= j <= s.len() - p.len() implies #[trigger] s.subrange(
                    j,
                    j + p.len(),
                ) != p by {
                    if j > 0 {
                        assert(rest.subrange(j - 1, j - 1 + p.len()) != p);
                    }
                }
            },
        }
    }
}

/// Finds the first occurrence of `p` inside `s`.
#[verifier::loop_isolation(false)]
pub fn find_sub(s: &str, p: &str) -> (r: Option<usize>)
    ensures
        match r {
            Some(i) => spec_find_sub(s@, p@) == Some(i as int) && i < usize::MAX && i + p@.len()
                <= usize::MAX,
            None => spec_find_sub(s@, p@) is None,
        },
{
    proof {
        lemma_find_sub(s@, p@);
    }
    let sc = str_to_chars(s);
    let pc = str_to_chars(p);
    if pc.len() > sc.len() {
        return None;
    }
    if pc.len() == 0 {
        proof {
            assert(s@.take(0) =~= p@);
        }
        return Some(0);
    }
    let mut i: usize = 0;
    while i <= sc.len() - pc.len()
        invariant
            0 <= i <= sc@.len() - pc@.len() + 1,
            1 <= pc@.len() <= sc@.len(),
            forall|j: int| 0 <= j < i ==> #[trigger] s@.subrange(j, j + p@.len()) != p@,
        decreases sc@.len() - pc@.len() - i + 1,
    {
        let mut k: usize = 0;
        let mut hit = true;
        while k < pc.len() && hit
            invariant
                0 <= k <= pc@.len(),
                i + pc@.len() <= sc@.len(),
                hit ==> forall|j: int| 0 <= j < k ==> sc@[i + j] == pc@[j],
                !hit ==> s@.subrange(i as int, i + p@.len()) != p@,
            decreases pc@.len() - k + (if hit { 1int } else { 0int }),
        {
            if sc[i + k] != pc[k] {
                hit = false;
                proof {
                    assert(s@.subrange(i as int, i + p@.len())[k as int] != p@[k as int]);
                }
            } else {
                k += 1;
            }
        }
        if hit {
            proof {
                assert(s@.subrange(i as int, i as int + p@.len()) =~= p@);
                match spec_find_sub(s@, p@) {
                    Some(m) => {
                        if m < i {
                            assert(s@.subrange(m, m + p@.len()) == p@);
                        }
                        if m > i {
                            assert(s@.subrange(i as int, i as int + p@.len()) != p@);
                        }
                    },
                    None => {
                        assert(s@.subrange(i as int, i as int + p@.len()) != p@);
                    },
                }
            }
            return Some(i);
        }
        i += 1;
    }
    proof {
        match spec_find_sub(s@, p@) {
            Some(m) => {
                assert(s@.subrange(m, m + p@.len()) != p@);
            },
            None => {},
        }
    }
    None
}

/// The substring from a character index to the end.
#[verifier::loop_isolation(false)]
pub fn skip_chars(s: &str, n: usize) -> (r: String)
    requires
        n <= s@.len(),
    ensures
        r@ == s@.skip(n as int),
{
    let chars = str_to_chars(s);
    let mut out: Vec<char> = Vec::new();
    let mut i: usize = n;
    while i < chars.len()
        invariant
            n <= i <= chars@.len(),
            out@ =~= chars@.subrange(n as int, i as int),
        decreases chars@.len() - i,
    {
        out.push(chars[i]);
        i += 1;
    }
    proof {
        assert(out@ =~= s@.skip(n as int));
    }
    string_from_chars(&out)
}

/// The substring of the first `n` characters.
#[verifier::loop_isolation(false)]
pub fn take_chars(s: &str, n: usize) -> (r: String)
    requires
        n <= s@.len(),
    ensures
        r@ == s@.take(n as int),
{
    let chars = str_to_chars(s);
    let mut out: Vec<char> = Vec::new();
    let mut i: usize = 0;
    while i < n
        invariant
            0 <= i <= n <= chars@.len(),
            out@ =~= chars@.subrange(0, i as int),
        decreases n - i,
    {
        out.push(chars[i]);
        i += 1;
    }
    proof {
        assert(out@ =~= s@.take(n as int));
    }
    string_from_chars(&out)
}

/// A string with no whitespace anywhere trims to itself.
pub proof fn lemma_trim_of_unpadded(s: Seq<char>)
    requires
        forall|j: int| 0 <= j < s.len() ==> !spec_is_ws(#[trigger] s[j]),
    ensures
        spec_trim(s) == s,
{
    if s.len() > 0 {
        assert(!spec_is_ws(s[0]));
        assert(!spec_is_ws(s.last()));
    }
    assert(spec_trim_start(s) == s);
    assert(spec_trim_end(s) == s);
}

/// A string with no separator anywhere splits into itself alone.
pub proof fn lemma_rfind_sep_none(class: SepClass, s: Seq<char>)
    requires
        forall|j: int| 0 <= j < s.len() ==> !spec_is_sep(class, #[trigger] s[j]),
    ensures
        spec_rfind_sep(class, s) is None,
        spec_split_sep(class, s) == seq![s],
    decreases s.len(),
{
    if s.len() > 0 {
        assert(!spec_is_sep(class, s.last()));
        lemma_rfind_sep_none(class, s.drop_last());
    }
}

} // verus!
