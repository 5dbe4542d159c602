//! Filename and payload sanitation for uploads and transcription.

use vstd::prelude::*;
use crate::gateway::BridgeError;
use crate::text::SepClass;
use crate::text::spec_trim;
use crate::text::spec_is_blank;
use crate::text::spec_to_lower;
use crate::text::strings_view;

verus! {

broadcast use vstd::std_specs::vec::group_vec_axioms;

/// The characters a stored filename may keep.
pub open spec fn spec_safe_filename_char(c: char) -> bool {
    ('a' <= c && c <= 'z') || ('A' <= c && c <= 'Z') || ('0' <= c && c <= '9') || c == '.' || c
        == '-' || c == '_'
}

pub fn is_safe_filename_char(c: char) -> (r: bool)
    ensures
        r == spec_safe_filename_char(c),
{
    ('a' <= c && c <= 'z') || ('A' <= c && c <= 'Z') || ('0' <= c && c <= '9') || c == '.' || c
        == '-' || c == '_'
}

/// The characters a path segment may keep.
pub open spec fn spec_safe_segment_char(c: char) -> bool {
    ('a' <= c && c <= 'z') || ('A' <= c && c <= 'Z') || ('0' <= c && c <= '9') || c == '-' || c
        == '_'
}

pub fn is_safe_segment_char(c: char) -> (r: bool)
    ensures
        r == spec_safe_segment_char(c),
{
    ('a' <= c && c <= 'z') || ('A' <= c && c <= 'Z') || ('0' <= c && c <= '9') || c == '-' || c
        == '_'
}

/// Every unsafe character becomes an underscore.
pub open spec fn spec_mask_chars(s: Seq<char>, safe: spec_fn(char) -> bool) -> Seq<char> {
    s.map_values(
        |c: char| if safe(c) {
            c
        } else {
            '_'
        },
    )
}

/// The string with every leading and trailing `ch` removed.
pub open spec fn spec_trim_char_start(s: Seq<char>, ch: char) -> Seq<char>
    decreases s.len(),
{
    if s.len() > 0 && s[0] == ch {
        spec_trim_char_start(s.drop_first(), ch)
    } else {
        s
    }
}

pub open spec fn spec_trim_char_end(s: Seq<char>, ch: char) -> Seq<char>
    decreases s.len(),
{
    if s.len() > 0 && s.last() == ch {
        spec_trim_char_end(s.drop_last(), ch)
    } else {
        s
    }
}

pub open spec fn spec_trim_char(s: Seq<char>, ch: char) -> Seq<char> {
    spec_trim_char_end(spec_trim_char_start(s, ch), ch)
}

proof fn lemma_trim_char_start_skip(s: Seq<char>, ch: char, i: int)
    requires
        0 <= i <= s.len(),
        forall|j: int| 0 <= j < i ==> s[j] == ch,
    ensures
        spec_trim_char_start(s, ch) == spec_trim_char_start(s.skip(i), ch),
    decreases i,
{
    if i > 0 {
        lemma_trim_char_start_skip(s.drop_first(), ch, i - 1);
        assert(s.drop_first().skip(i - 1) =~= s.skip(i));
    } else {
        assert(s.skip(0) =~= s);
    }
}

proof fn lemma_trim_char_end_take(s: Seq<char>, ch: char, i: int)
    requires
        0 <= i <= s.len(),
        forall|j: int| i <= j < s.len() ==> s[j] == ch,
    ensures
        spec_trim_char_end(s, ch) == spec_trim_char_end(s.take(i), ch),
    decreases s.len() - i,
{
    if i < s.len() {
        lemma_trim_char_end_take(s.drop_last(), ch, i);
        assert(s.drop_last().take(i) =~= s.take(i));
    } else {
        assert(s.take(i) =~= s);
    }
}

/// Trims a specific character from both ends.
#[verifier::loop_isolation(false)]
pub fn trim_char_both(v: &Vec<char>, ch: char) -> (r: Vec<char>)
    ensures
        r@ == spec_trim_char(v@, ch),
{
    let mut lo: usize = 0;
    while lo < v.len() && v[lo] == ch
        invariant
            0 <= lo <= v@.len(),
            forall|j: int| 0 <= j < lo ==> v@[j] == ch,
        decreases v@.len() - lo,
    {
        lo += 1;
    }
    proof {
        lemma_trim_char_start_skip(v@, ch, lo as int);
        if lo < v@.len() {
            assert(spec_trim_char_start(v@.skip(lo as int), ch) == v@.skip(lo as int));
        } else {
            assert(v@.skip(lo as int) =~= Seq::<char>::empty());
        }
    }
    let ghost started = v@.skip(lo as int);
    let mut hi: usize = v.len();
    while hi > lo && v[hi - 1] == ch
        invariant
            lo <= hi <= v@.len(),
            forall|j: int| hi <= j < v@.len() ==> v@[j] == ch,
        decreases hi,
    {
        hi -= 1;
    }
    proof {
        lemma_trim_char_end_take(started, ch, hi - lo);
        assert(started.take(hi - lo) =~= v@.subrange(lo as int, hi as int));
        if hi > lo {
            assert(started.take(hi - lo).last() != ch);
            assert(spec_trim_char_end(started.take(hi - lo), ch) == started.take(hi - lo));
        } else {
            assert(started.take(hi - lo) =~= Seq::<char>::empty());
        }
    }
    let mut out: Vec<char> = Vec::new();
    let mut i: usize = lo;
    while i < hi
        invariant
            lo <= i <= hi,
            out@ =~= v@.subrange(lo as int, i as int),
        decreases hi - i,
    {
        out.push(v[i]);
        i += 1;
    }
    proof {
        assert(out@ =~= v@.subrange(lo as int, hi as int));
    }
    out
}

/// The last path-separated piece whose trim is non-empty.
pub open spec fn spec_last_nonblank_piece(pieces: Seq<Seq<char>>) -> Option<Seq<char>>
    decreases pieces.len(),
{
    if pieces.len() == 0 {
        None
    } else if !spec_is_blank(pieces.last()) {
        Some(pieces.last())
    } else {
        spec_last_nonblank_piece(pieces.drop_last())
    }
}

/// A stored filename: the last non-blank path piece (or a fixed word),
/// unsafe characters masked, dots trimmed from the ends, an empty result
/// replaced by the fixed word, and the whole capped at 96 characters.
pub open spec fn spec_sanitize_filename(value: Seq<char>) -> Seq<char> {
    let basename = match spec_last_nonblank_piece(
        crate::text::spec_split_sep(SepClass::SlashBackslash, value),
    ) {
        Some(piece) => piece,
        None => "attachment"@,
    };
    let cleaned = spec_trim_char(
        spec_mask_chars(basename, |c: char| spec_safe_filename_char(c)),
        '.',
    );
    if cleaned.len() == 0 {
        "attachment"@
    } else if cleaned.len() > 96 {
        cleaned.take(96)
    } else {
        cleaned
    }
}

/// Sanitizes a requested filename.
#[verifier::loop_isolation(false)]
pub fn sanitize_filename(value: &str) -> (r: String)
    ensures
        r@ == spec_sanitize_filename(value@),
{
    let pieces = crate::text::split_str(value, &SepClass::SlashBackslash);
    let ghost all = strings_view(pieces@);
    let mut basename: Option<String> = None;
    let mut i: usize = pieces.len();
    proof {
        assert(all.take(pieces@.len() as int) =~= all);
    }
    while i > 0 && basename.is_none()
        invariant
            0 <= i <= pieces@.len(),
            all == strings_view(pieces@),
            all.len() == pieces@.len(),
            forall|j: int| 0 <= j < pieces@.len() ==> all[j] == pieces@[j]@,
            match basename {
                Some(b) => spec_last_nonblank_piece(all) == Some(b@),
                None => spec_last_nonblank_piece(all) == spec_last_nonblank_piece(
                    all.take(i as int),
                ),
            },
        decreases i,
    {
        i -= 1;
        proof {
            assert(all.take(i + 1).drop_last() =~= all.take(i as int));
            assert(all.take(i + 1).last() == all[i as int]);
        }
        if !crate::text::is_blank_str(pieces[i].as_str()) {
            basename = Some(pieces[i].clone());
        }
    }
    let base: String = match basename {
        Some(b) => b,
        None => {
            proof {
                assert(all.take(0) =~= Seq::<Seq<char>>::empty());
            }
            "attachment".to_owned()
        },
    };
    let chars = crate::text::str_to_chars(base.as_str());
    let mut masked: Vec<char> = Vec::new();
    let mut k: usize = 0;
    while k < chars.len()
        invariant
            0 <= k <= chars@.len(),
            masked@ =~= spec_mask_chars(chars@, |c: char| spec_safe_filename_char(c)).take(
                k as int,
            ),
        decreases chars@.len() - k,
    {
        let c = chars[k];
        if is_safe_filename_char(c) {
            masked.push(c);
        } else {
            masked.push('_');
        }
        proof {
            assert(masked@ =~= spec_mask_chars(chars@, |c: char| spec_safe_filename_char(c)).take(
                k + 1,
            ));
        }
        k += 1;
    }
    proof {
        assert(spec_mask_chars(chars@, |c: char| spec_safe_filename_char(c)).take(
            chars@.len() as int,
        ) =~= spec_mask_chars(chars@, |c: char| spec_safe_filename_char(c)));
    }
    let cleaned = trim_char_both(&masked, '.');
    if cleaned.len() == 0 {
        return "attachment".to_owned();
    }
    if cleaned.len() > 96 {
        let mut capped: Vec<char> = Vec::new();
        let mut j: usize = 0;
        while j < 96
            invariant
                0 <= j <= 96 <= cleaned@.len(),
                capped@ =~= cleaned@.take(j as int),
            decreases 96 - j,
        {
            capped.push(cleaned[j]);
            j += 1;
        }
        return crate::text::string_from_chars(&capped);
    }
    crate::text::string_from_chars(&cleaned)
}

/// A stored path segment: trimmed, unsafe characters masked, underscores
/// trimmed from the ends, capped at 64 characters; may end up empty.
pub open spec fn spec_sanitize_path_segment(value: Seq<char>) -> Seq<char> {
    let cleaned = spec_trim_char(
        spec_mask_chars(spec_trim(value), |c: char| spec_safe_segment_char(c)),
        '_',
    );
    if cleaned.len() > 64 {
        cleaned.take(64)
    } else {
        cleaned
    }
}

/// Sanitizes a path segment (for an attachment's thread subdirectory).
#[verifier::loop_isolation(false)]
pub fn sanitize_path_segment(value: &str) -> (r: String)
    ensures
        r@ == spec_sanitize_path_segment(value@),
{
    let trimmed = crate::text::trim_str(value);
    let chars = crate::text::str_to_chars(trimmed.as_str());
    let mut masked: Vec<char> = Vec::new();
    let mut k: usize = 0;
    while k < chars.len()
        invariant
            0 <= k <= chars@.len(),
            masked@ =~= spec_mask_chars(chars@, |c: char| spec_safe_segment_char(c)).take(
                k as int,
            ),
        decreases chars@.len() - k,
    {
        let c = chars[k];
        if is_safe_segment_char(c) {
            masked.push(c);
        } else {
            masked.push('_');
        }
        proof {
            assert(masked@ =~= spec_mask_chars(chars@, |c: char| spec_safe_segment_char(c)).take(
                k + 1,
            ));
        }
        k += 1;
    }
    proof {
        assert(spec_mask_chars(chars@, |c: char| spec_safe_segment_char(c)).take(
            chars@.len() as int,
        ) =~= spec_mask_chars(chars@, |c: char| spec_safe_segment_char(c)));
    }
    let cleaned = trim_char_both(&masked, '_');
    if cleaned.len() > 64 {
        let mut capped: Vec<char> = Vec::new();
        let mut j: usize = 0;
        while j < 64
            invariant
                0 <= j <= 64 <= cleaned@.len(),
                capped@ =~= cleaned@.take(j as int),
            decreases 64 - j,
        {
            capped.push(cleaned[j]);
            j += 1;
        }
        return crate::text::string_from_chars(&capped);
    }
    crate::text::string_from_chars(&cleaned)
}

/// Whether a command line holds a shell metacharacter the terminal
/// refuses outright.
pub open spec fn spec_has_disallowed_control_char(s: Seq<char>) -> bool {
    exists|i: int|
        0 <= i < s.len() && (#[trigger] s[i] == ';' || s[i] == '|' || s[i] == '&' || s[i] == '<'
            || s[i] == '>' || s[i] == '`')
}

/// Scans for refused shell metacharacters.
#[verifier::loop_isolation(false)]
pub fn contains_disallowed_control_chars(value: &str) -> (r: bool)
    ensures
        r == spec_has_disallowed_control_char(value@),
{
    let chars = crate::text::str_to_chars(value);
    let mut i: usize = 0;
    while i < chars.len()
        invariant
            0 <= i <= chars@.len(),
            forall|j: int|
                0 <= j < i ==> !(#[trigger] chars@[j] == ';' || chars@[j] == '|' || chars@[j]
                    == '&' || chars@[j] == '<' || chars@[j] == '>' || chars@[j] == '`'),
        decreases chars@.len() - i,
    {
        let c = chars[i];
        if c == ';' || c == '|' || c == '&' || c == '<' || c == '>' || c == '`' {
            return true;
        }
        i += 1;
    }
    false
}

/// Sanitizing a filename twice changes nothing more, as long as the
/// 96-character cap did not cut the first result down to a trailing dot
/// (a capped name ending in a dot loses that dot on the second pass).
pub proof fn lemma_sanitize_filename_idempotent(value: Seq<char>)
    requires
        !crate::text::spec_ends_with(spec_sanitize_filename(value), "."@),
    ensures
        spec_sanitize_filename(spec_sanitize_filename(value)) == spec_sanitize_filename(value),
{
    reveal_strlit("attachment");
    reveal_strlit(".");
    assert("."@.len() == 1);
    assert("."@[0] == '.');
    let out = spec_sanitize_filename(value);
    lemma_sanitize_filename_shape(value);
    assert(out.len() > 0);
    if out.last() == '.' {
        assert(out.skip(out.len() - 1) =~= "."@);
        assert(crate::text::spec_ends_with(out, "."@));
    }
    assert(out.last() != '.');
    lemma_single_piece(SepClass::SlashBackslash, out);
    let pieces = crate::text::spec_split_sep(SepClass::SlashBackslash, out);
    assert(pieces =~= seq![out]);
    assert(!spec_is_blank(out)) by {
        assert(forall|j: int| 0 <= j < out.len() ==> !crate::text::spec_is_ws(#[trigger] out[j]));
        crate::text::lemma_trim_of_unpadded(out);
    }
    assert(spec_last_nonblank_piece(pieces) == Some(out));
    assert(spec_mask_chars(out, |c: char| spec_safe_filename_char(c)) =~= out);
    assert(spec_trim_char_start(out, '.') == out);
    assert(spec_trim_char_end(out, '.') == out);
    assert(out.len() <= 96);
}

/// What the first sanitize pass guarantees of its output: non-empty, at
/// most 96 characters, only safe characters, and no leading dot.
proof fn lemma_sanitize_filename_shape(value: Seq<char>)
    ensures
        ({
            let out = spec_sanitize_filename(value);
            &&& out.len() > 0
            &&& out.len() <= 96
            &&& forall|j: int| 0 <= j < out.len() ==> spec_safe_filename_char(#[trigger] out[j])
            &&& out[0] != '.'
        }),
{
    reveal_strlit("attachment");
    let basename = match spec_last_nonblank_piece(
        crate::text::spec_split_sep(SepClass::SlashBackslash, value),
    ) {
        Some(piece) => piece,
        None => "attachment"@,
    };
    let masked = spec_mask_chars(basename, |c: char| spec_safe_filename_char(c));
    assert(forall|j: int| 0 <= j < masked.len() ==> spec_safe_filename_char(#[trigger] masked[j]));
    lemma_trim_char_keeps(masked, '.', |c: char| spec_safe_filename_char(c));
    lemma_trim_char_ends(masked, '.');
    let cleaned = spec_trim_char(masked, '.');
    assert(forall|j: int|
        0 <= j < "attachment"@.len() ==> spec_safe_filename_char(#[trigger] "attachment"@[j]));
    assert("attachment"@[0] == 'a');
}

/// Trimming a character preserves any property every character had.
proof fn lemma_trim_char_keeps(s: Seq<char>, ch: char, p: spec_fn(char) -> bool)
    requires
        forall|j: int| 0 <= j < s.len() ==> p(#[trigger] s[j]),
    ensures
        forall|j: int|
            0 <= j < spec_trim_char(s, ch).len() ==> p(#[trigger] spec_trim_char(s, ch)[j]),
{
    lemma_trim_char_start_keeps(s, ch, p);
    lemma_trim_char_end_keeps(spec_trim_char_start(s, ch), ch, p);
}

proof fn lemma_trim_char_start_keeps(s: Seq<char>, ch: char, p: spec_fn(char) -> bool)
    requires
        forall|j: int| 0 <= j < s.len() ==> p(#[trigger] s[j]),
    ensures
        forall|j: int|
            0 <= j < spec_trim_char_start(s, ch).len() ==> p(
                #[trigger] spec_trim_char_start(s, ch)[j],
            ),
    decreases s.len(),
{
    if s.len() > 0 && s[0] == ch {
        assert(forall|j: int| 0 <= j < s.drop_first().len() ==> p(#[trigger] s.drop_first()[j]));
        lemma_trim_char_start_keeps(s.drop_first(), ch, p);
        let t = spec_trim_char_start(s, ch);
        assert forall|j: int| 0 <= j < t.len() implies p(#[trigger] t[j]) by {
            assert(t[j] == spec_trim_char_start(s.drop_first(), ch)[j]);
        }
    }
}

proof fn lemma_trim_char_end_keeps(s: Seq<char>, ch: char, p: spec_fn(char) -> bool)
    requires
        forall|j: int| 0 <= j < s.len() ==> p(#[trigger] s[j]),
    ensures
        forall|j: int|
            0 <= j < spec_trim_char_end(s, ch).len() ==> p(
                #[trigger] spec_trim_char_end(s, ch)[j],
            ),
    decreases s.len(),
{
    if s.len() > 0 && s.last() == ch {
        assert(forall|j: int| 0 <= j < s.drop_last().len() ==> p(#[trigger] s.drop_last()[j]));
        lemma_trim_char_end_keeps(s.drop_last(), ch, p);
        let t = spec_trim_char_end(s, ch);
        assert forall|j: int| 0 <= j < t.len() implies p(#[trigger] t[j]) by {
            assert(t[j] == spec_trim_char_end(s.drop_last(), ch)[j]);
        }
    }
}

/// A doubly trimmed string does not start with the character.
proof fn lemma_trim_char_ends(s: Seq<char>, ch: char)
    ensures
        ({
            let t = spec_trim_char(s, ch);
            t.len() > 0 ==> t[0] != ch
        }),
{
    lemma_trim_char_start_head(s, ch);
    let started = spec_trim_char_start(s, ch);
    lemma_trim_char_end_props(started, ch);
}

proof fn lemma_trim_char_start_head(s: Seq<char>, ch: char)
    ensures
        spec_trim_char_start(s, ch).len() > 0 ==> spec_trim_char_start(s, ch)[0] != ch,
    decreases s.len(),
{
    if s.len() > 0 && s[0] == ch {
        lemma_trim_char_start_head(s.drop_first(), ch);
    }
}

proof fn lemma_trim_char_end_props(s: Seq<char>, ch: char)
    ensures
        ({
            let t = spec_trim_char_end(s, ch);
            &&& (t.len() > 0 ==> t.last() != ch)
            &&& (s.len() > 0 && s[0] != ch && t.len() > 0 ==> t[0] != ch)
            &&& (s.len() > 0 && s[0] != ch ==> t.len() > 0)
        }),
    decreases s.len(),
{
    if s.len() > 0 && s.last() == ch {
        lemma_trim_char_end_props(s.drop_last(), ch);
    }
}

/// Splitting a string with no separator in it yields just the string.
proof fn lemma_single_piece(class: SepClass, s: Seq<char>)
    requires
        forall|j: int| 0 <= j < s.len() ==> !crate::text::spec_is_sep(class, #[trigger] s[j]),
    ensures
        crate::text::spec_split_sep(class, s) == seq![s],
{
    crate::text::lemma_rfind_sep_none(class, s);
}

/// Sanitizing a path segment twice changes nothing more, under the same
/// cap condition with the underscore.
pub proof fn lemma_sanitize_path_segment_idempotent(value: Seq<char>)
    requires
        !crate::text::spec_ends_with(spec_sanitize_path_segment(value), "_"@),
    ensures
        spec_sanitize_path_segment(spec_sanitize_path_segment(value))
            == spec_sanitize_path_segment(value),
{
    reveal_strlit("_");
    assert("_"@.len() == 1);
    assert("_"@[0] == '_');
    let out = spec_sanitize_path_segment(value);
    lemma_segment_shape(value);
    if out.len() > 0 {
        if out.last() == '_' {
            assert(out.skip(out.len() - 1) =~= "_"@);
            assert(crate::text::spec_ends_with(out, "_"@));
        }
        assert(out.last() != '_');
        assert(!crate::text::spec_is_ws(out[0]));
        assert(forall|j: int| 0 <= j < out.len() ==> !crate::text::spec_is_ws(#[trigger] out[j]));
        crate::text::lemma_trim_of_unpadded(out);
        assert(spec_trim(out) == out);
        assert(spec_mask_chars(out, |c: char| spec_safe_segment_char(c)) =~= out);
        assert(spec_trim_char_start(out, '_') == out);
        assert(spec_trim_char_end(out, '_') == out);
        assert(out.len() <= 64);
    } else {
        assert(out =~= Seq::<char>::empty());
        assert(spec_trim(out) =~= Seq::<char>::empty()) by {
            crate::text::lemma_trim_of_unpadded(out);
        }
        assert(spec_mask_chars(out, |c: char| spec_safe_segment_char(c)) =~= out);
    }
}

/// What the first segment pass guarantees: only safe characters, at most
/// 64 of them, and no leading underscore.
proof fn lemma_segment_shape(value: Seq<char>)
    ensures
        ({
            let out = spec_sanitize_path_segment(value);
            &&& out.len() <= 64
            &&& forall|j: int| 0 <= j < out.len() ==> spec_safe_segment_char(#[trigger] out[j])
            &&& (out.len() > 0 ==> out[0] != '_')
        }),
{
    let masked = spec_mask_chars(spec_trim(value), |c: char| spec_safe_segment_char(c));
    assert(forall|j: int| 0 <= j < masked.len() ==> spec_safe_segment_char(#[trigger] masked[j]));
    lemma_trim_char_keeps(masked, '_', |c: char| spec_safe_segment_char(c));
    lemma_trim_char_ends(masked, '_');
}

/// The base64 payload of a possibly data-URI-wrapped value: everything
/// after the first comma (or the whole value), trimmed; empty is refused.
pub open spec fn spec_extract_base64_payload(raw: Seq<char>) -> Result<Seq<char>, int> {
    let payload = match crate::text::spec_find_sub(raw, ","@) {
        Some(i) => spec_trim(raw.skip(i + 1)),
        None => spec_trim(raw),
    };
    if payload.len() == 0 {
        Err(-32602)
    } else {
        Ok(payload)
    }
}

/// Cuts the base64 payload out of a raw value.
pub fn extract_base64_payload(raw: &str) -> (r: Result<String, BridgeError>)
    ensures
        match r {
            Ok(payload) => spec_extract_base64_payload(raw@) == Ok::<Seq<char>, int>(payload@),
            Err(e) => spec_extract_base64_payload(raw@) == Err::<Seq<char>, int>(e.code as int)
                && e.code == -32602i64,
        },
{
    let payload = match crate::text::find_sub(raw, ",") {
        Some(i) => {
            proof {
                crate::text::lemma_find_sub(raw@, ","@);
                reveal_strlit(",");
                assert(","@.len() == 1);
                assert(i + 1 <= raw@.len());
            }
            let after = crate::text::skip_chars(raw, i + 1);
            crate::text::trim_str(after.as_str())
        },
        None => crate::text::trim_str(raw),
    };
    if payload.as_str().is_empty() {
        return Err(BridgeError::invalid_params("dataBase64 must contain base64 payload"));
    }
    Ok(payload)
}

/// The number of trailing padding characters counted, at most two.
pub open spec fn spec_b64_padding(payload: Seq<char>) -> int {
    if payload.len() >= 2 && payload[payload.len() - 1] == '=' && payload[payload.len() - 2]
        == '=' {
        2
    } else if payload.len() >= 1 && payload[payload.len() - 1] == '=' {
        1
    } else {
        0
    }
}

/// The decoded size a base64 payload implies: three bytes per started
/// four-character block, less the padding.
pub open spec fn spec_estimate_decoded(payload: Seq<char>) -> int {
    let blocks = (payload.len() + 3) as int / 4;
    let product = if blocks * 3 > usize::MAX {
        usize::MAX as int
    } else {
        blocks * 3
    };
    if product >= spec_b64_padding(payload) {
        product - spec_b64_padding(payload)
    } else {
        0
    }
}

/// Estimates the decoded size of a base64 payload without decoding it.
pub fn estimate_base64_decoded_size(raw: &str) -> (r: Result<usize, BridgeError>)
    ensures
        match r {
            Ok(n) => spec_extract_base64_payload(raw@) matches Ok(payload) && n
                == spec_estimate_decoded(payload),
            Err(e) => spec_extract_base64_payload(raw@) == Err::<Seq<char>, int>(e.code as int)
                && e.code == -32602i64,
        },
{
    let payload = extract_base64_payload(raw)?;
    let chars = crate::text::str_to_chars(payload.as_str());
    let n = chars.len();
    let padding: usize = if n >= 2 && chars[n - 1] == '=' && chars[n - 2] == '=' {
        2
    } else if n >= 1 && chars[n - 1] == '=' {
        1
    } else {
        0
    };
    let blocks = n / 4 + (if n % 4 != 0 {
        1
    } else {
        0
    });
    proof {
        assert(blocks == (chars@.len() + 3) / 4);
    }
    let product = if blocks > usize::MAX / 3 {
        usize::MAX
    } else {
        blocks * 3
    };
    proof {
        assert(product == if blocks * 3 > usize::MAX {
            usize::MAX as int
        } else {
            blocks * 3
        }) by (nonlinear_arith)
            requires
                product == if blocks > usize::MAX / 3 {
                    usize::MAX
                } else {
                    (blocks * 3) as usize
                },
                blocks >= 0,
        ;
    }
    if product >= padding {
        Ok(product - padding)
    } else {
        Ok(0)
    }
}

/// Names what base64's standard-alphabet engine decodes a payload to.
pub uninterp spec fn spec_b64_standard_decode(s: Seq<char>) -> Option<Seq<u8>>;

/// Relies on the base64 crate's `STANDARD` engine: whether and to what a
/// payload decodes depends on the payload alone.
#[verifier::external_body]
fn b64_standard_decode(s: &str) -> (r: Option<Vec<u8>>)
    ensures
        match r {
            Some(b) => spec_b64_standard_decode(s@) == Some(b@),
            None => spec_b64_standard_decode(s@) is None,
        },
{
    base64::Engine::decode(&base64::engine::general_purpose::STANDARD, s).ok()
}

/// Names what base64's URL-safe engine decodes a payload to.
pub uninterp spec fn spec_b64_url_safe_decode(s: Seq<char>) -> Option<Seq<u8>>;

/// Relies on the base64 crate's `URL_SAFE` engine: whether and to what a
/// payload decodes depends on the payload alone.
#[verifier::external_body]
fn b64_url_safe_decode(s: &str) -> (r: Option<Vec<u8>>)
    ensures
        match r {
            Some(b) => spec_b64_url_safe_decode(s@) == Some(b@),
            None => spec_b64_url_safe_decode(s@) is None,
        },
{
    base64::Engine::decode(&base64::engine::general_purpose::URL_SAFE, s).ok()
}

/// What decoding an extracted payload yields: the standard alphabet
/// first, the URL-safe alphabet as a fallback.
pub open spec fn spec_decode_base64(payload: Seq<char>) -> Option<Seq<u8>> {
    match spec_b64_standard_decode(payload) {
        Some(b) => Some(b),
        None => spec_b64_url_safe_decode(payload),
    }
}

/// Decodes a possibly data-URI-wrapped base64 value.
pub fn decode_base64_payload(raw: &str) -> (r: Result<Vec<u8>, BridgeError>)
    ensures
        match r {
            Ok(bytes) => spec_extract_base64_payload(raw@) matches Ok(payload)
                && spec_decode_base64(payload) == Some(bytes@),
            Err(e) => e.code == -32602i64 && (spec_extract_base64_payload(raw@)
                matches Err(c) ==> c == e.code as int) && (spec_extract_base64_payload(raw@)
                matches Ok(payload) ==> spec_decode_base64(payload) is None),
        },
{
    let payload = extract_base64_payload(raw)?;
    match b64_standard_decode(payload.as_str()) {
        Some(bytes) => Ok(bytes),
        None => match b64_url_safe_decode(payload.as_str()) {
            Some(bytes) => Ok(bytes),
            None => Err(BridgeError::invalid_params("invalid base64 attachment payload")),
        },
    }
}

/// The attachment kind: an explicit `image` or `file` wins; else an
/// `image/` mime prefix; else `file`.
pub open spec fn spec_attachment_kind(kind: Option<Seq<char>>, mime: Option<Seq<char>>) -> Seq<
    char,
> {
    let normalized = match kind {
        Some(k) => spec_to_lower(spec_trim(k)),
        None => Seq::<char>::empty(),
    };
    if normalized == "image"@ {
        "image"@
    } else if normalized == "file"@ {
        "file"@
    } else {
        match mime {
            Some(m) => if crate::text::spec_starts_with(
                spec_to_lower(spec_trim(m)),
                "image/"@,
            ) {
                "image"@
            } else {
                "file"@
            },
            None => "file"@,
        }
    }
}

/// Normalizes an attachment kind.
pub fn normalize_attachment_kind(kind: Option<&str>, mime_type: Option<&str>) -> (r: &'static str)
    ensures
        r@ == spec_attachment_kind(
            match kind {
                Some(k) => Some(k@),
                None => None,
            },
            match mime_type {
                Some(m) => Some(m@),
                None => None,
            },
        ),
{
    let normalized: String = match kind {
        Some(k) => {
            let t = crate::text::trim_str(k);
            crate::text::to_lower_str(t.as_str())
        },
        None => String::new(),
    };
    if crate::json::str_eq(normalized.as_str(), "image") {
        return "image";
    }
    if crate::json::str_eq(normalized.as_str(), "file") {
        return "file";
    }
    match mime_type {
        Some(m) => {
            let t = crate::text::trim_str(m);
            let lower = crate::text::to_lower_str(t.as_str());
            if crate::text::starts_with(lower.as_str(), "image/") {
                "image"
            } else {
                "file"
            }
        },
        None => "file",
    }
}

/// The extension implied by a known mime type.
pub open spec fn spec_extension_for_mime(mime: Seq<char>) -> Option<Seq<char>> {
    let m = spec_to_lower(spec_trim(mime));
    if m == "image/jpeg"@ || m == "image/jpg"@ {
        Some("jpg"@)
    } else if m == "image/png"@ {
        Some("png"@)
    } else if m == "image/webp"@ {
        Some("webp"@)
    } else if m == "image/gif"@ {
        Some("gif"@)
    } else if m == "image/heic"@ {
        Some("heic"@)
    } else if m == "image/heif"@ {
        Some("heif"@)
    } else if m == "text/plain"@ {
        Some("txt"@)
    } else if m == "application/json"@ {
        Some("json"@)
    } else if m == "application/pdf"@ {
        Some("pdf"@)
    } else {
        None
    }
}

/// Maps a known mime type to a file extension.
pub fn infer_extension_from_mime(raw_mime_type: Option<&str>) -> (r: Option<&'static str>)
    ensures
        match raw_mime_type {
            None => r is None,
            Some(mime) => match r {
                Some(ext) => spec_extension_for_mime(mime@) == Some(ext@),
                None => spec_extension_for_mime(mime@) is None,
            },
        },
{
    let mime = match raw_mime_type {
        Some(m) => m,
        None => {
            return None;
        },
    };
    let t = crate::text::trim_str(mime);
    let m = crate::text::to_lower_str(t.as_str());
    let m = m.as_str();
    if crate::json::str_eq(m, "image/jpeg") || crate::json::str_eq(m, "image/jpg") {
        Some("jpg")
    } else if crate::json::str_eq(m, "image/png") {
        Some("png")
    } else if crate::json::str_eq(m, "image/webp") {
        Some("webp")
    } else if crate::json::str_eq(m, "image/gif") {
        Some("gif")
    } else if crate::json::str_eq(m, "image/heic") {
        Some("heic")
    } else if crate::json::str_eq(m, "image/heif") {
        Some("heif")
    } else if crate::json::str_eq(m, "text/plain") {
        Some("txt")
    } else if crate::json::str_eq(m, "application/json") {
        Some("json")
    } else if crate::json::str_eq(m, "application/pdf") {
        Some("pdf")
    } else {
        None
    }
}

/// The stored name for an uploaded attachment: the sanitized requested
/// name (or a default for the kind), gaining an extension from the mime
/// type when it has no dot.
pub open spec fn spec_attachment_file_name(
    raw_name: Option<Seq<char>>,
    raw_mime: Option<Seq<char>>,
    kind: Seq<char>,
) -> Seq<char> {
    let requested = match raw_name {
        Some(n) => if spec_is_blank(n) {
            spec_default_name(kind)
        } else {
            n
        },
        None => spec_default_name(kind),
    };
    let sanitized = spec_sanitize_filename(requested);
    if crate::text::spec_contains_sub(sanitized, "."@) {
        sanitized
    } else {
        match raw_mime {
            Some(m) => match spec_extension_for_mime(m) {
                Some(ext) => sanitized + seq!['.'] + ext,
                None => sanitized,
            },
            None => sanitized,
        }
    }
}

pub open spec fn spec_default_name(kind: Seq<char>) -> Seq<char> {
    if kind == "image"@ {
        "image"@
    } else {
        "attachment"@
    }
}

/// Builds the stored attachment file name.
pub fn build_attachment_file_name(
    raw_name: Option<&str>,
    raw_mime_type: Option<&str>,
    kind: &str,
) -> (r: String)
    ensures
        r@ == spec_attachment_file_name(
            match raw_name {
                Some(n) => Some(n@),
                None => None,
            },
            match raw_mime_type {
                Some(m) => Some(m@),
                None => None,
            },
            kind@,
        ),
{
    let requested: String = match raw_name {
        Some(n) => {
            if crate::text::is_blank_str(n) {
                default_name_for_kind(kind)
            } else {
                n.to_owned()
            }
        },
        None => default_name_for_kind(kind),
    };
    let sanitized = sanitize_filename(requested.as_str());
    if crate::text::contains_sub(sanitized.as_str(), ".") {
        return sanitized;
    }
    match infer_extension_from_mime(raw_mime_type) {
        Some(ext) => {
            let with_dot = crate::text::concat_str(sanitized.as_str(), ".");
            proof {
                reveal_strlit(".");
                assert("."@ =~= seq!['.']);
            }
            crate::text::concat_str(with_dot.as_str(), ext)
        },
        None => sanitized,
    }
}

fn default_name_for_kind(kind: &str) -> (r: String)
    ensures
        r@ == spec_default_name(kind@),
{
    if crate::json::str_eq(kind, "image") {
        "image".to_owned()
    } else {
        "attachment".to_owned()
    }
}

/// The canonical transcription mime type: the base type before any
/// parameters, lowered, mapped into the supported set, with a default.
pub open spec fn spec_transcription_mime(raw: Option<Seq<char>>) -> Seq<char> {
    match raw {
        Some(v) => {
            if spec_is_blank(v) {
                "audio/wav"@
            } else {
                let base = spec_to_lower(
                    spec_trim(crate::text::spec_split_sep(SepClass::Semicolon, spec_trim(v))[0]),
                );
                if base == "audio/wav"@ || base == "audio/x-wav"@ || base == "audio/wave"@ {
                    "audio/wav"@
                } else if base == "audio/mp4"@ {
                    "audio/mp4"@
                } else if base == "audio/m4a"@ || base == "audio/x-m4a"@ {
                    "audio/m4a"@
                } else if base == "audio/aac"@ {
                    "audio/aac"@
                } else if base == "audio/mpeg"@ || base == "audio/mp3"@ || base == "audio/mpga"@ {
                    "audio/mpeg"@
                } else if base == "audio/webm"@ {
                    "audio/webm"@
                } else if base == "audio/ogg"@ {
                    "audio/ogg"@
                } else if base == "audio/flac"@ || base == "audio/x-flac"@ {
                    "audio/flac"@
                } else {
                    "audio/wav"@
                }
            }
        },
        None => "audio/wav"@,
    }
}

/// Normalizes a transcription mime type.
pub fn normalize_transcription_mime_type(raw_mime_type: Option<&str>) -> (r: String)
    ensures
        r@ == spec_transcription_mime(
            match raw_mime_type {
                Some(m) => Some(m@),
                None => None,
            },
        ),
{
    let raw = match raw_mime_type {
        Some(m) => m,
        None => {
            return "audio/wav".to_owned();
        },
    };
    if crate::text::is_blank_str(raw) {
        return "audio/wav".to_owned();
    }
    let trimmed = crate::text::trim_str(raw);
    let pieces = crate::text::split_str(trimmed.as_str(), &SepClass::Semicolon);
    proof {
        assert(crate::text::spec_split_sep(SepClass::Semicolon, trimmed@).len() >= 1);
        assert(strings_view(pieces@).len() == pieces@.len());
        assert(strings_view(pieces@)[0] == pieces@[0]@);
    }
    let first = crate::text::trim_str(pieces[0].as_str());
    let base = crate::text::to_lower_str(first.as_str());
    let b = base.as_str();
    if crate::json::str_eq(b, "audio/wav") || crate::json::str_eq(b, "audio/x-wav")
        || crate::json::str_eq(b, "audio/wave") {
        "audio/wav".to_owned()
    } else if crate::json::str_eq(b, "audio/mp4") {
        "audio/mp4".to_owned()
    } else if crate::json::str_eq(b, "audio/m4a") || crate::json::str_eq(b, "audio/x-m4a") {
        "audio/m4a".to_owned()
    } else if crate::json::str_eq(b, "audio/aac") {
        "audio/aac".to_owned()
    } else if crate::json::str_eq(b, "audio/mpeg") || crate::json::str_eq(b, "audio/mp3")
        || crate::json::str_eq(b, "audio/mpga") {
        "audio/mpeg".to_owned()
    } else if crate::json::str_eq(b, "audio/webm") {
        "audio/webm".to_owned()
    } else if crate::json::str_eq(b, "audio/ogg") {
        "audio/ogg".to_owned()
    } else if crate::json::str_eq(b, "audio/flac") || crate::json::str_eq(b, "audio/x-flac") {
        "audio/flac".to_owned()
    } else {
        "audio/wav".to_owned()
    }
}

/// The audio extension for a canonical transcription mime type.
pub open spec fn spec_transcription_extension(mime: Seq<char>) -> Seq<char> {
    if mime == "audio/wav"@ {
        "wav"@
    } else if mime == "audio/mp4"@ || mime == "audio/m4a"@ {
        "m4a"@
    } else if mime == "audio/aac"@ {
        "aac"@
    } else if mime == "audio/mpeg"@ {
        "mp3"@
    } else if mime == "audio/webm"@ {
        "webm"@
    } else if mime == "audio/ogg"@ {
        "ogg"@
    } else if mime == "audio/flac"@ {
        "flac"@
    } else {
        "wav"@
    }
}

/// Maps a canonical transcription mime type to an audio extension.
pub fn infer_transcription_extension_from_mime(mime_type: &str) -> (r: &'static str)
    ensures
        r@ == spec_transcription_extension(mime_type@),
{
    let m = mime_type;
    if crate::json::str_eq(m, "audio/wav") {
        "wav"
    } else if crate::json::str_eq(m, "audio/mp4") || crate::json::str_eq(m, "audio/m4a") {
        "m4a"
    } else if crate::json::str_eq(m, "audio/aac") {
        "aac"
    } else if crate::json::str_eq(m, "audio/mpeg") {
        "mp3"
    } else if crate::json::str_eq(m, "audio/webm") {
        "webm"
    } else if crate::json::str_eq(m, "audio/ogg") {
        "ogg"
    } else if crate::json::str_eq(m, "audio/flac") {
        "flac"
    } else {
        "wav"
    }
}

/// The stored audio file name for transcription: the sanitized requested
/// name (or a default), gaining the mime-implied extension when it has
/// no dot.
pub open spec fn spec_transcription_file_name(raw: Option<Seq<char>>, mime: Seq<char>) -> Seq<
    char,
> {
    let base = match raw {
        Some(n) => if spec_is_blank(n) {
            "audio"@
        } else {
            spec_sanitize_filename(n)
        },
        None => "audio"@,
    };
    if crate::text::spec_contains_sub(base, "."@) {
        base
    } else {
        base + seq!['.'] + spec_transcription_extension(mime)
    }
}

/// Builds the transcription upload's file name.
pub fn normalize_transcription_file_name(raw_name: Option<&str>, mime_type: &str) -> (r: String)
    ensures
        r@ == spec_transcription_file_name(
            match raw_name {
                Some(n) => Some(n@),
                None => None,
            },
            mime_type@,
        ),
{
    let base: String = match raw_name {
        Some(n) => {
            if crate::text::is_blank_str(n) {
                "audio".to_owned()
            } else {
                sanitize_filename(n)
            }
        },
        None => "audio".to_owned(),
    };
    if crate::text::contains_sub(base.as_str(), ".") {
        return base;
    }
    let with_dot = crate::text::concat_str(base.as_str(), ".");
    proof {
        reveal_strlit(".");
        assert("."@ =~= seq!['.']);
    }
    crate::text::concat_str(with_dot.as_str(), infer_transcription_extension_from_mime(mime_type))
}

/// Validates an attachment payload: the size estimate and the decoded
/// bytes must stay within the cap, and the payload must be non-empty.
pub fn validate_attachment_payload(data_base64: &str) -> (r: Result<Vec<u8>, BridgeError>)
    ensures
        match r {
            Ok(bytes) => {
                &&& spec_extract_base64_payload(data_base64@) matches Ok(payload)
                    && spec_decode_base64(payload) == Some(bytes@)
                &&& bytes@.len() > 0
                &&& bytes@.len() <= crate::limits::MAX_ATTACHMENT_BYTES
            },
            Err(e) => e.code == -32602i64,
        },
{
    let estimated = estimate_base64_decoded_size(data_base64)?;
    if estimated > crate::limits::MAX_ATTACHMENT_BYTES {
        return Err(BridgeError::invalid_params("attachment exceeds the size cap"));
    }
    let bytes = decode_base64_payload(data_base64)?;
    if bytes.len() == 0 {
        return Err(BridgeError::invalid_params("attachment payload is empty"));
    }
    if bytes.len() > crate::limits::MAX_ATTACHMENT_BYTES {
        return Err(BridgeError::invalid_params("attachment exceeds the size cap"));
    }
    Ok(bytes)
}

/// Validates a voice payload against the configured cap and the minimum
/// worth transcribing.
pub fn validate_voice_payload(data_base64: &str, max_bytes: usize) -> (r: Result<
    Vec<u8>,
    BridgeError,
>)
    ensures
        match r {
            Ok(bytes) => {
                &&& spec_extract_base64_payload(data_base64@) matches Ok(payload)
                    && spec_decode_base64(payload) == Some(bytes@)
                &&& bytes@.len() >= crate::limits::MIN_VOICE_TRANSCRIPTION_BYTES
                &&& bytes@.len() <= max_bytes
            },
            Err(e) => e.code == -32602i64,
        },
{
    let estimated = estimate_base64_decoded_size(data_base64)?;
    if estimated > max_bytes {
        return Err(BridgeError::invalid_params("audio payload exceeds the size cap"));
    }
    let bytes = decode_base64_payload(data_base64)?;
    if bytes.len() < crate::limits::MIN_VOICE_TRANSCRIPTION_BYTES {
        return Err(
            BridgeError::invalid_params("audio payload too short (minimum ~0.5 seconds required)"),
        );
    }
    if bytes.len() > max_bytes {
        return Err(BridgeError::invalid_params("audio payload exceeds the size cap"));
    }
    Ok(bytes)
}

} // verus!
