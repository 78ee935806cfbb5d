//! File-name sanitization: deleting the characters that the most restrictive
//! common filesystem refuses, while keeping every other character in order.

use vstd::prelude::*;
use vstd::string::*;

verus! {

/// A character that may not appear in a file name.
pub open spec fn is_illegal_char(c: char) -> bool {
    ||| c == '<'
    ||| c == '>'
    ||| c == ':'
    ||| c == '"'
    ||| c == '/'
    ||| c == '\\'
    ||| c == '|'
    ||| c == '?'
    ||| c == '*'
}

/// The sanitized form of a name: the same characters in the same order, with
/// every forbidden character deleted and nothing substituted in its place.
pub open spec fn spec_sanitize(s: Seq<char>) -> Seq<char>
    decreases s.len(),
{
    if s.len() == 0 {
        Seq::<char>::empty()
    } else {
        let rest = spec_sanitize(s.drop_last());
        if is_illegal_char(s.last()) {
            rest
        } else {
            rest.push(s.last())
        }
    }
}

fn is_illegal_char_exec(c: char) -> (r: bool)
    ensures
        r == is_illegal_char(c),
{
    c == '<' || c == '>' || c == ':' || c == '"' || c == '/' || c == '\\' || c == '|'
        || c == '?' || c == '*'
}

/// Delete every forbidden character from a name, preserving the relative
/// order of the remaining characters.  Total: every input, including the
/// empty string and an all-forbidden string, has a sanitized form.
pub fn replace_illegal_characters(s: &str) -> (r: String)
    ensures
        r@ == spec_sanitize(s@),
{
    let n = s.unicode_len();
    let mut out = String::new();
    let mut i: usize = 0;
    while i < n
        invariant
            n == s@.len(),
            i <= n,
            out@ == spec_sanitize(s@.take(i as int)),
        decreases n - i,
    {
        let c = s.get_char(i);
        proof {
            assert(s@.take(i + 1).drop_last() =~= s@.take(i as int));
            assert(s@.take(i + 1).last() == s@[i as int]);
        }
        if !is_illegal_char_exec(c) {
            let piece = s.substring_char(i, i + 1);
            out.append(piece);
            proof {
                assert(out@ =~= spec_sanitize(s@.take(i as int)).push(s@[i as int]));
            }
        }
        i = i + 1;
    }
    proof {
        assert(s@.take(n as int) =~= s@);
    }
    out
}

/// Sanitization removes all forbidden characters: no character of the
/// sanitized form is in the forbidden set.
pub proof fn lemma_sanitize_no_illegal(s: Seq<char>)
    ensures
        forall|i: int|
            0 <= i < spec_sanitize(s).len() ==> !is_illegal_char(#[trigger] spec_sanitize(s)[i]),
    decreases s.len(),
{
    if s.len() != 0 {
        lemma_sanitize_no_illegal(s.drop_last());
        let rest = spec_sanitize(s.drop_last());
        if !is_illegal_char(s.last()) {
            assert forall|i: int|
                0 <= i < spec_sanitize(s).len() implies !is_illegal_char(
                spec_sanitize(s)[i],
            ) by {
                if i < rest.len() {
                    assert(spec_sanitize(s)[i] == rest[i]);
                } else {
                    assert(spec_sanitize(s)[i] == s.last());
                }
            }
        }
    }
}

/// A name without forbidden characters is already sanitized: sanitization
/// returns it unchanged.
pub proof fn lemma_sanitize_clean_identity(s: Seq<char>)
    requires
        forall|i: int| 0 <= i < s.len() ==> !is_illegal_char(#[trigger] s[i]),
    ensures
        spec_sanitize(s) == s,
    decreases s.len(),
{
    if s.len() == 0 {
        assert(spec_sanitize(s) =~= s);
    } else {
        lemma_sanitize_clean_identity(s.drop_last());
        assert(spec_sanitize(s) =~= s);
    }
}

/// Sanitization is idempotent: sanitizing a second time changes nothing.
pub proof fn lemma_sanitize_idempotent(s: Seq<char>)
    ensures
        spec_sanitize(spec_sanitize(s)) == spec_sanitize(s),
{
    lemma_sanitize_no_illegal(s);
    lemma_sanitize_clean_identity(spec_sanitize(s));
}

/// The file name a downloaded song is stored under: `"<artist> - <title>.mp3"`,
/// sanitized.
pub fn song_file_name(artist: &str, title: &str) -> (r: String)
    ensures
        r@ == spec_sanitize(artist@ + " - "@ + title@ + ".mp3"@),
{
    let mut full = String::from_str(artist);
    full.append(" - ");
    full.append(title);
    full.append(".mp3");
    replace_illegal_characters(full.as_str())
}

} // verus!
