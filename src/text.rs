use vstd::prelude::*;
use vstd::utf8::{decode_utf8, valid_utf8};

verus! {

/// The texts joined by `", "`.
pub open spec fn joined(s: Seq<Seq<char>>) -> Seq<char>
    decreases s.len(),
{
    if s.len() == 0 {
        Seq::empty()
    } else if s.len() == 1 {
        s[0]
    } else {
        joined(s.drop_last()) + ", "@ + s.last()
    }
}

/// A list of texts as `[a, b, c]`.
pub open spec fn list_text(s: Seq<Seq<char>>) -> Seq<char> {
    "["@ + joined(s) + "]"@
}

/// What `{:?}` writes for a string: the text between double quotes, with
/// quotes, backslashes and control characters escaped.
pub uninterp spec fn debug_text(s: Seq<char>) -> Seq<char>;

/// Relies on the `Debug` formatting of `str` (`format!("{:?}", s)`): the
/// result depends on the characters alone.
#[verifier::external_body]
pub(crate) fn debug_string(s: &str) -> (r: String)
    ensures
        r@ == debug_text(s@),
{
    format!("{:?}", s)
}

/// The `Debug` texts of a sequence of texts.
pub open spec fn debug_all(v: Seq<Seq<char>>) -> Seq<Seq<char>> {
    v.map_values(|t: Seq<char>| debug_text(t))
}

/// The `Debug` texts of a sequence of strings.
pub open spec fn debug_texts(s: Seq<String>) -> Seq<Seq<char>> {
    debug_all(s.map_values(|t: String| t@))
}

/// Writes a list of strings as `{:?}` does: `["a", "b", "c"]`.
pub fn list_string(s: &Vec<String>) -> (r: String)
    ensures
        r@ == list_text(debug_texts(s@)),
{
    let ghost v = debug_texts(s@);
    let mut body = String::new();
    let mut i: usize = 0;
    while i < s.len()
        invariant
            i <= s@.len(),
            v == debug_texts(s@),
            body@ == joined(v.take(i as int)),
        decreases s@.len() - i,
    {
        proof {
            assert(v.take(i as int + 1).drop_last() =~= v.take(i as int));
            assert(v[i as int] == debug_text(s@[i as int]@));
        }
        if i > 0 {
            body.append(", ");
        }
        let d = debug_string(s[i].as_str());
        body.append(d.as_str());
        proof {
            if i == 0 {
                assert(body@ =~= v.take(1)[0]);
            }
        }
        i = i + 1;
    }
    proof {
        assert(v.take(s@.len() as int) =~= v);
    }
    let mut r = String::from_str("[");
    r.append(body.as_str());
    r.append("]");
    r
}

/// The text that a sequence of byte chunks carries where each chunk is read
/// as UTF-8 on its own and a chunk that is not valid UTF-8 is left out.
pub open spec fn chunks_text(chunks: Seq<Seq<u8>>) -> Seq<char>
    decreases chunks.len(),
{
    if chunks.len() == 0 {
        Seq::empty()
    } else {
        let rest = chunks_text(chunks.drop_last());
        if valid_utf8(chunks.last()) {
            rest + decode_utf8(chunks.last())
        } else {
            rest
        }
    }
}

/// Relies on std::str::from_utf8: it succeeds exactly on valid UTF-8, and
/// the text is then what the bytes encode.
#[verifier::external_body]
fn utf8_text(b: &[u8]) -> (r: Option<String>)
    ensures
        r is Some <==> valid_utf8(b@),
        r matches Some(t) ==> t@ == decode_utf8(b@),
{
    std::str::from_utf8(b).ok().map(|t| t.to_string())
}

/// Joins the output chunks of a command into one text; a chunk that is not
/// valid UTF-8 is dropped rather than failing the whole output.
pub fn exec_output(chunks: &Vec<Vec<u8>>) -> (r: String)
    ensures
        r@ == chunks_text(chunks@.map_values(|c: Vec<u8>| c@)),
{
    let ghost v = chunks@.map_values(|c: Vec<u8>| c@);
    let mut r = String::new();
    let mut i: usize = 0;
    while i < chunks.len()
        invariant
            i <= chunks@.len(),
            v == chunks@.map_values(|c: Vec<u8>| c@),
            r@ == chunks_text(v.take(i as int)),
        decreases chunks@.len() - i,
    {
        proof {
            assert(v.take(i as int + 1).drop_last() =~= v.take(i as int));
        }
        match utf8_text(chunks[i].as_slice()) {
            Some(t) => r.append(t.as_str()),
            None => {},
        }
        i = i + 1;
    }
    proof {
        assert(v.take(chunks@.len() as int) =~= v);
    }
    r
}

} // verus!
