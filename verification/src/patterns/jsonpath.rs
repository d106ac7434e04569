//! Conversion of JSONPath-style paths (`$.foo.bar`, `$.items[0].name`) into
//! RFC 6901 JSON Pointers (`/foo/bar`, `/items/0/name`).
use vstd::prelude::*;
use crate::text::{chars_of, chars_slice, find_char, index_of, lemma_index_of_from, push_all, string_of};

verus! {

/// Pointer text for one dot-separated segment: `key[i][j]` gives
/// `/key/i/j`; an unclosed `[` emits the rest verbatim.
pub open spec fn segment_pointer(r: Seq<char>) -> Seq<char>
    decreases r.len(),
{
    match index_of(r, '[') {
        Some(open) => {
            if 0 <= open < r.len() {
                let key = r.subrange(0, open);
                let head = if key.len() > 0 {
                    seq!['/'] + key
                } else {
                    Seq::empty()
                };
                let rest = r.subrange(open + 1, r.len() as int);
                match index_of(rest, ']') {
                    Some(close) => if 0 <= close < rest.len() {
                        head + seq!['/'] + rest.subrange(0, close) + segment_pointer(
                            rest.subrange(close + 1, rest.len() as int),
                        )
                    } else {
                        Seq::empty()
                    },
                    None => head + seq!['/'] + rest,
                }
            } else {
                Seq::empty()
            }
        },
        None => if r.len() > 0 {
            seq!['/'] + r
        } else {
            Seq::empty()
        },
    }
}

/// Pointer text for every `.`-separated segment of `s`, in order.
pub open spec fn segments_pointer(s: Seq<char>) -> Seq<char>
    decreases s.len(),
{
    match index_of(s, '.') {
        Some(d) => if 0 <= d < s.len() {
            segment_pointer(s.subrange(0, d)) + segments_pointer(s.subrange(d + 1, s.len() as int))
        } else {
            Seq::empty()
        },
        None => segment_pointer(s),
    }
}

/// The path with a leading `$.` (or else `$`) removed.
pub open spec fn path_body(p: Seq<char>) -> Seq<char> {
    if p.len() >= 2 && p[0] == '$' && p[1] == '.' {
        p.subrange(2, p.len() as int)
    } else if p.len() >= 1 && p[0] == '$' {
        p.subrange(1, p.len() as int)
    } else {
        p
    }
}

/// The JSON Pointer for a path: a path starting with `/` is already one;
/// otherwise each segment contributes `/name` and each `[index]` `/index`,
/// and an empty result is the root pointer `/`.
pub open spec fn json_pointer_of(p: Seq<char>) -> Seq<char> {
    if p.len() > 0 && p[0] == '/' {
        p
    } else {
        let out = segments_pointer(path_body(p));
        if out.len() == 0 {
            seq!['/']
        } else {
            out
        }
    }
}

fn push_segment(r: &Vec<char>, out: &mut Vec<char>)
    ensures
        final(out)@ == old(out)@ + segment_pointer(r@),
    decreases r.len(),
{
    proof {
        lemma_index_of_from(r@, '[', 0);
    }
    match find_char(r.as_slice(), '[') {
        Some(open) => {
            if open > 0 {
                out.push('/');
                let key = chars_slice(r, 0, open);
                push_all(out, key.as_slice());
            }
            let rest = chars_slice(r, open + 1, r.len());
            proof {
                lemma_index_of_from(rest@, ']', 0);
            }
            match find_char(rest.as_slice(), ']') {
                Some(close) => {
                    out.push('/');
                    let idx = chars_slice(&rest, 0, close);
                    push_all(out, idx.as_slice());
                    let tail = chars_slice(&rest, close + 1, rest.len());
                    let ghost before = out@;
                    push_segment(&tail, out);
                    assert(out@ =~= old(out)@ + segment_pointer(r@));
                },
                None => {
                    out.push('/');
                    push_all(out, rest.as_slice());
                    assert(out@ =~= old(out)@ + segment_pointer(r@));
                },
            }
        },
        None => {
            if r.len() > 0 {
                out.push('/');
                push_all(out, r.as_slice());
            }
            assert(out@ =~= old(out)@ + segment_pointer(r@));
        },
    }
}

fn push_segments(s: &Vec<char>, out: &mut Vec<char>)
    ensures
        final(out)@ == old(out)@ + segments_pointer(s@),
    decreases s.len(),
{
    proof {
        lemma_index_of_from(s@, '.', 0);
    }
    match find_char(s.as_slice(), '.') {
        Some(d) => {
            let seg = chars_slice(s, 0, d);
            push_segment(&seg, out);
            let rest = chars_slice(s, d + 1, s.len());
            push_segments(&rest, out);
            assert(out@ =~= old(out)@ + segments_pointer(s@));
        },
        None => {
            push_segment(s, out);
        },
    }
}

/// Convert a JSONPath-ish path (`$.foo.bar`, `$.foo[0].bar`, `foo.bar`)
/// to a JSON Pointer; a path that already starts with `/` passes through.
pub fn jsonpath_to_pointer(p: &str) -> (r: String)
    ensures
        r@ == json_pointer_of(p@),
{
    let cs = chars_of(p);
    if cs.len() > 0 && cs[0] == '/' {
        return string_of(cs.as_slice());
    }
    let body = if cs.len() >= 2 && cs[0] == '$' && cs[1] == '.' {
        chars_slice(&cs, 2, cs.len())
    } else if cs.len() >= 1 && cs[0] == '$' {
        chars_slice(&cs, 1, cs.len())
    } else {
        chars_slice(&cs, 0, cs.len())
    };
    assert(cs@.subrange(0, cs.len() as int) =~= cs@);
    let mut out: Vec<char> = Vec::new();
    push_segments(&body, &mut out);
    assert(out@ =~= segments_pointer(path_body(p@)));
    if out.len() == 0 {
        out.push('/');
        assert(out@ =~= seq!['/']);
    }
    string_of(out.as_slice())
}

} // verus!
