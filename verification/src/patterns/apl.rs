//! Allora Predicate Language (APL) v1: tokenizer and atom grammar.
//!
//! An expression is a list of atoms joined by `&&` and `||`. Tokenizing
//! splits the text at each operator occurrence (scanning left to right),
//! trims the pieces between operators, and keeps the non-empty pieces.
use vstd::prelude::*;
use crate::text::{
    chars_of, chars_slice, index_of_from, is_ws, is_ws_exec, lemma_index_of_from, occurs_at, string_of,
    trim, trim_bounds,
};
use crate::patterns::jsonpath::{json_pointer_of, jsonpath_to_pointer};

verus! {

/// A logical operator between two atoms.
#[derive(Clone, Copy, Debug, PartialEq, Eq, Structural)]
pub enum LogicalOp {
    And,
    Or,
}

/// A token of an expression: an operator, or the trimmed text between two.
#[derive(Debug)]
pub enum AplToken {
    Op(LogicalOp),
    Text(String),
}

pub enum AplTokenView {
    Op(LogicalOp),
    Text(Seq<char>),
}

impl View for AplToken {
    type V = AplTokenView;

    open spec fn view(&self) -> AplTokenView {
        match self {
            AplToken::Op(o) => AplTokenView::Op(*o),
            AplToken::Text(s) => AplTokenView::Text(s@),
        }
    }
}

/// An operator (`&&` or `||`) starts at position `q` of `s`.
pub open spec fn is_op_at(s: Seq<char>, q: int) -> bool {
    0 <= q && q + 1 < s.len() && ((s[q] == '&' && s[q + 1] == '&') || (s[q] == '|' && s[q + 1]
        == '|'))
}

/// Position of the first operator at or after `i`.
pub open spec fn first_op_from(s: Seq<char>, i: int) -> Option<int>
    decreases s.len() - i,
{
    if i < 0 || i + 1 >= s.len() {
        None
    } else if is_op_at(s, i) {
        Some(i)
    } else {
        first_op_from(s, i + 1)
    }
}

/// The operator starting at `q`.
pub open spec fn op_at(s: Seq<char>, q: int) -> LogicalOp {
    if s[q] == '&' {
        LogicalOp::And
    } else {
        LogicalOp::Or
    }
}

/// The token of a piece between operators: its trimmed text, if any.
pub open spec fn piece(p: Seq<char>) -> Seq<AplTokenView> {
    if trim(p).len() > 0 {
        seq![AplTokenView::Text(trim(p))]
    } else {
        Seq::empty()
    }
}

pub proof fn lemma_first_op_from(s: Seq<char>, i: int)
    requires
        0 <= i,
    ensures
        match first_op_from(s, i) {
            Some(q) => i <= q && is_op_at(s, q) && forall|m: int|
                i <= m < q ==> !#[trigger] is_op_at(s, m),
            None => forall|m: int| i <= m ==> !#[trigger] is_op_at(s, m),
        },
    decreases s.len() - i,
{
    if i + 1 >= s.len() {
    } else if is_op_at(s, i) {
    } else {
        lemma_first_op_from(s, i + 1);
    }
}

/// The tokens of an expression.
pub open spec fn apl_tokens(s: Seq<char>) -> Seq<AplTokenView>
    decreases s.len(),
{
    match first_op_from(s, 0) {
        None => piece(s),
        Some(q) => if 0 <= q && q + 2 <= s.len() {
            piece(s.subrange(0, q)) + seq![AplTokenView::Op(op_at(s, q))] + apl_tokens(
                s.subrange(q + 2, s.len() as int),
            )
        } else {
            Seq::empty()
        },
    }
}

pub proof fn lemma_first_op_skip(s: Seq<char>, i: int)
    requires
        0 <= i,
        forall|m: int| 0 <= m < i ==> !#[trigger] is_op_at(s, m),
    ensures
        first_op_from(s, 0) == first_op_from(s, i),
    decreases i,
{
    if i > 0 {
        lemma_first_op_skip(s, i - 1);
        assert(!is_op_at(s, i - 1));
        if i - 1 + 1 >= s.len() {
            assert(first_op_from(s, i - 1) is None);
            assert(first_op_from(s, i) is None);
        }
    }
}

pub fn piece_token(s: &Vec<char>, lo: usize, hi: usize, out: &mut Vec<AplToken>)
    requires
        lo <= hi <= s.len(),
    ensures
        final(out)@.map_values(|t: AplToken| t@) == old(out)@.map_values(|t: AplToken| t@) + piece(
            s@.subrange(lo as int, hi as int),
        ),
{
    let p = chars_slice(s, lo, hi);
    let (a, b) = trim_bounds(&p);
    let ghost before = out@.map_values(|t: AplToken| t@);
    if b > a {
        let t = chars_slice(&p, a, b);
        let text = string_of(t.as_slice());
        out.push(AplToken::Text(text));
        assert(out@.map_values(|t: AplToken| t@) =~= before + piece(s@.subrange(lo as int, hi as int)));
    } else {
        assert(piece(s@.subrange(lo as int, hi as int)) =~= Seq::<AplTokenView>::empty());
        assert(out@.map_values(|t: AplToken| t@) =~= before + piece(s@.subrange(lo as int, hi as int)));
    }
}

/// Split an expression into tokens.
pub fn tokenize_apl(apl: &str) -> (r: Vec<AplToken>)
    ensures
        r@.map_values(|t: AplToken| t@) == apl_tokens(apl@),
{
    let s = chars_of(apl);
    let n = s.len();
    let mut out: Vec<AplToken> = Vec::new();
    let mut last: usize = 0;
    let mut i: usize = 0;
    assert(s@.subrange(0, n as int) =~= s@);
    while n - i > 1
        invariant
            n == s.len(),
            last <= i <= n,
            apl_tokens(s@) == out@.map_values(|t: AplToken| t@) + apl_tokens(
                s@.subrange(last as int, n as int),
            ),
            forall|m: int|
                0 <= m < i - last ==> !#[trigger] is_op_at(s@.subrange(last as int, n as int), m),
        decreases n - i,
    {
        let ghost t = s@.subrange(last as int, n as int);
        let c = s[i];
        let d = s[i + 1];
        if (c == '&' && d == '&') || (c == '|' && d == '|') {
            proof {
                assert(is_op_at(t, i - last));
                lemma_first_op_skip(t, i - last);
                assert(first_op_from(t, i - last) == Some(i - last));
                assert(t.subrange(0, i - last) =~= s@.subrange(last as int, i as int));
                assert(t.subrange(i - last + 2, t.len() as int) =~= s@.subrange(i + 2, n as int));
            }
            let ghost before = out@.map_values(|t: AplToken| t@);
            piece_token(&s, last, i, &mut out);
            let op = if c == '&' {
                LogicalOp::And
            } else {
                LogicalOp::Or
            };
            let ghost mid = out@.map_values(|t: AplToken| t@);
            out.push(AplToken::Op(op));
            proof {
                assert(out@.map_values(|t: AplToken| t@) =~= mid.push(AplTokenView::Op(op)));
                assert(op == op_at(t, i - last));
                assert(apl_tokens(t) == piece(t.subrange(0, i - last)) + seq![
                    AplTokenView::Op(op_at(t, i - last)),
                ] + apl_tokens(t.subrange(i - last + 2, t.len() as int)));
                assert(apl_tokens(s@) =~= out@.map_values(|t: AplToken| t@) + apl_tokens(
                    s@.subrange(i + 2, n as int),
                ));
            }
            last = i + 2;
            i = i + 2;
        } else {
            proof {
                assert(!is_op_at(t, i - last));
            }
            i = i + 1;
        }
    }
    proof {
        let t = s@.subrange(last as int, n as int);
        assert forall|m: int| 0 <= m implies !#[trigger] is_op_at(t, m) by {
            if m < i - last {
            } else {
                assert(m + 1 >= t.len());
            }
        }
        lemma_first_op_from(t, 0);
        if first_op_from(t, 0) is Some {
            let q = first_op_from(t, 0)->0;
            assert(is_op_at(t, q));
        }
        assert(apl_tokens(t) == piece(t));
    }
    let ghost before = out@.map_values(|t: AplToken| t@);
    piece_token(&s, last, n, &mut out);
    out
}

// ---------------------------------------------------------------------------
// Atoms
// ---------------------------------------------------------------------------

/// `lit` occurs in `s` at position `i`.
pub open spec fn lit_at(s: Seq<char>, i: int, lit: Seq<char>) -> bool {
    0 <= i && i + lit.len() <= s.len() && s.subrange(i, i + lit.len()) == lit
}

/// First position at or after `i` that is not whitespace (or the end).
pub open spec fn ws_end(s: Seq<char>, i: int) -> int
    decreases s.len() - i,
{
    if 0 <= i < s.len() && is_ws(s[i]) {
        ws_end(s, i + 1)
    } else {
        i
    }
}

/// End of a quoted argument that starts at `i`: the position of the next
/// `"`, when at least one character precedes it.
pub open spec fn arg_end(s: Seq<char>, i: int) -> Option<int> {
    match index_of_from(s, '"', i) {
        Some(q) => if q > i {
            Some(q)
        } else {
            None
        },
        None => None,
    }
}

/// `t` holds no double quote.
pub open spec fn no_quote(t: Seq<char>) -> bool {
    forall|k: int| 0 <= k < t.len() ==> t[k] != '"'
}

/// From `i` to the end, `s` is a quoted text without inner quotes: that text.
pub open spec fn quoted_tail(s: Seq<char>, i: int) -> Option<Seq<char>> {
    if 0 <= i && i + 2 <= s.len() && s[i] == '"' && s[s.len() - 1] == '"' && no_quote(
        s.subrange(i + 1, s.len() - 1),
    ) {
        Some(s.subrange(i + 1, s.len() - 1))
    } else {
        None
    }
}

/// After an argument closed at `q`: `")`, optional whitespace, `==`,
/// optional whitespace; the position that follows.
pub open spec fn after_eq(s: Seq<char>, q: int) -> Option<int> {
    if lit_at(s, q, "\")"@) {
        let a = ws_end(s, q + "\")"@.len());
        if lit_at(s, a, "=="@) {
            Some(ws_end(s, a + "=="@.len()))
        } else {
            None
        }
    } else {
        None
    }
}

/// What an atom tests.
pub enum AtomView {
    /// `header("K") == "V"`
    HeaderEquals(Seq<char>, Seq<char>),
    /// `exists(header("K"))`
    HeaderExists(Seq<char>),
    /// `body.contains("T")`
    BodyContains(Seq<char>),
    /// `body.json("P") == "V"`, with `P` already turned into a pointer.
    BodyJsonEquals(Seq<char>, Seq<char>),
    /// Any other text: the body equals it.
    BodyEquals(Seq<char>),
}

/// `header("K") == "V"` with non-empty `K` and `V`.
pub open spec fn header_eq_atom(s: Seq<char>) -> Option<AtomView> {
    let open_lit = "header(\""@;
    if lit_at(s, 0, open_lit) {
        match arg_end(s, open_lit.len() as int) {
            Some(q) => match after_eq(s, q) {
                Some(b) => match quoted_tail(s, b) {
                    Some(v) => if v.len() > 0 {
                        Some(AtomView::HeaderEquals(s.subrange(open_lit.len() as int, q), v))
                    } else {
                        None
                    },
                    None => None,
                },
                None => None,
            },
            None => None,
        }
    } else {
        None
    }
}

/// `open_lit` + argument + `close_lit`, filling the rest of `s`: the argument.
pub open spec fn wrapped_arg(s: Seq<char>, open_lit: Seq<char>, close_lit: Seq<char>) -> Option<
    Seq<char>,
> {
    if lit_at(s, 0, open_lit) {
        match arg_end(s, open_lit.len() as int) {
            Some(q) => if lit_at(s, q, close_lit) && q + close_lit.len() == s.len() {
                Some(s.subrange(open_lit.len() as int, q))
            } else {
                None
            },
            None => None,
        }
    } else {
        None
    }
}

/// `body.json("P") == "V"` with non-empty `P` (`V` may be empty).
pub open spec fn body_json_atom(s: Seq<char>) -> Option<AtomView> {
    let open_lit = "body.json(\""@;
    if lit_at(s, 0, open_lit) {
        match arg_end(s, open_lit.len() as int) {
            Some(q) => match after_eq(s, q) {
                Some(b) => match quoted_tail(s, b) {
                    Some(v) => Some(
                        AtomView::BodyJsonEquals(
                            json_pointer_of(s.subrange(open_lit.len() as int, q)),
                            v,
                        ),
                    ),
                    None => None,
                },
                None => None,
            },
            None => None,
        }
    } else {
        None
    }
}

/// The atom a (trimmed) token denotes. Forms are tried in order; text of
/// no known form compares the whole body.
pub open spec fn atom_of(s: Seq<char>) -> AtomView {
    match header_eq_atom(s) {
        Some(a) => a,
        None => match wrapped_arg(s, "exists(header(\""@, "\"))"@) {
            Some(k) => AtomView::HeaderExists(k),
            None => match wrapped_arg(s, "body.contains(\""@, "\")"@) {
                Some(t) => AtomView::BodyContains(t),
                None => match body_json_atom(s) {
                    Some(a) => a,
                    None => AtomView::BodyEquals(s),
                },
            },
        },
    }
}

/// `body.contains("t")`, for a non-empty `t` without double quotes,
/// denotes the test that the body contains `t` exactly as written.
pub proof fn law_body_contains_atom(t: Seq<char>)
    requires
        t.len() > 0,
        no_quote(t),
    ensures
        atom_of("body.contains(\""@ + t + "\")"@) == AtomView::BodyContains(t),
{
    let open_lit = "body.contains(\""@;
    let close_lit = "\")"@;
    reveal_strlit("body.contains(\"");
    reveal_strlit("\")");
    reveal_strlit("header(\"");
    reveal_strlit("exists(header(\"");
    let s = open_lit + t + close_lit;
    let n = open_lit.len() as int;
    let q = n + t.len();
    assert(s[0] == 'b');
    assert(!lit_at(s, 0, "header(\""@)) by {
        if lit_at(s, 0, "header(\""@) {
            assert(s.subrange(0, 8)[0] == s[0]);
        }
    }
    assert(!lit_at(s, 0, "exists(header(\""@)) by {
        if lit_at(s, 0, "exists(header(\""@) {
            assert(s.subrange(0, 15)[0] == s[0]);
        }
    }
    assert(s.subrange(0, n) =~= open_lit);
    assert(s[q] == '"');
    assert forall|m: int| n <= m < q implies s[m] != '"' by {
        assert(s[m] == t[m - n]);
    }
    crate::text::lemma_index_of_from_at(s, '"', n, q);
    assert(arg_end(s, n) == Some(q));
    assert(s.subrange(q, q + 2) =~= close_lit);
    assert(s.subrange(n, q) =~= t);
    assert(header_eq_atom(s) is None);
    assert(wrapped_arg(s, "exists(header(\""@, "\"))"@) is None);
    assert(wrapped_arg(s, open_lit, close_lit) == Some(t));
}

/// One test of an expression.
#[derive(Debug)]
pub enum AplAtom {
    HeaderEquals { key: String, value: String },
    HeaderExists { key: String },
    BodyContains { needle: String },
    BodyJsonEquals { pointer: String, expected: String },
    BodyEquals { literal: String },
}

impl View for AplAtom {
    type V = AtomView;

    open spec fn view(&self) -> AtomView {
        match self {
            AplAtom::HeaderEquals { key, value } => AtomView::HeaderEquals(key@, value@),
            AplAtom::HeaderExists { key } => AtomView::HeaderExists(key@),
            AplAtom::BodyContains { needle } => AtomView::BodyContains(needle@),
            AplAtom::BodyJsonEquals { pointer, expected } => AtomView::BodyJsonEquals(
                pointer@,
                expected@,
            ),
            AplAtom::BodyEquals { literal } => AtomView::BodyEquals(literal@),
        }
    }
}

fn lit_at_exec(s: &Vec<char>, i: usize, lit: &Vec<char>) -> (r: bool)
    ensures
        r == lit_at(s@, i as int, lit@),
{
    occurs_at(s.as_slice(), lit.as_slice(), i)
}

fn ws_end_exec(s: &Vec<char>, i: usize) -> (r: usize)
    ensures
        r as int == ws_end(s@, i as int),
        r >= i,
    decreases s.len() - i,
{
    if i < s.len() && is_ws_exec(s[i]) {
        ws_end_exec(s, i + 1)
    } else {
        i
    }
}

fn arg_end_exec(s: &Vec<char>, i: usize) -> (r: Option<usize>)
    ensures
        match r {
            Some(q) => arg_end(s@, i as int) == Some(q as int) && i < q < s.len(),
            None => arg_end(s@, i as int) is None,
        },
{
    if i >= s.len() {
        return None;
    }
    let mut k = i;
    while k < s.len()
        invariant
            i <= k <= s.len(),
            index_of_from(s@, '"', i as int) == index_of_from(s@, '"', k as int),
        decreases s.len() - k,
    {
        if s[k] == '"' {
            if k > i {
                return Some(k);
            } else {
                return None;
            }
        }
        k = k + 1;
    }
    None
}

fn no_quote_exec(s: &Vec<char>, lo: usize, hi: usize) -> (r: bool)
    requires
        lo <= hi <= s.len(),
    ensures
        r == no_quote(s@.subrange(lo as int, hi as int)),
{
    let mut k = lo;
    while k < hi
        invariant
            lo <= k <= hi <= s.len(),
            forall|m: int| lo <= m < k ==> s@[m] != '"',
        decreases hi - k,
    {
        if s[k] == '"' {
            assert(s@.subrange(lo as int, hi as int)[k - lo] == '"');
            return false;
        }
        k = k + 1;
    }
    assert forall|m: int| 0 <= m < hi - lo implies s@.subrange(lo as int, hi as int)[m] != '"' by {
        assert(s@.subrange(lo as int, hi as int)[m] == s@[m + lo]);
    }
    true
}

fn quoted_tail_exec(s: &Vec<char>, i: usize) -> (r: Option<Vec<char>>)
    ensures
        match r {
            Some(t) => quoted_tail(s@, i as int) == Some(t@),
            None => quoted_tail(s@, i as int) is None,
        },
{
    if i <= s.len() && s.len() - i >= 2 && s[i] == '"' && s[s.len() - 1] == '"' && no_quote_exec(
        s,
        i + 1,
        s.len() - 1,
    ) {
        Some(chars_slice(s, i + 1, s.len() - 1))
    } else {
        None
    }
}

fn after_eq_exec(s: &Vec<char>, q: usize) -> (r: Option<usize>)
    ensures
        match r {
            Some(b) => after_eq(s@, q as int) == Some(b as int),
            None => after_eq(s@, q as int) is None,
        },
{
    let close = chars_of("\")");
    let eq = chars_of("==");
    if lit_at_exec(s, q, &close) {
        assert(s@.len() == s.len());
        let a = ws_end_exec(s, q + close.len());
        if lit_at_exec(s, a, &eq) {
            Some(ws_end_exec(s, a + eq.len()))
        } else {
            None
        }
    } else {
        None
    }
}

fn header_eq_exec(s: &Vec<char>) -> (r: Option<AplAtom>)
    ensures
        match r {
            Some(a) => header_eq_atom(s@) == Some(a@),
            None => header_eq_atom(s@) is None,
        },
{
    let open_lit = chars_of("header(\"");
    if !lit_at_exec(s, 0, &open_lit) {
        return None;
    }
    let n = open_lit.len();
    match arg_end_exec(s, n) {
        Some(q) => match after_eq_exec(s, q) {
            Some(b) => match quoted_tail_exec(s, b) {
                Some(v) => {
                    if v.len() > 0 {
                        let k = chars_slice(s, n, q);
                        Some(
                            AplAtom::HeaderEquals {
                                key: string_of(k.as_slice()),
                                value: string_of(v.as_slice()),
                            },
                        )
                    } else {
                        None
                    }
                },
                None => None,
            },
            None => None,
        },
        None => None,
    }
}

fn wrapped_arg_exec(s: &Vec<char>, open_text: &str, close_text: &str) -> (r: Option<String>)
    ensures
        match r {
            Some(k) => wrapped_arg(s@, open_text@, close_text@) == Some(k@),
            None => wrapped_arg(s@, open_text@, close_text@) is None,
        },
{
    let open_lit = chars_of(open_text);
    let close_lit = chars_of(close_text);
    if !lit_at_exec(s, 0, &open_lit) {
        return None;
    }
    let n = open_lit.len();
    match arg_end_exec(s, n) {
        Some(q) => {
            if lit_at_exec(s, q, &close_lit) && close_lit.len() == s.len() - q {
                let k = chars_slice(s, n, q);
                Some(string_of(k.as_slice()))
            } else {
                None
            }
        },
        None => None,
    }
}

fn body_json_exec(s: &Vec<char>) -> (r: Option<AplAtom>)
    ensures
        match r {
            Some(a) => body_json_atom(s@) == Some(a@),
            None => body_json_atom(s@) is None,
        },
{
    let open_lit = chars_of("body.json(\"");
    if !lit_at_exec(s, 0, &open_lit) {
        return None;
    }
    let n = open_lit.len();
    match arg_end_exec(s, n) {
        Some(q) => match after_eq_exec(s, q) {
            Some(b) => match quoted_tail_exec(s, b) {
                Some(v) => {
                    let path = chars_slice(s, n, q);
                    let path_text = string_of(path.as_slice());
                    let pointer = jsonpath_to_pointer(path_text.as_str());
                    Some(AplAtom::BodyJsonEquals { pointer, expected: string_of(v.as_slice()) })
                },
                None => None,
            },
            None => None,
        },
        None => None,
    }
}

/// The atom that a trimmed token denotes.
pub fn build_atom(raw: &str) -> (r: AplAtom)
    ensures
        r@ == atom_of(raw@),
{
    let s = chars_of(raw);
    if let Some(a) = header_eq_exec(&s) {
        return a;
    }
    if let Some(k) = wrapped_arg_exec(&s, "exists(header(\"", "\"))") {
        return AplAtom::HeaderExists { key: k };
    }
    if let Some(t) = wrapped_arg_exec(&s, "body.contains(\"", "\")") {
        return AplAtom::BodyContains { needle: t };
    }
    if let Some(a) = body_json_exec(&s) {
        return a;
    }
    AplAtom::BodyEquals { literal: string_of(s.as_slice()) }
}

} // verus!
