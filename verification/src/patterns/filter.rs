//! Message Filter: a predicate over an exchange, written in the Allora
//! Predicate Language (APL). Accepted exchanges continue; rejected ones
//! stop with a routing error. A filter never changes the exchange.
//!
//! Atoms are joined by `&&` and `||`, where `&&` binds tighter: the
//! expression holds when some maximal `&&`-chain has every atom true.
use vstd::prelude::*;
use crate::error::{err_view, Error, ErrorKind, ErrorView, Result};
use crate::json::{found_text, json_found_at, json_lookup};
use crate::message::{Exchange, ExchangeView, PayloadView, new_uuid, uuid_v4_text};
use crate::patterns::apl::{
    AplAtom, AplToken, AplTokenView, AtomView, LogicalOp, apl_tokens, atom_of, build_atom,
    first_op_from, is_op_at, law_body_contains_atom, lemma_first_op_from, no_quote, op_at, piece,
    tokenize_apl,
};
use crate::spec::common::opt_string_view;
use crate::text::{chars_of, contains_chars, contains_text, owned, text_eq, trim, trim_bounds};

verus! {

// ---------------------------------------------------------------------------
// Token validation
// ---------------------------------------------------------------------------

/// No two text tokens stand side by side.
pub open spec fn texts_separated(toks: Seq<AplTokenView>) -> bool {
    forall|k: int|
        0 <= k && k + 1 < toks.len() ==> !((#[trigger] toks[k]) is Text && toks[k + 1] is Text)
}

proof fn lemma_texts_separated_concat(a: Seq<AplTokenView>, b: Seq<AplTokenView>)
    requires
        texts_separated(a),
        texts_separated(b),
        a.len() == 0 || a.last() is Op || b.len() == 0 || b[0] is Op,
    ensures
        texts_separated(a + b),
{
    let c = a + b;
    assert forall|k: int| 0 <= k && k + 1 < c.len() implies !((#[trigger] c[k]) is Text && c[k
        + 1] is Text) by {
        if k + 1 < a.len() {
            assert(c[k] == a[k] && c[k + 1] == a[k + 1]);
        } else if k >= a.len() {
            assert(c[k] == b[k - a.len()] && c[k + 1] == b[k + 1 - a.len()]);
        } else {
            assert(c[k] == a.last() && c[k + 1] == b[0]);
        }
    }
}

/// Tokenizing never yields two text tokens in a row.
pub proof fn lemma_tokens_separated(s: Seq<char>)
    ensures
        texts_separated(apl_tokens(s)),
    decreases s.len(),
{
    match first_op_from(s, 0) {
        None => {},
        Some(q) => {
            if 0 <= q && q + 2 <= s.len() {
                let rest = s.subrange(q + 2, s.len() as int);
                lemma_tokens_separated(rest);
                let p = piece(s.subrange(0, q));
                let o = seq![AplTokenView::Op(op_at(s, q))];
                lemma_texts_separated_concat(p, o);
                lemma_texts_separated_concat(p + o, apl_tokens(rest));
            }
        },
    }
}

/// Why a token list is not an expression, if it is not one.
pub open spec fn apl_error(toks: Seq<AplTokenView>) -> Option<Seq<char>> {
    if toks.len() == 0 {
        Some("empty predicate"@)
    } else if toks[0] is Op {
        Some("filter expression cannot start with a logical operator"@)
    } else if toks.last() is Op {
        Some("filter expression cannot end with a logical operator"@)
    } else if exists|k: int| 0 <= k && k + 1 < toks.len() && (#[trigger] toks[k]) is Op && toks[k
        + 1] is Op {
        Some("consecutive logical operators are not allowed"@)
    } else {
        None
    }
}

/// The atoms of a valid token list (its even positions).
pub open spec fn plan_atoms(toks: Seq<AplTokenView>) -> Seq<AtomView> {
    Seq::new(
        ((toks.len() + 1) / 2) as nat,
        |i: int|
            match toks[2 * i] {
                AplTokenView::Text(t) => atom_of(t),
                AplTokenView::Op(_) => AtomView::BodyEquals(Seq::empty()),
            },
    )
}

/// The operators of a valid token list (its odd positions).
pub open spec fn plan_ops(toks: Seq<AplTokenView>) -> Seq<LogicalOp> {
    Seq::new(
        (toks.len() / 2) as nat,
        |i: int|
            match toks[2 * i + 1] {
                AplTokenView::Op(o) => o,
                AplTokenView::Text(_) => LogicalOp::And,
            },
    )
}

/// The compiled form of an expression: its atoms and the operators
/// between them, or the reason it is rejected.
pub open spec fn apl_plan(apl: Seq<char>) -> core::result::Result<
    (Seq<AtomView>, Seq<LogicalOp>),
    Seq<char>,
> {
    let toks = apl_tokens(apl);
    match apl_error(toks) {
        Some(m) => Err(m),
        None => Ok((plan_atoms(toks), plan_ops(toks))),
    }
}

proof fn lemma_valid_alternates(toks: Seq<AplTokenView>)
    requires
        texts_separated(toks),
        apl_error(toks) is None,
    ensures
        toks.len() % 2 == 1,
        forall|k: int| 0 <= k < toks.len() ==> ((#[trigger] toks[k]) is Text <==> k % 2 == 0),
{
    assert forall|k: int| 0 <= k < toks.len() implies ((#[trigger] toks[k]) is Text <==> k % 2
        == 0) by {
        lemma_alternates_upto(toks, k);
    }
    let n = toks.len() as int;
    assert(toks[n - 1] is Text);
}

proof fn lemma_alternates_upto(toks: Seq<AplTokenView>, k: int)
    requires
        texts_separated(toks),
        apl_error(toks) is None,
        0 <= k < toks.len(),
    ensures
        toks[k] is Text <==> k % 2 == 0,
    decreases k,
{
    if k > 0 {
        lemma_alternates_upto(toks, k - 1);
        if toks[k - 1] is Text {
            assert(!(toks[k - 1] is Text && toks[k] is Text));
        } else {
            assert(!(toks[k - 1] is Op && toks[k] is Op));
        }
    }
}

// ---------------------------------------------------------------------------
// Semantics
// ---------------------------------------------------------------------------

/// Whether an atom holds for an exchange.
pub open spec fn atom_holds(a: AtomView, ex: ExchangeView) -> bool {
    let headers = ex.in_msg.headers;
    match a {
        AtomView::HeaderEquals(k, v) => headers.contains_key(k) && headers[k] == v,
        AtomView::HeaderExists(k) => headers.contains_key(k),
        AtomView::BodyContains(t) => match ex.in_msg.payload {
            PayloadView::Text(b) => contains_text(b, t),
            _ => false,
        },
        AtomView::BodyJsonEquals(p, v) => match ex.in_msg.payload {
            PayloadView::Text(b) => trim(b).len() > 0 && (json_found_at(b, p) matches Some(f)
                && found_text(f) == v),
            _ => false,
        },
        AtomView::BodyEquals(t) => ex.in_msg.payload == PayloadView::Text(t),
    }
}

/// A `body.contains("t")` test (non-empty `t`, no double quotes) holds of
/// an exchange exactly when its body is text that contains `t` as written.
pub proof fn law_body_contains_holds(t: Seq<char>, ex: ExchangeView)
    requires
        t.len() > 0,
        no_quote(t),
    ensures
        atom_holds(atom_of("body.contains(\""@ + t + "\")"@), ex) <==> (ex.in_msg.payload matches PayloadView::Text(b)
            && contains_text(b, t)),
{
    law_body_contains_atom(t);
}

/// The atoms `a..=b` form a maximal `&&`-chain: `||` (or an end) on each
/// side and only `&&` inside.
pub open spec fn and_chain(ops: Seq<LogicalOp>, n: int, a: int, b: int) -> bool {
    &&& 0 <= a <= b < n
    &&& (a == 0 || ops[a - 1] == LogicalOp::Or)
    &&& (b == n - 1 || ops[b] == LogicalOp::Or)
    &&& forall|k: int| a <= k < b ==> ops[k] == LogicalOp::And
}

/// Some maximal `&&`-chain of `vals` is all true.
pub open spec fn segments_accept(vals: Seq<bool>, ops: Seq<LogicalOp>) -> bool {
    exists|a: int, b: int|
        and_chain(ops, vals.len() as int, a, b) && forall|k: int| a <= k <= b ==> #[trigger] vals[k]
}

/// Whether a compiled expression accepts an exchange.
pub open spec fn plan_accepts(atoms: Seq<AtomView>, ops: Seq<LogicalOp>, ex: ExchangeView) -> bool {
    segments_accept(Seq::new(atoms.len(), |i: int| atom_holds(atoms[i], ex)), ops)
}

/// `&&` binds tighter than `||`: an expression whose operators are all `&&`
/// accepts exactly when every one of its atoms holds.
pub proof fn law_and_chain_needs_all(vals: Seq<bool>, ops: Seq<LogicalOp>)
    requires
        vals.len() == ops.len() + 1,
        forall|k: int| 0 <= k < ops.len() ==> ops[k] == LogicalOp::And,
    ensures
        segments_accept(vals, ops) <==> forall|k: int| 0 <= k < vals.len() ==> vals[k],
{
    let n = vals.len() as int;
    if forall|k: int| 0 <= k < vals.len() ==> vals[k] {
        assert(and_chain(ops, n, 0, n - 1));
        assert(forall|k: int| 0 <= k <= n - 1 ==> #[trigger] vals[k]);
    }
    if segments_accept(vals, ops) {
        let (a, b) = choose|a: int, b: int|
            and_chain(ops, n, a, b) && forall|k: int| a <= k <= b ==> #[trigger] vals[k];
        if a > 0 {
            assert(ops[a - 1] == LogicalOp::And);
        }
        if b < n - 1 {
            assert(ops[b] == LogicalOp::And);
        }
        assert(a == 0 && b == n - 1);
    }
}

/// An expression split at a top-level `||` accepts exactly when one of the
/// two sides does.
pub proof fn law_or_splits(v1: Seq<bool>, o1: Seq<LogicalOp>, v2: Seq<bool>, o2: Seq<LogicalOp>)
    requires
        v1.len() == o1.len() + 1,
        v2.len() == o2.len() + 1,
    ensures
        segments_accept(v1 + v2, o1.push(LogicalOp::Or) + o2) <==> (segments_accept(v1, o1)
            || segments_accept(v2, o2)),
{
    let v = v1 + v2;
    let o = o1.push(LogicalOp::Or) + o2;
    let n1 = v1.len() as int;
    let n = v.len() as int;
    assert(o[n1 - 1] == LogicalOp::Or);
    assert forall|k: int| 0 <= k < n1 - 1 implies #[trigger] o[k] == o1[k] by {}
    assert forall|k: int| n1 <= k < o.len() implies #[trigger] o[k] == o2[k - n1] by {}
    assert forall|k: int| 0 <= k < n1 implies #[trigger] v[k] == v1[k] by {}
    assert forall|k: int| n1 <= k < n implies #[trigger] v[k] == v2[k - n1] by {}
    if segments_accept(v, o) {
        let (a, b) = choose|a: int, b: int|
            and_chain(o, n, a, b) && forall|k: int| a <= k <= b ==> #[trigger] v[k];
        if b < n1 {
            assert(and_chain(o1, n1, a, b)) by {
                if b < n1 - 1 {
                    assert(o[b] == o1[b]);
                }
                if a > 0 {
                    assert(o[a - 1] == o1[a - 1]);
                }
                assert forall|k: int| a <= k < b implies o1[k] == LogicalOp::And by {
                    assert(o[k] == LogicalOp::And);
                }
            }
            assert forall|k: int| a <= k <= b implies #[trigger] v1[k] by {
                assert(v[k]);
            }
            assert(segments_accept(v1, o1));
        } else {
            if a < n1 {
                assert(o[n1 - 1] == LogicalOp::And);
            }
            assert(a >= n1);
            assert(and_chain(o2, n - n1, a - n1, b - n1)) by {
                if a > n1 {
                    assert(o[a - 1] == o2[a - 1 - n1]);
                }
                if b < n - 1 {
                    assert(o[b] == o2[b - n1]);
                }
                assert forall|k: int| a - n1 <= k < b - n1 implies o2[k] == LogicalOp::And by {
                    assert(o[k + n1] == LogicalOp::And);
                }
            }
            assert forall|k: int| a - n1 <= k <= b - n1 implies #[trigger] v2[k] by {
                assert(v[k + n1]);
            }
            assert(segments_accept(v2, o2));
        }
    }
    if segments_accept(v1, o1) {
        let (a, b) = choose|a: int, b: int|
            and_chain(o1, n1, a, b) && forall|k: int| a <= k <= b ==> #[trigger] v1[k];
        assert(and_chain(o, n, a, b)) by {
            if b < n1 - 1 {
                assert(o[b] == o1[b]);
            }
            if a > 0 {
                assert(o[a - 1] == o1[a - 1]);
            }
            assert forall|k: int| a <= k < b implies o[k] == LogicalOp::And by {
                assert(o1[k] == LogicalOp::And);
            }
        }
        assert forall|k: int| a <= k <= b implies #[trigger] v[k] by {
            assert(v1[k]);
        }
        assert(segments_accept(v, o));
    }
    if segments_accept(v2, o2) {
        let n2 = v2.len() as int;
        let (a, b) = choose|a: int, b: int|
            and_chain(o2, n2, a, b) && forall|k: int| a <= k <= b ==> #[trigger] v2[k];
        assert(and_chain(o, n, a + n1, b + n1)) by {
            if a > 0 {
                assert(o[a + n1 - 1] == o2[a - 1]);
            }
            if b < n - n1 - 1 {
                assert(o[b + n1] == o2[b]);
            }
            assert forall|k: int| a + n1 <= k < b + n1 implies o[k] == LogicalOp::And by {
                assert(o2[k - n1] == LogicalOp::And);
            }
        }
        assert forall|k: int| a + n1 <= k <= b + n1 implies #[trigger] v[k] by {
            assert(v2[k - n1]);
        }
        assert(segments_accept(v, o));
    }
}

/// A chain `a..=b` that ends at an `||` before position `s`, all true.
spec fn done_chain(vals: Seq<bool>, ops: Seq<LogicalOp>, s: int) -> bool {
    exists|a: int, b: int|
        and_chain(ops, vals.len() as int, a, b) && b < s && forall|k: int|
            a <= k <= b ==> #[trigger] vals[k]
}

fn is_op_token(t: &AplToken) -> (r: bool)
    ensures
        r == (t@ is Op),
{
    match t {
        AplToken::Op(_) => true,
        AplToken::Text(_) => false,
    }
}

/// OR over the maximal `&&`-chains.
pub fn eval_chains(vals: &Vec<bool>, ops: &Vec<LogicalOp>) -> (r: bool)
    requires
        vals.len() == ops.len() + 1,
    ensures
        r == segments_accept(vals@, ops@),
{
    let n = vals.len();
    let mut acc = false;
    let mut cur = vals[0];
    let mut s: usize = 0;
    let mut i: usize = 0;
    while i < ops.len()
        invariant
            n == vals.len() == ops.len() + 1,
            s <= i < n,
            s == 0 || ops@[s - 1] == LogicalOp::Or,
            forall|k: int| s <= k < i ==> ops@[k] == LogicalOp::And,
            cur == (forall|k: int| s <= k <= i ==> #[trigger] vals@[k]),
            acc == done_chain(vals@, ops@, s as int),
        decreases ops.len() - i,
    {
        let v = vals[i + 1];
        match ops[i] {
            LogicalOp::And => {
                proof {
                    if cur && v {
                        assert forall|k: int| s <= k <= i + 1 implies #[trigger] vals@[k] by {
                            if k <= i {
                            }
                        }
                    }
                }
                cur = cur && v;
            },
            LogicalOp::Or => {
                proof {
                    let nn = n as int;
                    if cur {
                        assert(and_chain(ops@, nn, s as int, i as int));
                        assert(done_chain(vals@, ops@, i + 1));
                    }
                    if acc {
                        let (a, b) = choose|a: int, b: int|
                            and_chain(ops@, nn, a, b) && b < s && forall|k: int|
                                a <= k <= b ==> #[trigger] vals@[k];
                        assert(done_chain(vals@, ops@, i + 1));
                    }
                    if done_chain(vals@, ops@, i + 1) {
                        let (a, b) = choose|a: int, b: int|
                            and_chain(ops@, nn, a, b) && b < i + 1 && forall|k: int|
                                a <= k <= b ==> #[trigger] vals@[k];
                        if b < s {
                            assert(done_chain(vals@, ops@, s as int));
                        } else {
                            if a < s {
                                assert(ops@[s - 1] == LogicalOp::And);
                            }
                            if a > s {
                                assert(ops@[a - 1] == LogicalOp::And);
                            }
                            assert(a == s);
                            if b < i {
                                assert(ops@[b] == LogicalOp::And);
                            }
                            assert(cur);
                        }
                    }
                }
                acc = acc || cur;
                cur = v;
                s = i + 1;
            },
        }
        i = i + 1;
    }
    proof {
        let nn = n as int;
        if cur {
            assert(and_chain(ops@, nn, s as int, i as int));
        }
        if acc {
            let (a, b) = choose|a: int, b: int|
                and_chain(ops@, nn, a, b) && b < s && forall|k: int| a <= k <= b ==> #[trigger] vals@[k];
            assert(segments_accept(vals@, ops@));
        }
        if segments_accept(vals@, ops@) {
            let (a, b) = choose|a: int, b: int|
                and_chain(ops@, nn, a, b) && forall|k: int| a <= k <= b ==> #[trigger] vals@[k];
            if b < s {
                assert(done_chain(vals@, ops@, s as int));
            } else {
                if a < s {
                    assert(ops@[s - 1] == LogicalOp::And);
                }
                if a > s {
                    assert(ops@[a - 1] == LogicalOp::And);
                }
                assert(a == s);
                assert(b == nn - 1);
                assert(cur);
            }
        }
    }
    acc || cur
}

/// Whether one atom holds for an exchange.
pub fn eval_atom(a: &AplAtom, ex: &Exchange) -> (r: bool)
    ensures
        r == atom_holds(a@, ex@),
{
    match a {
        AplAtom::HeaderEquals { key, value } => match ex.in_msg.header(key.as_str()) {
            Some(v) => text_eq(v, value.as_str()),
            None => false,
        },
        AplAtom::HeaderExists { key } => ex.in_msg.header(key.as_str()).is_some(),
        AplAtom::BodyContains { needle } => match ex.in_msg.body_text() {
            Some(b) => {
                let hay = chars_of(b);
                let nd = chars_of(needle.as_str());
                contains_chars(hay.as_slice(), nd.as_slice())
            },
            None => false,
        },
        AplAtom::BodyJsonEquals { pointer, expected } => match ex.in_msg.body_text() {
            Some(b) => {
                let cs = chars_of(b);
                let (lo, hi) = trim_bounds(&cs);
                if lo == hi {
                    false
                } else {
                    match json_lookup(b, pointer.as_str()) {
                        Some(f) => {
                            let t = f.text();
                            text_eq(t.as_str(), expected.as_str())
                        },
                        None => false,
                    }
                }
            },
            None => false,
        },
        AplAtom::BodyEquals { literal } => match ex.in_msg.body_text() {
            Some(b) => text_eq(b, literal.as_str()),
            None => false,
        },
    }
}

// ---------------------------------------------------------------------------
// Filter
// ---------------------------------------------------------------------------

/// A predicate over exchanges that a filter holds in place of an APL
/// expression. [`ByClosure`] holds a caller's closure; [`AplOnly`] marks
/// filters that hold none.
pub trait ExchangePredicate {
    /// Whether filters of this kind may hold such a predicate at all.
    spec fn holdable() -> bool;

    /// Whether the predicate can be asked about any exchange.
    open spec fn can_test(&self) -> bool {
        true
    }

    /// `accepted` is an answer the predicate may give for `ex`. Unless a
    /// predicate says more, any answer may be given.
    open spec fn tests(&self, ex: ExchangeView, accepted: bool) -> bool {
        true
    }

    /// Whether `exchange` passes.
    fn test(&self, exchange: &Exchange) -> (r: bool)
        requires
            self.can_test(),
        ensures
            self.tests(exchange@, r),
    ;
}

/// The kind of a filter that is only its APL expression: it never holds a
/// predicate of this kind, so [`ExchangePredicate::test`] is never asked.
#[derive(Debug)]
pub struct AplOnly;

impl ExchangePredicate for AplOnly {
    open spec fn holdable() -> bool {
        false
    }

    /// Lets nothing through; no filter ever asks it.
    fn test(&self, exchange: &Exchange) -> (r: bool) {
        false
    }
}

/// A caller's closure as a filter predicate.
pub struct ByClosure<F: Fn(&Exchange) -> bool>(pub F);

impl<F: Fn(&Exchange) -> bool> ExchangePredicate for ByClosure<F> {
    open spec fn holdable() -> bool {
        true
    }

    /// The closure accepts every exchange.
    open spec fn can_test(&self) -> bool {
        forall|e: &Exchange| #[trigger] call_requires(self.0, (e,))
    }

    /// `accepted` is what the closure may answer for an exchange whose view
    /// is `ex`.
    open spec fn tests(&self, ex: ExchangeView, accepted: bool) -> bool {
        exists|e: &Exchange| e@ == ex && #[trigger] call_ensures(self.0, (e,), accepted)
    }

    fn test(&self, exchange: &Exchange) -> (r: bool) {
        (self.0)(exchange)
    }
}

/// A filter with an id and an optional rejection message: a compiled APL
/// predicate, or (for `P` other than [`AplOnly`]) a predicate of kind `P`.
#[derive(Debug)]
pub struct Filter<P: ExchangePredicate = AplOnly> {
    atoms: Vec<AplAtom>,
    ops: Vec<LogicalOp>,
    predicate: Option<P>,
    error_message: Option<String>,
    id: String,
}

pub struct FilterView {
    pub atoms: Seq<AtomView>,
    pub ops: Seq<LogicalOp>,
    /// Whether the filter holds a predicate in place of an APL expression.
    pub custom: bool,
    pub error_message: Option<Seq<char>>,
    pub id: Seq<char>,
}

impl<P: ExchangePredicate> View for Filter<P> {
    type V = FilterView;

    closed spec fn view(&self) -> FilterView {
        FilterView {
            atoms: self.atoms@.map_values(|a: AplAtom| a@),
            ops: self.ops@,
            custom: self.predicate is Some,
            error_message: opt_string_view(self.error_message),
            id: self.id@,
        }
    }
}

impl<P: ExchangePredicate> Filter<P> {
    #[verifier::type_invariant]
    closed spec fn wf(&self) -> bool {
        match self.predicate {
            Some(_) => P::holdable(),
            None => self.atoms.len() == self.ops.len() + 1,
        }
    }

    /// The predicate the filter holds, if any.
    pub closed spec fn predicate(&self) -> Option<P> {
        self.predicate
    }

    /// The filter can be asked about any exchange: a filter that holds a
    /// predicate can ask it.
    pub open spec fn ready(&self) -> bool {
        P::holdable() ==> match self.predicate() {
            Some(p) => p.can_test(),
            None => true,
        }
    }
}

impl<F: Fn(&Exchange) -> bool> Filter<ByClosure<F>> {
    /// A filter decided by `p`, under a fresh random id.
    pub fn new(p: F) -> (r: Filter<ByClosure<F>>)
        ensures
            r@.custom && r@.atoms.len() == 0 && r@.ops.len() == 0 && r@.error_message is None
                && uuid_v4_text(r@.id),
            r.predicate() == Some(ByClosure(p)),
    {
        Filter {
            atoms: Vec::new(),
            ops: Vec::new(),
            predicate: Some(ByClosure(p)),
            error_message: None,
            id: new_uuid(),
        }
    }

    /// A filter decided by `p` that rejects with `message`.
    pub fn with_error(p: F, message: &str) -> (r: Filter<ByClosure<F>>)
        ensures
            r@.custom && r@.atoms.len() == 0 && r@.ops.len() == 0 && r@.error_message == Some(
                message@,
            ) && uuid_v4_text(r@.id),
            r.predicate() == Some(ByClosure(p)),
    {
        Filter {
            atoms: Vec::new(),
            ops: Vec::new(),
            predicate: Some(ByClosure(p)),
            error_message: Some(owned(message)),
            id: new_uuid(),
        }
    }
}

impl Filter {
    /// Compile an APL expression under a fresh random id.
    pub fn from_apl(apl: &str) -> (r: Result<Filter>)
        ensures
            match apl_plan(apl@) {
                Err(m) => r matches Err(e) && e@ == err_view(ErrorKind::Serialization, m),
                Ok((atoms, ops)) => r matches Ok(f) && f@.atoms == atoms && f@.ops == ops
                    && !f@.custom && f@.error_message is None && uuid_v4_text(f@.id),
            },
    {
        Filter::from_apl_with_id(None, apl)
    }

    /// Compile an APL expression; the filter takes `id` when given, else a
    /// fresh random id. Structural problems are serialization errors.
    pub fn from_apl_with_id(id: Option<String>, apl: &str) -> (r: Result<Filter>)
        ensures
            match apl_plan(apl@) {
                Err(m) => r matches Err(e) && e@ == err_view(ErrorKind::Serialization, m),
                Ok((atoms, ops)) => r matches Ok(f) && f@.atoms == atoms && f@.ops == ops
                    && !f@.custom && f@.error_message is None && match id {
                    Some(given) => f@.id == given@,
                    None => uuid_v4_text(f@.id),
                },
            },
    {
        let tokens = tokenize_apl(apl);
        let ghost toks = apl_tokens(apl@);
        proof {
            lemma_tokens_separated(apl@);
        }
        assert(tokens@.map_values(|t: AplToken| t@) == toks);
        assert(forall|k: int| 0 <= k < tokens.len() ==> #[trigger] tokens@[k]@ == toks[k]);
        let n = tokens.len();
        if n == 0 {
            return Err(Error::serialization(owned("empty predicate")));
        }
        if is_op_token(&tokens[0]) {
            return Err(
                Error::serialization(owned("filter expression cannot start with a logical operator")),
            );
        }
        if is_op_token(&tokens[n - 1]) {
            return Err(
                Error::serialization(owned("filter expression cannot end with a logical operator")),
            );
        }
        assert(tokens@[0]@ == toks[0] && tokens@[n - 1]@ == toks[n - 1]);
        let mut k: usize = 0;
        while k + 1 < n
            invariant
                n == tokens.len() == toks.len(),
                toks == apl_tokens(apl@),
                k < n,
                !(toks[0] is Op),
                !(toks.last() is Op),
                forall|j: int| 0 <= j < tokens.len() ==> #[trigger] tokens@[j]@ == toks[j],
                forall|j: int| 0 <= j < k ==> !((#[trigger] toks[j]) is Op && toks[j + 1] is Op),
            decreases n - k,
        {
            if is_op_token(&tokens[k]) && is_op_token(&tokens[k + 1]) {
                assert(tokens@[k as int]@ == toks[k as int] && tokens@[k + 1]@ == toks[k + 1]);
                assert(toks[k as int] is Op && toks[k + 1] is Op);
                return Err(
                    Error::serialization(owned("consecutive logical operators are not allowed")),
                );
            }
            k = k + 1;
        }
        assert(apl_error(toks) is None);
        proof {
            lemma_valid_alternates(toks);
        }
        let mut atoms: Vec<AplAtom> = Vec::new();
        let mut ops: Vec<LogicalOp> = Vec::new();
        let mut i: usize = 0;
        while i < n
            invariant
                n == tokens.len() == toks.len(),
                toks == apl_tokens(apl@),
                n % 2 == 1,
                i <= n,
                i % 2 == 0 || i == n,
                forall|j: int| 0 <= j < tokens.len() ==> #[trigger] tokens@[j]@ == toks[j],
                forall|j: int| 0 <= j < toks.len() ==> ((#[trigger] toks[j]) is Text <==> j % 2 == 0),
                atoms.len() == (i + 1) / 2,
                ops.len() == i / 2,
                forall|j: int| 0 <= j < atoms.len() ==> #[trigger] atoms@[j]@ == plan_atoms(toks)[j],
                forall|j: int| 0 <= j < ops.len() ==> #[trigger] ops@[j] == plan_ops(toks)[j],
            decreases n - i,
        {
            assert(tokens@[i as int]@ is Text);
            match &tokens[i] {
                AplToken::Text(t) => {
                    let a = build_atom(t.as_str());
                    atoms.push(a);
                },
                AplToken::Op(_) => {},
            }
            if i + 1 < n {
                assert(tokens@[i + 1]@ is Op);
                match &tokens[i + 1] {
                    AplToken::Op(o) => {
                        ops.push(*o);
                    },
                    AplToken::Text(_) => {},
                }
            }
            i = if n - i >= 2 {
                i + 2
            } else {
                n
            };
        }
        let fid = match id {
            Some(given) => given,
            None => new_uuid(),
        };
        let f = Filter { atoms, ops, predicate: None, error_message: None, id: fid };
        assert(f@.atoms =~= plan_atoms(toks));
        assert(f@.ops =~= plan_ops(toks));
        Ok(f)
    }

}

impl<P: ExchangePredicate> Filter<P> {
    /// The same filter, rejecting with `message` in place of `filtered out`.
    pub fn with_error_message(self, message: &str) -> (r: Filter<P>)
        ensures
            r@ == (FilterView { error_message: Some(message@), ..self@ }),
    {
        proof {
            use_type_invariant(&self);
        }
        Filter { error_message: Some(owned(message)), ..self }
    }

    /// The filter's id.
    pub fn id(&self) -> (r: &str)
        ensures
            r@ == self@.id,
    {
        self.id.as_str()
    }

    /// The message a rejection carries, if one was set.
    pub fn error_message(&self) -> (r: Option<&str>)
        ensures
            r matches Some(m) ==> self@.error_message == Some(m@),
            r is None ==> self@.error_message is None,
    {
        match &self.error_message {
            Some(m) => Some(m.as_str()),
            None => None,
        }
    }

    /// Whether the filter lets `exchange` through: the APL predicate's
    /// verdict, or the held predicate's answer.
    pub fn accepts(&self, exchange: &Exchange) -> (r: bool)
        requires
            self.ready(),
        ensures
            self@.custom ==> P::holdable(),
            !self@.custom ==> r == plan_accepts(self@.atoms, self@.ops, exchange@),
            self.predicate() matches Some(p) ==> p.tests(exchange@, r),
    {
        proof {
            use_type_invariant(self);
        }
        match &self.predicate {
            Some(p) => {
                return p.test(exchange);
            },
            None => {},
        }
        let mut vals: Vec<bool> = Vec::new();
        let mut i: usize = 0;
        while i < self.atoms.len()
            invariant
                i <= self.atoms.len(),
                vals.len() == i,
                forall|j: int| 0 <= j < i ==> #[trigger] vals@[j] == atom_holds(
                    self.atoms@[j]@,
                    exchange@,
                ),
            decreases self.atoms.len() - i,
        {
            vals.push(eval_atom(&self.atoms[i], exchange));
            i = i + 1;
        }
        let r = eval_chains(&vals, &self.ops);
        assert(vals@ =~= Seq::new(self@.atoms.len(), |i: int| atom_holds(self@.atoms[i], exchange@)));
        r
    }

    /// Let an accepted exchange through (`Ok`); reject any other with a
    /// routing error carrying the filter's message, or `filtered out`. The
    /// exchange is never changed.
    pub fn process(&self, exchange: &mut Exchange) -> (r: Result<()>)
        requires
            self.ready(),
        ensures
            *final(exchange) == *old(exchange),
            self@.custom ==> P::holdable(),
            !self@.custom ==> (r is Ok <==> plan_accepts(self@.atoms, self@.ops, old(exchange)@)),
            self.predicate() matches Some(p) ==> p.tests(old(exchange)@, r is Ok),
            r matches Err(e) ==> e@ == err_view(
                ErrorKind::Routing,
                match self@.error_message {
                    Some(m) => m,
                    None => "filtered out"@,
                },
            ),
    {
        if self.accepts(exchange) {
            Ok(())
        } else {
            let msg = match &self.error_message {
                Some(m) => owned(m.as_str()),
                None => owned("filtered out"),
            };
            Err(Error::routing(msg))
        }
    }
}

} // verus!
