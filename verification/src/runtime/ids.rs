//! Identifier checks and deterministic id generation for component
//! collections.
//!
//! Explicit ids must be unique (and, for some kinds, non-empty). Missing ids
//! are generated as `<prefix><N>`: for most kinds `N` starts right after the
//! largest number a user wrote after the reserved prefix; for channels it
//! starts at 1 and skips ids already in use.
use vstd::prelude::*;
use crate::error::{err_view, Error, ErrorKind, ErrorView, Result};
use crate::text::{
    all_digits, chars_of, chars_slice, concat2, decimal, decimal_chars, digit_char, digit_value,
    digits_value, has_prefix, is_digit, occurs_at, owned, parse_u64, parse_u64_spec, string_of,
    text_eq, unsigned_digits,
};

verus! {

/// `prefix` followed by the decimal form of `n`.
pub open spec fn auto_id(prefix: Seq<char>, n: nat) -> Seq<char> {
    prefix + decimal(n)
}

/// The number after a reserved prefix, when `id` is `prefix` + a `u64`.
pub open spec fn reserved_number(id: Seq<char>, prefix: Seq<char>) -> Option<u64> {
    if has_prefix(id, prefix) {
        parse_u64_spec(id.subrange(prefix.len() as int, id.len() as int))
    } else {
        None
    }
}

/// The largest reserved number among the explicit ids (0 when none).
pub open spec fn max_reserved(ids: Seq<Option<Seq<char>>>, prefix: Seq<char>) -> u64
    decreases ids.len(),
{
    if ids.len() == 0 {
        0
    } else {
        let m = max_reserved(ids.drop_last(), prefix);
        match ids.last() {
            Some(id) => match reserved_number(id, prefix) {
                Some(n) => if n > m {
                    n
                } else {
                    m
                },
                None => m,
            },
            None => m,
        }
    }
}

/// Number of missing ids.
pub open spec fn missing_count(ids: Seq<Option<Seq<char>>>) -> nat
    decreases ids.len(),
{
    if ids.len() == 0 {
        0
    } else {
        missing_count(ids.drop_last()) + if ids.last() is None {
            1nat
        } else {
            0nat
        }
    }
}

/// Final ids: explicit ones kept, missing ones numbered from `next` on, in
/// order.
pub open spec fn assign_from(ids: Seq<Option<Seq<char>>>, prefix: Seq<char>, next: nat) -> Seq<
    Seq<char>,
>
    decreases ids.len(),
{
    if ids.len() == 0 {
        Seq::empty()
    } else {
        match ids[0] {
            Some(id) => seq![id] + assign_from(ids.drop_first(), prefix, next),
            None => seq![auto_id(prefix, next)] + assign_from(ids.drop_first(), prefix, next + 1),
        }
    }
}

/// Final ids of a collection: missing ones start after the largest
/// reserved number.
pub open spec fn assigned_ids(ids: Seq<Option<Seq<char>>>, prefix: Seq<char>) -> Seq<Seq<char>> {
    assign_from(ids, prefix, (max_reserved(ids, prefix) + 1) as nat)
}

/// The first problem found scanning the collection in order: element
/// `i`'s own problem `pre[i]`, then (optionally) an empty id, then an id
/// seen earlier.
pub open spec fn id_scan(
    pre: Seq<Option<Seq<char>>>,
    ids: Seq<Option<Seq<char>>>,
    what: Seq<char>,
    reject_empty: bool,
    i: int,
) -> Option<Seq<char>>
    decreases ids.len() - i,
{
    if i < 0 || i >= ids.len() {
        None
    } else if pre[i] is Some {
        pre[i]
    } else {
        match ids[i] {
            Some(x) => if reject_empty && x.len() == 0 {
                Some(what + ".id must not be empty"@)
            } else if exists|j: int| 0 <= j < i && ids[j] == Some(x) {
                Some("duplicate "@ + what + ".id '"@ + x + "'"@)
            } else {
                id_scan(pre, ids, what, reject_empty, i + 1)
            },
            None => id_scan(pre, ids, what, reject_empty, i + 1),
        }
    }
}

/// The ids of a collection are fine and the counter cannot overflow.
pub open spec fn ids_fit(ids: Seq<Option<Seq<char>>>, prefix: Seq<char>) -> bool {
    max_reserved(ids, prefix) + missing_count(ids) < u64::MAX
}

fn reserved_number_exec(id: &str, prefix: &str) -> (r: Option<u64>)
    ensures
        r == reserved_number(id@, prefix@),
{
    let s = chars_of(id);
    let p = chars_of(prefix);
    if occurs_at(s.as_slice(), p.as_slice(), 0) {
        let rest = chars_slice(&s, p.len(), s.len());
        parse_u64(rest.as_slice())
    } else {
        None
    }
}

/// The views of optional ids.
pub open spec fn ids_view(ids: Seq<Option<String>>) -> Seq<Option<Seq<char>>> {
    ids.map_values(|o: Option<String>| crate::spec::common::opt_string_view(o))
}

fn seen_before(ids: &Vec<Option<String>>, i: usize, x: &str) -> (r: bool)
    requires
        i <= ids.len(),
    ensures
        r == exists|j: int| 0 <= j < i && ids_view(ids@)[j] == Some(x@),
{
    let ghost iv = ids_view(ids@);
    let mut j: usize = 0;
    while j < i
        invariant
            j <= i <= ids.len(),
            iv == ids_view(ids@),
            forall|k: int| 0 <= k < j ==> iv[k] != Some(x@),
        decreases i - j,
    {
        let same = match &ids[j] {
            Some(y) => text_eq(y.as_str(), x),
            None => false,
        };
        if same {
            assert(iv[j as int] == Some(x@));
            return true;
        }
        j = j + 1;
    }
    false
}

/// Check a collection's ids in order and compute the largest reserved
/// number: `pre[i]` (when present) reports element `i`'s own problem first.
pub fn scan_ids(
    pre: &Vec<Option<String>>,
    ids: &Vec<Option<String>>,
    what: &str,
    reject_empty: bool,
    prefix: &str,
) -> (r: Result<u64>)
    requires
        pre.len() == ids.len(),
    ensures
        match id_scan(ids_view(pre@), ids_view(ids@), what@, reject_empty, 0) {
            Some(m) => r matches Err(e) && e@ == err_view(ErrorKind::Serialization, m),
            None => r == Ok::<u64, Error>(max_reserved(ids_view(ids@), prefix@)),
        },
{
    let ghost iv = ids_view(ids@);
    let ghost pv = ids_view(pre@);
    let mut max: u64 = 0;
    let mut i: usize = 0;
    while i < ids.len()
        invariant
            pre.len() == ids.len(),
            i <= ids.len(),
            iv == ids_view(ids@),
            pv == ids_view(pre@),
            id_scan(pv, iv, what@, reject_empty, 0) == id_scan(pv, iv, what@, reject_empty, i as int),
            max == max_reserved(iv.subrange(0, i as int), prefix@),
        decreases ids.len() - i,
    {
        proof {
            assert(iv.subrange(0, i + 1).drop_last() =~= iv.subrange(0, i as int));
            assert(iv.subrange(0, i + 1).last() == iv[i as int]);
        }
        match &pre[i] {
            Some(m) => {
                return Err(Error::serialization(owned(m.as_str())));
            },
            None => {},
        }
        assert(pv[i as int] is None);
        match &ids[i] {
            Some(x) => {
                if reject_empty && chars_of(x.as_str()).len() == 0 {
                    return Err(Error::serialization(concat2(what, ".id must not be empty")));
                }
                if seen_before(ids, i, x.as_str()) {
                    let msg = concat2("duplicate ", what);
                    let msg = concat2(msg.as_str(), ".id '");
                    let msg = concat2(msg.as_str(), x.as_str());
                    let msg = concat2(msg.as_str(), "'");
                    return Err(Error::serialization(msg));
                }
                match reserved_number_exec(x.as_str(), prefix) {
                    Some(n) => {
                        if n > max {
                            max = n;
                        }
                    },
                    None => {},
                }
            },
            None => {},
        }
        i = i + 1;
    }
    assert(iv.subrange(0, ids.len() as int) =~= iv);
    Ok(max)
}

/// Whether the missing ids of a collection can be numbered after its
/// largest reserved number without overflowing the counter.
pub fn ids_fit_check(ids: &Vec<Option<String>>, prefix: &str) -> (r: bool)
    ensures
        r == ids_fit(ids_view(ids@), prefix@),
{
    let ghost iv = ids_view(ids@);
    let mut max: u64 = 0;
    let mut missing: usize = 0;
    let mut i: usize = 0;
    while i < ids.len()
        invariant
            i <= ids.len(),
            iv == ids_view(ids@),
            max == max_reserved(iv.subrange(0, i as int), prefix@),
            missing == missing_count(iv.subrange(0, i as int)),
            missing <= i,
        decreases ids.len() - i,
    {
        proof {
            assert(iv.subrange(0, i + 1).drop_last() =~= iv.subrange(0, i as int));
            assert(iv.subrange(0, i + 1).last() == iv[i as int]);
        }
        match &ids[i] {
            Some(x) => match reserved_number_exec(x.as_str(), prefix) {
                Some(n) => {
                    if n > max {
                        max = n;
                    }
                },
                None => {},
            },
            None => {
                missing = missing + 1;
            },
        }
        i = i + 1;
    }
    assert(iv.subrange(0, ids.len() as int) =~= iv);
    let m: u64 = missing as u64;
    m < u64::MAX - max
}

/// Assign final ids: explicit ones are kept, missing ones become
/// `prefix<N>` with `N` counting up from `start`.
pub fn assign_ids(ids: &Vec<Option<String>>, prefix: &str, start: u64) -> (r: Vec<String>)
    requires
        start + missing_count(ids_view(ids@)) <= u64::MAX,
    ensures
        r@.map_values(|s: String| s@) == assign_from(ids_view(ids@), prefix@, start as nat),
{
    let ghost iv = ids_view(ids@);
    let mut out: Vec<String> = Vec::new();
    let mut ctr: u64 = start;
    let mut i: usize = 0;
    proof {
        lemma_missing_count_split(iv, 0);
        assert(iv.subrange(0, iv.len() as int) =~= iv);
    }
    while i < ids.len()
        invariant
            i <= ids.len(),
            iv == ids_view(ids@),
            ctr == start + missing_count(iv.subrange(0, i as int)),
            start + missing_count(iv) <= u64::MAX,
            missing_count(iv) == missing_count(iv.subrange(0, i as int)) + missing_count(
                iv.subrange(i as int, iv.len() as int),
            ),
            assign_from(iv, prefix@, start as nat) == out@.map_values(|s: String| s@) + assign_from(
                iv.subrange(i as int, iv.len() as int),
                prefix@,
                ctr as nat,
            ),
        decreases ids.len() - i,
    {
        let ghost rest = iv.subrange(i as int, iv.len() as int);
        let ghost next = iv.subrange(i + 1, iv.len() as int);
        proof {
            assert(rest.drop_first() =~= next);
            assert(iv.subrange(0, i + 1).drop_last() =~= iv.subrange(0, i as int));
            assert(iv.subrange(0, i + 1).last() == iv[i as int]);
            lemma_missing_count_split(iv, i + 1);
        }
        let ghost before = out@.map_values(|s: String| s@);
        match &ids[i] {
            Some(x) => {
                out.push(owned(x.as_str()));
                assert(out@.map_values(|s: String| s@) =~= before.push(x@));
            },
            None => {
                let digits = decimal_chars(ctr);
                let d = string_of(digits.as_slice());
                let gen = concat2(prefix, d.as_str());
                out.push(gen);
                assert(out@.map_values(|s: String| s@) =~= before.push(auto_id(prefix@, ctr as nat)));
                ctr = ctr + 1;
            },
        }
        i = i + 1;
    }
    out
}

proof fn lemma_missing_count_split(s: Seq<Option<Seq<char>>>, i: int)
    requires
        0 <= i <= s.len(),
    ensures
        missing_count(s) == missing_count(s.subrange(0, i)) + missing_count(
            s.subrange(i, s.len() as int),
        ),
    decreases s.len() - i,
{
    if i == s.len() {
        assert(s.subrange(0, i) =~= s);
        assert(s.subrange(i, s.len() as int) =~= Seq::<Option<Seq<char>>>::empty());
    } else {
        lemma_missing_count_split(s, i + 1);
        let a = s.subrange(i, s.len() as int);
        let b = s.subrange(i + 1, s.len() as int);
        lemma_missing_count_front(a);
        assert(a.drop_first() =~= b);
        assert(s.subrange(0, i + 1).drop_last() =~= s.subrange(0, i));
        assert(s.subrange(0, i + 1).last() == s[i]);
        assert(a[0] == s[i]);
    }
}

proof fn lemma_missing_count_front(s: Seq<Option<Seq<char>>>)
    requires
        s.len() > 0,
    ensures
        missing_count(s) == missing_count(s.drop_first()) + if s[0] is None {
            1nat
        } else {
            0nat
        },
    decreases s.len(),
{
    if s.len() > 1 {
        lemma_missing_count_front(s.drop_last());
        assert(s.drop_last().drop_first() =~= s.drop_first().drop_last());
        assert(s.drop_first().last() == s.last());
    } else {
        assert(s.drop_first() =~= Seq::<Option<Seq<char>>>::empty());
        assert(s.drop_last() =~= Seq::<Option<Seq<char>>>::empty());
    }
}

// ---------------------------------------------------------------------------
// Uniqueness of assigned ids
// ---------------------------------------------------------------------------

proof fn lemma_digit_roundtrip(d: nat)
    requires
        d < 10,
    ensures
        is_digit(digit_char(d)),
        digit_value(digit_char(d)) == d,
{
}

proof fn lemma_decimal_digits(n: nat)
    ensures
        decimal(n).len() > 0,
        all_digits(decimal(n)),
        digits_value(decimal(n)) == n,
    decreases n,
{
    lemma_digit_roundtrip(n % 10);
    if n >= 10 {
        lemma_decimal_digits(n / 10);
        assert((n / 10) * 10 + n % 10 == n);
        let s = decimal(n / 10);
        let t = s.push(digit_char(n % 10));
        assert(decimal(n) == t);
        assert(t.drop_last() =~= s);
        assert(t.last() == digit_char(n % 10));
        assert(digits_value(t) == digits_value(s) * 10 + digit_value(digit_char(n % 10)));
        assert(digits_value(s) == n / 10);
        assert(digits_value(t) == n);
        assert forall|i: int| 0 <= i < t.len() implies is_digit(#[trigger] t[i]) by {
            if i < s.len() {
                assert(t[i] == s[i]);
            }
        }
    } else {
        lemma_digit_roundtrip(n);
        let t = decimal(n);
        assert(t == seq![digit_char(n)]);
        assert(t.drop_last() =~= Seq::<char>::empty());
        assert(t.last() == digit_char(n));
        assert(digits_value(Seq::<char>::empty()) == 0);
        assert(digits_value(t) == n);
    }
}

/// `str::parse::<u64>` reads back what decimal rendering wrote.
pub proof fn lemma_parse_decimal(n: u64)
    ensures
        parse_u64_spec(decimal(n as nat)) == Some(n),
{
    lemma_decimal_digits(n as nat);
    let d = decimal(n as nat);
    assert(is_digit(d[0]));
    assert(unsigned_digits(d) == d);
}

proof fn lemma_auto_id_injective(prefix: Seq<char>, a: u64, b: u64)
    requires
        auto_id(prefix, a as nat) == auto_id(prefix, b as nat),
    ensures
        a == b,
{
    let x = auto_id(prefix, a as nat);
    assert(x.subrange(prefix.len() as int, x.len() as int) =~= decimal(a as nat));
    assert(auto_id(prefix, b as nat).subrange(prefix.len() as int, x.len() as int) =~= decimal(
        b as nat,
    ));
    lemma_parse_decimal(a);
    lemma_parse_decimal(b);
}

pub proof fn lemma_reserved_of_auto(prefix: Seq<char>, n: u64)
    ensures
        reserved_number(auto_id(prefix, n as nat), prefix) == Some(n),
{
    let x = auto_id(prefix, n as nat);
    assert(x.subrange(0, prefix.len() as int) =~= prefix);
    assert(x.subrange(prefix.len() as int, x.len() as int) =~= decimal(n as nat));
    lemma_parse_decimal(n);
}

proof fn lemma_max_reserved_bound(ids: Seq<Option<Seq<char>>>, prefix: Seq<char>, j: int)
    requires
        0 <= j < ids.len(),
        ids[j] matches Some(e) && reserved_number(e, prefix) is Some,
    ensures
        reserved_number(ids[j]->0, prefix)->0 <= max_reserved(ids, prefix),
    decreases ids.len(),
{
    if j < ids.len() - 1 {
        assert(ids.drop_last()[j] == ids[j]);
        lemma_max_reserved_bound(ids.drop_last(), prefix, j);
    }
}

/// Element `k` of the assigned ids: an explicit id of the input, or a
/// generated one numbered at least `next`.
proof fn lemma_assign_elems(ids: Seq<Option<Seq<char>>>, prefix: Seq<char>, next: nat)
    ensures
        assign_from(ids, prefix, next).len() == ids.len(),
        forall|k: int|
            0 <= k < ids.len() ==> match #[trigger] ids[k] {
                Some(e) => assign_from(ids, prefix, next)[k] == e,
                None => exists|m: nat|
                    m >= next && m < next + missing_count(ids) && assign_from(ids, prefix, next)[k]
                        == auto_id(prefix, m),
            },
    decreases ids.len(),
{
    if ids.len() > 0 {
        let rest = ids.drop_first();
        let nx = if ids[0] is None {
            next + 1
        } else {
            next
        };
        lemma_assign_elems(rest, prefix, nx);
        lemma_missing_count_front(ids);
        let r = assign_from(ids, prefix, next);
        assert forall|k: int| 0 <= k < ids.len() implies match #[trigger] ids[k] {
            Some(e) => r[k] == e,
            None => exists|m: nat| m >= next && m < next + missing_count(ids) && r[k] == auto_id(prefix, m),
        } by {
            if k > 0 {
                assert(ids[k] == rest[k - 1]);
                assert(r[k] == assign_from(rest, prefix, nx)[k - 1]);
                if ids[k] is None {
                    let m = choose|m: nat|
                        m >= nx && m < nx + missing_count(rest) && assign_from(rest, prefix, nx)[k - 1]
                            == auto_id(prefix, m);
                    assert(m >= next && m < next + missing_count(ids));
                }
            } else {
                if ids[0] is None {
                    assert(r[0] == auto_id(prefix, next));
                    assert(missing_count(ids) >= 1);
                }
            }
        }
    }
}

/// One final id per element.
pub proof fn lemma_assign_len(ids: Seq<Option<Seq<char>>>, prefix: Seq<char>, next: nat)
    ensures
        assign_from(ids, prefix, next).len() == ids.len(),
{
    lemma_assign_elems(ids, prefix, next);
}

/// Assigned ids are pairwise distinct when `next` is beyond every
/// explicit reserved number and the explicit ids are distinct.
proof fn lemma_assign_distinct(ids: Seq<Option<Seq<char>>>, prefix: Seq<char>, next: nat)
    requires
        next + missing_count(ids) <= u64::MAX + 1,
        forall|a: int, b: int|
            0 <= a < b < ids.len() && ids[a] is Some ==> #[trigger] ids[a] != #[trigger] ids[b],
        forall|a: int|
            0 <= a < ids.len() && (#[trigger] ids[a]) is Some ==> match reserved_number(
                ids[a]->0,
                prefix,
            ) {
                Some(n) => n < next,
                None => true,
            },
    ensures
        forall|a: int, b: int|
            0 <= a < b < ids.len() ==> #[trigger] assign_from(ids, prefix, next)[a]
                != #[trigger] assign_from(ids, prefix, next)[b],
    decreases ids.len(),
{
    if ids.len() > 0 {
        let rest = ids.drop_first();
        let nx = if ids[0] is None {
            next + 1
        } else {
            next
        };
        assert forall|a: int, b: int|
            0 <= a < b < rest.len() && rest[a] is Some implies #[trigger] rest[a] != #[trigger] rest[b] by {
            assert(rest[a] == ids[a + 1] && rest[b] == ids[b + 1]);
        }
        assert forall|a: int|
            0 <= a < rest.len() && (#[trigger] rest[a]) is Some implies match reserved_number(
                rest[a]->0,
                prefix,
            ) {
                Some(n) => n < nx,
                None => true,
            } by {
            assert(rest[a] == ids[a + 1]);
        }
        lemma_missing_count_front(ids);
        lemma_assign_distinct(rest, prefix, nx);
        lemma_assign_elems(ids, prefix, next);
        lemma_assign_elems(rest, prefix, nx);
        let r = assign_from(ids, prefix, next);
        let rr = assign_from(rest, prefix, nx);
        assert forall|a: int, b: int| 0 <= a < b < ids.len() implies #[trigger] r[a] != #[trigger] r[b] by {
            assert(r[b] == rr[b - 1]);
            if a > 0 {
                assert(r[a] == rr[a - 1]);
            } else {
                assert(rest[b - 1] == ids[b]);
                match ids[0] {
                    Some(e) => {
                        match ids[b] {
                            Some(f) => {
                                assert(ids[0] != ids[b]);
                            },
                            None => {
                                let m = choose|m: nat|
                                    m >= nx && m < nx + missing_count(rest) && rr[b - 1] == auto_id(prefix, m);
                                if r[0] == r[b] {
                                    lemma_reserved_of_auto(prefix, m as u64);
                                    assert(reserved_number(e, prefix) == Some(m as u64));
                                }
                            },
                        }
                    },
                    None => {
                        assert(r[0] == auto_id(prefix, next));
                        match ids[b] {
                            Some(f) => {
                                if r[0] == r[b] {
                                    lemma_reserved_of_auto(prefix, next as u64);
                                    assert(reserved_number(f, prefix) == Some(next as u64));
                                }
                            },
                            None => {
                                let m = choose|m: nat|
                                    m >= nx && m < nx + missing_count(rest) && rr[b - 1] == auto_id(prefix, m);
                                if r[0] == r[b] {
                                    lemma_auto_id_injective(prefix, next as u64, m as u64);
                                }
                            },
                        }
                    },
                }
            }
        }
    }
}

/// The ids of a collection that passed its id checks are pairwise
/// distinct after missing ones were generated: a generated id never
/// repeats, and never equals an explicit one.
pub proof fn law_assigned_ids_distinct(
    pre: Seq<Option<Seq<char>>>,
    ids: Seq<Option<Seq<char>>>,
    what: Seq<char>,
    reject_empty: bool,
    prefix: Seq<char>,
)
    requires
        pre.len() == ids.len(),
        id_scan(pre, ids, what, reject_empty, 0) is None,
        ids_fit(ids, prefix),
    ensures
        assigned_ids(ids, prefix).len() == ids.len(),
        forall|a: int, b: int|
            0 <= a < b < ids.len() ==> #[trigger] assigned_ids(ids, prefix)[a]
                != #[trigger] assigned_ids(ids, prefix)[b],
{
    let next = (max_reserved(ids, prefix) + 1) as nat;
    lemma_scan_distinct(pre, ids, what, reject_empty, 0);
    lemma_missing_le_len(ids);
    assert forall|a: int|
        0 <= a < ids.len() && (#[trigger] ids[a]) is Some implies match reserved_number(
            ids[a]->0,
            prefix,
        ) {
            Some(n) => n < next,
            None => true,
        } by {
        if reserved_number(ids[a]->0, prefix) is Some {
            lemma_max_reserved_bound(ids, prefix, a);
        }
    }
    lemma_assign_elems(ids, prefix, next);
    lemma_assign_distinct(ids, prefix, next);
}

proof fn lemma_missing_le_len(ids: Seq<Option<Seq<char>>>)
    ensures
        missing_count(ids) <= ids.len(),
    decreases ids.len(),
{
    if ids.len() > 0 {
        lemma_missing_le_len(ids.drop_last());
    }
}

proof fn lemma_scan_distinct(
    pre: Seq<Option<Seq<char>>>,
    ids: Seq<Option<Seq<char>>>,
    what: Seq<char>,
    reject_empty: bool,
    i: int,
)
    requires
        0 <= i <= ids.len(),
        pre.len() == ids.len(),
        id_scan(pre, ids, what, reject_empty, i) is None,
    ensures
        forall|a: int, b: int|
            0 <= a < b < ids.len() && i <= b && ids[a] is Some ==> #[trigger] ids[a]
                != #[trigger] ids[b],
    decreases ids.len() - i,
{
    if i < ids.len() {
        lemma_scan_distinct(pre, ids, what, reject_empty, i + 1);
        assert forall|a: int, b: int|
            0 <= a < b < ids.len() && i <= b && ids[a] is Some implies #[trigger] ids[a]
            != #[trigger] ids[b] by {
            if b == i {
                if ids[a] == ids[b] {
                    assert(ids[b] matches Some(x) && 0 <= a < i && ids[a] == Some(x));
                }
            }
        }
    }
}

} // verus!
