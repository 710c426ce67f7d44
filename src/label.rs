use vstd::prelude::*;
use crate::world::{EntityId, Kind};

verus! {

/// The ASCII code of `'0'`.
pub const ZERO: u8 = 48;

/// `b` is an ASCII decimal digit.
pub open spec fn is_digit(b: u8) -> bool {
    ZERO <= b <= ZERO + 9
}

/// The decimal digits of `n`, most significant first, without leading zeros.
pub open spec fn decimal(n: nat) -> Seq<u8>
    decreases n,
{
    if n < 10 {
        seq![(ZERO + n) as u8]
    } else {
        decimal(n / 10).push((ZERO + n % 10) as u8)
    }
}

/// The number written by the digits `s`.
pub open spec fn digits_value(s: Seq<u8>) -> int
    decreases s.len(),
{
    if s.len() == 0 {
        0
    } else {
        digits_value(s.drop_last()) * 10 + (s.last() - ZERO)
    }
}

/// `s` is a number written in decimal without leading zeros.
pub open spec fn is_decimal(s: Seq<u8>) -> bool {
    &&& s.len() > 0
    &&& forall|i: int| 0 <= i < s.len() ==> is_digit(#[trigger] s[i])
    &&& (s.len() == 1 || s[0] != ZERO)
}

/// The number written by `s`, when `s` is decimal and the number fits in a word.
pub open spec fn number_of(s: Seq<u8>) -> Option<u64> {
    if is_decimal(s) && digits_value(s) <= u64::MAX {
        Some(digits_value(s) as u64)
    } else {
        None
    }
}

/// The label prefix of a kind.
pub open spec fn prefix_of(k: Kind) -> Seq<u8> {
    match k {
        Kind::Player => seq![112u8, 108, 97, 121, 101, 114],
        Kind::Shot => seq![115u8, 104, 111, 116],
        Kind::Meteoroid => seq![109u8, 101, 116, 101, 111, 114, 111, 105, 100],
    }
}

/// The text label of an entity: `player` for the player, otherwise the
/// kind's prefix followed by the number (`shot3`, `meteoroid0`).
pub open spec fn label_of(id: EntityId) -> Seq<u8> {
    if id.kind == Kind::Player {
        prefix_of(Kind::Player)
    } else {
        prefix_of(id.kind) + decimal(id.index as nat)
    }
}

/// The entity a text label names, if any.
pub open spec fn parse_spec(s: Seq<u8>) -> Option<EntityId> {
    let p = prefix_of(Kind::Player);
    let sh = prefix_of(Kind::Shot);
    let m = prefix_of(Kind::Meteoroid);
    if s == p {
        Some(EntityId { kind: Kind::Player, index: 0 })
    } else if s.len() >= sh.len() && s.take(sh.len() as int) == sh && number_of(
        s.skip(sh.len() as int),
    ).is_some() {
        Some(EntityId { kind: Kind::Shot, index: number_of(s.skip(sh.len() as int)).unwrap() })
    } else if s.len() >= m.len() && s.take(m.len() as int) == m && number_of(
        s.skip(m.len() as int),
    ).is_some() {
        Some(
            EntityId { kind: Kind::Meteoroid, index: number_of(s.skip(m.len() as int)).unwrap() },
        )
    } else {
        None
    }
}

proof fn lemma_decimal(n: nat)
    ensures
        is_decimal(decimal(n)),
        digits_value(decimal(n)) == n,
        n > 0 ==> decimal(n)[0] != ZERO,
    decreases n,
{
    let d = decimal(n);
    if n < 10 {
        assert(d.drop_last() =~= Seq::<u8>::empty());
        assert(digits_value(d.drop_last()) == 0);
    } else {
        let e = decimal(n / 10);
        lemma_decimal(n / 10);
        assert(d.drop_last() =~= e);
        assert(forall|i: int| 0 <= i < e.len() ==> d[i] == e[i]);
        assert(d[0] == e[0]);
        assert(n % 10 < 10);
        assert(is_digit(d.last()));
        assert forall|i: int| 0 <= i < d.len() implies is_digit(#[trigger] d[i]) by {
            if i < e.len() {
                assert(d[i] == e[i]);
            }
        }
        assert((n / 10) * 10 + n % 10 == n) by (nonlinear_arith);
        assert(digits_value(d) == digits_value(e) * 10 + (d.last() - ZERO));
    }
}

proof fn lemma_value_nonneg(s: Seq<u8>)
    requires
        forall|i: int| 0 <= i < s.len() ==> is_digit(#[trigger] s[i]),
    ensures
        digits_value(s) >= 0,
    decreases s.len(),
{
    if s.len() > 0 {
        lemma_value_nonneg(s.drop_last());
    }
}

proof fn lemma_value_prefix(s: Seq<u8>, k: int)
    requires
        forall|i: int| 0 <= i < s.len() ==> is_digit(#[trigger] s[i]),
        0 <= k <= s.len(),
    ensures
        digits_value(s.take(k)) <= digits_value(s),
    decreases s.len(),
{
    if k < s.len() {
        let t = s.drop_last();
        assert(t.take(k) =~= s.take(k));
        lemma_value_prefix(t, k);
        lemma_value_nonneg(t);
    } else {
        assert(s.take(k) =~= s);
    }
}

/// Printing a label and reading it back gives the same entity.
pub proof fn lemma_label_round_trip(id: EntityId)
    requires
        id.kind == Kind::Player ==> id.index == 0,
    ensures
        parse_spec(label_of(id)) == Some(id),
{
    let s = label_of(id);
    if id.kind != Kind::Player {
        lemma_decimal(id.index as nat);
        let p = prefix_of(id.kind);
        assert(s.take(p.len() as int) =~= p);
        assert(s.skip(p.len() as int) =~= decimal(id.index as nat));
        assert(s[0] != prefix_of(Kind::Player)[0]);
        if id.kind == Kind::Meteoroid {
            assert(s[0] != prefix_of(Kind::Shot)[0]);
            assert(s.take(4) != prefix_of(Kind::Shot));
        }
    }
}

/// Appends the decimal digits of `n` to `out`.
pub fn push_decimal(out: &mut Vec<u8>, n: u64)
    ensures
        final(out)@ == old(out)@ + decimal(n as nat),
    decreases n,
{
    if n >= 10 {
        push_decimal(out, n / 10);
    }
    out.push(ZERO + (n % 10) as u8);
    assert(out@ =~= old(out)@ + decimal(n as nat));
}

/// The bytes of the label prefix of `k`.
pub fn prefix_bytes(k: Kind) -> (r: Vec<u8>)
    ensures
        r@ == prefix_of(k),
{
    let r = match k {
        Kind::Player => vec![112u8, 108, 97, 121, 101, 114],
        Kind::Shot => vec![115u8, 104, 111, 116],
        Kind::Meteoroid => vec![109u8, 101, 116, 101, 111, 114, 111, 105, 100],
    };
    assert(r@ =~= prefix_of(k));
    r
}

/// The text label of `id`, as bytes.
pub fn format_label(id: EntityId) -> (r: Vec<u8>)
    ensures
        r@ == label_of(id),
{
    let mut out = prefix_bytes(id.kind);
    if id.kind != Kind::Player {
        push_decimal(&mut out, id.index);
    }
    out
}

/// Whether `s` begins with `p`.
pub fn starts_with(s: &[u8], p: &Vec<u8>) -> (r: bool)
    ensures
        r == (p@.len() <= s@.len() && s@.take(p@.len() as int) == p@),
{
    if p.len() > s.len() {
        return false;
    }
    let mut i: usize = 0;
    while i < p.len()
        invariant
            p@.len() <= s@.len(),
            0 <= i <= p.len(),
            forall|j: int| 0 <= j < i ==> s@[j] == p@[j],
        decreases p.len() - i,
    {
        if s[i] != p[i] {
            assert(s@.take(p@.len() as int)[i as int] != p@[i as int]);
            return false;
        }
        i += 1;
    }
    assert(s@.take(p@.len() as int) =~= p@);
    true
}

/// The number written by `s` from `start` on (see `number_of`).
pub fn parse_number(s: &[u8], start: usize) -> (r: Option<u64>)
    requires
        start <= s@.len(),
    ensures
        r == number_of(s@.skip(start as int)),
{
    let ghost t = s@.skip(start as int);
    if start >= s.len() || (s[start] == ZERO && s.len() - start > 1) {
        return None;
    }
    let mut v: u64 = 0;
    let mut i: usize = start;
    while i < s.len()
        invariant
            start <= i <= s@.len(),
            t == s@.skip(start as int),
            forall|j: int| start <= j < i ==> is_digit(#[trigger] s@[j]),
            v == digits_value(t.take(i - start)),
        decreases s.len() - i,
    {
        let b = s[i];
        assert(t[i - start] == b);
        if b < ZERO || b > ZERO + 9 {
            return None;
        }
        let d = (b - ZERO) as u64;
        assert(t.take(i - start + 1).drop_last() =~= t.take(i - start));
        if v > (u64::MAX - d) / 10 {
            proof {
                if is_decimal(t) {
                    lemma_value_prefix(t, i - start + 1);
                }
            }
            return None;
        }
        v = v * 10 + d;
        i += 1;
    }
    assert(t.take(t.len() as int) =~= t);
    Some(v)
}

/// The entity a text label names, if any.
pub fn parse_label(s: &[u8]) -> (r: Option<EntityId>)
    ensures
        r == parse_spec(s@),
{
    let p = prefix_bytes(Kind::Player);
    if s.len() == p.len() && starts_with(s, &p) {
        assert(s@ =~= s@.take(p@.len() as int));
        return Some(EntityId { kind: Kind::Player, index: 0 });
    }
    proof {
        if s@ == p@ {
            assert(s@.take(p@.len() as int) =~= s@);
        }
    }
    let sh = prefix_bytes(Kind::Shot);
    if starts_with(s, &sh) {
        if let Some(n) = parse_number(s, sh.len()) {
            return Some(EntityId { kind: Kind::Shot, index: n });
        }
    }
    let m = prefix_bytes(Kind::Meteoroid);
    if starts_with(s, &m) {
        if let Some(n) = parse_number(s, m.len()) {
            return Some(EntityId { kind: Kind::Meteoroid, index: n });
        }
    }
    None
}

} // verus!
