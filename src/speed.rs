use vstd::prelude::*;

verus! {

/// Speed added to a bucket by one burst of the rockets.
pub const THRUST_SPEED: u64 = 10;

/// Speed taken from every bucket by one decay step (a tenth of a burst).
pub const THRUST_DECAY: u64 = 1;

/// One directional speed contribution: `speed` units along heading `rotation`.
///
/// The heading is a key compared by exact equality; the host passes the bit
/// pattern of its angle in radians.
#[derive(Clone, Copy, Debug)]
pub struct Thrust {
    pub speed: u64,
    pub rotation: u32,
}

impl Thrust {
    pub fn new(speed: u64, rotation: u32) -> (r: Thrust)
        ensures
            r.speed == speed,
            r.rotation == rotation,
    {
        Thrust { speed, rotation }
    }
}

/// A bucket as (heading, speed).
pub open spec fn bucket_of(t: Thrust) -> (u32, nat) {
    (t.rotation, t.speed as nat)
}

/// Speed of the last bucket keyed by `r`, if there is one.
pub open spec fn speed_of(s: Seq<(u32, nat)>, r: u32) -> Option<nat>
    decreases s.len(),
{
    if s.len() == 0 {
        None
    } else if s.last().0 == r {
        Some(s.last().1)
    } else {
        speed_of(s.drop_last(), r)
    }
}

/// No two buckets share a heading.
pub open spec fn unique_rotations(s: Seq<(u32, nat)>) -> bool {
    forall|i: int, j: int| 0 <= i < j < s.len() ==> s[i].0 != s[j].0
}

/// `b` with `amount` added when it is keyed by `r`.
pub open spec fn bumped(b: (u32, nat), amount: nat, r: u32) -> (u32, nat) {
    if b.0 == r {
        (b.0, b.1 + amount)
    } else {
        b
    }
}

/// The buckets after adding `amount` along `r`: the bucket keyed by `r` grows,
/// or a new one is appended when none is keyed by `r`.
pub open spec fn added(s: Seq<(u32, nat)>, amount: nat, r: u32) -> Seq<(u32, nat)> {
    if speed_of(s, r).is_some() {
        s.map_values(|b: (u32, nat)| bumped(b, amount, r))
    } else {
        s.push((r, amount))
    }
}

/// A bucket after a decay by `d`: kept with `d` less, or dropped when its
/// speed would become negative.
pub open spec fn decay_one(b: (u32, nat), d: nat) -> Option<(u32, nat)> {
    if b.1 >= d {
        Some((b.0, (b.1 - d) as nat))
    } else {
        None
    }
}

/// `decay_one` as a function of the bucket alone.
pub open spec fn decay_by(d: nat) -> spec_fn((u32, nat)) -> Option<(u32, nat)> {
    |b: (u32, nat)| decay_one(b, d)
}

/// The buckets after a decay by `d`, in their order.
pub open spec fn decayed(s: Seq<(u32, nat)>, d: nat) -> Seq<(u32, nat)> {
    s.filter_map(decay_by(d))
}

/// Adding `amount` along `r` fits in the bucket's machine word.
pub open spec fn room_for(s: Seq<(u32, nat)>, amount: nat, r: u32) -> bool {
    match speed_of(s, r) {
        Some(v) => v + amount <= u64::MAX,
        None => amount <= u64::MAX,
    }
}

/// The speed of the ship as the set of thrust buckets it has collected, one
/// per heading, in the order the headings were first used.
pub struct Speed {
    speed: Vec<Thrust>,
}

impl View for Speed {
    type V = Seq<(u32, nat)>;

    closed spec fn view(&self) -> Seq<(u32, nat)> {
        self.speed@.map_values(|t: Thrust| bucket_of(t))
    }
}

proof fn lemma_speed_of_none(s: Seq<(u32, nat)>, r: u32)
    ensures
        speed_of(s, r).is_none() <==> forall|j: int| 0 <= j < s.len() ==> s[j].0 != r,
    decreases s.len(),
{
    if s.len() > 0 {
        lemma_speed_of_none(s.drop_last(), r);
        if speed_of(s, r).is_none() {
            assert forall|j: int| 0 <= j < s.len() implies s[j].0 != r by {
                if j < s.len() - 1 {
                    assert(s.drop_last()[j] == s[j]);
                }
            }
        } else if s.last().0 != r {
            let j = choose|j: int| 0 <= j < s.drop_last().len() && s.drop_last()[j].0 == r;
            assert(s[j] == s.drop_last()[j]);
        }
    }
}

proof fn lemma_speed_of_index(s: Seq<(u32, nat)>, i: int)
    requires
        unique_rotations(s),
        0 <= i < s.len(),
    ensures
        speed_of(s, s[i].0) == Some(s[i].1),
    decreases s.len(),
{
    if i < s.len() - 1 {
        assert(s.drop_last()[i] == s[i]);
        lemma_speed_of_index(s.drop_last(), i);
    }
}

proof fn lemma_speed_of_bumped(s: Seq<(u32, nat)>, amount: nat, r: u32, q: u32)
    ensures
        speed_of(s.map_values(|b: (u32, nat)| bumped(b, amount, r)), q) == (match speed_of(s, q) {
            Some(v) => Some(if q == r { v + amount } else { v }),
            None => None::<nat>,
        }),
    decreases s.len(),
{
    let f = |b: (u32, nat)| bumped(b, amount, r);
    if s.len() > 0 {
        assert(s.map_values(f).drop_last() =~= s.drop_last().map_values(f));
        lemma_speed_of_bumped(s.drop_last(), amount, r, q);
    }
}

proof fn lemma_added(s: Seq<(u32, nat)>, amount: nat, r: u32)
    requires
        unique_rotations(s),
    ensures
        unique_rotations(added(s, amount, r)),
        speed_of(added(s, amount, r), r) == Some(
            match speed_of(s, r) {
                Some(v) => v + amount,
                None => amount,
            },
        ),
        forall|q: u32| q != r ==> speed_of(#[trigger] added(s, amount, r), q) == speed_of(s, q),
{
    if speed_of(s, r).is_some() {
        assert forall|q: u32| true implies speed_of(added(s, amount, r), q) == (match speed_of(
            s,
            q,
        ) {
            Some(v) => Some(if q == r { v + amount } else { v }),
            None => None::<nat>,
        }) by {
            lemma_speed_of_bumped(s, amount, r, q);
        }
    } else {
        lemma_speed_of_none(s, r);
        assert(added(s, amount, r).drop_last() =~= s);
    }
}

/// A decay by `d` drops the bucket of a heading whose speed is below `d` and
/// leaves any other bucket `d` slower; buckets stay keyed by distinct headings.
pub proof fn lemma_decayed(s: Seq<(u32, nat)>, d: nat, r: u32)
    requires
        unique_rotations(s),
    ensures
        unique_rotations(decayed(s, d)),
        speed_of(decayed(s, d), r) == (match speed_of(s, r) {
            Some(v) => if v >= d {
                Some((v - d) as nat)
            } else {
                None
            },
            None => None::<nat>,
        }),
    decreases s.len(),
{
    if s.len() > 0 {
        let t = s.drop_last();
        assert(unique_rotations(t));
        lemma_decayed(t, d, r);
        lemma_decayed(t, d, s.last().0);
        lemma_speed_of_none(t, s.last().0);
        assert forall|j: int| 0 <= j < t.len() implies t[j].0 != s.last().0 by {
            assert(t[j] == s[j]);
        }
        lemma_speed_of_none(decayed(t, d), s.last().0);
        let f = decay_by(d);
        assert(decayed(s, d) == t.filter_map(f) + (match f(s.last()) {
            Some(b) => seq![b],
            None => Seq::empty(),
        }));
        if s.last().1 >= d {
            assert(decayed(s, d).drop_last() =~= decayed(t, d));
        } else {
            assert(decayed(s, d) =~= decayed(t, d));
        }
    }
}

/// The buckets after a run of operations from `s`: `true` is a burst along
/// `r` (`give_thrust`), `false` a decay step (`decay_thrust`).
pub open spec fn run_ops(s: Seq<(u32, nat)>, r: u32, ops: Seq<bool>) -> Seq<(u32, nat)>
    decreases ops.len(),
{
    if ops.len() == 0 {
        s
    } else {
        let t = run_ops(s, r, ops.drop_last());
        if ops.last() {
            added(t, THRUST_SPEED as nat, r)
        } else {
            decayed(t, THRUST_DECAY as nat)
        }
    }
}

/// The number of bursts in `ops`.
pub open spec fn bursts(ops: Seq<bool>) -> nat
    decreases ops.len(),
{
    if ops.len() == 0 {
        0
    } else {
        bursts(ops.drop_last()) + if ops.last() {
            1nat
        } else {
            0nat
        }
    }
}

/// The number of decay steps in `ops` that come after its first burst.
pub open spec fn decays_after_first_burst(ops: Seq<bool>) -> nat
    decreases ops.len(),
{
    if ops.len() == 0 {
        0
    } else {
        decays_after_first_burst(ops.drop_last()) + if !ops.last() && bursts(ops.drop_last())
            > 0 {
            1nat
        } else {
            0nat
        }
    }
}

/// At no point of `ops` have the decays taken more than the bursts gave.
pub open spec fn never_drained(ops: Seq<bool>) -> bool {
    forall|k: int|
        0 <= k <= ops.len() ==> decays_after_first_burst(#[trigger] ops.take(k)) <= THRUST_SPEED
            * bursts(ops.take(k))
}

/// Along a heading that has no bucket yet, any run of bursts and decays that
/// never drains the bucket leaves it with the burst speed times the number of
/// bursts, less one decay step for each decay after the first burst.
pub proof fn lemma_bursts_accumulate(s: Seq<(u32, nat)>, r: u32, ops: Seq<bool>)
    requires
        unique_rotations(s),
        speed_of(s, r).is_none(),
        never_drained(ops),
    ensures
        unique_rotations(run_ops(s, r, ops)),
        speed_of(run_ops(s, r, ops), r) == if bursts(ops) > 0 {
            Some((THRUST_SPEED * bursts(ops) - THRUST_DECAY * decays_after_first_burst(ops)) as nat)
        } else {
            None
        },
    decreases ops.len(),
{
    if ops.len() > 0 {
        let p = ops.drop_last();
        assert forall|k: int| 0 <= k <= p.len() implies decays_after_first_burst(#[trigger] p.take(k))
            <= THRUST_SPEED * bursts(p.take(k)) by {
            assert(p.take(k) =~= ops.take(k));
        }
        lemma_bursts_accumulate(s, r, p);
        let t = run_ops(s, r, p);
        assert(ops.take(ops.len() as int) =~= ops);
        if ops.last() {
            lemma_added(t, THRUST_SPEED as nat, r);
        } else {
            lemma_decayed(t, THRUST_DECAY as nat, r);
        }
    }
}

impl Speed {
    /// Buckets are keyed by distinct headings.
    pub open spec fn wf(&self) -> bool {
        unique_rotations(self@)
    }

    pub fn new() -> (r: Speed)
        ensures
            r.wf(),
            r@ == Seq::<(u32, nat)>::empty(),
    {
        let r = Speed { speed: Vec::new() };
        assert(r@ =~= Seq::<(u32, nat)>::empty());
        r
    }

    /// Adds a burst of `THRUST_SPEED` along `rotation`.
    pub fn give_thrust(&mut self, rotation: u32)
        requires
            old(self).wf(),
            room_for(old(self)@, THRUST_SPEED as nat, rotation),
        ensures
            final(self).wf(),
            final(self)@ == added(old(self)@, THRUST_SPEED as nat, rotation),
    {
        self.add(THRUST_SPEED, rotation);
    }

    /// Takes `THRUST_DECAY` from every bucket.
    pub fn decay_thrust(&mut self)
        requires
            old(self).wf(),
        ensures
            final(self).wf(),
            final(self)@ == decayed(old(self)@, THRUST_DECAY as nat),
    {
        self.subtract(THRUST_DECAY);
    }

    /// The number of buckets.
    pub fn len(&mut self) -> (r: u32)
        requires
            old(self)@.len() <= u32::MAX,
        ensures
            *final(self) == *old(self),
            r == old(self)@.len(),
    {
        let mut len: u32 = 0;
        let mut i: usize = 0;
        while i < self.speed.len()
            invariant
                0 <= i <= self.speed.len(),
                self.speed.len() <= u32::MAX,
                len == i,
            decreases self.speed.len() - i,
        {
            len += 1;
            i += 1;
        }
        len
    }

    /// Whether a bucket is keyed by `rotation`.
    pub fn has_thrust(&mut self, rotation: u32) -> (r: bool)
        ensures
            *final(self) == *old(self),
            r == speed_of(old(self)@, rotation).is_some(),
    {
        proof {
            lemma_speed_of_none(self@, rotation);
        }
        let mut found = false;
        let mut i: usize = 0;
        while i < self.speed.len()
            invariant
                0 <= i <= self.speed.len(),
                found == (exists|j: int| 0 <= j < i && #[trigger] self.speed@[j].rotation == rotation),
            decreases self.speed.len() - i,
        {
            if self.speed[i].rotation == rotation {
                found = true;
            }
            i += 1;
        }
        proof {
            if found {
                let j = choose|j: int| 0 <= j < i && #[trigger] self.speed@[j].rotation == rotation;
                assert(self@[j] == bucket_of(self.speed@[j]));
            } else {
                assert forall|j: int| 0 <= j < self@.len() implies self@[j].0 != rotation by {
                    assert(self@[j] == bucket_of(self.speed@[j]));
                }
            }
        }
        found
    }

    /// Whether a burst along `rotation` still fits in its bucket's word.
    pub fn room_for_thrust(&self, rotation: u32) -> (r: bool)
        requires
            self.wf(),
        ensures
            r == room_for(self@, THRUST_SPEED as nat, rotation),
    {
        let mut i: usize = 0;
        while i < self.speed.len()
            invariant
                0 <= i <= self.speed.len(),
                unique_rotations(self@),
                forall|j: int| 0 <= j < i ==> #[trigger] self.speed@[j].rotation != rotation,
            decreases self.speed.len() - i,
        {
            let t = self.speed[i];
            assert(self@[i as int] == bucket_of(t));
            if t.rotation == rotation {
                proof {
                    lemma_speed_of_index(self@, i as int);
                }
                return t.speed <= u64::MAX - THRUST_SPEED;
            }
            i += 1;
        }
        proof {
            assert forall|j: int| 0 <= j < self@.len() implies self@[j].0 != rotation by {
                assert(self@[j] == bucket_of(self.speed@[j]));
            }
            lemma_speed_of_none(self@, rotation);
        }
        true
    }

    /// The bucket at `i`, if there is one.
    pub fn get(&self, i: usize) -> (r: Option<Thrust>)
        ensures
            r.is_some() <==> i < self@.len(),
            r.is_some() ==> bucket_of(r.unwrap()) == self@[i as int],
    {
        if i < self.speed.len() {
            Some(self.speed[i])
        } else {
            None
        }
    }

    /// Adds `speed` to the bucket keyed by `rotation`, or appends a new bucket
    /// when there is none.
    pub fn add(&mut self, speed: u64, rotation: u32)
        requires
            old(self).wf(),
            room_for(old(self)@, speed as nat, rotation),
        ensures
            final(self).wf(),
            final(self)@ == added(old(self)@, speed as nat, rotation),
    {
        let ghost s0 = self@;
        proof {
            lemma_speed_of_none(s0, rotation);
        }
        let mut is_new = true;
        let n = self.speed.len();
        let mut i: usize = 0;
        while i < n
            invariant
                n == self.speed.len(),
                n == s0.len(),
                0 <= i <= n,
                s0 == old(self)@,
                unique_rotations(s0),
                room_for(s0, speed as nat, rotation),
                forall|j: int| 0 <= j < i ==> #[trigger] bucket_of(self.speed@[j]) == bumped(s0[j], speed as nat, rotation),
                forall|j: int| i <= j < n ==> #[trigger] bucket_of(self.speed@[j]) == s0[j],
                is_new == (forall|j: int| 0 <= j < i ==> #[trigger] s0[j].0 != rotation),
            decreases n - i,
        {
            let t = self.speed[i];
            assert(bucket_of(self.speed@[i as int]) == s0[i as int]);
            if t.rotation == rotation {
                proof {
                    lemma_speed_of_index(s0, i as int);
                }
                self.speed.set(i, Thrust { speed: t.speed + speed, rotation });
                is_new = false;
            }
            i += 1;
        }
        if is_new {
            self.speed.push(Thrust::new(speed, rotation));
            assert(self@ =~= s0.push((rotation, speed as nat)));
        } else {
            assert(self@ =~= s0.map_values(|b: (u32, nat)| bumped(b, speed as nat, rotation)));
        }
        proof {
            lemma_added(s0, speed as nat, rotation);
        }
    }

    /// Takes `speed` from every bucket, then drops the buckets whose speed
    /// became negative; a bucket left at zero stays.
    pub fn subtract(&mut self, speed: u64)
        requires
            old(self).wf(),
        ensures
            final(self).wf(),
            final(self)@ == decayed(old(self)@, speed as nat),
    {
        let ghost s0 = self@;
        let ghost f = decay_by(speed as nat);
        let mut kept: Vec<Thrust> = Vec::new();
        let mut i: usize = 0;
        while i < self.speed.len()
            invariant
                0 <= i <= self.speed.len(),
                s0 == self@,
                f == decay_by(speed as nat),
                s0.len() == self.speed.len(),
                kept@.map_values(|t: Thrust| bucket_of(t)) == s0.take(i as int).filter_map(f),
            decreases self.speed.len() - i,
        {
            let t = self.speed[i];
            assert(bucket_of(t) == s0[i as int]);
            proof {
                s0.lemma_filter_map_take_succ(f, i as int);
            }
            let ghost k0 = kept@;
            assert(s0.take(i + 1).filter_map(f) == s0.take(i as int).filter_map(f) + (match f(
                s0[i as int],
            ) {
                Some(b) => seq![b],
                None => Seq::empty(),
            }));
            if t.speed >= speed {
                let nt = Thrust { speed: t.speed - speed, rotation: t.rotation };
                kept.push(nt);
                assert(kept@.map_values(|t: Thrust| bucket_of(t)) =~= k0.map_values(
                    |t: Thrust| bucket_of(t),
                ).push(bucket_of(nt)));
            }
            assert(kept@.map_values(|t: Thrust| bucket_of(t)) =~= s0.take(i + 1).filter_map(f));
            i += 1;
        }
        assert(s0.take(s0.len() as int) =~= s0);
        self.speed = kept;
        proof {
            lemma_decayed(s0, speed as nat, 0);
        }
    }
}

} // verus!
