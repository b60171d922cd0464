//! The password generator: a xorshift* engine, and passwords that hold at
//! least one uppercase letter, one lowercase letter, one digit and one symbol.
use vstd::prelude::*;
use crate::text::push_char;

verus! {

/// The odd constant of the engine's output step.
pub const MULTIPLIER: u64 = 2685821657736338717;

/// The shortest password that can hold one character of each class.
pub const MIN_LENGTH: usize = 4;

/// One step of the engine's state: three xor-shifts.
pub open spec fn xorshift(s: u64) -> u64 {
    let a = s ^ (s << 12u64);
    let b = a ^ (a >> 25u64);
    b ^ (b << 27u64)
}

/// The value that the engine gives out for a state: the state times the
/// multiplier, modulo 2^64.
pub open spec fn scramble(s: u64) -> u64 {
    ((s as nat * MULTIPLIER as nat) % 0x1_0000_0000_0000_0000) as u64
}

/// The state after `k` steps from `s`.
pub open spec fn advance(s: u64, k: nat) -> u64
    decreases k,
{
    if k == 0 {
        s
    } else {
        xorshift(advance(s, (k - 1) as nat))
    }
}

/// The `k`-th value (from 1) that the engine gives out from state `s`.
pub open spec fn draw(s: u64, k: nat) -> u64 {
    scramble(advance(s, k))
}

/// A xorshift* pseudo-random engine over 64 bits. Its state is never zero.
pub struct XorShiftStar {
    state: u64,
}

/// Relies on `SystemTime::now`, read as nanoseconds since the Unix epoch
/// (1 for a clock set before it): any value.
#[verifier::external_body]
fn clock_nanos() -> (r: u64) {
    match std::time::SystemTime::now().duration_since(std::time::UNIX_EPOCH) {
        Ok(d) => d.as_nanos() as u64,
        Err(_) => 1,
    }
}

/// Relies on `BuildHasher::hash_one` with a fresh `RandomState`, whose keys
/// are drawn anew for each process: any value.
#[verifier::external_body]
fn hash_with_process_keys(x: u64) -> (r: u64) {
    std::hash::BuildHasher::hash_one(&std::collections::hash_map::RandomState::new(), x)
}

proof fn lemma_xorshift_nonzero(s: u64)
    requires
        s != 0,
    ensures
        xorshift(s) != 0,
{
    assert(s != 0 ==> (s ^ (s << 12u64)) != 0) by (bit_vector);
    let a = s ^ (s << 12u64);
    assert(a != 0 ==> (a ^ (a >> 25u64)) != 0) by (bit_vector);
    let b = a ^ (a >> 25u64);
    assert(b != 0 ==> (b ^ (b << 27u64)) != 0) by (bit_vector);
}

impl XorShiftStar {
    /// The engine's current state.
    pub closed spec fn state(&self) -> u64 {
        self.state
    }

    /// An engine started from `seed`; a zero seed, which would never leave
    /// zero, becomes 1.
    pub fn from_seed(seed: u64) -> (r: Self)
        ensures
            r.state() == if seed == 0 {
                1
            } else {
                seed
            },
    {
        let state = if seed == 0 {
            1
        } else {
            seed
        };
        XorShiftStar { state }
    }

    /// An engine seeded from the clock, mixed by a hash keyed anew for each
    /// process.
    pub fn new() -> (r: Self)
        ensures
            r.state() != 0,
    {
        let time_noise = clock_nanos();
        XorShiftStar::from_seed(hash_with_process_keys(time_noise))
    }

    /// Advances the state by one step and gives out the next value.
    pub fn next_u64(&mut self) -> (r: u64)
        ensures
            final(self).state() == xorshift(old(self).state()),
            r == scramble(final(self).state()),
            old(self).state() != 0 ==> final(self).state() != 0,
    {
        proof {
            if self.state != 0 {
                lemma_xorshift_nonzero(self.state);
            }
        }
        self.state = self.state ^ (self.state << 12u64);
        self.state = self.state ^ (self.state >> 25u64);
        self.state = self.state ^ (self.state << 27u64);
        self.state.wrapping_mul(MULTIPLIER)
    }

    /// A value in `[0, max)`: the next value modulo `max`.
    pub fn random_index(&mut self, max: usize) -> (r: usize)
        requires
            max > 0,
        ensures
            final(self).state() == xorshift(old(self).state()),
            r == scramble(final(self).state()) % (max as u64),
            r < max,
            old(self).state() != 0 ==> final(self).state() != 0,
    {
        (self.next_u64() % (max as u64)) as usize
    }
}

pub open spec fn is_upper(c: char) -> bool {
    'A' <= c <= 'Z'
}

pub open spec fn is_lower(c: char) -> bool {
    'a' <= c <= 'z'
}

pub open spec fn is_digit(c: char) -> bool {
    '0' <= c <= '9'
}

/// One of the ten symbols `!@#$?&_.~-`.
pub open spec fn is_special(c: char) -> bool {
    c == '!' || c == '@' || c == '#' || c == '$' || c == '?' || c == '&' || c == '_' || c == '.'
        || c == '~' || c == '-'
}

/// One of the 72 characters that a password is made of.
pub open spec fn in_charset(c: char) -> bool {
    is_upper(c) || is_lower(c) || is_digit(c) || is_special(c)
}

pub open spec fn special_at(i: int) -> char {
    if i == 0 {
        '!'
    } else if i == 1 {
        '@'
    } else if i == 2 {
        '#'
    } else if i == 3 {
        '$'
    } else if i == 4 {
        '?'
    } else if i == 5 {
        '&'
    } else if i == 6 {
        '_'
    } else if i == 7 {
        '.'
    } else if i == 8 {
        '~'
    } else {
        '-'
    }
}

/// A set of characters that the generator draws from.
#[derive(Clone, Copy, Debug, PartialEq, Eq, Structural)]
pub enum CharSet {
    /// `A` to `Z`.
    Upper,
    /// `a` to `z`.
    Lower,
    /// `0` to `9`.
    Digit,
    /// `!@#$?&_.~-`.
    Special,
    /// All 72 of them: lowercase, uppercase, digits, then symbols.
    All,
}

impl CharSet {
    pub open spec fn size(self) -> nat {
        match self {
            CharSet::Upper => 26,
            CharSet::Lower => 26,
            CharSet::Digit => 10,
            CharSet::Special => 10,
            CharSet::All => 72,
        }
    }

    /// The `i`-th character of the set, in its order.
    pub open spec fn at(self, i: int) -> char {
        match self {
            CharSet::Upper => ((65 + i) as u8) as char,
            CharSet::Lower => ((97 + i) as u8) as char,
            CharSet::Digit => ((48 + i) as u8) as char,
            CharSet::Special => special_at(i),
            CharSet::All => if i < 26 {
                ((97 + i) as u8) as char
            } else if i < 52 {
                ((65 + i - 26) as u8) as char
            } else if i < 62 {
                ((48 + i - 52) as u8) as char
            } else {
                special_at(i - 62)
            },
        }
    }

    /// The number of characters in the set.
    pub fn len(&self) -> (r: usize)
        ensures
            r == self.size(),
    {
        match self {
            CharSet::Upper => 26,
            CharSet::Lower => 26,
            CharSet::Digit => 10,
            CharSet::Special => 10,
            CharSet::All => 72,
        }
    }

    /// The `i`-th character of the set.
    pub fn char_at(&self, i: usize) -> (c: char)
        requires
            i < self.size(),
        ensures
            c == self.at(i as int),
    {
        match self {
            CharSet::Upper => (65 + i as u8) as char,
            CharSet::Lower => (97 + i as u8) as char,
            CharSet::Digit => (48 + i as u8) as char,
            CharSet::Special => special_char(i),
            CharSet::All => if i < 26 {
                (97 + i as u8) as char
            } else if i < 52 {
                (65 + (i - 26) as u8) as char
            } else if i < 62 {
                (48 + (i - 52) as u8) as char
            } else {
                assert(i < 72);
                special_char(i - 62)
            },
        }
    }
}

fn special_char(i: usize) -> (c: char)
    requires
        i < 10,
    ensures
        c == special_at(i as int),
{
    if i == 0 {
        '!'
    } else if i == 1 {
        '@'
    } else if i == 2 {
        '#'
    } else if i == 3 {
        '$'
    } else if i == 4 {
        '?'
    } else if i == 5 {
        '&'
    } else if i == 6 {
        '_'
    } else if i == 7 {
        '.'
    } else if i == 8 {
        '~'
    } else {
        '-'
    }
}

/// Every character of a set belongs to its class, and to the 72 of all sets.
pub proof fn lemma_charset_classes(set: CharSet, i: int)
    requires
        0 <= i < set.size(),
    ensures
        in_charset(set.at(i)),
        set == CharSet::Upper ==> is_upper(set.at(i)),
        set == CharSet::Lower ==> is_lower(set.at(i)),
        set == CharSet::Digit ==> is_digit(set.at(i)),
        set == CharSet::Special ==> is_special(set.at(i)),
{
}

/// A character drawn from `set`: the engine's next value modulo the set's size
/// picks it.
pub fn random_char_from(generator: &mut XorShiftStar, set: CharSet) -> (c: char)
    ensures
        final(generator).state() == xorshift(old(generator).state()),
        c == set.at((scramble(final(generator).state()) % (set.size() as u64)) as int),
        old(generator).state() != 0 ==> final(generator).state() != 0,
{
    let i = generator.random_index(set.len());
    set.char_at(i)
}

/// The set that position `p` of a password is first drawn from: one of each
/// class for the first four positions, any of the 72 after them.
pub open spec fn set_for_position(p: int) -> CharSet {
    if p == 0 {
        CharSet::Upper
    } else if p == 1 {
        CharSet::Lower
    } else if p == 2 {
        CharSet::Digit
    } else if p == 3 {
        CharSet::Special
    } else {
        CharSet::All
    }
}

/// The `n` characters drawn from state `s` before the shuffle: position `p`
/// takes the `p + 1`-th value, modulo the size of its set.
pub open spec fn unshuffled(s: u64, n: nat) -> Seq<char> {
    Seq::new(
        n,
        |p: int|
            set_for_position(p).at(
                (draw(s, (p + 1) as nat) % (set_for_position(p).size() as u64)) as int,
            ),
    )
}

/// The Fisher-Yates shuffle of `v` from position `i` down to 1, with the
/// engine in state `s`: position `i` is swapped with the position that the
/// next value picks in `[0, i]`.
pub open spec fn shuffled(v: Seq<char>, i: nat, s: u64) -> Seq<char>
    decreases i,
{
    if i == 0 {
        v
    } else {
        let next = xorshift(s);
        let j = scramble(next) as int % (i + 1) as int;
        shuffled(v.update(i as int, v[j]).update(j, v[i as int]), (i - 1) as nat, next)
    }
}

/// The password of length `n` that the engine makes from state `s`.
pub open spec fn password_from(s: u64, n: nat) -> Seq<char> {
    shuffled(unshuffled(s, n), (n - 1) as nat, advance(s, n))
}

/// A shuffle keeps the length, keeps a character that satisfies `pred` where
/// there is one, and keeps every character satisfying `pred` where they all do.
pub proof fn lemma_shuffled_keeps(v: Seq<char>, i: nat, s: u64, pred: spec_fn(char) -> bool)
    requires
        i < v.len(),
    ensures
        shuffled(v, i, s).len() == v.len(),
        (exists|k: int| 0 <= k < v.len() && pred(v[k])) ==> (exists|k: int|
            0 <= k < v.len() && pred(#[trigger] shuffled(v, i, s)[k])),
        (forall|k: int| 0 <= k < v.len() ==> pred(v[k])) ==> (forall|k: int|
            0 <= k < v.len() ==> pred(#[trigger] shuffled(v, i, s)[k])),
    decreases i,
{
    if i > 0 {
        let next = xorshift(s);
        let j = scramble(next) as int % (i + 1) as int;
        let w = v.update(i as int, v[j]).update(j, v[i as int]);
        if exists|k: int| 0 <= k < v.len() && pred(v[k]) {
            let k = choose|k: int| 0 <= k < v.len() && pred(v[k]);
            let k2 = if k == i as int {
                j
            } else if k == j {
                i as int
            } else {
                k
            };
            assert(w[k2] == v[k]);
        }
        if forall|k: int| 0 <= k < v.len() ==> pred(v[k]) {
            assert forall|k: int| 0 <= k < w.len() implies pred(w[k]) by {
                if k == j {
                    assert(w[k] == v[i as int]);
                } else if k == i as int {
                    assert(w[k] == v[j]);
                } else {
                    assert(w[k] == v[k]);
                }
            }
        }
        lemma_shuffled_keeps(w, (i - 1) as nat, next, pred);
    } else if exists|k: int| 0 <= k < v.len() && pred(v[k]) {
        let k = choose|k: int| 0 <= k < v.len() && pred(v[k]);
        assert(shuffled(v, i, s)[k] == v[k]);
    }
}

/// Before the shuffle, the first four characters are of the four classes in
/// turn, and all are of the 72.
proof fn lemma_unshuffled_classes(s: u64, n: nat)
    requires
        n >= 4,
    ensures
        unshuffled(s, n).len() == n,
        is_upper(unshuffled(s, n)[0]),
        is_lower(unshuffled(s, n)[1]),
        is_digit(unshuffled(s, n)[2]),
        is_special(unshuffled(s, n)[3]),
        forall|k: int| 0 <= k < n ==> in_charset(#[trigger] unshuffled(s, n)[k]),
{
    let v = unshuffled(s, n);
    assert forall|p: int| 0 <= p < n implies in_charset(#[trigger] v[p]) by {
        let set = set_for_position(p);
        lemma_charset_classes(set, (draw(s, (p + 1) as nat) % (set.size() as u64)) as int);
    }
    lemma_charset_classes(CharSet::Upper, (draw(s, 1) % 26) as int);
    lemma_charset_classes(CharSet::Lower, (draw(s, 2) % 26) as int);
    lemma_charset_classes(CharSet::Digit, (draw(s, 3) % 10) as int);
    lemma_charset_classes(CharSet::Special, (draw(s, 4) % 10) as int);
}

/// Law of the generator: a password of length `n >= 4` has exactly `n`
/// characters, at least one uppercase letter, one lowercase letter, one digit
/// and one symbol, and only characters of the 72.
pub proof fn lemma_password_classes(s: u64, n: nat)
    requires
        n >= 4,
    ensures
        password_from(s, n).len() == n,
        exists|k: int| 0 <= k < n && is_upper(#[trigger] password_from(s, n)[k]),
        exists|k: int| 0 <= k < n && is_lower(#[trigger] password_from(s, n)[k]),
        exists|k: int| 0 <= k < n && is_digit(#[trigger] password_from(s, n)[k]),
        exists|k: int| 0 <= k < n && is_special(#[trigger] password_from(s, n)[k]),
        forall|k: int| 0 <= k < n ==> in_charset(#[trigger] password_from(s, n)[k]),
{
    let v = unshuffled(s, n);
    let t = advance(s, n);
    let m = (n - 1) as nat;
    let w = password_from(s, n);
    lemma_unshuffled_classes(s, n);
    let upper = |c: char| is_upper(c);
    let lower = |c: char| is_lower(c);
    let digit = |c: char| is_digit(c);
    let special = |c: char| is_special(c);
    let any = |c: char| in_charset(c);
    assert(upper(v[0]));
    lemma_shuffled_keeps(v, m, t, upper);
    assert(lower(v[1]));
    lemma_shuffled_keeps(v, m, t, lower);
    assert(digit(v[2]));
    lemma_shuffled_keeps(v, m, t, digit);
    assert(special(v[3]));
    lemma_shuffled_keeps(v, m, t, special);
    assert forall|k: int| 0 <= k < v.len() implies any(v[k]) by {
        assert(in_charset(v[k]));
    }
    lemma_shuffled_keeps(v, m, t, any);
    assert forall|k: int| 0 <= k < n implies in_charset(#[trigger] w[k]) by {
        assert(any(w[k]));
    }
}

proof fn lemma_advance_add(s: u64, a: nat, b: nat)
    ensures
        advance(advance(s, a), b) == advance(s, a + b),
    decreases b,
{
    if b > 0 {
        lemma_advance_add(s, a, (b - 1) as nat);
    }
}

/// Draws the `length` characters of a password before the shuffle.
fn draw_unshuffled(rng: &mut XorShiftStar, length: usize) -> (v: Vec<char>)
    requires
        length >= MIN_LENGTH,
    ensures
        v@ == unshuffled(old(rng).state(), length as nat),
        final(rng).state() == advance(old(rng).state(), length as nat),
        old(rng).state() != 0 ==> final(rng).state() != 0,
{
    let ghost s0 = rng.state();
    let ghost pre = unshuffled(s0, length as nat);
    let mut password: Vec<char> = Vec::with_capacity(length);
    password.push(random_char_from(rng, CharSet::Upper));
    password.push(random_char_from(rng, CharSet::Lower));
    password.push(random_char_from(rng, CharSet::Digit));
    password.push(random_char_from(rng, CharSet::Special));
    proof {
        reveal_with_fuel(advance, 5);
        assert(password@ =~= pre.take(4));
    }
    let mut k: usize = 4;
    while k < length
        invariant
            4 <= k <= length,
            pre == unshuffled(s0, length as nat),
            password@ == pre.take(k as int),
            rng.state() == advance(s0, k as nat),
            s0 != 0 ==> rng.state() != 0,
        decreases length - k,
    {
        let c = random_char_from(rng, CharSet::All);
        password.push(c);
        assert(password@ =~= pre.take(k + 1));
        k = k + 1;
    }
    assert(password@ =~= pre);
    password
}

/// Shuffles `v` from its last position down to 1, each position swapped with
/// one that the engine picks at or below it.
fn shuffle(rng: &mut XorShiftStar, v: &mut Vec<char>)
    requires
        old(v).len() > 0,
    ensures
        final(v)@ == shuffled(old(v)@, (old(v).len() - 1) as nat, old(rng).state()),
        final(rng).state() == advance(old(rng).state(), (old(v).len() - 1) as nat),
        old(rng).state() != 0 ==> final(rng).state() != 0,
{
    let ghost s0 = rng.state();
    let ghost goal = shuffled(v@, (v.len() - 1) as nat, s0);
    let ghost len = v.len();
    let mut i: usize = v.len() - 1;
    while i > 0
        invariant
            i < len,
            v.len() == len,
            shuffled(v@, i as nat, rng.state()) == goal,
            rng.state() == advance(s0, (len - 1 - i) as nat),
            s0 != 0 ==> rng.state() != 0,
        decreases i,
    {
        let j = rng.random_index(i + 1);
        assert(j == scramble(rng.state()) as int % (i + 1) as int);
        let a = v[i];
        let b = v[j];
        v[i] = b;
        v[j] = a;
        i = i - 1;
    }
}

/// The characters of `v`, in order, as a string.
fn string_of_chars(v: &Vec<char>) -> (s: String)
    ensures
        s@ == v@,
{
    let mut out = String::new();
    let mut m: usize = 0;
    while m < v.len()
        invariant
            m <= v.len(),
            out@ == v@.take(m as int),
        decreases v.len() - m,
    {
        push_char(&mut out, v[m]);
        assert(out@ =~= v@.take(m + 1));
        m = m + 1;
    }
    assert(out@ =~= v@);
    out
}

/// A password of `length` characters drawn with `rng`: one uppercase letter,
/// one lowercase letter, one digit and one symbol, then characters of any of
/// the 72, the whole shuffled. `None`, with the engine untouched, for a length
/// under 4, which cannot hold the four classes.
pub fn generate(rng: &mut XorShiftStar, length: usize) -> (r: Option<String>)
    ensures
        length < MIN_LENGTH ==> r is None && final(rng).state() == old(rng).state(),
        length >= MIN_LENGTH ==> (r matches Some(p) && p@ == password_from(
            old(rng).state(),
            length as nat,
        )),
        length >= MIN_LENGTH ==> final(rng).state() == advance(
            old(rng).state(),
            (2 * length - 1) as nat,
        ),
        old(rng).state() != 0 ==> final(rng).state() != 0,
        r matches Some(p) ==> {
            &&& p@.len() == length
            &&& exists|k: int| 0 <= k < length && is_upper(#[trigger] p@[k])
            &&& exists|k: int| 0 <= k < length && is_lower(#[trigger] p@[k])
            &&& exists|k: int| 0 <= k < length && is_digit(#[trigger] p@[k])
            &&& exists|k: int| 0 <= k < length && is_special(#[trigger] p@[k])
            &&& forall|k: int| 0 <= k < length ==> in_charset(#[trigger] p@[k])
        },
{
    if length < MIN_LENGTH {
        return None;
    }
    let ghost s0 = rng.state();
    let mut password = draw_unshuffled(rng, length);
    shuffle(rng, &mut password);
    proof {
        lemma_advance_add(s0, length as nat, (length - 1) as nat);
        lemma_password_classes(s0, length as nat);
    }
    Some(string_of_chars(&password))
}

/// A fresh password of `length` characters, from an engine seeded anew; `None`
/// for a length under 4.
pub fn gen_pass(length: usize) -> (r: Option<String>)
    ensures
        length < MIN_LENGTH <==> r is None,
        r matches Some(p) ==> {
            &&& exists|s: u64| s != 0 && p@ == password_from(s, length as nat)
            &&& p@.len() == length
            &&& exists|k: int| 0 <= k < length && is_upper(#[trigger] p@[k])
            &&& exists|k: int| 0 <= k < length && is_lower(#[trigger] p@[k])
            &&& exists|k: int| 0 <= k < length && is_digit(#[trigger] p@[k])
            &&& exists|k: int| 0 <= k < length && is_special(#[trigger] p@[k])
            &&& forall|k: int| 0 <= k < length ==> in_charset(#[trigger] p@[k])
        },
{
    let mut rng = XorShiftStar::new();
    generate(&mut rng, length)
}

} // verus!
