//! The identity resolver. A virtual node's identity is a string: either
//! generated from a process-wide monotonic counter (unique, but with no
//! continuity guarantee across renders) or derived from a caller-supplied key
//! by prefixing a fixed namespace literal that generated identities never
//! produce (the same identity on every render for the same key).

use vstd::prelude::*;

verus! {

/// The decimal digit character for `d`.
pub open spec fn spec_digit(d: nat) -> char {
    if d == 0 {
        '0'
    } else if d == 1 {
        '1'
    } else if d == 2 {
        '2'
    } else if d == 3 {
        '3'
    } else if d == 4 {
        '4'
    } else if d == 5 {
        '5'
    } else if d == 6 {
        '6'
    } else if d == 7 {
        '7'
    } else if d == 8 {
        '8'
    } else {
        '9'
    }
}

/// The decimal representation of `n`, most significant digit first, with no
/// leading zeros (a single `'0'` for zero).
pub open spec fn spec_decimal(n: nat) -> Seq<char>
    decreases n,
{
    if n < 10 {
        seq![spec_digit(n)]
    } else {
        spec_decimal(n / 10).push(spec_digit(n % 10))
    }
}

/// The identity derived from a caller-supplied key: a fixed namespace prefix
/// followed by the key.
pub open spec fn spec_keyed(key: Seq<char>) -> Seq<char> {
    "unique_key_"@ + key
}

/// Whether `c` can appear in a generated identity (a decimal digit).
pub open spec fn is_digit_char(c: char) -> bool {
    48 <= c as int <= 57
}

proof fn lemma_digit_is_digit_char(d: nat)
    requires
        d < 10,
    ensures
        is_digit_char(spec_digit(d)),
{
}

/// A decimal representation is never empty.
pub proof fn lemma_decimal_len_pos(n: nat)
    ensures
        spec_decimal(n).len() >= 1,
    decreases n,
{
    if n >= 10 {
        lemma_decimal_len_pos(n / 10);
    }
}

/// A generated identity starts with a decimal digit.
pub proof fn lemma_decimal_starts_with_digit(n: nat)
    ensures
        is_digit_char(spec_decimal(n)[0]),
    decreases n,
{
    if n < 10 {
        lemma_digit_is_digit_char(n);
    } else {
        lemma_decimal_starts_with_digit(n / 10);
        lemma_decimal_len_pos(n / 10);
    }
}

proof fn lemma_digit_injective(a: nat, b: nat)
    requires
        a < 10,
        b < 10,
        spec_digit(a) == spec_digit(b),
    ensures
        a == b,
{
}

/// Distinct counter values give distinct generated identities: the counter is
/// never reused, so no two generated identities ever collide.
pub proof fn lemma_decimal_injective(a: nat, b: nat)
    requires
        spec_decimal(a) == spec_decimal(b),
    ensures
        a == b,
    decreases a + b,
{
    lemma_decimal_len_pos(a);
    lemma_decimal_len_pos(b);
    if a < 10 && b < 10 {
        assert(spec_decimal(a)[0] == spec_digit(a));
        assert(spec_decimal(b)[0] == spec_digit(b));
        lemma_digit_injective(a, b);
    } else if a < 10 && b >= 10 {
        lemma_decimal_len_pos(b / 10);
        assert(spec_decimal(b).len() >= 2);
    } else if a >= 10 && b < 10 {
        lemma_decimal_len_pos(a / 10);
        assert(spec_decimal(a).len() >= 2);
    } else {
        let sa = spec_decimal(a / 10);
        let sb = spec_decimal(b / 10);
        assert(sa.push(spec_digit(a % 10)).last() == spec_digit(a % 10));
        assert(sb.push(spec_digit(b % 10)).last() == spec_digit(b % 10));
        lemma_digit_injective(a % 10, b % 10);
        assert(sa =~= sa.push(spec_digit(a % 10)).drop_last());
        assert(sb =~= sb.push(spec_digit(b % 10)).drop_last());
        lemma_decimal_injective(a / 10, b / 10);
    }
}

/// The contrapositive of [`lemma_decimal_injective`]: distinct counter values
/// give distinct generated identities.
pub proof fn lemma_decimal_injective_contra(a: nat, b: nat)
    requires
        a != b,
    ensures
        spec_decimal(a) != spec_decimal(b),
{
    if spec_decimal(a) == spec_decimal(b) {
        lemma_decimal_injective(a, b);
    }
}

/// Keyed identities are collision-free: distinct keys give distinct
/// identities.
pub proof fn lemma_keyed_injective(k1: Seq<char>, k2: Seq<char>)
    requires
        spec_keyed(k1) == spec_keyed(k2),
    ensures
        k1 == k2,
{
    let p = "unique_key_"@;
    assert(k1 =~= spec_keyed(k1).subrange(p.len() as int, spec_keyed(k1).len() as int));
    assert(k2 =~= spec_keyed(k2).subrange(p.len() as int, spec_keyed(k2).len() as int));
}

/// The namespace prefix keeps the two identity modes apart: a keyed identity
/// never equals a generated one, whatever the key and the counter value.
pub proof fn lemma_keyed_never_generated(key: Seq<char>, n: nat)
    ensures
        spec_keyed(key) != spec_decimal(n),
{
    reveal_strlit("unique_key_");
    lemma_decimal_starts_with_digit(n);
    assert(spec_keyed(key)[0] == 'u');
}

fn digit_str(d: u64) -> (r: &'static str)
    requires
        d < 10,
    ensures
        r@ == seq![spec_digit(d as nat)],
{
    proof {
        reveal_strlit("0");
        reveal_strlit("1");
        reveal_strlit("2");
        reveal_strlit("3");
        reveal_strlit("4");
        reveal_strlit("5");
        reveal_strlit("6");
        reveal_strlit("7");
        reveal_strlit("8");
        reveal_strlit("9");
    }
    let r: &'static str = if d == 0 {
        "0"
    } else if d == 1 {
        "1"
    } else if d == 2 {
        "2"
    } else if d == 3 {
        "3"
    } else if d == 4 {
        "4"
    } else if d == 5 {
        "5"
    } else if d == 6 {
        "6"
    } else if d == 7 {
        "7"
    } else if d == 8 {
        "8"
    } else {
        "9"
    };
    proof {
        assert(r@ =~= seq![spec_digit(d as nat)]);
    }
    r
}

/// The decimal representation of `n` as a string.
pub fn u64_to_string(n: u64) -> (r: String)
    ensures
        r@ == spec_decimal(n as nat),
    decreases n,
{
    if n < 10 {
        digit_str(n).to_owned()
    } else {
        let prefix = u64_to_string(n / 10);
        let r = prefix.concat(digit_str(n % 10));
        proof {
            assert(r@ =~= spec_decimal((n / 10) as nat).push(spec_digit((n % 10) as nat)));
        }
        r
    }
}

/// The identity for a caller-supplied key: the namespace prefix followed by
/// the key. Deterministic, so a node keyed the same way gets the same
/// identity on every render.
pub fn keyed_identity(key: &str) -> (r: String)
    ensures
        r@ == spec_keyed(key@),
{
    String::from_str("unique_key_").concat(key)
}

/// The generated-identity counter: monotonic, never reused, never recycled,
/// even across removed nodes.
#[derive(Debug)]
pub struct IdGen {
    pub next: u64,
}

impl IdGen {
    /// A fresh counter; the first generated identity is `"1"`.
    pub fn new() -> (g: IdGen)
        ensures
            g.next == 1,
    {
        IdGen { next: 1 }
    }

    /// The next generated identity: the current counter value, stringified;
    /// the counter then moves on, so no later call returns this identity
    /// again.
    pub fn next_generated_identity(&mut self) -> (r: String)
        requires
            old(self).next < u64::MAX,
        ensures
            r@ == spec_decimal(old(self).next as nat),
            final(self).next == old(self).next + 1,
    {
        let r = u64_to_string(self.next);
        self.next = self.next + 1;
        r
    }
}

} // verus!
