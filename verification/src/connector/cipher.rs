//! The stream cipher that license messages are sent under (RC4).
//!
//! Enciphering and deciphering are the same: each byte meets one byte of a stream that
//! the key alone determines.
use vstd::prelude::*;

verus! {

/// How many values a byte has, and how many places a state.
pub const PLACES: usize = 256;

/// A state with two of its places exchanged.
pub open spec fn exchanged(state: Seq<u8>, i: int, j: int) -> Seq<u8> {
    state.update(i, state[j]).update(j, state[i])
}

/// The state after `n` places have been scheduled with the key, and the place that the
/// last of them was exchanged with.
pub open spec fn scheduled(key: Seq<u8>, n: nat) -> (Seq<u8>, int)
    decreases n,
{
    if n == 0 {
        (Seq::new(PLACES as nat, |i: int| i as u8), 0)
    } else {
        let (state, before) = scheduled(key, (n - 1) as nat);
        let i = n - 1;
        let j = (before + state[i] + key[i % key.len() as int]) % PLACES as int;
        (exchanged(state, i, j), j)
    }
}

/// The state after `n` bytes of the stream, and the place that was exchanged last.
pub open spec fn stirred(key: Seq<u8>, n: nat) -> (Seq<u8>, int)
    decreases n,
{
    if n == 0 {
        (scheduled(key, PLACES as nat).0, 0)
    } else {
        let (state, before) = stirred(key, (n - 1) as nat);
        let i = n as int % PLACES as int;
        let j = (before + state[i]) % PLACES as int;
        (exchanged(state, i, j), j)
    }
}

/// Byte `n` of the stream.
pub open spec fn stream(key: Seq<u8>, n: nat) -> u8 {
    let (state, j) = stirred(key, n + 1);
    let i = (n + 1) as int % PLACES as int;
    state[(state[i] + state[j]) % PLACES as int]
}

/// A message under a key.
pub open spec fn ciphered(key: Seq<u8>, message: Seq<u8>) -> Seq<u8> {
    Seq::new(message.len(), |n: int| stream(key, n as nat) ^ message[n])
}

/// Exchanges two places of a state.
fn exchange(state: &mut Vec<u8>, i: usize, j: usize)
    requires
        i < old(state)@.len(),
        j < old(state)@.len(),
    ensures
        final(state)@ == exchanged(old(state)@, i as int, j as int),
{
    let taken: u8 = state[i];
    let other: u8 = state[j];
    state.set(i, other);
    state.set(j, taken);
}

/// Schedules every place with the key.
fn schedule(key: &[u8]) -> (state: Vec<u8>)
    requires
        key@.len() > 0,
    ensures
        state@.len() == PLACES,
        state@ == scheduled(key@, PLACES as nat).0,
{
    let mut state: Vec<u8> = Vec::new();
    let mut i: usize = 0;
    while i < PLACES
        invariant
            i <= PLACES,
            state@ =~= Seq::new(i as nat, |k: int| k as u8),
        decreases PLACES - i,
    {
        state.push(i as u8);
        i += 1;
    }
    let mut j: usize = 0;
    let mut n: usize = 0;
    while n < PLACES
        invariant
            n <= PLACES,
            j < PLACES,
            key@.len() > 0,
            state@.len() == PLACES,
            (state@, j as int) == scheduled(key@, n as nat),
        decreases PLACES - n,
    {
        j = (j + state[n] as usize + key[n % key.len()] as usize) % PLACES;
        exchange(&mut state, n, j);
        n += 1;
    }
    state
}

/// A message under a key: one that was sent under it, as it was before, and the other
/// way round.
pub fn cipher(key: &[u8], message: &[u8]) -> (output: Vec<u8>)
    requires
        key@.len() > 0,
    ensures
        output@ == ciphered(key@, message@),
{
    let mut state: Vec<u8> = schedule(key);
    let mut output: Vec<u8> = Vec::new();
    let mut i: usize = 0;
    let mut j: usize = 0;
    let mut n: usize = 0;
    while n < message.len()
        invariant
            n <= message@.len(),
            i == n as int % PLACES as int,
            j < PLACES,
            state@.len() == PLACES,
            (state@, j as int) == stirred(key@, n as nat),
            output@.len() == n,
            forall|k: int|
                0 <= k < n ==> #[trigger] output@[k] == stream(key@, k as nat) ^ message@[k],
        decreases message@.len() - n,
    {
        assert((i + 1) % PLACES as int == (n + 1) % PLACES as int);
        i = (i + 1) % PLACES;
        j = (j + state[i] as usize) % PLACES;
        exchange(&mut state, i, j);
        assert((state@, j as int) == stirred(key@, (n + 1) as nat));
        let at: usize = (state[i] as usize + state[j] as usize) % PLACES;
        output.push(state[at] ^ message[n]);
        assert(output@[n as int] == stream(key@, n as nat) ^ message@[n as int]);
        n += 1;
    }
    assert(output@ =~= ciphered(key@, message@));
    output
}

/// What a message becomes under a key comes back under the same key.
pub proof fn law_cipher_undoes_itself(key: Seq<u8>, message: Seq<u8>)
    ensures
        ciphered(key, ciphered(key, message)) == message,
{
    assert forall|n: int| 0 <= n < message.len() implies ciphered(key, ciphered(key, message))[n]
        == message[n] by {
        let k = stream(key, n as nat);
        let m = message[n];
        assert(k ^ (k ^ m) == m) by (bit_vector);
    }
    assert(ciphered(key, ciphered(key, message)) =~= message);
}

/// A byte under a key depends on the key, its place and itself alone: two messages differ
/// under a key exactly where and as they differ without it, and nothing is added or lost.
pub proof fn law_cipher_adds_a_stream(key: Seq<u8>, message: Seq<u8>, other: Seq<u8>, n: int)
    requires
        0 <= n < message.len(),
        n < other.len(),
    ensures
        ciphered(key, message).len() == message.len(),
        ciphered(key, message)[n] ^ ciphered(key, other)[n] == message[n] ^ other[n],
{
    let k = stream(key, n as nat);
    let a = message[n];
    let b = other[n];
    assert((k ^ a) ^ (k ^ b) == a ^ b) by (bit_vector);
}

} // verus!
