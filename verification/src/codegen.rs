use vstd::prelude::*;

use rand::Rng;

use crate::store::UrlStore;
use crate::store::contains_code;

verus! {

/// How many candidate codes the generator will try before giving up; a
/// defensive backstop against ultra-rare collisions, not the primary
/// correctness mechanism.
pub const MAX_ATTEMPTS: u32 = 10;

/// How many symbols the code alphabet has: the 26 upper-case letters, the
/// 26 lower-case letters and the 10 digits.
pub const ALPHABET_SIZE: usize = 62;

/// How long a generated short code is unless a caller asks otherwise.
pub const DEFAULT_CODE_LENGTH: usize = 12;

/// The code alphabet, by index: `A`..`Z`, then `a`..`z`, then `0`..`9`.
pub open spec fn code_symbol(i: int) -> char {
    if i < 26 {
        ((65 + i) as u8) as char
    } else if i < 52 {
        ((97 + (i - 26)) as u8) as char
    } else {
        ((48 + (i - 52)) as u8) as char
    }
}

/// Whether a character belongs to the 62-symbol code alphabet.
pub open spec fn is_code_char(c: char) -> bool {
    exists|i: int| 0 <= i < 62 && c == code_symbol(i)
}

/// What a generated code looks like: exactly the requested length, every
/// character drawn from the code alphabet.
pub open spec fn valid_code(s: Seq<char>, len: int) -> bool {
    &&& s.len() == len
    &&& forall|k: int| 0 <= k < s.len() ==> is_code_char(s[k])
}

/// Generation failed: every attempt collided with a live code. Reportable
/// but not retryable within the same request; the caller may resubmit the
/// whole request.
#[derive(Debug, PartialEq, Eq, Structural)]
pub enum GenerationError {
    GenerationExhausted,
}

/// Relies on rand's `Rng::gen_range` over `0..n`: for a non-empty range it
/// returns a uniformly drawn element of it, so the result is below `n`;
/// on an empty range it panics, which the precondition rules out.
#[verifier::external_body]
fn random_index(n: usize) -> (r: usize)
    requires
        n > 0,
    ensures
        r < n,
{
    rand::thread_rng().gen_range(0..n)
}

/// Relies on `String::push`: appends exactly one character at the end.
#[verifier::external_body]
fn push_char(s: &mut String, c: char)
    ensures
        final(s)@ == old(s)@.push(c),
{
    s.push(c);
}

/// The alphabet symbol at an index, as executable code.
fn code_symbol_at(i: usize) -> (c: char)
    requires
        i < 62,
    ensures
        c == code_symbol(i as int),
        is_code_char(c),
{
    let b: u8 = if i < 26 {
        65 + (i as u8)
    } else if i < 52 {
        97 + ((i - 26) as u8)
    } else {
        48 + ((i - 52) as u8)
    };
    proof {
        let gi = i as int;
        assert(is_code_char(code_symbol(gi))) by {
            assert(0 <= gi && gi < 62 && code_symbol(gi) == code_symbol(gi));
        }
    }
    b as char
}

/// Draws `length` independent uniformly-random symbols from the 62-symbol
/// alphanumeric alphabet.
pub fn generate_random_string(length: usize) -> (s: String)
    ensures
        valid_code(s@, length as int),
{
    let mut s = String::new();
    let mut k: usize = 0;
    while k < length
        invariant
            k <= length,
            s@.len() == k,
            forall|j: int| 0 <= j < k ==> is_code_char(s@[j]),
        decreases length - k,
    {
        let idx = random_index(ALPHABET_SIZE);
        let c = code_symbol_at(idx);
        push_char(&mut s, c);
        k += 1;
    }
    s
}

/// Produces a short code that no committed record carries: it repeats up
/// to `MAX_ATTEMPTS` times drawing a random candidate and asking the store
/// whether the code exists, returns the first free candidate, and fails
/// with `GenerationExhausted` when every attempt collided. Read-only
/// against the store. When no live code even has the requested length a
/// collision is impossible, so the first attempt is owed to succeed.
pub fn generate_unique_short_code(store: &UrlStore, length: usize) -> (r: Result<
    String,
    GenerationError,
>)
    requires
        length >= 1,
    ensures
        r matches Ok(code) ==> valid_code(code@, length as int) && !contains_code(
            store@,
            code@,
        ),
        r matches Err(e) ==> e == GenerationError::GenerationExhausted,
        (forall|i: int| 0 <= i < store@.len() ==> store@[i].short_code.len() != length)
            ==> r is Ok,
{
    let mut attempt: u32 = 0;
    while attempt < MAX_ATTEMPTS
        invariant
            attempt > 0 ==> exists|i: int|
                0 <= i < store@.len() && store@[i].short_code.len() == length,
        decreases MAX_ATTEMPTS - attempt,
    {
        let code = generate_random_string(length);
        if !store.exists_by_code(&code) {
            return Ok(code);
        }
        proof {
            let i = choose|i: int|
                0 <= i < store@.len() && store@[i].short_code == code@;
            assert(store@[i].short_code.len() == length);
        }
        attempt += 1;
    }
    Err(GenerationError::GenerationExhausted)
}

/// The same bounded retry loop, run against a stubbed existence check:
/// `taken` answers, one entry per attempt, whether the candidate drawn on
/// that attempt already exists. Succeeds on the first attempt whose answer
/// is `false`, returning the code and the 1-based attempt that produced
/// it; when the first `MAX_ATTEMPTS` answers are all `true`, every attempt
/// collided and generation is exhausted.
pub fn generate_unique_short_code_with_probe(length: usize, taken: &Vec<bool>) -> (r:
    Result<(String, usize), GenerationError>)
    requires
        length >= 1,
        taken@.len() >= MAX_ATTEMPTS,
    ensures
        r matches Ok(p) ==> {
            &&& 1 <= p.1 <= MAX_ATTEMPTS
            &&& !taken@[p.1 as int - 1]
            &&& forall|j: int| 0 <= j < p.1 as int - 1 ==> taken@[j]
            &&& valid_code(p.0@, length as int)
        },
        r is Err ==> forall|i: int| 0 <= i < MAX_ATTEMPTS ==> taken@[i],
        (exists|i: int| 0 <= i < MAX_ATTEMPTS && !taken@[i]) ==> r is Ok,
        r matches Err(e) ==> e == GenerationError::GenerationExhausted,
{
    let budget = MAX_ATTEMPTS as usize;
    let mut attempt: usize = 0;
    while attempt < budget
        invariant
            budget == MAX_ATTEMPTS,
            taken@.len() >= MAX_ATTEMPTS,
            length >= 1,
            attempt <= budget,
            forall|j: int| 0 <= j < attempt ==> taken@[j],
        decreases budget - attempt,
    {
        let code = generate_random_string(length);
        if !taken[attempt] {
            return Ok((code, attempt + 1));
        }
        attempt += 1;
    }
    Err(GenerationError::GenerationExhausted)
}

} // verus!
