//! The run's configuration from its command line, and the concurrency
//! limiter built from it.
use vstd::prelude::*;
use vstd::string::StrSliceExecFns;
use tokio::sync::Semaphore;

verus! {

/// How many file transfers may do I/O at once when the command line does not
/// say.
pub const DEFAULT_CONCURRENCY: usize = 4;

/// The largest permit count that tokio's `Semaphore` accepts.
pub const MAX_CONCURRENCY: usize = usize::MAX >> 3;

/// A validated command line.
#[derive(Debug, PartialEq, Eq)]
pub struct Config {
    pub source: String,
    pub destination: String,
    pub concurrency: usize,
}

/// Why a command line was refused.
#[derive(Debug, Clone, Copy, PartialEq, Eq, Structural)]
pub enum SyntaxError {
    /// Not a source and a destination, with an optional limit.
    WrongArgumentCount,
    /// The concurrency limit is not a positive integer that a limiter can
    /// hold.
    InvalidLimit,
}

pub open spec fn is_digit(c: char) -> bool {
    '0' <= c <= '9'
}

pub open spec fn digit_value(c: char) -> int {
    (c as int) - ('0' as int)
}

/// The text is a non-empty run of decimal digits.
pub open spec fn is_decimal(s: Seq<char>) -> bool {
    s.len() > 0 && forall|i: int| 0 <= i < s.len() ==> is_digit(s[i])
}

/// The number that a run of decimal digits writes.
pub open spec fn decimal_value(s: Seq<char>) -> int
    decreases s.len(),
{
    if s.len() == 0 {
        0
    } else {
        decimal_value(s.drop_last()) * 10 + digit_value(s.last())
    }
}

/// The concurrency limits that are accepted.
pub open spec fn is_valid_limit(n: int) -> bool {
    1 <= n <= MAX_CONCURRENCY
}

proof fn lemma_shift_is_div(x: usize)
    by (bit_vector)
    ensures
        x >> 3 == x / 8,
{
}

proof fn lemma_decimal_prefix_le(s: Seq<char>, i: int)
    requires
        0 <= i <= s.len(),
        forall|k: int| 0 <= k < s.len() ==> is_digit(s[k]),
    ensures
        0 <= decimal_value(s.take(i)) <= decimal_value(s),
    decreases s.len(),
{
    if i == s.len() {
        assert(s.take(i) =~= s);
        if s.len() > 0 {
            lemma_decimal_prefix_le(s.drop_last(), i - 1);
        }
    } else {
        let p = s.drop_last();
        lemma_decimal_prefix_le(p, i);
        assert(p.take(i) =~= s.take(i));
        lemma_decimal_prefix_le(p, p.len() as int);
        assert(p.take(p.len() as int) =~= p);
    }
}

/// Reads a concurrency limit: a non-empty run of decimal digits that writes a
/// number from 1 to `MAX_CONCURRENCY`.
pub fn parse_limit(text: &str) -> (r: Option<usize>)
    ensures
        r is Some <==> is_decimal(text@) && is_valid_limit(decimal_value(text@)),
        r matches Some(n) ==> n == decimal_value(text@),
{
    let len = text.unicode_len();
    if len == 0 {
        return None;
    }
    assert(MAX_CONCURRENCY == usize::MAX >> 3);
    proof {
        lemma_shift_is_div(usize::MAX);
    }
    let mut value: usize = 0;
    let mut i: usize = 0;
    while i < len
        invariant
            len == text@.len(),
            i <= len,
            forall|k: int| 0 <= k < i ==> is_digit(text@[k]),
            value == decimal_value(text@.take(i as int)),
            value <= MAX_CONCURRENCY,
            MAX_CONCURRENCY <= usize::MAX / 8,
        decreases len - i,
    {
        let c = text.get_char(i);
        if !('0' <= c && c <= '9') {
            assert(!is_decimal(text@));
            return None;
        }
        let d = (c as u32 - '0' as u32) as usize;
        assert(text@.take(i + 1).drop_last() =~= text@.take(i as int));
        assert(decimal_value(text@.take(i + 1)) == value * 10 + d);
        if value > MAX_CONCURRENCY / 10 {
            proof {
                if is_decimal(text@) {
                    lemma_decimal_prefix_le(text@, i + 1);
                }
            }
            return None;
        }
        value = value * 10 + d;
        if value > MAX_CONCURRENCY {
            proof {
                if is_decimal(text@) {
                    lemma_decimal_prefix_le(text@, i + 1);
                }
            }
            return None;
        }
        i = i + 1;
    }
    assert(text@.take(len as int) =~= text@);
    if value == 0 {
        return None;
    }
    Some(value)
}

/// Reads the command line: the program's name, a source, a destination and
/// an optional concurrency limit, which defaults to `DEFAULT_CONCURRENCY`.
pub fn parse_args(args: &Vec<String>) -> (r: Result<Config, SyntaxError>)
    ensures
        args@.len() != 3 && args@.len() != 4 ==> r == Err::<Config, SyntaxError>(
            SyntaxError::WrongArgumentCount,
        ),
        args@.len() == 4 && !(is_decimal(args@[3]@) && is_valid_limit(decimal_value(args@[3]@)))
            ==> r == Err::<Config, SyntaxError>(SyntaxError::InvalidLimit),
        args@.len() == 3 ==> (r matches Ok(c) && c.source == args@[1] && c.destination == args@[2]
            && c.concurrency == DEFAULT_CONCURRENCY),
        args@.len() == 4 && is_decimal(args@[3]@) && is_valid_limit(decimal_value(args@[3]@))
            ==> (r matches Ok(c) && c.source == args@[1] && c.destination == args@[2]
            && c.concurrency == decimal_value(args@[3]@)),
{
    if args.len() != 3 && args.len() != 4 {
        return Err(SyntaxError::WrongArgumentCount);
    }
    let concurrency = if args.len() == 4 {
        match parse_limit(args[3].as_str()) {
            Some(n) => n,
            None => return Err(SyntaxError::InvalidLimit),
        }
    } else {
        DEFAULT_CONCURRENCY
    };
    Ok(Config { source: args[1].clone(), destination: args[2].clone(), concurrency })
}

/// tokio's counting semaphore, carried as an opaque value.
#[verifier::external_type_specification]
#[verifier::external_body]
pub struct ExSemaphore(Semaphore);

/// The number of permits that a semaphore was made with. It is fixed for the
/// value's life; the permits free at any moment are not this.
pub uninterp spec fn permits_made_with(s: Semaphore) -> nat;

/// Relies on tokio's `Semaphore::new`, which makes a pool of `permits`
/// permits and panics above `Semaphore::MAX_PERMITS`, that is
/// `usize::MAX >> 3`.
#[verifier::external_body]
fn new_semaphore(permits: usize) -> (r: Semaphore)
    requires
        permits <= MAX_CONCURRENCY,
    ensures
        permits_made_with(r) == permits,
{
    Semaphore::new(permits)
}

/// Builds the concurrency limiter of a run: a pool of `capacity` permits,
/// one held by each file transfer while it does I/O. A capacity of zero, or
/// one above `MAX_CONCURRENCY`, is refused.
pub fn permit_pool(capacity: usize) -> (r: Result<Semaphore, SyntaxError>)
    ensures
        r is Ok <==> is_valid_limit(capacity as int),
        r matches Ok(s) ==> permits_made_with(s) == capacity,
        r matches Err(e) ==> e == SyntaxError::InvalidLimit,
{
    if capacity == 0 || capacity > MAX_CONCURRENCY {
        return Err(SyntaxError::InvalidLimit);
    }
    Ok(new_semaphore(capacity))
}

} // verus!
