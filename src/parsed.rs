use vstd::prelude::*;

use crate::error::ClickHouseClientError;

verus! {

/// What decoding a value from the front of a byte sequence gives.
pub enum Parsed<T> {
    /// The value, and how many bytes it took.
    Done(T, nat),
    /// The bytes end before the value does.
    NeedMore,
    /// The bytes cannot start a value of this kind; the error, and how
    /// many bytes a reader of the stream has taken by the time it knows.
    Fail(ClickHouseClientError, nat),
}

/// Outcomes of decoding a sequence of `known` bytes (`short`) and the same
/// bytes with more after them (`long`): once the bytes at hand decide the
/// outcome, more bytes leave it as it is; and a value whose bytes are all
/// at hand is found without waiting for more.
pub open spec fn settled<T>(short: Parsed<T>, long: Parsed<T>, known: nat) -> bool {
    &&& !(short is NeedMore) ==> long == short
    &&& (long matches Parsed::Done(_, n) && n <= known) ==> short == long
}

/// Dropping `k` bytes from `s + t`, where `s` has at least `k`, is dropping
/// them from `s`.
pub proof fn lemma_skip_append(s: Seq<u8>, t: Seq<u8>, k: int)
    requires
        0 <= k <= s.len(),
    ensures
        (s + t).skip(k) == s.skip(k) + t,
{
    assert((s + t).skip(k) =~= s.skip(k) + t);
}

/// What an executable decoder returns: the value and the position just
/// past it, `None` when the bytes end first, or the error and the position
/// where reading stopped.
pub type ParseResult<T> = Result<Option<(T, usize)>, (ClickHouseClientError, usize)>;

/// `r` is what an executable decoder starting at `pos` reports for the
/// outcome `p`: the value (seen through its view) with the position just
/// past it, `None` for missing bytes, or the error with the position just
/// past the bytes it took.
pub open spec fn reports<T: View>(r: ParseResult<T>, pos: int, p: Parsed<T::V>) -> bool {
    match p {
        Parsed::Done(v, n) => match r {
            Ok(Some((x, q))) => x@ == v && q == pos + n,
            _ => false,
        },
        Parsed::NeedMore => r is Ok && r->Ok_0 is None,
        Parsed::Fail(e, n) => match r {
            Err((x, q)) => x == e && q == pos + n,
            _ => false,
        },
    }
}

/// `r` is what a decoder that consumes its input reports for the outcome
/// `p` on the unread bytes `before`, leaving `after` unread: a value or an
/// error takes the bytes it was decided on; waiting for more takes none.
pub open spec fn consumes<T: View>(r: Result<Option<T>, ClickHouseClientError>, before: Seq<u8>, after: Seq<u8>, p: Parsed<T::V>) -> bool {
    match p {
        Parsed::Done(v, n) => match r {
            Ok(Some(x)) => x@ == v && after == before.skip(n as int),
            _ => false,
        },
        Parsed::NeedMore => r is Ok && r->Ok_0 is None && after == before,
        Parsed::Fail(e, n) => r == Err::<Option<T>, ClickHouseClientError>(e) && after == before.skip(n as int),
    }
}

} // verus!
