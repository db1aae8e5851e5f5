use vstd::prelude::*;
use crate::error::{BoundaryError, Error};
use crate::rows::{cell, row_fits};
use crate::statement::Select;
use crate::value::Value;

verus! {

/// The position of the first terminator byte in `s`.
pub open spec fn first_nul(s: Seq<u8>) -> Option<int>
    decreases s.len(),
{
    if s.len() == 0 {
        None
    } else {
        match first_nul(s.drop_last()) {
            Some(i) => Some(i),
            None => if s.last() == 0 {
                Some(s.len() - 1)
            } else {
                None
            },
        }
    }
}

/// The buffer that carries `payload`: its bytes, then one terminator.
pub open spec fn framed(payload: Seq<u8>) -> Seq<u8> {
    payload.push(0)
}

/// What a receiver reads from a buffer: the bytes before the first
/// terminator.
pub open spec fn unframed(buf: Option<Seq<u8>>) -> Result<Seq<u8>, BoundaryError> {
    match buf {
        None => Err(BoundaryError::NullBuffer),
        Some(b) => match first_nul(b) {
            None => Err(BoundaryError::MissingTerminator),
            Some(i) => Ok(b.subrange(0, i)),
        },
    }
}

proof fn lemma_first_nul_prefix(s: Seq<u8>, i: int)
    requires
        0 <= i <= s.len(),
        first_nul(s.subrange(0, i)) is None,
        forall|k: int| i <= k < s.len() ==> s[k] != 0,
    ensures
        first_nul(s) is None,
    decreases s.len() - i,
{
    if i < s.len() {
        assert(s.subrange(0, i + 1).drop_last() =~= s.subrange(0, i));
        lemma_first_nul_prefix(s, i + 1);
    } else {
        assert(s.subrange(0, i) =~= s);
    }
}

proof fn lemma_no_nul(s: Seq<u8>)
    requires
        forall|k: int| 0 <= k < s.len() ==> s[k] != 0,
    ensures
        first_nul(s) is None,
{
    assert(s.subrange(0, 0) =~= Seq::<u8>::empty());
    lemma_first_nul_prefix(s, 0);
}

/// A payload without terminator bytes comes back whole from its buffer.
pub proof fn frame_round_trip(payload: Seq<u8>)
    requires
        forall|k: int| 0 <= k < payload.len() ==> payload[k] != 0,
    ensures
        unframed(Some(framed(payload))) == Ok::<Seq<u8>, BoundaryError>(payload),
{
    lemma_no_nul(payload);
    assert(framed(payload).drop_last() =~= payload);
    assert(framed(payload).subrange(0, payload.len() as int) =~= payload);
}

/// The buffer for `payload`: refused when the payload itself holds a
/// terminator byte, which would cut it short.
pub fn frame(payload: Vec<u8>) -> (r: Result<Vec<u8>, BoundaryError>)
    ensures
        match first_nul(payload@) {
            Some(_) => r == Err::<Vec<u8>, BoundaryError>(BoundaryError::EmbeddedTerminator),
            None => r matches Ok(b) && b@ == framed(payload@),
        },
{
    let n = payload.len();
    let mut i: usize = 0;
    while i < n
        invariant
            n == payload@.len(),
            i <= n,
            first_nul(payload@.subrange(0, i as int)) is None,
        decreases n - i,
    {
        proof {
            assert(payload@.subrange(0, i as int + 1).drop_last() =~= payload@.subrange(0, i as int));
        }
        if payload[i] == 0 {
            proof {
                lemma_first_nul_extends(payload@, i as int + 1);
            }
            return Err(BoundaryError::EmbeddedTerminator);
        }
        i = i + 1;
    }
    assert(payload@.subrange(0, n as int) =~= payload@);
    let mut b = payload;
    b.push(0u8);
    Ok(b)
}

proof fn lemma_first_nul_extends(s: Seq<u8>, i: int)
    requires
        0 < i <= s.len(),
        first_nul(s.subrange(0, i)) is Some,
    ensures
        first_nul(s) == first_nul(s.subrange(0, i)),
    decreases s.len() - i,
{
    if i < s.len() {
        assert(s.subrange(0, i + 1).drop_last() =~= s.subrange(0, i));
        lemma_first_nul_extends(s, i + 1);
    } else {
        assert(s.subrange(0, i) =~= s);
    }
}

/// The payload of a received buffer (`None` for a null address): the bytes
/// before its terminator.
pub fn unframe(buf: Option<&[u8]>) -> (r: Result<Vec<u8>, BoundaryError>)
    ensures
        match buf {
            None => r == Err::<Vec<u8>, BoundaryError>(BoundaryError::NullBuffer),
            Some(b) => match unframed(Some(b@)) {
                Ok(p) => r matches Ok(v) && v@ == p,
                Err(e) => r == Err::<Vec<u8>, BoundaryError>(e),
            },
        },
{
    let b = match buf {
        None => return Err(BoundaryError::NullBuffer),
        Some(b) => b,
    };
    let n = b.len();
    let mut out: Vec<u8> = Vec::new();
    let mut i: usize = 0;
    while i < n
        invariant
            buf == Some(b),
            n == b@.len(),
            i <= n,
            out@ == b@.subrange(0, i as int),
            first_nul(b@.subrange(0, i as int)) is None,
        decreases n - i,
    {
        proof {
            assert(b@.subrange(0, i as int + 1).drop_last() =~= b@.subrange(0, i as int));
        }
        if b[i] == 0 {
            proof {
                lemma_first_nul_extends(b@, i as int + 1);
            }
            return Ok(out);
        }
        out.push(b[i]);
        assert(out@ =~= b@.subrange(0, i as int + 1));
        i = i + 1;
    }
    assert(b@.subrange(0, n as int) =~= b@);
    Err(BoundaryError::MissingTerminator)
}

/// The result of a mutation from the host's reply: the affected-row count
/// or new row id, or the host's failure carried verbatim.
pub fn exec_outcome(reply: Result<i64, String>) -> (r: Result<i64, Error>)
    ensures
        match reply {
            Ok(n) => r == Ok::<i64, Error>(n),
            Err(s) => r == Err::<i64, Error>(Error::Execution(s)),
        },
{
    match reply {
        Ok(n) => Ok(n),
        Err(s) => Err(Error::Execution(s)),
    }
}

/// The result of a query from the host's reply: the rows read in the order
/// of the query's columns, as `Select::rows` reads them, or the host's
/// failure carried verbatim.
pub fn query_outcome(select: &Select, reply: Result<Vec<Vec<(String, Value)>>, String>) -> (r: Result<
    Vec<Vec<Value>>,
    Error,
>)
    ensures
        reply matches Err(s) ==> r == Err::<Vec<Vec<Value>>, Error>(Error::Execution(s)),
        reply matches Ok(rows) ==> {
            &&& (r is Ok <==> forall|i: int|
                0 <= i < rows@.len() ==> row_fits(select.cols@, select.table.columns.cols@, (#[trigger] rows@[i])@))
            &&& (r matches Ok(out) ==> out@.len() == rows@.len() && forall|i: int, j: int|
                0 <= i < rows@.len() && 0 <= j < select.cols@.len() ==> (#[trigger] out@[i]@[j]) == cell(
                    rows@[i]@,
                    select.cols@[j]@,
                ) && out@[i]@.len() == select.cols@.len())
            &&& (r matches Err(e) ==> e is Deserialization)
        },
{
    match reply {
        Ok(rows) => select.rows(&rows),
        Err(s) => Err(Error::Execution(s)),
    }
}

} // verus!
