//! Response snapshots: the durable record of a fully-formed response that the
//! idempotency store replays verbatim on a retried command.

use vstd::prelude::*;

verus! {

/// One response header, stored as a (name, value) pair.
pub struct HeaderPair {
    pub name: String,
    pub value: String,
}

impl View for HeaderPair {
    type V = (Seq<char>, Seq<char>);

    open spec fn view(&self) -> (Seq<char>, Seq<char>) {
        (self.name@, self.value@)
    }
}

/// Mathematical model of a response snapshot.
#[verifier::ext_equal]
pub struct SnapshotV {
    pub status: u16,
    pub headers: Seq<(Seq<char>, Seq<char>)>,
    pub body: Seq<u8>,
}

/// A status code a snapshot may carry: the usual HTTP classes.
pub open spec fn valid_status(status: int) -> bool {
    100 <= status < 600
}

impl SnapshotV {
    pub open spec fn wf(self) -> bool {
        valid_status(self.status as int)
    }
}

/// A fully-formed response: status code, ordered header pairs, raw body bytes.
/// Immutable once stored by the idempotency store.
pub struct ResponseSnapshot {
    pub status: u16,
    pub headers: Vec<HeaderPair>,
    pub body: Vec<u8>,
}

impl View for ResponseSnapshot {
    type V = SnapshotV;

    open spec fn view(&self) -> SnapshotV {
        SnapshotV {
            status: self.status,
            headers: self.headers@.map_values(|h: HeaderPair| h@),
            body: self.body@,
        }
    }
}

impl HeaderPair {
    /// An owned copy with the same name and value.
    pub fn duplicate(&self) -> (r: HeaderPair)
        ensures
            r@ == self@,
    {
        HeaderPair { name: self.name.clone(), value: self.value.clone() }
    }
}

/// An owned copy of a byte vector.
pub fn copy_bytes(v: &Vec<u8>) -> (r: Vec<u8>)
    ensures
        r@ == v@,
{
    let mut r: Vec<u8> = Vec::new();
    let mut i: usize = 0;
    while i < v.len()
        invariant
            i <= v.len(),
            r@ == v@.subrange(0, i as int),
        decreases v.len() - i,
    {
        r.push(v[i]);
        proof {
            assert(v@.subrange(0, i as int).push(v@[i as int]) =~= v@.subrange(0, i + 1 as int));
        }
        i = i + 1;
    }
    proof {
        assert(v@.subrange(0, v@.len() as int) =~= v@);
    }
    r
}

impl ResponseSnapshot {
    /// An owned copy of the snapshot, for replaying a stored response.
    pub fn duplicate(&self) -> (r: ResponseSnapshot)
        ensures
            r@ == self@,
    {
        let mut headers: Vec<HeaderPair> = Vec::new();
        let mut i: usize = 0;
        while i < self.headers.len()
            invariant
                i <= self.headers.len(),
                headers@.len() == i,
                forall|j: int| 0 <= j < i ==> headers@[j]@ == self.headers@[j]@,
            decreases self.headers.len() - i,
        {
            headers.push(self.headers[i].duplicate());
            i = i + 1;
        }
        let r = ResponseSnapshot {
            status: self.status,
            headers,
            body: copy_bytes(&self.body),
        };
        proof {
            assert(r@.headers =~= self@.headers);
            assert(r@ =~= self@);
        }
        r
    }
}

/// Model of a "see other" redirect: status 303 with a single Location header.
pub open spec fn see_other_v(location: Seq<char>) -> SnapshotV {
    SnapshotV {
        status: 303,
        headers: seq![("Location"@, location)],
        body: Seq::empty(),
    }
}

/// A 303 redirect response pointing at `location`.
pub fn see_other(location: &str) -> (r: ResponseSnapshot)
    ensures
        r@ == see_other_v(location@),
        r@.wf(),
{
    let mut headers: Vec<HeaderPair> = Vec::new();
    headers.push(HeaderPair { name: "Location".to_owned(), value: location.to_owned() });
    let r = ResponseSnapshot { status: 303, headers, body: Vec::new() };
    proof {
        assert(r@.headers =~= see_other_v(location@).headers);
        assert(r@ =~= see_other_v(location@));
    }
    r
}

/// Mathematical model of a stored response row.
#[verifier::ext_equal]
pub struct StoredResponseV {
    pub status_code: i16,
    pub headers: Seq<(Seq<char>, Seq<char>)>,
    pub body: Seq<u8>,
}

/// The storable form of a snapshot, as the persisted schema holds it:
/// the status code is kept as a signed 16-bit column.
pub struct StoredResponse {
    pub status_code: i16,
    pub headers: Vec<HeaderPair>,
    pub body: Vec<u8>,
}

impl View for StoredResponse {
    type V = StoredResponseV;

    open spec fn view(&self) -> StoredResponseV {
        StoredResponseV {
            status_code: self.status_code,
            headers: self.headers@.map_values(|h: HeaderPair| h@),
            body: self.body@,
        }
    }
}

/// Why a stored row could not be turned back into a snapshot.
#[derive(Debug)]
pub enum CodecError {
    StatusOutOfRange,
}

pub open spec fn encode_v(s: SnapshotV) -> StoredResponseV {
    StoredResponseV { status_code: s.status as i16, headers: s.headers, body: s.body }
}

pub open spec fn decode_v(r: StoredResponseV) -> Result<SnapshotV, CodecError> {
    if valid_status(r.status_code as int) {
        Ok(SnapshotV { status: r.status_code as u16, headers: r.headers, body: r.body })
    } else {
        Err(CodecError::StatusOutOfRange)
    }
}

/// Convert a snapshot into its storable row.
pub fn encode_response(s: &ResponseSnapshot) -> (r: StoredResponse)
    requires
        s@.wf(),
    ensures
        r@ == encode_v(s@),
{
    let mut headers: Vec<HeaderPair> = Vec::new();
    let mut i: usize = 0;
    while i < s.headers.len()
        invariant
            i <= s.headers.len(),
            headers@.len() == i,
            forall|j: int| 0 <= j < i ==> headers@[j]@ == s.headers@[j]@,
        decreases s.headers.len() - i,
    {
        headers.push(s.headers[i].duplicate());
        i = i + 1;
    }
    let r = StoredResponse {
        status_code: s.status as i16,
        headers,
        body: copy_bytes(&s.body),
    };
    proof {
        assert(r@.headers =~= encode_v(s@).headers);
        assert(r@ =~= encode_v(s@));
    }
    r
}

/// Convert a stored row back into a snapshot, rejecting a row whose status
/// column does not hold a valid status code.
pub fn decode_response(r: &StoredResponse) -> (s: Result<ResponseSnapshot, CodecError>)
    ensures
        match s {
            Ok(snap) => decode_v(r@) == Ok::<SnapshotV, CodecError>(snap@) && snap@.wf(),
            Err(e) => decode_v(r@) == Err::<SnapshotV, CodecError>(e),
        },
{
    if r.status_code < 100 || r.status_code >= 600 {
        return Err(CodecError::StatusOutOfRange);
    }
    let mut headers: Vec<HeaderPair> = Vec::new();
    let mut i: usize = 0;
    while i < r.headers.len()
        invariant
            i <= r.headers.len(),
            headers@.len() == i,
            forall|j: int| 0 <= j < i ==> headers@[j]@ == r.headers@[j]@,
        decreases r.headers.len() - i,
    {
        headers.push(r.headers[i].duplicate());
        i = i + 1;
    }
    let snap = ResponseSnapshot {
        status: r.status_code as u16,
        headers,
        body: copy_bytes(&r.body),
    };
    proof {
        let d = decode_v(r@);
        assert(snap@.headers =~= d->Ok_0.headers);
        assert(snap@ =~= d->Ok_0);
    }
    Ok(snap)
}

/// A stored snapshot survives the trip through its storable row unchanged.
pub proof fn lemma_codec_round_trip(s: SnapshotV)
    requires
        s.wf(),
    ensures
        decode_v(encode_v(s)) == Ok::<SnapshotV, CodecError>(s),
{
    assert(decode_v(encode_v(s))->Ok_0 =~= s);
}

} // verus!
