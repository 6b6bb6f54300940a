//! The limits a response is read under.
//!
//! The request itself is the caller's; what is decided here is how much of a
//! remote server's answer this process agrees to hold. Without a ceiling the
//! only bound on what a server can make a tray app allocate is the timeout,
//! which on a fast link is hundreds of megabytes.
use vstd::prelude::*;

verus! {

/// Clears both a ten-result iTunes response and a GitHub release object with
/// room to spare.
pub const MAX_RESPONSE_BYTES: u64 = 262_144;

/// Whether a declared `Content-Length` already rules the body out, before a
/// byte of it is read. No declared length rules nothing out: a chunked
/// response declares none, and the cap then holds on the read path.
pub fn declared_too_large(declared: Option<u64>) -> (r: bool)
    ensures
        r == (declared matches Some(n) && n > MAX_RESPONSE_BYTES),
{
    match declared {
        Some(n) => n > MAX_RESPONSE_BYTES,
        None => false,
    }
}

/// A chunk would have taken the body past the ceiling.
#[derive(Debug, Clone, Copy, PartialEq, Eq)]
pub struct TooLarge;

/// A response body read so far, never past `MAX_RESPONSE_BYTES`.
pub struct CappedBody {
    bytes: Vec<u8>,
}

impl View for CappedBody {
    type V = Seq<u8>;

    closed spec fn view(&self) -> Seq<u8> {
        self.bytes@
    }
}

impl CappedBody {
    pub closed spec fn wf(&self) -> bool {
        self.bytes@.len() <= MAX_RESPONSE_BYTES
    }

    pub fn new() -> (b: Self)
        ensures
            b.wf(),
            b@ == Seq::<u8>::empty(),
    {
        CappedBody { bytes: Vec::new() }
    }

    /// Takes one chunk off the stream, or refuses it, leaving the body as it
    /// was, when it would go past the ceiling.
    pub fn append(&mut self, chunk: &[u8]) -> (r: Result<(), TooLarge>)
        requires
            old(self).wf(),
        ensures
            final(self).wf(),
            old(self)@.len() + chunk@.len() > MAX_RESPONSE_BYTES ==> r == Err::<(), TooLarge>(TooLarge)
                && final(self)@ == old(self)@,
            old(self)@.len() + chunk@.len() <= MAX_RESPONSE_BYTES ==> r == Ok::<(), TooLarge>(())
                && final(self)@ == old(self)@ + chunk@,
    {
        if chunk.len() as u64 > MAX_RESPONSE_BYTES - self.bytes.len() as u64 {
            return Err(TooLarge);
        }
        let ghost before = self.bytes@;
        let mut i: usize = 0;
        while i < chunk.len()
            invariant
                i <= chunk@.len(),
                before.len() + chunk@.len() <= MAX_RESPONSE_BYTES,
                self.bytes@ == before + chunk@.subrange(0, i as int),
            decreases chunk@.len() - i,
        {
            self.bytes.push(chunk[i]);
            proof {
                assert(chunk@.subrange(0, i + 1) == chunk@.subrange(0, i as int).push(chunk@[i as int]));
            }
            i = i + 1;
        }
        proof {
            assert(chunk@.subrange(0, chunk@.len() as int) == chunk@);
        }
        Ok(())
    }

    /// The whole body, once the stream has ended.
    pub fn into_bytes(self) -> (v: Vec<u8>)
        requires
            self.wf(),
        ensures
            v@ == self@,
            v@.len() <= MAX_RESPONSE_BYTES,
    {
        self.bytes
    }
}

/// The `HTTP_E_STATUS_*` code a refused request is reported with: the HTTP
/// status in the low bits under facility 0x19, which is how WinRT itself
/// encodes one.
pub open spec fn status_code_of(status: u16) -> u32 {
    (0x8019_0000u32 + status) as u32
}

pub fn status_hresult(status: u16) -> (r: u32)
    ensures
        r == status_code_of(status),
{
    0x8019_0000u32 + status as u32
}

} // verus!
