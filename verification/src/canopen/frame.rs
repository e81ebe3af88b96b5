//! The portable CAN frame the CANopen layer speaks: an 11-bit standard
//! identifier and up to 8 data bytes.

use vstd::prelude::*;

verus! {

/// A standard-ID CAN data frame. `data[..len]` is the payload; `len <= 8`
/// for every frame built by [`Frame::new`].
#[derive(Clone, Copy, Debug)]
pub struct Frame {
    pub id: u16,
    pub data: [u8; 8],
    pub len: u8,
}

impl Frame {
    /// The payload length is a valid CAN data length.
    pub open spec fn wf(&self) -> bool {
        self.len <= 8
    }

    /// The payload bytes.
    pub open spec fn spec_payload(&self) -> Seq<u8> {
        self.data@.take(self.len as int)
    }

    /// A frame with identifier `id` carrying `data`, or `None` if `data` is
    /// longer than 8 bytes. Unused data bytes are zero.
    pub fn new(id: u16, data: &[u8]) -> (r: Option<Frame>)
        ensures
            r is Some <==> data@.len() <= 8,
            r matches Some(f) ==> {
                &&& f.wf()
                &&& f.id == id
                &&& f.len == data@.len()
                &&& f.spec_payload() == data@
                &&& forall|i: int| data@.len() <= i < 8 ==> f.data@[i] == 0
            },
    {
        if data.len() > 8 {
            return None;
        }
        let mut bytes = [0u8; 8];
        let n = data.len();
        let mut i: usize = 0;
        while i < n
            invariant
                n == data@.len(),
                n <= 8,
                i <= n,
                forall|j: int| 0 <= j < i ==> bytes@[j] == data@[j],
                forall|j: int| n <= j < 8 ==> bytes@[j] == 0,
            decreases n - i,
        {
            bytes[i] = data[i];
            i += 1;
        }
        let f = Frame { id, data: bytes, len: n as u8 };
        assert(f.spec_payload() =~= data@);
        Some(f)
    }

    /// The payload bytes.
    pub fn payload(&self) -> (r: &[u8])
        requires
            self.wf(),
        ensures
            r@ == self.spec_payload(),
    {
        let s = self.data.as_slice();
        &s[0..self.len as usize]
    }
}

} // verus!
