//! Frames of the Unix-domain CAN bus.

use crate::id;
use crate::id::Id;
use vstd::prelude::*;
use vstd::slice::slice_subrange;

verus! {

/// Most bytes that a frame carries.
pub const MAX_DLC: usize = 64;

/// A CAN frame transported over the Unix-domain bus.
#[derive(Clone, Copy, Debug, PartialEq, Eq)]
pub struct UnixFrame {
    id: Id,
    data: [u8; 64],
    dlc: u8,
    remote: bool,
}

/// A bus frame with its bytes as a mathematical sequence.
pub struct UnixFrameView {
    /// Identifier.
    pub id: Id,
    /// Remote transmission request.
    pub remote: bool,
    /// Data bytes; of a remote frame, the placeholder bytes that stand for the requested length.
    pub bytes: Seq<u8>,
}

impl View for UnixFrame {
    type V = UnixFrameView;

    closed spec fn view(&self) -> UnixFrameView {
        UnixFrameView {
            id: self.id,
            remote: self.remote,
            bytes: self.data@.take(self.dlc as int),
        }
    }
}

impl UnixFrame {
    #[verifier::type_invariant]
    spec fn inv(self) -> bool {
        &&& self.dlc <= 64
        &&& forall|i: int| self.dlc <= i < 64 ==> #[trigger] self.data@[i] == 0
    }

    /// A data frame, or `None` for more than 64 bytes.
    pub fn new(id: Id, data: &[u8]) -> (r: Option<Self>)
        ensures
            match r {
                Some(frame) => data@.len() <= 64 && frame@ == (UnixFrameView {
                    id,
                    remote: false,
                    bytes: data@,
                }),
                None => data@.len() > 64,
            },
    {
        Self::from_parts(id, data, false)
    }

    /// A remote frame that requests `dlc` bytes, or `None` for more than 64.
    pub fn new_remote(id: Id, dlc: usize) -> (r: Option<Self>)
        ensures
            match r {
                Some(frame) => dlc <= 64 && frame@ == (UnixFrameView {
                    id,
                    remote: true,
                    bytes: Seq::new(dlc as nat, |i: int| 0u8),
                }),
                None => dlc > 64,
            },
    {
        if dlc > MAX_DLC {
            return None;
        }
        let r = UnixFrame { id, data: [0u8;64], dlc: dlc as u8, remote: true };
        assert(r@.bytes =~= Seq::new(dlc as nat, |i: int| 0u8));
        Some(r)
    }

    /// A frame with these bytes, or `None` for more than 64.
    pub fn from_parts(id: Id, bytes: &[u8], remote: bool) -> (r: Option<Self>)
        ensures
            match r {
                Some(frame) => bytes@.len() <= 64 && frame@ == (UnixFrameView {
                    id,
                    remote,
                    bytes: bytes@,
                }),
                None => bytes@.len() > 64,
            },
    {
        let n: usize = bytes.len();
        if n > MAX_DLC {
            return None;
        }
        let mut data: [u8; 64] = [0u8;64];
        let mut i: usize = 0;
        while i < n
            invariant
                i <= n <= 64,
                n == bytes@.len(),
                forall|j: int| 0 <= j < i ==> #[trigger] data@[j] == bytes@[j],
                forall|j: int| i <= j < 64 ==> #[trigger] data@[j] == 0,
            decreases n - i,
        {
            data[i] = bytes[i];
            i += 1;
        }
        let r = UnixFrame { id, data, dlc: n as u8, remote };
        assert(r@.bytes =~= bytes@);
        Some(r)
    }

    /// The identifier.
    pub fn id(&self) -> (r: Id)
        ensures
            r == self@.id,
    {
        self.id
    }

    /// Whether this is a remote frame.
    pub fn is_remote(&self) -> (r: bool)
        ensures
            r == self@.remote,
    {
        self.remote
    }

    /// Whether the identifier has 29 bits.
    pub fn is_extended(&self) -> (r: bool)
        ensures
            r == self@.id.extended(),
    {
        match self.id {
            Id::Extended(_) => true,
            Id::Standard(_) => false,
        }
    }

    /// Number of data bytes carried or requested.
    pub fn dlc(&self) -> (r: usize)
        ensures
            r == self@.bytes.len(),
            r <= 64,
    {
        proof {
            use_type_invariant(self);
        }
        self.dlc as usize
    }

    /// Number of data bytes carried or requested.
    pub fn dlc_u8(&self) -> (r: u8)
        ensures
            r == self@.bytes.len(),
            r <= 64,
    {
        proof {
            use_type_invariant(self);
        }
        self.dlc
    }

    /// Data bytes and, of a remote frame, placeholders.
    pub fn data_bytes(&self) -> (r: &[u8])
        ensures
            r@ == self@.bytes,
    {
        proof {
            use_type_invariant(self);
        }
        slice_subrange(self.data.as_slice(), 0, self.dlc as usize)
    }

    /// Data bytes; a remote frame has none.
    pub fn data(&self) -> (r: &[u8])
        ensures
            r@ == (if self@.remote {
                Seq::<u8>::empty()
            } else {
                self@.bytes
            }),
    {
        proof {
            use_type_invariant(self);
        }
        if self.remote {
            slice_subrange(self.data.as_slice(), 0, 0)
        } else {
            slice_subrange(self.data.as_slice(), 0, self.dlc as usize)
        }
    }
}

/// A frame holds up to 64 bytes and no more. A data frame gives out the bytes that it was made with;
/// a remote frame asks for their number and gives out none.
pub proof fn frames_hold_up_to_64_bytes(
    id: Id,
    bytes: &[u8],
    remote: bool,
    made: Option<UnixFrame>,
    out: &[u8],
    dlc: usize,
)
    requires
        call_ensures(UnixFrame::from_parts, (id, bytes, remote), made),
        made matches Some(frame) ==> call_ensures(UnixFrame::data, (&frame,), out) && call_ensures(
            UnixFrame::dlc,
            (&frame,),
            dlc,
        ),
    ensures
        made is Some <==> bytes@.len() <= 64,
        made matches Some(frame) ==> {
            &&& frame@.id == id && frame@.remote == remote && frame@.bytes == bytes@
            &&& dlc == bytes@.len()
            &&& remote ==> out@.len() == 0
            &&& !remote ==> out@ == bytes@
        },
{
}

} // verus!
